//! An ordered map from names to texts, as `fields.json` holds one.
use crate::text;
use vstd::prelude::*;

verus! {

// ---------------------------------------------------------------------------
// The order of texts
// ---------------------------------------------------------------------------
/// Whether `a` comes before `b` in the order of their code points, which is
/// also the order of their UTF-8 bytes.
pub open spec fn text_before(a: Seq<char>, b: Seq<char>) -> bool
    decreases a.len(),
{
    if b.len() == 0 {
        false
    } else if a.len() == 0 {
        true
    } else if a[0] != b[0] {
        a[0] < b[0]
    } else {
        text_before(a.drop_first(), b.drop_first())
    }
}

proof fn lemma_not_before_itself(a: Seq<char>)
    ensures
        !text_before(a, a),
    decreases a.len(),
{
    if a.len() > 0 {
        lemma_not_before_itself(a.drop_first());
    }
}

proof fn lemma_before_transitive(a: Seq<char>, b: Seq<char>, c: Seq<char>)
    requires
        text_before(a, b),
        text_before(b, c),
    ensures
        text_before(a, c),
    decreases a.len(),
{
    if a.len() > 0 && a[0] == b[0] && b[0] == c[0] {
        lemma_before_transitive(a.drop_first(), b.drop_first(), c.drop_first());
    }
}

proof fn lemma_before_total(a: Seq<char>, b: Seq<char>)
    ensures
        a == b || text_before(a, b) || text_before(b, a),
    decreases a.len(),
{
    if a.len() == 0 || b.len() == 0 {
        if a.len() == b.len() {
            assert(a =~= b);
        }
    } else if a[0] == b[0] {
        lemma_before_total(a.drop_first(), b.drop_first());
        if a.drop_first() == b.drop_first() {
            assert(a =~= seq![a[0]] + a.drop_first());
            assert(b =~= seq![b[0]] + b.drop_first());
        }
    }
}

/// Whether `a` comes before `b`.
pub fn comes_before(a: &str, b: &str) -> (r: bool)
    ensures
        r == text_before(a@, b@),
{
    let v = text::chars_of(a);
    let w = text::chars_of(b);
    let mut i: usize = 0;
    assert(v@.skip(0) =~= a@);
    assert(w@.skip(0) =~= b@);
    while i < v.len() && i < w.len() && v[i] == w[i]
        invariant
            i <= v@.len(),
            i <= w@.len(),
            text_before(v@.skip(i as int), w@.skip(i as int)) == text_before(a@, b@),
        decreases v@.len() - i,
    {
        assert(v@.skip(i as int).drop_first() =~= v@.skip(i + 1));
        assert(w@.skip(i as int).drop_first() =~= w@.skip(i + 1));
        i += 1;
    }
    if i == w.len() {
        false
    } else if i == v.len() {
        true
    } else {
        v[i] < w[i]
    }
}

// ---------------------------------------------------------------------------
// Pairs
// ---------------------------------------------------------------------------
/// A name and its value.
pub type Pair = (Seq<char>, Seq<char>);

/// Whether the names of `p` come in strictly ascending order.
pub open spec fn ascending(p: Seq<Pair>) -> bool {
    forall|i: int, j: int|
        0 <= i < j < p.len() ==> text_before((#[trigger] p[i]).0, (#[trigger] p[j]).0)
}

/// The map that the pairs of `p` stand for, with names that differ.
pub open spec fn pairs_map(p: Seq<Pair>) -> Map<Seq<char>, Seq<char>> {
    Map::new(
        |k: Seq<char>| exists|i: int| 0 <= i < p.len() && (#[trigger] p[i]).0 == k,
        |k: Seq<char>| p[place_of(p, k)].1,
    )
}

/// A place of `p` that has the name `k`, if there is one.
pub open spec fn place_of(p: Seq<Pair>, k: Seq<char>) -> int {
    choose|i: int| 0 <= i < p.len() && (#[trigger] p[i]).0 == k
}

/// A vector of string pairs, as texts.
pub open spec fn pair_texts(s: Seq<(String, String)>) -> Seq<Pair> {
    s.map_values(|e: (String, String)| (e.0@, e.1@))
}

proof fn lemma_names_differ(p: Seq<Pair>, i: int, j: int)
    requires
        ascending(p),
        0 <= i < p.len(),
        0 <= j < p.len(),
        p[i].0 == p[j].0,
    ensures
        i == j,
{
    lemma_not_before_itself(p[i].0);
    if i < j {
        assert(text_before(p[i].0, p[j].0));
    } else if j < i {
        assert(text_before(p[j].0, p[i].0));
    }
}

/// A pair has another name than each pair before it.
pub proof fn lemma_earlier_name_differs(p: Seq<Pair>, i: int, j: int)
    requires
        ascending(p),
        0 <= i < j < p.len(),
    ensures
        p[i].0 != p[j].0,
{
    if p[i].0 == p[j].0 {
        lemma_names_differ(p, i, j);
    }
}

/// Ascending pairs ascend without the last one, too.
pub proof fn lemma_ascending_drop_last(p: Seq<Pair>)
    requires
        ascending(p),
        p.len() > 0,
    ensures
        ascending(p.drop_last()),
{
    let q = p.drop_last();
    assert forall|i: int, j: int| 0 <= i < j < q.len() implies text_before(
        (#[trigger] q[i]).0,
        (#[trigger] q[j]).0,
    ) by {
        assert(text_before(p[i].0, p[j].0));
    }
}

/// Each pair is in the map.
pub proof fn lemma_pair_in_map(p: Seq<Pair>, i: int)
    requires
        ascending(p),
        0 <= i < p.len(),
    ensures
        pairs_map(p).contains_key(p[i].0),
        pairs_map(p)[p[i].0] == p[i].1,
{
    let k = p[i].0;
    lemma_names_differ(p, place_of(p, k), i);
}

/// Ascending pairs are determined by the map they stand for.
pub proof fn pairs_follow_from_map(p: Seq<Pair>, q: Seq<Pair>)
    requires
        ascending(p),
        ascending(q),
        pairs_map(p) == pairs_map(q),
    ensures
        p == q,
    decreases p.len(),
{
    if p.len() == 0 {
        if q.len() > 0 {
            lemma_pair_in_map(q, 0);
        }
        assert(p =~= q);
    } else if q.len() == 0 {
        lemma_pair_in_map(p, 0);
    } else {
        let (a, b) = (p.last(), q.last());
        let (m, n) = (p.len() - 1, q.len() - 1);
        lemma_pair_in_map(p, m);
        lemma_pair_in_map(q, n);
        let i = choose|i: int| 0 <= i < q.len() && (#[trigger] q[i]).0 == a.0;
        let j = choose|j: int| 0 <= j < p.len() && (#[trigger] p[j]).0 == b.0;
        if i < n {
            // then `a` comes before `b`, while `b` is no later than `a`
            assert(text_before(q[i].0, q[n].0));
            if j < m {
                assert(text_before(p[j].0, p[m].0));
                lemma_before_transitive(a.0, b.0, a.0);
            }
            lemma_not_before_itself(a.0);
        }
        assert(a.0 == b.0);
        lemma_pair_in_map(p, m);
        lemma_pair_in_map(q, n);
        assert(a == b);
        let (s, t) = (p.drop_last(), q.drop_last());
        assert forall|k: Seq<char>| pairs_map(s).contains_key(k) <==> pairs_map(p).contains_key(k)
            && k != a.0 by {
            lemma_dropped_map(p, k);
        }
        assert forall|k: Seq<char>| pairs_map(t).contains_key(k) <==> pairs_map(q).contains_key(k)
            && k != a.0 by {
            lemma_dropped_map(q, k);
        }
        assert forall|k: Seq<char>| pairs_map(s).contains_key(k) implies pairs_map(s)[k]
            == pairs_map(t)[k] by {
            lemma_dropped_map(p, k);
            lemma_dropped_map(q, k);
            assert(pairs_map(t).contains_key(k));
        }
        assert(pairs_map(s) =~= pairs_map(t));
        pairs_follow_from_map(s, t);
        assert(p =~= s.push(a));
        assert(q =~= t.push(a));
    }
}

proof fn lemma_dropped_map(p: Seq<Pair>, k: Seq<char>)
    requires
        ascending(p),
        p.len() > 0,
    ensures
        pairs_map(p.drop_last()).contains_key(k) <==> pairs_map(p).contains_key(k) && k
            != p.last().0,
        pairs_map(p.drop_last()).contains_key(k) ==> pairs_map(p.drop_last())[k]
            == pairs_map(p)[k],
{
    let s = p.drop_last();
    if pairs_map(s).contains_key(k) {
        let i = choose|i: int| 0 <= i < s.len() && (#[trigger] s[i]).0 == k;
        assert(s[i] == p[i]);
        lemma_pair_in_map(p, i);
        lemma_pair_in_map(s, i);
        if k == p.last().0 {
            lemma_names_differ(p, i, p.len() - 1);
        }
    }
    if pairs_map(p).contains_key(k) && k != p.last().0 {
        let i = choose|i: int| 0 <= i < p.len() && (#[trigger] p[i]).0 == k;
        assert(s[i] == p[i]);
    }
}

/// The pairs of a map, in the order of their names.
pub open spec fn sorted_pairs(m: Map<Seq<char>, Seq<char>>) -> Seq<Pair> {
    choose|p: Seq<Pair>| ascending(p) && #[trigger] pairs_map(p) == m
}

/// The names of a map, in their order.
pub open spec fn sorted_names(m: Map<Seq<char>, Seq<char>>) -> Seq<Seq<char>> {
    sorted_pairs(m).map_values(|e: Pair| e.0)
}

/// Ascending pairs are the sorted pairs of the map they stand for.
pub proof fn lemma_sorted_pairs(p: Seq<Pair>)
    requires
        ascending(p),
    ensures
        sorted_pairs(pairs_map(p)) == p,
{
    pairs_follow_from_map(sorted_pairs(pairs_map(p)), p);
}

/// The last pair adds its name and value to the map of the others.
pub proof fn lemma_pairs_map_last(p: Seq<Pair>)
    requires
        ascending(p),
        p.len() > 0,
    ensures
        pairs_map(p) == pairs_map(p.drop_last()).insert(p.last().0, p.last().1),
{
    lemma_pair_in_map(p, p.len() - 1);
    let m = pairs_map(p.drop_last()).insert(p.last().0, p.last().1);
    assert forall|k: Seq<char>| #[trigger] m.contains_key(k) <==> pairs_map(p).contains_key(k) by {
        lemma_dropped_map(p, k);
    }
    assert forall|k: Seq<char>| #[trigger] m.contains_key(k) implies m[k] == pairs_map(p)[k] by {
        lemma_dropped_map(p, k);
    }
    assert(pairs_map(p) =~= m);
}

// ---------------------------------------------------------------------------
// The map
// ---------------------------------------------------------------------------
/// A map from names to texts whose entries are kept in the order of the names.
#[derive(Debug)]
pub struct FieldMap {
    entries: Vec<(String, String)>,
}

impl View for FieldMap {
    type V = Map<Seq<char>, Seq<char>>;

    open spec fn view(&self) -> Map<Seq<char>, Seq<char>> {
        pairs_map(self.pairs())
    }
}

impl FieldMap {
    /// The entries in the order of their names.
    pub closed spec fn pairs(&self) -> Seq<Pair> {
        pair_texts(self.entries@)
    }

    /// The names ascend, so no name occurs twice.
    #[verifier::type_invariant]
    pub open spec fn ordered(&self) -> bool {
        ascending(self.pairs())
    }

    /// The empty map.
    pub fn new() -> (r: FieldMap)
        ensures
            r@ == Map::<Seq<char>, Seq<char>>::empty(),
            r.pairs().len() == 0,
    {
        let r = FieldMap { entries: Vec::new() };
        assert(r@ =~= Map::<Seq<char>, Seq<char>>::empty());
        r
    }

    /// How many entries there are.
    pub fn len(&self) -> (n: usize)
        ensures
            n == self.pairs().len(),
    {
        self.entries.len()
    }

    /// Whether there is no entry.
    pub fn is_empty(&self) -> (r: bool)
        ensures
            r == (self.pairs().len() == 0),
            r == (self@ == Map::<Seq<char>, Seq<char>>::empty()),
    {
        proof {
            use_type_invariant(self);
            if self.pairs().len() > 0 {
                lemma_pair_in_map(self.pairs(), 0);
            } else {
                assert(self@ =~= Map::<Seq<char>, Seq<char>>::empty());
            }
        }
        self.entries.len() == 0
    }

    /// The entries, in the order of their names.
    pub fn entries(&self) -> (r: &Vec<(String, String)>)
        ensures
            pair_texts(r@) == self.pairs(),
            ascending(self.pairs()),
            self.pairs() == sorted_pairs(self@),
    {
        proof {
            use_type_invariant(self);
            lemma_sorted_pairs(self.pairs());
        }
        &self.entries
    }

    /// The names, in their order.
    pub fn keys(&self) -> (r: Vec<String>)
        ensures
            text::texts(r@) == sorted_names(self@),
    {
        proof {
            use_type_invariant(self);
            lemma_sorted_pairs(self.pairs());
        }
        let mut out: Vec<String> = Vec::new();
        let mut i: usize = 0;
        while i < self.entries.len()
            invariant
                0 <= i <= self.entries@.len(),
                out@.len() == i,
                forall|k: int| 0 <= k < i ==> (#[trigger] out@[k])@ == self.entries@[k].0@,
            decreases self.entries@.len() - i,
        {
            out.push(self.entries[i].0.clone());
            i += 1;
        }
        assert(text::texts(out@) =~= sorted_names(self@));
        out
    }

    /// The position of the first entry whose name does not come before `name`.
    fn position(&self, name: &str) -> (i: usize)
        ensures
            i <= self.pairs().len(),
            forall|k: int| 0 <= k < i ==> text_before((#[trigger] self.pairs()[k]).0, name@),
            i < self.pairs().len() ==> !text_before(self.pairs()[i as int].0, name@),
    {
        let mut i: usize = 0;
        while i < self.entries.len() && comes_before(self.entries[i].0.as_str(), name)
            invariant
                0 <= i <= self.entries@.len(),
                forall|k: int| 0 <= k < i ==> text_before((#[trigger] self.pairs()[k]).0, name@),
            decreases self.entries@.len() - i,
        {
            i += 1;
        }
        i
    }

    /// The value of `name`.
    pub fn get(&self, name: &str) -> (r: Option<&String>)
        ensures
            match r {
                Some(v) => self@.contains_key(name@) && self@[name@] == v@,
                None => !self@.contains_key(name@),
            },
    {
        let i: usize = self.position(name);
        let ghost p = self.pairs();
        proof {
            use_type_invariant(self);
        }
        if i < self.entries.len() && text::same(self.entries[i].0.as_str(), name) {
            proof {
                lemma_pair_in_map(p, i as int);
            }
            Some(&self.entries[i].1)
        } else {
            proof {
                if self@.contains_key(name@) {
                    let k = choose|k: int| 0 <= k < p.len() && (#[trigger] p[k]).0 == name@;
                    if k < i {
                        lemma_not_before_itself(name@);
                    } else if k > i {
                        assert(text_before(p[i as int].0, p[k].0));
                    }
                }
            }
            None
        }
    }

    /// Gives `name` the value `value`, whatever it had before.
    pub fn insert(&mut self, name: String, value: String)
        ensures
            final(self)@ == old(self)@.insert(name@, value@),
    {
        let i: usize = self.position(name.as_str());
        let mut entries: Vec<(String, String)> = Vec::new();
        proof {
            use_type_invariant(&*self);
        }
        let ghost p = self.pairs();
        std::mem::swap(&mut self.entries, &mut entries);
        let ghost fresh = (name@, value@);
        let found = i < entries.len() && text::same(entries[i].0.as_str(), name.as_str());
        if found {
            entries.set(i, (name, value));
        } else {
            entries.insert(i, (name, value));
        }
        proof {
            let q = pair_texts(entries@);
            if found {
                assert(q =~= p.update(i as int, fresh));
                assert forall|a: int, b: int| 0 <= a < b < q.len() implies text_before(
                    (#[trigger] q[a]).0,
                    (#[trigger] q[b]).0,
                ) by {
                    assert(text_before(p[a].0, p[b].0));
                }
            } else {
                assert(q =~= p.insert(i as int, fresh));
                lemma_inserted_ascending(p, i as int, fresh);
            }
            assert(q[i as int] == fresh);
            assert forall|k: Seq<char>| #[trigger]
                pairs_map(q).contains_key(k) <==> pairs_map(p).insert(
                    fresh.0,
                    fresh.1,
                ).contains_key(k) by {
                lemma_placed_key(p, q, i as int, fresh, found, k);
            }
            assert forall|k: Seq<char>| #[trigger] pairs_map(q).contains_key(k) implies pairs_map(
                q,
            )[k] == pairs_map(p).insert(fresh.0, fresh.1)[k] by {
                lemma_placed_key(p, q, i as int, fresh, found, k);
            }
            assert(pairs_map(q) =~= pairs_map(p).insert(fresh.0, fresh.1));
        }
        self.entries = entries;
    }
}

proof fn lemma_inserted_ascending(p: Seq<Pair>, i: int, fresh: Pair)
    requires
        ascending(p),
        0 <= i <= p.len(),
        forall|k: int| 0 <= k < i ==> text_before((#[trigger] p[k]).0, fresh.0),
        i < p.len() ==> !text_before(p[i].0, fresh.0) && p[i].0 != fresh.0,
    ensures
        ascending(p.insert(i, fresh)),
{
    let q = p.insert(i, fresh);
    if i < p.len() {
        lemma_before_total(fresh.0, p[i].0);
    }
    assert forall|a: int, b: int| 0 <= a < b < q.len() implies text_before(
        (#[trigger] q[a]).0,
        (#[trigger] q[b]).0,
    ) by {
        if b < i {
            assert(text_before(p[a].0, p[b].0));
        } else if b == i {
        } else if a < i {
            assert(text_before(p[a].0, p[b - 1].0));
        } else if a == i {
            if b - 1 > i {
                assert(text_before(p[i].0, p[b - 1].0));
                lemma_before_transitive(fresh.0, p[i].0, p[b - 1].0);
            }
        } else {
            assert(text_before(p[a - 1].0, p[b - 1].0));
        }
    }
}

proof fn lemma_placed_key(
    p: Seq<Pair>,
    q: Seq<Pair>,
    i: int,
    fresh: Pair,
    found: bool,
    k: Seq<char>,
)
    requires
        ascending(p),
        ascending(q),
        0 <= i <= p.len(),
        found ==> i < p.len() && p[i].0 == fresh.0 && q == p.update(i, fresh),
        !found ==> q == p.insert(i, fresh),
    ensures
        pairs_map(q).contains_key(k) <==> pairs_map(p).insert(fresh.0, fresh.1).contains_key(k),
        pairs_map(q).contains_key(k) ==> pairs_map(q)[k] == pairs_map(p).insert(
            fresh.0,
            fresh.1,
        )[k],
{
    lemma_pair_in_map(q, i);
    if pairs_map(q).contains_key(k) && k != fresh.0 {
        let c = choose|c: int| 0 <= c < q.len() && (#[trigger] q[c]).0 == k;
        let d = if found || c < i {
            c
        } else {
            c - 1
        };
        assert(q[c] == p[d]);
        lemma_pair_in_map(q, c);
        lemma_pair_in_map(p, d);
    }
    if pairs_map(p).contains_key(k) && k != fresh.0 {
        let d = choose|d: int| 0 <= d < p.len() && (#[trigger] p[d]).0 == k;
        let c = if found || d < i {
            d
        } else {
            d + 1
        };
        assert(q[c] == p[d]);
    }
}

/// The map of pairs with ascending names holds each pair, and nothing else.
pub proof fn the_map_holds_the_pairs(p: Seq<Pair>, i: int, name: Seq<char>)
    requires
        ascending(p),
        0 <= i < p.len(),
    ensures
        pairs_map(p).contains_key(p[i].0),
        pairs_map(p)[p[i].0] == p[i].1,
        pairs_map(p).contains_key(name) ==> exists|k: int|
            0 <= k < p.len() && (#[trigger] p[k]).0 == name,
{
    lemma_pair_in_map(p, i);
}

/// A text comes before another where the first difference is a smaller character,
/// or where it ends first.
pub proof fn the_first_difference_decides(
    common: Seq<char>,
    a: char,
    b: char,
    rest: Seq<char>,
    other: Seq<char>,
)
    requires
        a < b,
    ensures
        text_before(common + seq![a] + rest, common + seq![b] + other),
        !text_before(common + seq![b] + other, common + seq![a] + rest),
        text_before(common, common + seq![a] + rest),
        !text_before(common + seq![a] + rest, common),
    decreases common.len(),
{
    let x = common + seq![a] + rest;
    let y = common + seq![b] + other;
    if common.len() > 0 {
        let c = common.drop_first();
        the_first_difference_decides(c, a, b, rest, other);
        assert(x.drop_first() =~= c + seq![a] + rest);
        assert(y.drop_first() =~= c + seq![b] + other);
        assert(x[0] == common[0] && y[0] == common[0]);
    } else {
        assert(x[0] == a && y[0] == b);
    }
}

} // verus!
