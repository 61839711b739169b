//! JSON values as the library reads them, and the calls into `serde_json`.
use crate::field_map;
use crate::field_map::FieldMap;
use crate::text;
use vstd::prelude::*;

verus! {

// ---------------------------------------------------------------------------
// The model
// ---------------------------------------------------------------------------
/// A JSON value.
pub enum JsonTree {
    /// `null`.
    Null,
    /// `true` or `false`.
    Bool(bool),
    /// A number: how it is written, and its value if that is an `i64`.
    Number(Seq<char>, Option<i64>),
    /// A string.
    Text(Seq<char>),
    /// An array.
    Array(Seq<JsonTree>),
    /// An object: its members in the order in which they are kept.
    Object(Seq<(Seq<char>, JsonTree)>),
}

/// The value of the first member of that name.
pub open spec fn member(m: Seq<(Seq<char>, JsonTree)>, name: Seq<char>) -> Option<JsonTree>
    decreases m.len(),
{
    if m.len() == 0 {
        None
    } else if m[0].0 == name {
        Some(m[0].1)
    } else {
        member(m.drop_first(), name)
    }
}

impl JsonTree {
    /// The member of that name, of an object that has one.
    pub open spec fn get(self, name: Seq<char>) -> Option<JsonTree> {
        match self {
            JsonTree::Object(m) => member(m, name),
            _ => None,
        }
    }

    /// The text of a string.
    pub open spec fn as_str(self) -> Option<Seq<char>> {
        match self {
            JsonTree::Text(t) => Some(t),
            _ => None,
        }
    }

    /// The truth value of a boolean.
    pub open spec fn as_bool(self) -> Option<bool> {
        match self {
            JsonTree::Bool(b) => Some(b),
            _ => None,
        }
    }

    /// The value of a number that is an `i64`.
    pub open spec fn as_i64(self) -> Option<i64> {
        match self {
            JsonTree::Number(_, i) => i,
            _ => None,
        }
    }

    /// The text of the member of that name, if it is a string.
    pub open spec fn text_at(self, name: Seq<char>) -> Option<Seq<char>> {
        match self.get(name) {
            Some(v) => v.as_str(),
            None => None,
        }
    }
}

/// The object whose members are the strings of `p`.
pub open spec fn object_of(p: Seq<field_map::Pair>) -> JsonTree {
    JsonTree::Object(p.map_values(|e: field_map::Pair| (e.0, JsonTree::Text(e.1))))
}

/// Whether `t` is a string, or an object of strings whose names ascend.
pub open spec fn is_plain(t: JsonTree) -> bool {
    ||| t is Text
    ||| exists|p: Seq<field_map::Pair>| field_map::ascending(p) && t == #[trigger] object_of(p)
}

// ---------------------------------------------------------------------------
// The calls into serde_json
// ---------------------------------------------------------------------------
/// `serde_json::Value`.
#[verifier::external_type_specification]
#[verifier::external_body]
pub struct ExValue(serde_json::Value);

/// The JSON value that a `serde_json::Value` holds.
pub uninterp spec fn value_tree(v: serde_json::Value) -> JsonTree;

/// What `serde_json::from_str` reads from a text; `None` where it fails.
pub uninterp spec fn parsed_json(s: Seq<char>) -> Option<JsonTree>;

/// What `serde_json::from_slice` reads from bytes; `None` where it fails.
pub uninterp spec fn parsed_json_bytes(b: Seq<u8>) -> Option<JsonTree>;

/// How `serde_json` writes a value without white space.
pub uninterp spec fn rendered_json(t: JsonTree) -> Seq<char>;

/// How `serde_json` writes a value over indented lines.
pub uninterp spec fn pretty_json(t: JsonTree) -> Seq<char>;

/// A `serde_json::Value` opened by one level.
pub enum Node {
    /// `null`.
    Null,
    /// `true` or `false`.
    Bool(bool),
    /// A number: how it is written, and its value if that is an `i64`.
    Number(String, Option<i64>),
    /// A string.
    Text(String),
    /// The elements of an array.
    Array(Vec<serde_json::Value>),
    /// The members of an object.
    Object(Vec<(String, serde_json::Value)>),
}

/// The JSON values that the elements of `s` hold.
pub open spec fn trees(s: Seq<serde_json::Value>) -> Seq<JsonTree> {
    s.map_values(|v: serde_json::Value| value_tree(v))
}

/// The members of `s`, as JSON values.
pub open spec fn member_trees(s: Seq<(String, serde_json::Value)>) -> Seq<(Seq<char>, JsonTree)> {
    s.map_values(|e: (String, serde_json::Value)| (e.0@, value_tree(e.1)))
}

impl Node {
    /// The JSON value that the node stands for.
    pub open spec fn tree(&self) -> JsonTree {
        match self {
            Node::Null => JsonTree::Null,
            Node::Bool(b) => JsonTree::Bool(*b),
            Node::Number(t, i) => JsonTree::Number(t@, *i),
            Node::Text(t) => JsonTree::Text(t@),
            Node::Array(a) => JsonTree::Array(trees(a@)),
            Node::Object(o) => JsonTree::Object(member_trees(o@)),
        }
    }
}

/// Opens a `serde_json::Value` by one level: its variant and what it holds. A
/// number is taken by its `Display` text and by `Number::as_i64`. The contract
/// claims that the parts make up the value.
#[verifier::external_body]
pub(crate) fn open_value(v: serde_json::Value) -> (n: Node)
    ensures
        n.tree() == value_tree(v),
{
    match v {
        serde_json::Value::Null => Node::Null,
        serde_json::Value::Bool(b) => Node::Bool(b),
        serde_json::Value::Number(n) => Node::Number(n.to_string(), n.as_i64()),
        serde_json::Value::String(s) => Node::Text(s),
        serde_json::Value::Array(a) => Node::Array(a),
        serde_json::Value::Object(m) => Node::Object(m.into_iter().collect()),
    }
}

/// `serde_json::from_str` into a `Value`. The contract names what it reads.
#[verifier::external_body]
pub(crate) fn parse_value(s: &str) -> (r: Option<serde_json::Value>)
    ensures
        match r {
            Some(v) => parsed_json(s@) == Some(value_tree(v)),
            None => parsed_json(s@) is None,
        },
{
    serde_json::from_str(s).ok()
}

/// `serde_json::from_slice` into a `Value`. The contract names what it reads.
#[verifier::external_body]
pub(crate) fn parse_value_bytes(b: &[u8]) -> (r: Option<serde_json::Value>)
    ensures
        match r {
            Some(v) => parsed_json_bytes(b@) == Some(value_tree(v)),
            None => parsed_json_bytes(b@) is None,
        },
{
    serde_json::from_slice(b).ok()
}

/// `Value::to_string`, which writes a value without white space. The contract
/// names the text, and claims that a string, or an object of strings whose
/// names ascend, is read back from it as it was.
#[verifier::external_body]
pub(crate) fn value_text(v: &serde_json::Value) -> (r: String)
    ensures
        r@ == rendered_json(value_tree(*v)),
        is_plain(value_tree(*v)) ==> parsed_json(r@) == Some(value_tree(*v)),
{
    v.to_string()
}

/// `serde_json::to_string_pretty` of a `Value`. The contract names the text,
/// claims that writing a `Value` into memory does not fail, and that a string,
/// or an object of strings whose names ascend, is read back as it was.
#[verifier::external_body]
pub(crate) fn pretty_text(v: &serde_json::Value) -> (r: Result<String, String>)
    ensures
        r is Ok,
        r->Ok_0@ == pretty_json(value_tree(*v)),
        is_plain(value_tree(*v)) ==> parsed_json(r->Ok_0@) == Some(value_tree(*v)),
{
    serde_json::to_string_pretty(v).map_err(|e| e.to_string())
}

/// `Value::from` of a text. The contract claims that it is that string.
#[verifier::external_body]
pub(crate) fn string_value(s: &str) -> (v: serde_json::Value)
    ensures
        value_tree(v) == JsonTree::Text(s@),
{
    serde_json::Value::from(s)
}

/// Collects name and value pairs into a `serde_json::Map`. The contract claims
/// that pairs whose names ascend are kept in their order, as strings.
#[verifier::external_body]
pub(crate) fn object_value(p: &Vec<(String, String)>) -> (v: serde_json::Value)
    requires
        field_map::ascending(field_map::pair_texts(p@)),
    ensures
        value_tree(v) == object_of(field_map::pair_texts(p@)),
{
    let members = p.iter().map(|e| (e.0.clone(), serde_json::Value::from(e.1.as_str())));
    serde_json::Value::Object(members.collect())
}

// ---------------------------------------------------------------------------
// JSON values of the library
// ---------------------------------------------------------------------------
/// A JSON value of the library's own.
#[derive(Debug)]
pub enum Json {
    /// `null`.
    Null,
    /// `true` or `false`.
    Bool(bool),
    /// A number: how it is written, and its value if that is an `i64`.
    Number(String, Option<i64>),
    /// A string.
    Text(String),
    /// An array.
    Array(Vec<Json>),
    /// An object.
    Object(Vec<(String, Json)>),
}

/// The JSON values of a sequence.
pub open spec fn views(s: Seq<Json>) -> Seq<JsonTree> {
    s.map_values(|j: Json| j@)
}

/// The members of a sequence, as JSON values.
pub open spec fn member_views(s: Seq<(String, Json)>) -> Seq<(Seq<char>, JsonTree)> {
    s.map_values(|e: (String, Json)| (e.0@, e.1@))
}

impl View for Json {
    type V = JsonTree;

    open spec fn view(&self) -> JsonTree
        decreases self,
    {
        match self {
            Json::Null => JsonTree::Null,
            Json::Bool(b) => JsonTree::Bool(*b),
            Json::Number(t, i) => JsonTree::Number(t@, *i),
            Json::Text(t) => JsonTree::Text(t@),
            Json::Array(a) => JsonTree::Array(
                Seq::new(
                    a@.len(),
                    |i: int|
                        if 0 <= i < a@.len() {
                            a@[i].view()
                        } else {
                            JsonTree::Null
                        },
                ),
            ),
            Json::Object(o) => JsonTree::Object(
                Seq::new(
                    o@.len(),
                    |i: int|
                        if 0 <= i < o@.len() {
                            (o@[i].0@, o@[i].1.view())
                        } else {
                            (Seq::empty(), JsonTree::Null)
                        },
                ),
            ),
        }
    }
}

/// An array stands for the array of its elements' values.
pub broadcast proof fn lemma_array_view(a: Vec<Json>)
    ensures
        #[trigger] Json::Array(a)@ == JsonTree::Array(views(a@)),
{
    reveal_with_fuel(<Json as View>::view, 2);
    let shown = Json::Array(a)@->Array_0;
    assert forall|i: int| 0 <= i < a@.len() implies #[trigger] shown[i] == views(a@)[i] by {
        assert(shown[i] == a@[i]@);
    }
    assert(shown =~= views(a@));
}

/// An object stands for the object of its members' values.
pub broadcast proof fn lemma_object_view(o: Vec<(String, Json)>)
    ensures
        #[trigger] Json::Object(o)@ == JsonTree::Object(member_views(o@)),
{
    reveal_with_fuel(<Json as View>::view, 2);
    let shown = Json::Object(o)@->Object_0;
    assert forall|i: int| 0 <= i < o@.len() implies #[trigger] shown[i] == member_views(o@)[i] by {
        assert(shown[i] == (o@[i].0@, o@[i].1@));
    }
    assert(shown =~= member_views(o@));
}

/// The library's form of a `serde_json::Value`.
pub fn from_value(v: serde_json::Value) -> (j: Json)
    ensures
        j@ == value_tree(v),
    decreases value_tree(v),
{
    match open_value(v) {
        Node::Null => Json::Null,
        Node::Bool(b) => Json::Bool(b),
        Node::Number(t, i) => Json::Number(t, i),
        Node::Text(t) => Json::Text(t),
        Node::Array(items) => {
            let ghost all = items@;
            let ghost tree = value_tree(v);
            let mut out: Vec<Json> = Vec::new();
            for item in it: items
                invariant
                    it.seq() == all,
                    tree == value_tree(v),
                    tree == JsonTree::Array(trees(all)),
                    out@.len() == it.index(),
                    forall|k: int|
                        0 <= k < out@.len() ==> (#[trigger] out@[k])@ == value_tree(all[k]),
            {
                assert(trees(all)[it.index() as int] == value_tree(item));
                assert(decreases_to!(tree => tree->Array_0));
                assert(decreases_to!(tree->Array_0 => tree->Array_0[it.index() as int]));
                out.push(from_value(item));
            }
            let j = Json::Array(out);
            assert(j@->Array_0 =~= trees(all));
            j
        },
        Node::Object(items) => {
            let ghost all = items@;
            let ghost tree = value_tree(v);
            let mut out: Vec<(String, Json)> = Vec::new();
            for item in it: items
                invariant
                    it.seq() == all,
                    tree == value_tree(v),
                    tree == JsonTree::Object(member_trees(all)),
                    out@.len() == it.index(),
                    forall|k: int|
                        0 <= k < out@.len() ==> (#[trigger] out@[k]).0@ == all[k].0@ && out@[k].1@
                            == value_tree(all[k].1),
            {
                let ghost k = it.index() as int;
                assert(member_trees(all)[k] == (item.0@, value_tree(item.1)));
                assert(decreases_to!(tree => tree->Object_0));
                assert(decreases_to!(tree->Object_0 => tree->Object_0[k]));
                assert(decreases_to!(tree->Object_0[k] => tree->Object_0[k].1));
                let (name, value) = item;
                out.push((name, from_value(value)));
            }
            let j = Json::Object(out);
            assert(j@->Object_0 =~= member_trees(all));
            j
        },
    }
}

/// An optional value of the library, as a JSON value.
pub open spec fn opt_view(j: Option<Json>) -> Option<JsonTree> {
    match j {
        Some(v) => Some(v@),
        None => None,
    }
}

/// Reads a JSON text.
pub fn parse_json(s: &str) -> (r: Option<Json>)
    ensures
        opt_view(r) == parsed_json(s@),
{
    match parse_value(s) {
        Some(v) => Some(from_value(v)),
        None => None,
    }
}

/// Reads JSON bytes.
pub fn parse_json_bytes(b: &[u8]) -> (r: Option<Json>)
    ensures
        opt_view(r) == parsed_json_bytes(b@),
{
    match parse_value_bytes(b) {
        Some(v) => Some(from_value(v)),
        None => None,
    }
}

/// The JSON literal of a string, with everything escaped that needs it.
pub fn json_string(s: &str) -> (r: String)
    ensures
        r@ == rendered_json(JsonTree::Text(s@)),
        parsed_json(r@) == Some(JsonTree::Text(s@)),
{
    value_text(&string_value(s))
}

/// The compact JSON text of a field map.
pub fn json_fields(m: &FieldMap) -> (r: String)
    ensures
        r@ == rendered_json(object_of(field_map::sorted_pairs(m@))),
        parsed_json(r@) == Some(object_of(field_map::sorted_pairs(m@))),
{
    let v = object_value(m.entries());
    assert(is_plain(value_tree(v)));
    value_text(&v)
}

/// The JSON text of a field map over indented lines.
pub fn pretty_fields(m: &FieldMap) -> (r: Result<String, String>)
    ensures
        r matches Ok(s) && s@ == pretty_json(object_of(field_map::sorted_pairs(m@)))
            && parsed_json(s@) == Some(object_of(field_map::sorted_pairs(m@))),
        field_map::ascending(field_map::sorted_pairs(m@)),
        field_map::pairs_map(field_map::sorted_pairs(m@)) == m@,
{
    let v = object_value(m.entries());
    assert(is_plain(value_tree(v)));
    pretty_text(&v)
}

impl Json {
    /// The member of that name, of an object that has one.
    pub fn get(&self, name: &str) -> (r: Option<&Json>)
        ensures
            match r {
                Some(v) => self@.get(name@) == Some(v@),
                None => self@.get(name@) is None,
            },
    {
        match self {
            Json::Object(o) => {
                proof {
                    lemma_object_view(*o);
                }
                let ghost all = member_views(o@);
                let mut i: usize = 0;
                assert(all.skip(0) =~= all);
                while i < o.len()
                    invariant
                        self@ == JsonTree::Object(all),
                        all == member_views(o@),
                        0 <= i <= o@.len(),
                        member(all.skip(i as int), name@) == member(all, name@),
                    decreases o@.len() - i,
                {
                    assert(all.skip(i as int)[0] == all[i as int]);
                    assert(all.skip(i as int).drop_first() =~= all.skip(i + 1));
                    if text::same(o[i].0.as_str(), name) {
                        return Some(&o[i].1);
                    }
                    i += 1;
                }
                None
            },
            _ => None,
        }
    }

    /// The text of a string.
    pub fn as_str(&self) -> (r: Option<&str>)
        ensures
            match r {
                Some(t) => self@.as_str() == Some(t@),
                None => self@.as_str() is None,
            },
    {
        match self {
            Json::Text(t) => Some(t.as_str()),
            _ => None,
        }
    }

    /// The truth value of a boolean.
    pub fn as_bool(&self) -> (r: Option<bool>)
        ensures
            r == self@.as_bool(),
    {
        match self {
            Json::Bool(b) => Some(*b),
            _ => None,
        }
    }

    /// The value of a number that is an `i64`.
    pub fn as_i64(&self) -> (r: Option<i64>)
        ensures
            r == self@.as_i64(),
    {
        match self {
            Json::Number(_, i) => *i,
            _ => None,
        }
    }

    /// The elements of an array.
    pub fn as_array(&self) -> (r: Option<&Vec<Json>>)
        ensures
            match r {
                Some(a) => self@ == JsonTree::Array(views(a@)),
                None => self@ !is Array,
            },
    {
        match self {
            Json::Array(a) => {
                proof {
                    lemma_array_view(*a);
                }
                Some(a)
            },
            _ => None,
        }
    }

    /// The text of the member of that name, if it is a string.
    pub fn text_at(&self, name: &str) -> (r: Option<&str>)
        ensures
            match r {
                Some(t) => self@.text_at(name@) == Some(t@),
                None => self@.text_at(name@) is None,
            },
    {
        match self.get(name) {
            Some(v) => v.as_str(),
            None => None,
        }
    }
}

// ---------------------------------------------------------------------------
// Flat objects
// ---------------------------------------------------------------------------
/// A member of an object, with its value also as `serde_json` writes it.
#[derive(Debug)]
pub struct Member {
    /// The name.
    pub name: String,
    /// The value.
    pub value: Json,
    /// The value as compact JSON text.
    pub rendered: String,
}

/// What a [`Member`] stands for.
pub struct MemberModel {
    /// The name.
    pub name: Seq<char>,
    /// The value.
    pub value: JsonTree,
    /// The value as compact JSON text.
    pub rendered: Seq<char>,
}

impl View for Member {
    type V = MemberModel;

    open spec fn view(&self) -> MemberModel {
        MemberModel { name: self.name@, value: self.value@, rendered: self.rendered@ }
    }
}

/// The members of a sequence, as models.
pub open spec fn models(s: Seq<Member>) -> Seq<MemberModel> {
    s.map_values(|m: Member| m@)
}

/// Members with the text that `serde_json` writes for each value.
pub open spec fn with_rendering(m: Seq<(Seq<char>, JsonTree)>) -> Seq<MemberModel> {
    m.map_values(
        |e: (Seq<char>, JsonTree)|
            MemberModel { name: e.0, value: e.1, rendered: rendered_json(e.1) },
    )
}

/// The members of an object that was opened.
pub(crate) fn open_members(items: Vec<(String, serde_json::Value)>) -> (r: Vec<Member>)
    ensures
        models(r@) == with_rendering(member_trees(items@)),
{
    let ghost all = items@;
    let mut out: Vec<Member> = Vec::new();
    for item in it: items
        invariant
            it.seq() == all,
            out@.len() == it.index(),
            forall|k: int|
                0 <= k < out@.len() ==> (#[trigger] out@[k])@ == with_rendering(
                    member_trees(all),
                )[k],
    {
        let (name, value) = item;
        let rendered = value_text(&value);
        let value = from_value(value);
        out.push(Member { name, value, rendered });
    }
    assert(models(out@) =~= with_rendering(member_trees(all)));
    out
}

/// The text that a form field takes from a JSON value: nothing from `null`; a
/// string as it is; anything else as it is written.
pub open spec fn field_text(m: MemberModel) -> Option<Seq<char>> {
    match m.value {
        JsonTree::Text(t) => Some(t),
        JsonTree::Number(t, _) => Some(t),
        JsonTree::Bool(b) => Some(
            if b {
                "true"@
            } else {
                "false"@
            },
        ),
        JsonTree::Null => None,
        _ => Some(m.rendered),
    }
}

/// The text that a form field takes from a JSON value.
pub fn value_to_string(m: &Member) -> (r: Option<String>)
    ensures
        text::opt_text(r) == field_text(m@),
{
    match &m.value {
        Json::Text(t) => Some(t.clone()),
        Json::Number(t, _) => Some(t.clone()),
        Json::Bool(b) => Some(
            if *b {
                text::owned("true")
            } else {
                text::owned("false")
            },
        ),
        Json::Null => None,
        _ => Some(m.rendered.clone()),
    }
}

/// The field map that the members of an object make up.
pub open spec fn collected(m: Seq<MemberModel>) -> Map<Seq<char>, Seq<char>>
    decreases m.len(),
{
    if m.len() == 0 {
        Map::empty()
    } else {
        let before = collected(m.drop_last());
        match field_text(m.last()) {
            Some(t) => before.insert(m.last().name, t),
            None => before,
        }
    }
}

/// The field map that the members of an object make up.
pub fn collect_fields(members: &Vec<Member>) -> (r: FieldMap)
    ensures
        r@ == collected(models(members@)),
{
    let mut out = FieldMap::new();
    let mut i: usize = 0;
    while i < members.len()
        invariant
            0 <= i <= members@.len(),
            out@ == collected(models(members@).take(i as int)),
        decreases members@.len() - i,
    {
        proof {
            let all = models(members@);
            assert(all.take(i + 1).drop_last() =~= all.take(i as int));
            assert(all.take(i + 1).last() == members@[i as int]@);
        }
        match value_to_string(&members[i]) {
            Some(t) => out.insert(members[i].name.clone(), t),
            None => {},
        }
        i += 1;
    }
    assert(models(members@).take(i as int) =~= models(members@));
    out
}

/// An object of strings whose names ascend makes up the map of its members.
pub proof fn plain_object_collects_to_itself(p: Seq<field_map::Pair>)
    requires
        field_map::ascending(p),
    ensures
        object_of(p) is Object,
        collected(with_rendering(object_of(p)->Object_0)) == field_map::pairs_map(p),
    decreases p.len(),
{
    let m = with_rendering(object_of(p)->Object_0);
    if p.len() == 0 {
        assert(collected(m) =~= field_map::pairs_map(p));
    } else {
        let q = p.drop_last();
        field_map::lemma_ascending_drop_last(p);
        plain_object_collects_to_itself(q);
        assert(m.drop_last() =~= with_rendering(object_of(q)->Object_0));
        field_map::lemma_pairs_map_last(p);
    }
}

// ---------------------------------------------------------------------------
// Laws
// ---------------------------------------------------------------------------
/// A member is found by its name: the first of that name, and none where there is
/// none.
pub proof fn members_are_found_by_name(m: Seq<(Seq<char>, JsonTree)>, i: int, name: Seq<char>)
    requires
        0 <= i < m.len(),
        forall|j: int| 0 <= j < i ==> (#[trigger] m[j]).0 != m[i].0,
    ensures
        JsonTree::Object(m).get(m[i].0) == Some(m[i].1),
        m[i].1 matches JsonTree::Text(t) ==> JsonTree::Object(m).text_at(m[i].0) == Some(t),
        !(m[i].1 is Text) ==> JsonTree::Object(m).text_at(m[i].0) is None,
        (forall|j: int| 0 <= j < m.len() ==> (#[trigger] m[j]).0 != name) ==> JsonTree::Object(
            m,
        ).get(name) is None,
    decreases i,
{
    lemma_missing_member(m, name);
    if i > 0 {
        let rest = m.drop_first();
        assert forall|j: int| 0 <= j < i - 1 implies (#[trigger] rest[j]).0 != rest[i - 1].0 by {
            assert(rest[j] == m[j + 1]);
        }
        assert(m[0].0 != m[i].0);
        members_are_found_by_name(rest, i - 1, name);
    }
}

proof fn lemma_missing_member(m: Seq<(Seq<char>, JsonTree)>, name: Seq<char>)
    ensures
        (forall|j: int| 0 <= j < m.len() ==> (#[trigger] m[j]).0 != name) ==> member(m, name) is None,
    decreases m.len(),
{
    if m.len() > 0 && (forall|j: int| 0 <= j < m.len() ==> (#[trigger] m[j]).0 != name) {
        let rest = m.drop_first();
        assert forall|j: int| 0 <= j < rest.len() implies (#[trigger] rest[j]).0 != name by {
            assert(rest[j] == m[j + 1]);
        }
        assert(m[0].0 != name);
        lemma_missing_member(rest, name);
    }
}

/// What a field takes from each kind of value: a string as it is, a number as it
/// is written, a boolean as its word, an array or an object as its JSON text, and
/// nothing from `null`.
pub proof fn fields_take_the_value(
    m: Seq<(Seq<char>, JsonTree)>,
    i: int,
)
    requires
        0 <= i < m.len(),
        forall|j: int, k: int| 0 <= j < k < m.len() ==> (#[trigger] m[j]).0 != (#[trigger] m[k]).0,
    ensures
        ({
            let fields = collected(with_rendering(m));
            let name = m[i].0;
            match m[i].1 {
                JsonTree::Text(t) => fields.contains_key(name) && fields[name] == t,
                JsonTree::Number(t, _) => fields.contains_key(name) && fields[name] == t,
                JsonTree::Bool(true) => fields.contains_key(name) && fields[name] == "true"@,
                JsonTree::Bool(false) => fields.contains_key(name) && fields[name] == "false"@,
                JsonTree::Null => !fields.contains_key(name),
                v => fields.contains_key(name) && fields[name] == rendered_json(v),
            }
        }),
    decreases m.len(),
{
    let n = m.len() - 1;
    let before = m.drop_last();
    assert(with_rendering(m).drop_last() =~= with_rendering(before));
    assert(with_rendering(m).last() == with_rendering(m)[n]);
    if i < n {
        assert forall|j: int, k: int| 0 <= j < k < before.len() implies (#[trigger] before[j]).0
            != (#[trigger] before[k]).0 by {
            assert(before[j] == m[j] && before[k] == m[k]);
        }
        assert(before[i] == m[i]);
        fields_take_the_value(before, i);
        assert(m[i].0 != m[n].0);
    } else {
        assert forall|j: int| 0 <= j < before.len() implies (#[trigger] before[j]).0 != m[n].0 by {
            assert(before[j] == m[j]);
        }
        fields_come_from_members(before, m[n].0);
    }
}

/// No field appears from nowhere.
pub proof fn fields_come_from_members(m: Seq<(Seq<char>, JsonTree)>, name: Seq<char>)
    requires
        forall|j: int| 0 <= j < m.len() ==> (#[trigger] m[j]).0 != name,
    ensures
        !collected(with_rendering(m)).contains_key(name),
    decreases m.len(),
{
    if m.len() > 0 {
        let before = m.drop_last();
        assert(with_rendering(m).drop_last() =~= with_rendering(before));
        assert(with_rendering(m).last() == with_rendering(m)[m.len() - 1]);
        assert(m[m.len() - 1].0 != name);
        assert forall|j: int| 0 <= j < before.len() implies (#[trigger] before[j]).0 != name by {
            assert(before[j] == m[j]);
        }
        fields_come_from_members(before, name);
    }
}

} // verus!
