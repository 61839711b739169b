//! Persistent user data: the resume text (`resume.txt`) and the structured
//! application fields that forms are filled from (`fields.json`).
//!
//! `fields.json` is deliberately a flat JSON object (`{"first_name": "...",
//! "email": "...", ...}`) so that the model can read and rewrite it freely and
//! the user can edit it by hand. Values are always strings.
use crate::field_map;
use crate::field_map::FieldMap;
use crate::json;
use crate::text;
use vstd::prelude::*;

verus! {

/// A map from field names to values.
pub type FieldsModel = Map<Seq<char>, Seq<char>>;

/// The resume text, from what could be read of `resume.txt`: empty if it does
/// not exist.
pub fn read_resume(raw: Option<String>) -> (r: String)
    ensures
        r@ == match raw {
            Some(t) => t@,
            None => Seq::empty(),
        },
{
    match raw {
        Some(t) => t,
        None => String::new(),
    }
}

/// Whether there is no resume text.
pub fn resume_is_blank(resume: &str) -> (r: bool)
    ensures
        r == text::is_blank(resume@),
        r == (text::trimmed(resume@).len() == 0),
{
    proof {
        text::lemma_trimmed_empty(resume@);
    }
    text::blank(resume)
}

/// The fields that the text of `fields.json` holds. A text that is missing, or
/// not a JSON object, holds none.
pub open spec fn loaded(raw: Option<Seq<char>>) -> FieldsModel {
    match raw {
        Some(s) => match json::parsed_json(s) {
            Some(json::JsonTree::Object(m)) => json::collected(json::with_rendering(m)),
            _ => Map::empty(),
        },
        None => Map::empty(),
    }
}

/// Loads the text of `fields.json` as an ordered map. Corrupt or missing files
/// yield an empty map rather than an error, so the app always starts.
pub fn load_fields(raw: Option<String>) -> (r: FieldMap)
    ensures
        r@ == loaded(text::opt_text(raw)),
{
    match raw {
        Some(s) => match json::parse_value(s.as_str()) {
            Some(v) => match json::open_value(v) {
                json::Node::Object(items) => {
                    let members = json::open_members(items);
                    json::collect_fields(&members)
                },
                _ => FieldMap::new(),
            },
            None => FieldMap::new(),
        },
        None => FieldMap::new(),
    }
}

/// The text of `fields.json` that holds the fields `m`.
pub open spec fn saved(m: FieldsModel) -> Seq<char> {
    json::pretty_json(json::object_of(field_map::sorted_pairs(m)))
}

/// The text to overwrite `fields.json` with. Loading it gives the same fields.
pub fn save_fields(fields: &FieldMap) -> (r: Result<String, String>)
    ensures
        r matches Ok(s) && s@ == saved(fields@) && loaded(Some(s@)) == fields@,
{
    let ghost p = field_map::sorted_pairs(fields@);
    let r = json::pretty_fields(fields);
    proof {
        json::plain_object_collects_to_itself(p);
    }
    r
}

/// The fields after `updates` were put in, in turn. Blank values are left out.
pub open spec fn merged(current: FieldsModel, updates: Seq<field_map::Pair>) -> FieldsModel
    decreases updates.len(),
{
    if updates.len() == 0 {
        current
    } else {
        let before = merged(current, updates.drop_last());
        if text::is_blank(updates.last().1) {
            before
        } else {
            before.insert(updates.last().0, updates.last().1)
        }
    }
}

/// The names that `updates` adds or gives another value, in their order.
pub open spec fn changes(
    current: FieldsModel,
    updates: Seq<field_map::Pair>,
) -> Seq<Seq<char>>
    decreases updates.len(),
{
    if updates.len() == 0 {
        Seq::empty()
    } else {
        let before = changes(current, updates.drop_last());
        let (name, value) = updates.last();
        if text::is_blank(value) || (current.contains_key(name) && current[name] == value) {
            before
        } else {
            before.push(name)
        }
    }
}

/// What comes of merging fields: the text to store and the names that changed.
#[derive(Debug)]
pub struct Merged {
    /// The new text of `fields.json`.
    pub json: String,
    /// The names that were newly added or changed.
    pub changed: Vec<String>,
}

proof fn lemma_merged_keeps_later(
    current: FieldsModel,
    updates: Seq<field_map::Pair>,
    name: Seq<char>,
)
    requires
        forall|i: int| 0 <= i < updates.len() ==> (#[trigger] updates[i]).0 != name,
    ensures
        merged(current, updates).contains_key(name) == current.contains_key(name),
        current.contains_key(name) ==> merged(current, updates)[name] == current[name],
    decreases updates.len(),
{
    if updates.len() > 0 {
        let before = updates.drop_last();
        assert forall|i: int| 0 <= i < before.len() implies (#[trigger] before[i]).0 != name by {
            assert(before[i] == updates[i]);
        }
        lemma_merged_keeps_later(current, before, name);
        assert(updates[updates.len() - 1].0 != name);
    }
}

/// Merges `updates` into the stored fields (updates win). Returns the text to
/// persist and the names that were newly added or changed, for user-facing
/// reporting.
pub fn merge_fields(raw: Option<String>, updates: &FieldMap) -> (r: Result<Merged, String>)
    ensures
        r matches Ok(m) && ({
            let current = loaded(text::opt_text(raw));
            let new = field_map::sorted_pairs(updates@);
            &&& m.json@ == saved(merged(current, new))
            &&& loaded(Some(m.json@)) == merged(current, new)
            &&& text::texts(m.changed@) == changes(current, new)
        }),
{
    broadcast use text::lemma_texts_push;

    let mut current = load_fields(raw);
    let ghost start = current@;
    let new = updates.entries();
    let ghost all = field_map::pair_texts(new@);
    let mut changed: Vec<String> = Vec::new();
    assert(text::texts(changed@) =~= Seq::<Seq<char>>::empty());
    let mut i: usize = 0;
    while i < new.len()
        invariant
            all == field_map::pair_texts(new@),
            field_map::ascending(all),
            0 <= i <= new@.len(),
            current@ == merged(start, all.take(i as int)),
            text::texts(changed@) == changes(start, all.take(i as int)),
        decreases new@.len() - i,
    {
        let name = &new[i].0;
        let value = &new[i].1;
        proof {
            let before = all.take(i as int);
            assert(all.take(i + 1).drop_last() =~= before);
            assert(all.take(i + 1).last() == (name@, value@));
            assert forall|k: int| 0 <= k < before.len() implies (#[trigger] before[k]).0
                != name@ by {
                field_map::lemma_earlier_name_differs(all, k, i as int);
            }
            lemma_merged_keeps_later(start, before, name@);
        }
        if !text::blank(value.as_str()) {
            let differs = match current.get(name.as_str()) {
                Some(known) => !text::same(known.as_str(), value.as_str()),
                None => true,
            };
            if differs {
                changed.push(name.clone());
            }
            current.insert(name.clone(), value.clone());
        }
        i += 1;
    }
    assert(all.take(i as int) =~= all);
    match save_fields(&current) {
        Ok(json) => Ok(Merged { json, changed }),
        Err(e) => Err(e),
    }
}

// ---------------------------------------------------------------------------
// Laws
// ---------------------------------------------------------------------------
/// An update that is not blank wins.
pub proof fn updates_win(current: FieldsModel, updates: Seq<field_map::Pair>, i: int)
    requires
        field_map::ascending(updates),
        0 <= i < updates.len(),
        !text::is_blank(updates[i].1),
    ensures
        merged(current, updates).contains_key(updates[i].0),
        merged(current, updates)[updates[i].0] == updates[i].1,
    decreases updates.len(),
{
    let before = updates.drop_last();
    field_map::lemma_ascending_drop_last(updates);
    if i < updates.len() - 1 {
        updates_win(current, before, i);
        assert(before[i] == updates[i]);
        field_map::lemma_earlier_name_differs(updates, i, updates.len() - 1);
    }
}

/// A field that no update names keeps its value, and none appears from nowhere.
pub proof fn other_fields_stay(
    current: FieldsModel,
    updates: Seq<field_map::Pair>,
    name: Seq<char>,
)
    requires
        forall|i: int| 0 <= i < updates.len() ==> (#[trigger] updates[i]).0 != name,
    ensures
        merged(current, updates).contains_key(name) == current.contains_key(name),
        current.contains_key(name) ==> merged(current, updates)[name] == current[name],
{
    lemma_merged_keeps_later(current, updates, name);
}

/// A blank update never removes or changes a field.
pub proof fn blank_updates_change_nothing(current: FieldsModel, updates: Seq<field_map::Pair>)
    requires
        forall|i: int| 0 <= i < updates.len() ==> text::is_blank((#[trigger] updates[i]).1),
    ensures
        merged(current, updates) == current,
        changes(current, updates).len() == 0,
    decreases updates.len(),
{
    if updates.len() > 0 {
        let before = updates.drop_last();
        assert forall|i: int| 0 <= i < before.len() implies text::is_blank(
            (#[trigger] before[i]).1,
        ) by {
            assert(before[i] == updates[i]);
        }
        assert(text::is_blank(updates[updates.len() - 1].1));
        blank_updates_change_nothing(current, before);
    }
}

/// Nothing is reported as changed exactly when the fields stay as they were.
pub proof fn no_change_reported_means_no_change(
    current: FieldsModel,
    updates: Seq<field_map::Pair>,
)
    requires
        field_map::ascending(updates),
    ensures
        changes(current, updates).len() == 0 <==> merged(current, updates) == current,
    decreases updates.len(),
{
    if updates.len() > 0 {
        let before = updates.drop_last();
        let n = updates.len() - 1;
        let (name, value) = updates.last();
        field_map::lemma_ascending_drop_last(updates);
        no_change_reported_means_no_change(current, before);
        assert forall|k: int| 0 <= k < before.len() implies (#[trigger] before[k]).0 != name by {
            field_map::lemma_earlier_name_differs(updates, k, n);
            assert(before[k] == updates[k]);
        }
        lemma_merged_keeps_later(current, before, name);
        let m = merged(current, before);
        if !text::is_blank(value) {
            if current.contains_key(name) && current[name] == value {
                assert(m.insert(name, value) =~= m);
            } else {
                assert(merged(current, updates)[name] == value);
                assert(merged(current, updates).contains_key(name));
            }
        }
        if merged(current, updates) == current && !text::is_blank(value) {
            assert(current.contains_key(name) && current[name] == value);
            assert(m.insert(name, value) =~= m);
        }
    }
}

/// Merging the same updates again changes nothing.
pub proof fn merging_twice_changes_nothing(current: FieldsModel, updates: Seq<field_map::Pair>)
    requires
        field_map::ascending(updates),
    ensures
        changes(merged(current, updates), updates).len() == 0,
        merged(merged(current, updates), updates) == merged(current, updates),
{
    let m = merged(current, updates);
    assert forall|i: int| 0 <= i < updates.len() implies text::is_blank((#[trigger] updates[i]).1)
        || (m.contains_key(updates[i].0) && m[updates[i].0] == updates[i].1) by {
        if !text::is_blank(updates[i].1) {
            updates_win(current, updates, i);
        }
    }
    lemma_known_updates(m, updates);
    no_change_reported_means_no_change(m, updates);
}

proof fn lemma_known_updates(current: FieldsModel, updates: Seq<field_map::Pair>)
    requires
        forall|i: int|
            0 <= i < updates.len() ==> text::is_blank((#[trigger] updates[i]).1) || (
            current.contains_key(updates[i].0) && current[updates[i].0] == updates[i].1),
    ensures
        changes(current, updates).len() == 0,
    decreases updates.len(),
{
    if updates.len() > 0 {
        let before = updates.drop_last();
        assert forall|i: int| 0 <= i < before.len() implies text::is_blank(
            (#[trigger] before[i]).1,
        ) || (current.contains_key(before[i].0) && current[before[i].0] == before[i].1) by {
            assert(before[i] == updates[i]);
        }
        lemma_known_updates(current, before);
        assert(updates[updates.len() - 1] == updates.last());
    }
}

/// What is reported as changed is what changes: the names whose update is not
/// blank and differs from what was known, and no others.
pub proof fn changes_are_reported_by_name(
    current: FieldsModel,
    updates: Seq<field_map::Pair>,
    name: Seq<char>,
)
    ensures
        changes(current, updates).contains(name) <==> exists|i: int|
            0 <= i < updates.len() && (#[trigger] updates[i]).0 == name && !text::is_blank(
                updates[i].1,
            ) && !(current.contains_key(name) && current[name] == updates[i].1),
    decreases updates.len(),
{
    if updates.len() > 0 {
        let n = updates.len() - 1;
        let before = updates.drop_last();
        changes_are_reported_by_name(current, before, name);
        let old_names = changes(current, before);
        let (last, value) = updates.last();
        let is_new = !text::is_blank(value) && !(current.contains_key(last) && current[last]
            == value);
        if changes(current, updates).contains(name) {
            if old_names.contains(name) {
                let i = choose|i: int|
                    0 <= i < before.len() && (#[trigger] before[i]).0 == name && !text::is_blank(
                        before[i].1,
                    ) && !(current.contains_key(name) && current[name] == before[i].1);
                assert(updates[i] == before[i]);
            } else {
                assert(is_new && last == name) by {
                    let k = choose|k: int|
                        0 <= k < changes(current, updates).len() && changes(current, updates)[k]
                            == name;
                    if k < old_names.len() {
                        assert(old_names[k] == name);
                    }
                }
                assert(updates[n].0 == name);
            }
        }
        if exists|i: int|
            0 <= i < updates.len() && (#[trigger] updates[i]).0 == name && !text::is_blank(
                updates[i].1,
            ) && !(current.contains_key(name) && current[name] == updates[i].1) {
            let i = choose|i: int|
                0 <= i < updates.len() && (#[trigger] updates[i]).0 == name && !text::is_blank(
                    updates[i].1,
                ) && !(current.contains_key(name) && current[name] == updates[i].1);
            if i < n {
                assert(before[i] == updates[i]);
                let k = choose|k: int| 0 <= k < old_names.len() && old_names[k] == name;
                assert(changes(current, updates)[k] == name);
            } else {
                assert(changes(current, updates)[old_names.len() as int] == name);
            }
        }
    }
}

/// The fields of a stored object of strings are its members; what is missing or
/// is no object holds none.
pub proof fn stored_fields_are_the_members(
    raw: Seq<char>,
    p: Seq<field_map::Pair>,
)
    requires
        field_map::ascending(p),
    ensures
        json::parsed_json(raw) == Some(json::object_of(p)) ==> loaded(Some(raw))
            == field_map::pairs_map(p),
        !(json::parsed_json(raw) matches Some(json::JsonTree::Object(_))) ==> loaded(Some(raw))
            == Map::<Seq<char>, Seq<char>>::empty(),
        loaded(None) == Map::<Seq<char>, Seq<char>>::empty(),
{
    json::plain_object_collects_to_itself(p);
}

/// The stored text is the indented JSON of the fields in the order of their names.
pub proof fn fields_are_stored_in_order(p: Seq<field_map::Pair>)
    requires
        field_map::ascending(p),
    ensures
        saved(field_map::pairs_map(p)) == json::pretty_json(json::object_of(p)),
{
    field_map::lemma_sorted_pairs(p);
}

} // verus!
