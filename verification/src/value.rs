use vstd::prelude::*;

verus! {

broadcast use vstd::std_specs::vec::group_vec_axioms;

/// A structural value: the library's model of the payloads and filters the
/// two clients carry. It covers the data model of a structural text
/// encoding — null, booleans, integers, text, arrays and maps — with a map
/// held as a sequence of entries in the order the caller supplied them.
#[derive(Debug, PartialEq, Eq)]
pub enum StoreValue {
    Null,
    Bool(bool),
    Int(i64),
    Text(String),
    Array(Vec<StoreValue>),
    Object(Vec<(String, StoreValue)>),
}

/// The mathematical content of a `StoreValue`. A map is abstracted to the
/// key-to-content mapping it denotes: entry order is forgotten, and a
/// repeated key keeps its last entry, as the stores' structural encodings
/// do.
pub enum ValueModel {
    Null,
    Bool(bool),
    Int(int),
    Text(Seq<char>),
    Array(Seq<ValueModel>),
    Object(Map<Seq<char>, ValueModel>),
}

impl View for StoreValue {
    type V = ValueModel;

    open spec fn view(&self) -> ValueModel
        decreases self,
    {
        match self {
            StoreValue::Null => ValueModel::Null,
            StoreValue::Bool(b) => ValueModel::Bool(*b),
            StoreValue::Int(i) => ValueModel::Int(*i as int),
            StoreValue::Text(s) => ValueModel::Text(s@),
            StoreValue::Array(a) => ValueModel::Array(
                Seq::new(
                    a@.len(),
                    |i: int|
                        if 0 <= i < a@.len() {
                            a@[i]@
                        } else {
                            ValueModel::Null
                        },
                ),
            ),
            StoreValue::Object(m) => ValueModel::Object(entries_content(m@)),
        }
    }
}

/// The mapping denoted by a sequence of map entries: later entries override
/// earlier ones with the same key.
pub open spec fn entries_content(entries: Seq<(String, StoreValue)>) -> Map<Seq<char>, ValueModel>
    decreases entries,
{
    if entries.len() == 0 {
        Map::empty()
    } else {
        entries_content(entries.subrange(0, entries.len() - 1))
            .insert(entries[entries.len() - 1].0@, entries[entries.len() - 1].1@)
    }
}

/// How deep a value's containers nest: a scalar stands at depth zero, and
/// an array or map stands one above its deepest element. The structural
/// decoder refuses a text past a fixed nesting depth, so the codec's
/// round-trip promise is bounded by this measure.
pub open spec fn depth_of(v: StoreValue) -> nat
    decreases v,
{
    match v {
        StoreValue::Null => 0,
        StoreValue::Bool(_) => 0,
        StoreValue::Int(_) => 0,
        StoreValue::Text(_) => 0,
        StoreValue::Array(a) => 1 + depth_of_list(a@),
        StoreValue::Object(m) => 1 + depth_of_entries(m@),
    }
}

/// The deepest element of a sequence of values; zero for an empty one.
pub open spec fn depth_of_list(items: Seq<StoreValue>) -> nat
    decreases items,
{
    if items.len() == 0 {
        0
    } else {
        let rest = depth_of_list(items.subrange(0, items.len() - 1));
        let last = depth_of(items[items.len() - 1]);
        if last > rest {
            last
        } else {
            rest
        }
    }
}

/// The deepest value of a sequence of map entries; zero for an empty one.
pub open spec fn depth_of_entries(entries: Seq<(String, StoreValue)>) -> nat
    decreases entries,
{
    if entries.len() == 0 {
        0
    } else {
        let rest = depth_of_entries(entries.subrange(0, entries.len() - 1));
        let last = depth_of(entries[entries.len() - 1].1);
        if last > rest {
            last
        } else {
            rest
        }
    }
}

/// A sequence of map entries with no repeated key.
pub open spec fn unique_keys(entries: Seq<(String, StoreValue)>) -> bool {
    forall|i: int, j: int| 0 <= i < j < entries.len() ==> entries[i].0@ != entries[j].0@
}

/// A key stands in the denoted mapping exactly when some entry carries it.
pub proof fn lemma_entries_content_domain(entries: Seq<(String, StoreValue)>)
    ensures
        forall|k: Seq<char>|
            entries_content(entries).contains_key(k) <==> exists|i: int|
                0 <= i < entries.len() && (#[trigger] entries[i]).0@ == k,
    decreases entries.len(),
{
    if entries.len() > 0 {
        let fore = entries.subrange(0, entries.len() - 1);
        let last = entries.len() - 1;
        lemma_entries_content_domain(fore);
        assert(entries_content(entries) == entries_content(fore).insert(
            entries[last].0@,
            entries[last].1@,
        ));
        assert forall|k: Seq<char>|
            entries_content(entries).contains_key(k) <==> exists|i: int|
                0 <= i < entries.len() && (#[trigger] entries[i]).0@ == k by {
            if entries_content(entries).contains_key(k) {
                if entries[last].0@ == k {
                    assert(0 <= last < entries.len() && entries[last].0@ == k);
                } else {
                    assert(entries_content(fore).contains_key(k));
                    let i = choose|i: int| 0 <= i < fore.len() && (#[trigger] fore[i]).0@ == k;
                    assert(entries[i] == fore[i]);
                    assert(0 <= i < entries.len() && entries[i].0@ == k);
                }
            }
            if exists|i: int| 0 <= i < entries.len() && (#[trigger] entries[i]).0@ == k {
                let i = choose|i: int| 0 <= i < entries.len() && (#[trigger] entries[i]).0@ == k;
                if i < last {
                    assert(fore[i] == entries[i]);
                    assert(fore[i].0@ == k);
                    assert(entries_content(fore).contains_key(k));
                }
                assert(entries_content(entries).contains_key(k));
            }
        }
    }
}

/// With no repeated key, each entry's value is the one its key is mapped
/// to.
pub proof fn lemma_entries_content_at(entries: Seq<(String, StoreValue)>)
    requires
        unique_keys(entries),
    ensures
        forall|i: int|
            0 <= i < entries.len() ==> entries_content(entries).contains_key(
                (#[trigger] entries[i]).0@,
            ) && entries_content(entries)[entries[i].0@] == entries[i].1@,
    decreases entries.len(),
{
    if entries.len() > 0 {
        let fore = entries.subrange(0, entries.len() - 1);
        assert(unique_keys(fore)) by {
            assert forall|i: int, j: int|
                0 <= i < j < fore.len() implies (#[trigger] fore[i]).0@ != (
            #[trigger] fore[j]).0@ by {
                assert(entries[i].0@ != entries[j].0@);
            }
        }
        lemma_entries_content_at(fore);
        let last = entries.len() - 1;
        assert(entries_content(entries) == entries_content(fore).insert(
            entries[last].0@,
            entries[last].1@,
        ));
        assert forall|i: int|
            0 <= i < entries.len() implies entries_content(entries).contains_key(
                (#[trigger] entries[i]).0@,
            ) && entries_content(entries)[entries[i].0@] == entries[i].1@ by {
            if i < last {
                assert(fore[i] == entries[i]);
                assert(entries_content(fore).contains_key(fore[i].0@) && entries_content(fore)[
                    fore[i].0@] == fore[i].1@);
                assert(entries[i].0@ != entries[last].0@);
            }
        }
    }
}

} // verus!
