use vstd::prelude::*;

use crate::value::StoreValue;
use crate::value::ValueModel;
use crate::value::entries_content;
use crate::value::lemma_entries_content_at;
use crate::value::lemma_entries_content_domain;
use crate::value::unique_keys;
use crate::StoreError;

verus! {

/// The structured query a map-like filter normalizes to: the filter's own
/// entries, verbatim. Its view is the key-to-content mapping the query
/// denotes, so two queries with the same view ask the store for the same
/// records.
#[derive(Debug, PartialEq, Eq)]
pub struct Query {
    pub fields: Vec<(String, StoreValue)>,
}

impl View for Query {
    type V = Map<Seq<char>, ValueModel>;

    open spec fn view(&self) -> Map<Seq<char>, ValueModel> {
        entries_content(self.fields@)
    }
}

/// Turns a filter into the structured query that is issued for it: a
/// map-like filter yields its entries verbatim, so the query's content is
/// exactly the filter's content; any other filter cannot stand for match
/// criteria and is the caller's error.
pub fn normalize_filter(filter: StoreValue) -> (r: Result<Query, StoreError>)
    ensures
        filter matches StoreValue::Object(entries) ==> (r matches Ok(q) && q.fields@ == entries@
            && filter@ == ValueModel::Object(q@)),
        !(filter is Object) ==> r == Err::<Query, StoreError>(StoreError::FilterEncoding),
{
    match filter {
        StoreValue::Object(entries) => Ok(Query { fields: entries }),
        _ => Err(StoreError::FilterEncoding),
    }
}

/// Law: the query a filter normalizes to is determined by the filter's
/// structural content alone. Two map-like filters that hold the same
/// entries, each with no repeated key and in whatever order, denote the
/// same query content — and so, by `normalize_filter`'s contract, `find`
/// issues equivalent queries for them.
pub proof fn lemma_query_order_free(a: Seq<(String, StoreValue)>, b: Seq<(String, StoreValue)>)
    requires
        a.to_multiset() == b.to_multiset(),
        unique_keys(a),
        unique_keys(b),
    ensures
        entries_content(a) == entries_content(b),
{
    broadcast use vstd::seq_lib::group_to_multiset_ensures;

    lemma_entries_content_domain(a);
    lemma_entries_content_domain(b);
    lemma_entries_content_at(a);
    lemma_entries_content_at(b);
    assert forall|k: Seq<char>|
        entries_content(a).contains_key(k) implies entries_content(b).contains_key(k)
        && entries_content(a)[k] == entries_content(b)[k] by {
        let i = choose|i: int| 0 <= i < a.len() && (#[trigger] a[i]).0@ == k;
        let p = a[i];
        assert(a.contains(p));
        assert(a.to_multiset().count(p) > 0);
        assert(b.contains(p));
        let j = choose|j: int| 0 <= j < b.len() && b[j] == p;
        assert(b[j].0@ == k);
        assert(entries_content(b)[k] == b[j].1@);
        assert(entries_content(a)[k] == a[i].1@);
    }
    assert forall|k: Seq<char>|
        entries_content(b).contains_key(k) implies entries_content(a).contains_key(k) by {
        let j = choose|j: int| 0 <= j < b.len() && (#[trigger] b[j]).0@ == k;
        let p = b[j];
        assert(b.contains(p));
        assert(b.to_multiset().count(p) > 0);
        assert(a.contains(p));
        let i = choose|i: int| 0 <= i < a.len() && a[i] == p;
        assert(a[i].0@ == k);
    }
    assert(entries_content(a) =~= entries_content(b));
}

/// The records that decoded, in their stored order.
pub open spec fn decoded_of<T>(s: Seq<Option<T>>) -> Seq<T>
    decreases s.len(),
{
    if s.len() == 0 {
        Seq::empty()
    } else {
        match s[0] {
            Option::Some(t) => seq![t] + decoded_of(s.subrange(1, s.len() as int)),
            Option::None => decoded_of(s.subrange(1, s.len() as int)),
        }
    }
}

/// Keeps, in order, exactly the records that decoded. A record that failed
/// to decode (held as `None`) is dropped silently and never raises an
/// error: a partial result is preferred over a total failure.
pub fn keep_decoded<T>(items: Vec<Option<T>>) -> (r: Vec<T>)
    ensures
        r@ == decoded_of(items@),
{
    let mut rest = items;
    let mut out: Vec<T> = Vec::new();
    while rest.len() > 0
        invariant
            decoded_of(items@) == out@ + decoded_of(rest@),
        decreases rest.len(),
    {
        let ghost before = rest@;
        let head = rest.remove(0);
        proof {
            assert(rest@ =~= before.subrange(1, before.len() as int));
        }
        match head {
            Option::Some(t) => {
                let ghost out_before = out@;
                out.push(t);
                proof {
                    assert(out@ + decoded_of(rest@) =~= out_before + (seq![t] + decoded_of(
                        rest@,
                    )));
                }
            },
            Option::None => {},
        }
    }
    proof {
        assert(decoded_of(rest@) =~= Seq::<T>::empty());
        assert(out@ + decoded_of(rest@) =~= out@);
    }
    out
}

} // verus!
