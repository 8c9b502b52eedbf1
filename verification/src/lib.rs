pub mod cache;
pub mod codec;
pub mod doc_store;
pub mod value;

use vstd::prelude::*;

verus! {

/// The failures the two store clients can surface.
///
/// `Connection`, `Query` and `Write` arise at the transport layer and are
/// produced by the unverified shell that owns the connections. The verified
/// core returns `FilterEncoding` (a filter that is not map-like),
/// `NotFound` (a key absent from the cache) and `Decode` (a fetched value
/// whose text is not a structural encoding). `Encoding` completes the
/// taxonomy for a payload that cannot be serialized; every `StoreValue`
/// has an encoding, so nothing here returns it — a caller meets it only
/// while bringing its own payload type into `StoreValue` form.
#[derive(Clone, Copy, Debug, PartialEq, Eq, Structural)]
pub enum StoreError {
    Connection,
    FilterEncoding,
    Encoding,
    Query,
    Write,
    NotFound,
    Decode,
}

} // verus!
