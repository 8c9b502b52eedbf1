use vstd::prelude::*;

use crate::codec::decode_value;
use crate::codec::encode_value;
use crate::codec::json_text_of;
use crate::codec::json_value_of;
use crate::codec::within_decode_depth;
use crate::value::StoreValue;
use crate::StoreError;

verus! {

/// The single write a `put` issues: a plain set, or an expiring set that lapses
/// after the given number of seconds. The unverified shell sends the
/// command to the store verbatim.
#[derive(Debug, Clone, PartialEq, Eq)]
pub enum WriteCommand {
    Plain { key: String, payload: String },
    Expiring { key: String, payload: String, expiry_seconds: u64 },
}

impl WriteCommand {
    /// The key the command writes under.
    pub open spec fn spec_key(self) -> Seq<char> {
        match self {
            WriteCommand::Plain { key, .. } => key@,
            WriteCommand::Expiring { key, .. } => key@,
        }
    }

    /// The text the command writes.
    pub open spec fn spec_payload(self) -> Seq<char> {
        match self {
            WriteCommand::Plain { payload, .. } => payload@,
            WriteCommand::Expiring { payload, .. } => payload@,
        }
    }

    /// The expiry the command carries: `None` for a plain set.
    pub open spec fn spec_expiry(self) -> Option<u64> {
        match self {
            WriteCommand::Plain { .. } => None,
            WriteCommand::Expiring { expiry_seconds, .. } => Some(expiry_seconds),
        }
    }
}

/// The cache client's decisions, apart from the connection it writes
/// through: which command a `put` issues, and how a fetched value is read
/// back. The default expiry is fixed at construction and applied to every
/// write for the client's lifetime.
pub struct CacheCore {
    pub default_expiry_seconds: Option<u64>,
}

impl CacheCore {
    /// A core with the given default expiry; `None` means keys persist
    /// until the store itself removes them.
    pub fn new(default_expiry_seconds: Option<u64>) -> (r: CacheCore)
        ensures
            r.default_expiry_seconds == default_expiry_seconds,
    {
        CacheCore { default_expiry_seconds }
    }

    /// The command a `put` of `value` under `key` issues: the payload is
    /// the structural encoding of `value` — which, for a value within the
    /// decoder's nesting limit, decodes back to `value`'s content — and
    /// the expiry is exactly the client's default expiry: an expiring set
    /// when one was configured, a plain set otherwise.
    pub fn plan_put(&self, key: String, value: &StoreValue) -> (cmd: WriteCommand)
        ensures
            cmd.spec_key() == key@,
            cmd.spec_payload() == json_text_of(*value),
            within_decode_depth(*value) ==> json_value_of(cmd.spec_payload()) == Some(value@),
            cmd.spec_expiry() == self.default_expiry_seconds,
    {
        let payload = encode_value(value);
        match self.default_expiry_seconds {
            Some(expiry_seconds) => WriteCommand::Expiring { key, payload, expiry_seconds },
            None => WriteCommand::Plain { key, payload },
        }
    }
}

/// Reads a fetched cache value back: an absent key is `NotFound`, a
/// present value is decoded from its structural encoding, and a value
/// whose text does not encode any content is `Decode`.
pub fn interpret_fetched(fetched: Option<String>) -> (r: Result<StoreValue, StoreError>)
    ensures
        fetched is None ==> r == Err::<StoreValue, StoreError>(StoreError::NotFound),
        fetched matches Some(raw) ==> match json_value_of(raw@) {
            Some(m) => r matches Ok(v) && v@ == m,
            None => r == Err::<StoreValue, StoreError>(StoreError::Decode),
        },
{
    match fetched {
        None => Err(StoreError::NotFound),
        Some(raw) => match decode_value(raw.as_str()) {
            Some(v) => Ok(v),
            None => Err(StoreError::Decode),
        },
    }
}

} // verus!
