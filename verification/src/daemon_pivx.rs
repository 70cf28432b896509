//! The pivxd RPC adapter.

use vstd::prelude::*;
use vstd::string::StringExecFns;
use crate::daemon::Daemon;
use crate::json::JsonValue;

verus! {

/// A daemon connection used through pivxd's own RPC calls.
pub struct PivxDaemon {
    pub inner: Daemon,
}

impl PivxDaemon {
    /// Wraps a daemon connection.
    pub fn new(inner: Daemon) -> (r: Self)
        ensures
            r.inner == inner,
    {
        Self { inner }
    }
}

/// Why a `getblockhash` reply is unusable.
#[derive(Debug, Clone, Copy, PartialEq, Eq, Structural)]
pub enum BlockHashReplyError {
    /// The reply is not a string.
    NotAString,
}

/// The block hash in a `getblockhash` reply, which must be a string.
pub fn block_hash_from_reply(v: &JsonValue) -> (r: Result<String, BlockHashReplyError>)
    ensures
        v is Str <==> r is Ok,
        r matches Ok(s) ==> Some(s@) == v.spec_as_str(),
        r matches Err(e) ==> e == BlockHashReplyError::NotAString,
{
    match v.as_str() {
        Some(s) => Ok(String::from_str(s)),
        None => Err(BlockHashReplyError::NotAString),
    }
}

} // verus!
