//! Errors handed back to clients and errors kept inside the vault.

use crate::types::MessageId;
use vstd::prelude::*;

verus! {

/// What a client is told when its request is turned down.
#[derive(Clone, Copy, Debug, PartialEq, Eq, Structural)]
pub enum ClientError {
    NoSuchAccount,
    AccountExists,
    NoSuchData,
    DataExists,
    LowBalance,
}

/// What went wrong inside the vault while a message was handled.
#[derive(Clone, Copy, Debug, PartialEq, Eq)]
pub enum InternalError {
    /// A response came for a request that is not, or no longer, waiting.
    FailedToFindCachedRequest(MessageId),
    /// The request was turned down, and the client was told so.
    Client(ClientError),
    /// What came with a message could not be decoded.
    Serialisation,
    /// The chunk store could not keep what it was given.
    ChunkStore,
}

} // verus!
