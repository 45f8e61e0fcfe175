//! A client's request to store data, as the account manager reads it.

use crate::error::ClientError;
use crate::personas::account::Account;
use crate::types::{MessageId, XorName};
use vstd::prelude::*;

verus! {

/// The type tag of the structured data whose put creates an account.
pub const ACCOUNT_TAG: u64 = 0;

/// The kind of data that a put carries.
#[derive(Clone, Copy, Debug, PartialEq, Eq, Structural)]
pub enum DataKind {
    Immutable,
    Structured { type_tag: u64 },
}

/// A put as it came from a client.
#[derive(Debug, PartialEq, Eq)]
pub struct PutRequest {
    /// The public signing key of the client that sent it.
    pub client_key: Vec<u8>,
    /// The client manager it was sent to.
    pub manager: XorName,
    pub kind: DataKind,
    /// The name of the data, which decides who stores it.
    pub data_name: XorName,
    pub message_id: MessageId,
    /// The whole request as it stood on the wire.
    pub encoded: Vec<u8>,
}

/// A request as plain values.
pub ghost struct PutRequestView {
    pub client_key: Seq<u8>,
    pub manager: Seq<u8>,
    pub kind: DataKind,
    pub data_name: Seq<u8>,
    pub message_id: Seq<u8>,
    pub encoded: Seq<u8>,
}

impl View for PutRequest {
    type V = PutRequestView;

    open spec fn view(&self) -> PutRequestView {
        PutRequestView {
            client_key: self.client_key@,
            manager: self.manager@,
            kind: self.kind,
            data_name: self.data_name@,
            message_id: self.message_id@,
            encoded: self.encoded@,
        }
    }
}

impl Clone for PutRequest {
    fn clone(&self) -> (copy: PutRequest)
        ensures
            copy@ == self@,
    {
        PutRequest {
            client_key: self.client_key.clone(),
            manager: self.manager,
            kind: self.kind,
            data_name: self.data_name,
            message_id: self.message_id,
            encoded: self.encoded.clone(),
        }
    }
}

/// What the caller has to send after a request or a response was handled.
#[derive(Debug, PartialEq, Eq)]
pub enum Action {
    /// Hand the data of `request` on to the managers of its name.
    ForwardPut { request: PutRequest },
    /// Tell the client that its data is stored.
    PutSuccess { request: PutRequest, digest: [u8; 64] },
    /// Tell the client that its put failed, and why.
    PutFailure { request: PutRequest, error: ClientError },
    /// Tell the close group of `name` what its account holds.
    Refresh { name: XorName, account: Account },
}

} // verus!
