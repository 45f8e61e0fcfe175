//! Names of nodes, clients and data, and the identifiers of messages.

use vstd::prelude::*;

verus! {

/// Bytes in a name.
pub const XOR_NAME_LEN: usize = 64;

/// A point of the network's address space.
#[derive(Clone, Copy, Debug, PartialEq, Eq, Hash)]
pub struct XorName(pub [u8; 64]);

impl View for XorName {
    type V = Seq<u8>;

    open spec fn view(&self) -> Seq<u8> {
        self.0@
    }
}

impl XorName {
    /// Whether two names are the same point.
    pub fn same(&self, other: &XorName) -> (equal: bool)
        ensures
            equal == (self@ == other@),
    {
        same_bytes(&self.0, &other.0)
    }
}

/// What tells one request from another.
#[derive(Clone, Copy, Debug, PartialEq, Eq, Hash)]
pub struct MessageId(pub [u8; 64]);

impl View for MessageId {
    type V = Seq<u8>;

    open spec fn view(&self) -> Seq<u8> {
        self.0@
    }
}

impl MessageId {
    /// Whether two identifiers name the same request.
    pub fn same(&self, other: &MessageId) -> (equal: bool)
        ensures
            equal == (self@ == other@),
    {
        same_bytes(&self.0, &other.0)
    }
}

/// Whether two arrays hold the same bytes.
pub fn same_bytes(left: &[u8; 64], right: &[u8; 64]) -> (equal: bool)
    ensures
        equal == (left@ == right@),
{
    let mut i: usize = 0;
    while i < 64
        invariant
            i <= 64,
            forall|j: int| 0 <= j < i ==> left@[j] == right@[j],
        decreases 64 - i,
    {
        if left[i] != right[i] {
            return false;
        }
        i += 1;
    }
    assert(left@ =~= right@);
    true
}

} // verus!
