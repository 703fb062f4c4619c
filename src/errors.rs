//! Why an instruction is refused.
use vstd::prelude::*;

verus! {

#[derive(Clone, Copy, Debug, PartialEq, Eq, Structural)]
pub enum ZkNftError {
    /// An edge would join a node to itself.
    SelfReferenceNotAllowed,
    /// The account at position 0 is not a state tree.
    InvalidOutputTree,
    /// The account at position 1 is not an address tree.
    InvalidAddressTree,
    /// The account at position 2 is not an address queue.
    InvalidAddressQueue,
    /// A context names an account position past the end of the list.
    AccountIndexOutOfBounds,
    /// The record's fields could not be hashed.
    HashingFailed,
}

} // verus!
