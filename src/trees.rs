//! Telling the tree accounts apart: an account plays a tree role when the
//! account-compression program owns it and its data opens with the Anchor
//! discriminator of that role's account type.
use vstd::prelude::*;
use crate::compressed::{first_eight, TreeAccountKind};
use crate::hashing::{sha256, sha256_of};

verus! {

/// The bytes of "account:StateMerkleTreeAccount".
pub open spec fn state_tree_name() -> Seq<u8> {
    seq![
        97u8, 99u8, 99u8, 111u8, 117u8, 110u8, 116u8, 58u8, 83u8, 116u8, 97u8, 116u8, 101u8, 77u8,
        101u8, 114u8, 107u8, 108u8, 101u8, 84u8, 114u8, 101u8, 101u8, 65u8, 99u8, 99u8, 111u8,
        117u8, 110u8, 116u8,
    ]
}

/// The bytes of "account:AddressMerkleTreeAccount".
pub open spec fn address_tree_name() -> Seq<u8> {
    seq![
        97u8, 99u8, 99u8, 111u8, 117u8, 110u8, 116u8, 58u8, 65u8, 100u8, 100u8, 114u8, 101u8,
        115u8, 115u8, 77u8, 101u8, 114u8, 107u8, 108u8, 101u8, 84u8, 114u8, 101u8, 101u8, 65u8,
        99u8, 99u8, 111u8, 117u8, 110u8, 116u8,
    ]
}

/// The bytes of "account:QueueAccount".
pub open spec fn queue_name() -> Seq<u8> {
    seq![
        97u8, 99u8, 99u8, 111u8, 117u8, 110u8, 116u8, 58u8, 81u8, 117u8, 101u8, 117u8, 101u8, 65u8,
        99u8, 99u8, 111u8, 117u8, 110u8, 116u8,
    ]
}

/// The role of an account owned by `owner` whose data is `data`.
pub open spec fn tree_kind_of(
    owner: Seq<u8>,
    data: Seq<u8>,
    compression_program: Seq<u8>,
) -> TreeAccountKind {
    if owner != compression_program || data.len() < 8 {
        TreeAccountKind::Other
    } else if data.take(8) == sha256_of(state_tree_name()).take(8) {
        TreeAccountKind::StateTree
    } else if data.take(8) == sha256_of(address_tree_name()).take(8) {
        TreeAccountKind::AddressTree
    } else if data.take(8) == sha256_of(queue_name()).take(8) {
        TreeAccountKind::AddressQueue
    } else {
        TreeAccountKind::Other
    }
}

/// Whether `data` opens with `d`.
pub fn opens_with(data: &[u8], d: &[u8; 8]) -> (r: bool)
    ensures
        r == (data@.len() >= 8 && data@.take(8) == d@),
{
    if data.len() < 8 {
        return false;
    }
    let mut i: usize = 0;
    while i < 8
        invariant
            i <= 8,
            data@.len() >= 8,
            forall|k: int| 0 <= k < i ==> data@[k] == d@[k],
        decreases 8 - i,
    {
        if data[i] != d[i] {
            assert(data@.take(8)[i as int] != d@[i as int]);
            return false;
        }
        i = i + 1;
    }
    assert(data@.take(8) =~= d@);
    true
}

/// Keys are equal byte for byte.
pub fn same_key(a: &[u8; 32], b: &[u8; 32]) -> (r: bool)
    ensures
        r == (a@ == b@),
{
    let mut i: usize = 0;
    while i < 32
        invariant
            i <= 32,
            forall|k: int| 0 <= k < i ==> a@[k] == b@[k],
        decreases 32 - i,
    {
        if a[i] != b[i] {
            return false;
        }
        i = i + 1;
    }
    assert(a@ =~= b@);
    true
}

/// The role of an account, from its owner and its data.
pub fn classify_tree_account(
    owner: &[u8; 32],
    data: &[u8],
    compression_program: &[u8; 32],
) -> (r: TreeAccountKind)
    ensures
        r == tree_kind_of(owner@, data@, compression_program@),
{
    if !same_key(owner, compression_program) || data.len() < 8 {
        return TreeAccountKind::Other;
    }
    let state = [
        97u8, 99u8, 99u8, 111u8, 117u8, 110u8, 116u8, 58u8, 83u8, 116u8, 97u8, 116u8, 101u8, 77u8,
        101u8, 114u8, 107u8, 108u8, 101u8, 84u8, 114u8, 101u8, 101u8, 65u8, 99u8, 99u8, 111u8,
        117u8, 110u8, 116u8,
    ];
    assert(state@ =~= state_tree_name());
    if opens_with(data, &first_eight(&sha256(&state))) {
        return TreeAccountKind::StateTree;
    }
    let address = [
        97u8, 99u8, 99u8, 111u8, 117u8, 110u8, 116u8, 58u8, 65u8, 100u8, 100u8, 114u8, 101u8,
        115u8, 115u8, 77u8, 101u8, 114u8, 107u8, 108u8, 101u8, 84u8, 114u8, 101u8, 101u8, 65u8,
        99u8, 99u8, 111u8, 117u8, 110u8, 116u8,
    ];
    assert(address@ =~= address_tree_name());
    if opens_with(data, &first_eight(&sha256(&address))) {
        return TreeAccountKind::AddressTree;
    }
    let queue = [
        97u8, 99u8, 99u8, 111u8, 117u8, 110u8, 116u8, 58u8, 81u8, 117u8, 101u8, 117u8, 101u8, 65u8,
        99u8, 99u8, 111u8, 117u8, 110u8, 116u8,
    ];
    assert(queue@ =~= queue_name());
    if opens_with(data, &first_eight(&sha256(&queue))) {
        return TreeAccountKind::AddressQueue;
    }
    TreeAccountKind::Other
}

} // verus!
