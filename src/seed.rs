//! Address seeds: where each new record will live.
use vstd::prelude::*;
use crate::hashing::{field_hashv_of, hashv_to_field_size};
use crate::record::{key_byte, AccountKey};

verus! {

/// This program's identity, `GraphUyqhPmEAckWzi7zAvbvUTXf8kqX7JtuvdGYRDRh`.
pub const ID: [u8; 32] = [
    235, 147, 1, 178, 55, 188, 145, 41, 206, 173, 207, 11, 57, 167, 178, 79, 72, 117, 163, 9, 64,
    161, 154, 209, 206, 201, 55, 237, 159, 141, 211, 216,
];

/// What a seed is hashed from: the program's identity, the kind's byte, and
/// the caller's random bytes.
pub open spec fn seed_input(account_key: AccountKey, asset_id: Seq<u8>) -> Seq<u8> {
    ID@ + seq![key_byte(account_key)] + asset_id
}

/// The seed of a record of the given kind, made from the caller's bytes.
pub open spec fn account_seed(account_key: AccountKey, asset_id: Seq<u8>) -> Seq<u8> {
    field_hashv_of(seq![seed_input(account_key, asset_id)])
}

pub fn get_account_seed(account_key: AccountKey, asset_id: &[u8; 32]) -> (r: [u8; 32])
    ensures
        r@ == account_seed(account_key, asset_id@),
        r[0] == 0,
{
    let mut input: Vec<u8> = Vec::new();
    let mut i: usize = 0;
    while i < 32
        invariant
            i <= 32,
            input@ == ID@.subrange(0, i as int),
        decreases 32 - i,
    {
        input.push(ID[i]);
        i = i + 1;
        assert(input@ =~= ID@.subrange(0, i as int));
    }
    input.push(account_key.to_byte());
    let mut j: usize = 0;
    let ghost head = input@;
    while j < 32
        invariant
            j <= 32,
            input@ == head + asset_id@.subrange(0, j as int),
        decreases 32 - j,
    {
        input.push(asset_id[j]);
        j = j + 1;
        assert(input@ =~= head + asset_id@.subrange(0, j as int));
    }
    assert(ID@.subrange(0, 32) =~= ID@);
    assert(asset_id@.subrange(0, 32) =~= asset_id@);
    assert(input@ =~= seed_input(account_key, asset_id@));
    hashv_to_field_size(input.as_slice())
}

/// Seeds are hashed from distinct inputs whenever the kinds or the random
/// bytes differ: two records can share a seed only through a collision of the
/// hash itself.
pub proof fn lemma_seed_inputs_distinct(
    k1: AccountKey,
    a1: Seq<u8>,
    k2: AccountKey,
    a2: Seq<u8>,
)
    requires
        a1.len() == 32,
        a2.len() == 32,
        k1 != k2 || a1 != a2,
    ensures
        seed_input(k1, a1) != seed_input(k2, a2),
{
    if seed_input(k1, a1) == seed_input(k2, a2) {
        assert(seed_input(k1, a1)[32] == key_byte(k1));
        assert(seed_input(k2, a2)[32] == key_byte(k2));
        assert(k1 == k2);
        assert(a1 =~= seed_input(k1, a1).subrange(33, 65));
        assert(a2 =~= seed_input(k2, a2).subrange(33, 65));
    }
}

} // verus!
