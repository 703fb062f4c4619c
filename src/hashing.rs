//! The hash functions that commitments, seeds, addresses and discriminators
//! are made with. Each is computed by Light Protocol's crates; here each result
//! has a name, and the facts that their sources show stand beside it.
use vstd::prelude::*;

verus! {

/// The Keccak-256 hash of `b` with a bump byte, its leading byte cleared, as
/// `light_utils::hash_to_bn254_field_size_be` computes it.
pub uninterp spec fn field_hash_of(b: Seq<u8>) -> Seq<u8>;

/// The Keccak-256 hash of the concatenated `parts`, its leading byte cleared,
/// as `light_utils::hashv_to_bn254_field_size_be` computes it.
pub uninterp spec fn field_hashv_of(parts: Seq<Seq<u8>>) -> Seq<u8>;

/// The Poseidon (circom, BN254) hash of `inputs`, each read as a big-endian
/// field element, as `light_hasher::Poseidon::hashv` computes it.
pub uninterp spec fn poseidon_of(inputs: Seq<Seq<u8>>) -> Seq<u8>;

/// The SHA-256 digest of `b`, as `light_hasher::Sha256::hash` computes it.
pub uninterp spec fn sha256_of(b: Seq<u8>) -> Seq<u8>;

/// The number that bytes spell, most significant first.
pub open spec fn be_value(b: Seq<u8>) -> nat
    decreases b.len(),
{
    if b.len() == 0 {
        0
    } else {
        be_value(b.drop_last()) * 256 + b.last() as nat
    }
}

/// The order of BN254's scalar field.
pub open spec fn bn254_modulus() -> nat {
    21888242871839275222246405745257275088548364400416711922624115095282011495617nat
}

pub open spec fn pow256(n: nat) -> nat
    decreases n,
{
    if n == 0 {
        1
    } else {
        pow256((n - 1) as nat) * 256
    }
}

proof fn lemma_be_value_bound(b: Seq<u8>)
    ensures
        be_value(b) < pow256(b.len()),
    decreases b.len(),
{
    if b.len() > 0 {
        lemma_be_value_bound(b.drop_last());
        let v = be_value(b.drop_last());
        let p = pow256(b.drop_last().len());
        assert(v * 256 + (b.last() as nat) < p * 256) by (nonlinear_arith)
            requires
                v < p,
                b.last() < 256,
        ;
    }
}

proof fn lemma_be_value_skip_zero(b: Seq<u8>)
    requires
        b.len() > 0,
        b[0] == 0,
    ensures
        be_value(b) == be_value(b.drop_first()),
    decreases b.len(),
{
    if b.len() > 1 {
        lemma_be_value_skip_zero(b.drop_last());
        assert(b.drop_last().drop_first() =~= b.drop_first().drop_last());
        assert(b.drop_first().last() == b.last());
        assert(be_value(b) == be_value(b.drop_last()) * 256 + b.last() as nat);
        assert(be_value(b.drop_first()) == be_value(b.drop_first().drop_last()) * 256
            + b.drop_first().last() as nat);
    } else {
        assert(b.drop_last().len() == 0);
        assert(b.drop_first().len() == 0);
        assert(b.last() == 0);
        assert(be_value(b.drop_last()) == 0);
        assert(be_value(b.drop_first()) == 0);
        assert(be_value(b) == be_value(b.drop_last()) * 256 + b.last() as nat);
    }
}

/// Thirty-two bytes that open with a zero byte spell a number below the
/// field's order.
pub proof fn lemma_leading_zero_in_field(b: Seq<u8>)
    requires
        b.len() == 32,
        b[0] == 0,
    ensures
        be_value(b) < bn254_modulus(),
{
    lemma_be_value_skip_zero(b);
    lemma_be_value_bound(b.drop_first());
    reveal_with_fuel(pow256, 32);
    assert(pow256(31) == 452312848583266388373324160190187140051835877600158453279131187530910662656nat);
}

/// The Poseidon hasher takes these inputs: one to twelve of them, each at
/// most 32 bytes, each below the field's order when read most significant
/// byte first.
pub open spec fn poseidon_accepts(inputs: Seq<Seq<u8>>) -> bool {
    &&& 1 <= inputs.len() <= 12
    &&& forall|i: int|
        #![trigger inputs[i]]
        0 <= i < inputs.len() ==> inputs[i].len() <= 32 && be_value(inputs[i]) < bn254_modulus()
}

#[verifier::external_type_specification]
#[verifier::external_body]
pub struct ExHasherError(light_hasher::errors::HasherError);

/// Relies on `light_utils::hash_to_bn254_field_size_be`. Its first attempt,
/// with bump 255, clears the leading byte, which puts the value below the
/// BN254 modulus, so that attempt is returned.
#[verifier::external_body]
pub(crate) fn hash_to_field_size(b: &[u8]) -> (r: Option<([u8; 32], u8)>)
    ensures
        r is Some,
        r->Some_0.0@ == field_hash_of(b@),
        r->Some_0.0[0] == 0,
        r->Some_0.1 == 255,
{
    light_utils::hash_to_bn254_field_size_be(b)
}

/// Relies on `light_utils::hashv_to_bn254_field_size_be`, called on a single
/// part: the truncated Keccak-256 hash of `b`.
#[verifier::external_body]
pub(crate) fn hashv_to_field_size(b: &[u8]) -> (r: [u8; 32])
    ensures
        r@ == field_hashv_of(seq![b@]),
        r[0] == 0,
{
    light_utils::hashv_to_bn254_field_size_be(&[b])
}

/// Relies on `light_hasher::Poseidon::hashv`: it pads each input to 32 bytes
/// and refuses a longer one; `light_poseidon` then refuses a padded input at or
/// above the field's order and a count of inputs outside one to twelve. What
/// it returns is the Poseidon hash, a field element written in 32 bytes, most
/// significant first.
#[verifier::external_body]
pub(crate) fn poseidon_hashv(inputs: &Vec<Vec<u8>>) -> (r: Result<
    [u8; 32],
    light_hasher::errors::HasherError,
>)
    ensures
        r is Ok <==> poseidon_accepts(inputs@.map_values(|v: Vec<u8>| v@)),
        r is Ok ==> r->Ok_0@ == poseidon_of(inputs@.map_values(|v: Vec<u8>| v@)),
        r is Ok ==> be_value(r->Ok_0@) < bn254_modulus(),
{
    let parts: Vec<&[u8]> = inputs.iter().map(|v| v.as_slice()).collect();
    <light_hasher::Poseidon as light_hasher::Hasher>::hashv(&parts)
}

/// Relies on `light_hasher::Sha256::hash`, which off-chain and on-chain always
/// returns the digest.
#[verifier::external_body]
pub(crate) fn sha256(b: &[u8]) -> (r: [u8; 32])
    ensures
        r@ == sha256_of(b@),
{
    <light_hasher::Sha256 as light_hasher::Hasher>::hash(b).unwrap()
}

/// Relies on `light_sdk::address::derive_address`: the field-sized hash of the
/// address tree's key followed by the seed, whose leading byte is cleared; the
/// queue's key is not read.
#[verifier::external_body]
pub(crate) fn derive_address(seed: &[u8; 32], tree: &[u8; 32], queue: &[u8; 32]) -> (r: [u8; 32])
    ensures
        r@ == field_hash_of(tree@ + seed@),
        r[0] == 0,
{
    let context = light_sdk::merkle_context::AddressMerkleContext {
        address_merkle_tree_pubkey: anchor_lang::solana_program::pubkey::Pubkey::new_from_array(
            *tree,
        ),
        address_queue_pubkey: anchor_lang::solana_program::pubkey::Pubkey::new_from_array(*queue),
    };
    light_sdk::address::derive_address(seed, &context)
}

} // verus!
