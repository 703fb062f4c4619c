//! What every record shares: its kind tag, its update authority, and the
//! one-element commitment lists that its fields hash into.
use vstd::prelude::*;
use crate::hashing::{
    be_value, bn254_modulus, field_hash_of, hash_to_field_size, lemma_leading_zero_in_field,
};

verus! {

/// The bytes of each row.
pub open spec fn rows_view(rows: Seq<Vec<u8>>) -> Seq<Seq<u8>> {
    rows.map_values(|v: Vec<u8>| v@)
}

/// The commitment list of a field whose stored bytes are `b`: their one
/// field-sized hash.
pub open spec fn commitment(b: Seq<u8>) -> Seq<Seq<u8>> {
    seq![field_hash_of(b)]
}

/// A single value of 32 bytes with a zero leading byte, and so below the
/// field's order.
pub open spec fn one_field_value(rows: Seq<Seq<u8>>) -> bool {
    &&& rows.len() == 1
    &&& rows[0].len() == 32
    &&& rows[0][0] == 0
    &&& be_value(rows[0]) < bn254_modulus()
}

/// The bytes of a 32-byte array, as a vector.
pub fn array_to_vec(a: &[u8; 32]) -> (r: Vec<u8>)
    ensures
        r@ == a@,
{
    vstd::slice::slice_to_vec(a.as_slice())
}

/// Hashes `b` into the field and gives the hash as a one-element list.
pub fn field_commitment(b: &[u8]) -> (r: Vec<Vec<u8>>)
    ensures
        rows_view(r@) == commitment(b@),
        one_field_value(rows_view(r@)),
{
    let (h, _) = hash_to_field_size(b).unwrap();
    proof {
        lemma_leading_zero_in_field(h@);
    }
    let r = vec![array_to_vec(&h)];
    assert(rows_view(r@) =~= commitment(b@));
    r
}

/// The kind of a record; the first byte of its layout.
#[derive(Clone, Copy, Debug, PartialEq, Eq, Structural, Default)]
pub enum AccountKey {
    #[default]
    NodeV1,
    EdgeV1,
}

pub open spec fn key_byte(k: AccountKey) -> u8 {
    match k {
        AccountKey::NodeV1 => 0,
        AccountKey::EdgeV1 => 1,
    }
}

impl AccountKey {
    /// The stored byte of the tag.
    pub fn to_byte(&self) -> (r: u8)
        ensures
            r == key_byte(*self),
    {
        match self {
            AccountKey::NodeV1 => 0,
            AccountKey::EdgeV1 => 1,
        }
    }

    /// The tag's layout: one byte.
    pub fn try_to_vec(&self) -> (r: Vec<u8>)
        ensures
            r@ == seq![key_byte(*self)],
    {
        let r = vec![self.to_byte()];
        assert(r@ =~= seq![key_byte(*self)]);
        r
    }

    /// The tag's commitment: the field-sized hash of its layout.
    pub fn as_byte_vec(&self) -> (r: Vec<Vec<u8>>)
        ensures
            rows_view(r@) == commitment(seq![key_byte(*self)]),
            one_field_value(rows_view(r@)),
    {
        let b = self.try_to_vec();
        field_commitment(b.as_slice())
    }
}

/// Who may update a record: nobody, or the holder of one key.
#[derive(Clone, Copy, Debug, PartialEq, Eq, Default)]
pub enum UpdateAuthority {
    #[default]
    Unset,
    Address([u8; 32]),
}

/// The layout of an update authority: a variant byte, then the key if any.
pub open spec fn authority_bytes(a: UpdateAuthority) -> Seq<u8> {
    match a {
        UpdateAuthority::Unset => seq![0u8],
        UpdateAuthority::Address(k) => seq![1u8] + k@,
    }
}

impl UpdateAuthority {
    pub fn try_to_vec(&self) -> (r: Vec<u8>)
        ensures
            r@ == authority_bytes(*self),
    {
        match self {
            UpdateAuthority::Unset => {
                let r = vec![0u8];
                assert(r@ =~= authority_bytes(*self));
                r
            },
            UpdateAuthority::Address(k) => {
                let mut r = vec![1u8];
                let kv = array_to_vec(k);
                let mut i: usize = 0;
                while i < 32
                    invariant
                        i <= 32,
                        kv@ == k@,
                        r@ == seq![1u8] + k@.subrange(0, i as int),
                    decreases 32 - i,
                {
                    r.push(kv[i]);
                    i = i + 1;
                    assert(r@ =~= seq![1u8] + k@.subrange(0, i as int));
                }
                assert(k@.subrange(0, 32) =~= k@);
                r
            },
        }
    }

    /// The authority's commitment: the field-sized hash of its layout.
    pub fn as_byte_vec(&self) -> (r: Vec<Vec<u8>>)
        ensures
            rows_view(r@) == commitment(authority_bytes(*self)),
            one_field_value(rows_view(r@)),
    {
        let b = self.try_to_vec();
        field_commitment(b.as_slice())
    }
}

} // verus!
