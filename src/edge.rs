//! Directed relationships between two nodes, named by their identifiers.
use vstd::prelude::*;
use vstd::utf8::encode_utf8;
use crate::codec::{
    bool_byte, bytes_field, push_bytes, push_str, push_u16, str_field, try_list_of_bytes, u16_le,
};
use crate::compressed::{first_eight, CompressedRecord};
use crate::hashing::sha256;
use crate::node::{
    append_rows, counter_row, decode_properties, encode_properties, flag_row, properties_fit,
    properties_layout, properties_of_bytes, properties_view, property_reader, push_key, text_fits,
    try_decode_properties, Properties,
};
use crate::record::{
    authority_bytes, commitment, field_commitment, key_byte, one_field_value, rows_view, AccountKey,
    UpdateAuthority,
};

verus! {

/// What a caller gives to create an edge.
#[derive(Clone, Debug, PartialEq, Eq)]
pub struct EdgeArgs {
    pub source_node: String,
    pub target_node: String,
    pub properties: Vec<Properties>,
    pub is_mutable: bool,
}

/// Every length in the arguments can be stored in four bytes.
pub open spec fn edge_args_fit(a: EdgeArgs) -> bool {
    &&& text_fits(a.source_node@)
    &&& text_fits(a.target_node@)
    &&& properties_fit(properties_view(a.properties@))
    &&& properties_layout(properties_view(a.properties@)).len() <= u32::MAX
}

/// An edge's properties, kept in their stored form.
#[derive(Clone, Debug, Default)]
pub struct EdgeData {
    pub properties_bytes: Vec<u8>,
}

pub open spec fn edge_data_bytes(d: EdgeData) -> Seq<u8> {
    bytes_field(d.properties_bytes@)
}

impl EdgeData {
    pub fn new(properties: &Vec<Properties>) -> (r: Self)
        requires
            properties_fit(properties_view(properties@)),
        ensures
            r.properties_bytes@ == properties_layout(properties_view(properties@)),
    {
        EdgeData { properties_bytes: encode_properties(properties) }
    }

    /// The stored properties; the empty list where the blob is malformed.
    pub fn get_properties(&self) -> (r: Vec<Properties>)
        ensures
            properties_view(r@) == properties_of_bytes(self.properties_bytes@),
    {
        decode_properties(self.properties_bytes.as_slice())
    }

    /// The stored properties, or `None` where the blob is malformed.
    pub fn try_properties(&self) -> (r: Option<Vec<Properties>>)
        ensures
            r matches Some(v) ==> try_list_of_bytes(self.properties_bytes@, property_reader())
                == Some(properties_view(v@)),
            r is None <==> try_list_of_bytes(self.properties_bytes@, property_reader()) is None,
    {
        try_decode_properties(self.properties_bytes.as_slice())
    }

    pub fn try_to_vec(&self) -> (r: Vec<u8>)
        requires
            self.properties_bytes@.len() <= u32::MAX,
        ensures
            r@ == edge_data_bytes(*self),
    {
        let mut b: Vec<u8> = Vec::new();
        push_bytes(&mut b, self.properties_bytes.as_slice());
        assert(b@ =~= edge_data_bytes(*self));
        b
    }

    /// The blob's commitment: the field-sized hash of its layout.
    pub fn as_byte_vec(&self) -> (r: Vec<Vec<u8>>)
        requires
            self.properties_bytes@.len() <= u32::MAX,
        ensures
            rows_view(r@) == commitment(edge_data_bytes(*self)),
            one_field_value(rows_view(r@)),
    {
        let b = self.try_to_vec();
        field_commitment(b.as_slice())
    }
}

/// An edge as it is stored.
#[derive(Clone, Debug, Default)]
pub struct EdgeV1 {
    pub key: AccountKey,
    pub source_node: String,
    pub target_node: String,
    pub edge_data: EdgeData,
    pub is_mutable: bool,
    pub owner: [u8; 32],
    pub update_authority: UpdateAuthority,
    pub initialized_plugins: u16,
}

/// The stored form of an edge: its fields in order.
pub open spec fn edge_bytes(e: EdgeV1) -> Seq<u8> {
    seq![key_byte(e.key)] + str_field(e.source_node@) + str_field(e.target_node@) + edge_data_bytes(
        e.edge_data,
    ) + seq![bool_byte(e.is_mutable)] + e.owner@ + authority_bytes(e.update_authority) + u16_le(
        e.initialized_plugins,
    )
}

/// The inputs of an edge's hash, one per field: the tag, both identifiers,
/// the blob and the authority by their field-sized hashes, the flag by one
/// byte, the owner by its 32 bytes and the counter by two. The owner goes in
/// unreduced, so an owner key at or above the field's order makes the hash
/// refuse the edge.
pub open spec fn edge_hash_inputs(e: EdgeV1) -> Seq<Seq<u8>> {
    commitment(seq![key_byte(e.key)]) + commitment(encode_utf8(e.source_node@)) + commitment(
        encode_utf8(e.target_node@),
    ) + commitment(edge_data_bytes(e.edge_data)) + seq![seq![bool_byte(e.is_mutable)]] + seq![
        e.owner@,
    ] + commitment(authority_bytes(e.update_authority)) + seq![u16_le(e.initialized_plugins)]
}

pub open spec fn edge_fits(e: EdgeV1) -> bool {
    text_fits(e.source_node@) && text_fits(e.target_node@) && e.edge_data.properties_bytes@.len()
        <= u32::MAX
}

/// The bytes of "EdgeV1", the name its discriminator is hashed from.
pub open spec fn edge_name() -> Seq<u8> {
    seq![69u8, 100u8, 103u8, 101u8, 86u8, 49u8]
}

impl CompressedRecord for EdgeV1 {
    open spec fn spec_layout(&self) -> Seq<u8> {
        edge_bytes(*self)
    }

    open spec fn spec_hash_inputs(&self) -> Seq<Seq<u8>> {
        edge_hash_inputs(*self)
    }

    open spec fn spec_name() -> Seq<u8> {
        edge_name()
    }

    open spec fn spec_fits(&self) -> bool {
        edge_fits(*self)
    }

    fn try_to_vec(&self) -> (r: Vec<u8>) {
        let mut out = vec![self.key.to_byte()];
        push_str(&mut out, &self.source_node);
        push_str(&mut out, &self.target_node);
        let mut ed = self.edge_data.try_to_vec();
        out.append(&mut ed);
        out.push(if self.is_mutable { 1u8 } else { 0u8 });
        push_key(&mut out, &self.owner);
        let mut ua = self.update_authority.try_to_vec();
        out.append(&mut ua);
        push_u16(&mut out, self.initialized_plugins);
        assert(out@ =~= edge_bytes(*self));
        out
    }

    fn hash_inputs(&self) -> (r: Vec<Vec<u8>>) {
        let mut r = self.key.as_byte_vec();
        append_rows(&mut r, field_commitment(self.source_node.as_str().as_bytes()));
        append_rows(&mut r, field_commitment(self.target_node.as_str().as_bytes()));
        append_rows(&mut r, self.edge_data.as_byte_vec());
        append_rows(&mut r, flag_row(self.is_mutable));
        let owner_row = vec![vstd::slice::slice_to_vec(self.owner.as_slice())];
        assert(rows_view(owner_row@) =~= seq![self.owner@]);
        append_rows(&mut r, owner_row);
        append_rows(&mut r, self.update_authority.as_byte_vec());
        append_rows(&mut r, counter_row(self.initialized_plugins));
        r
    }

    fn discriminator() -> (r: [u8; 8]) {
        let name = [69u8, 100u8, 103u8, 101u8, 86u8, 49u8];
        assert(name@ =~= edge_name());
        first_eight(&sha256(&name))
    }
}

} // verus!
