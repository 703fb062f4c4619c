//! Graph vertices: their properties and creators, the blobs those are stored
//! in, and the node record.
use vstd::prelude::*;
use vstd::utf8::encode_utf8;
use crate::codec::{
    bool_byte, bytes_field, lemma_list_round_trip, lemma_read_items_fail, lemma_read_str,
    lemma_stands_split, list_body, list_bytes, list_of_bytes, push_bytes, push_str, push_u16,
    push_u32, read_items, read_str, read_str_at, read_u32, read_u32_at, reads_back, stands_at, try_list_of_bytes,
    str_field, u16_le, u32_le,
};
use crate::compressed::{first_eight, CompressedRecord};
use crate::hashing::sha256;
use crate::record::{
    array_to_vec, authority_bytes, commitment, field_commitment, key_byte, one_field_value,
    rows_view, AccountKey,
    UpdateAuthority,
};

verus! {

/// A key and its value, both text.
#[derive(Clone, Debug, PartialEq, Eq, Default)]
pub struct Properties {
    pub key: String,
    pub value: String,
}

impl View for Properties {
    type V = (Seq<char>, Seq<char>);

    open spec fn view(&self) -> (Seq<char>, Seq<char>) {
        (self.key@, self.value@)
    }
}

/// Someone credited with a node, and their share in percent.
#[derive(Clone, Copy, Debug, PartialEq, Eq, Default)]
pub struct Creator {
    pub address: [u8; 32],
    pub verified: bool,
    pub share: u8,
}

impl View for Creator {
    type V = (Seq<u8>, bool, u8);

    open spec fn view(&self) -> (Seq<u8>, bool, u8) {
        (self.address@, self.verified, self.share)
    }
}

pub open spec fn property_bytes(p: (Seq<char>, Seq<char>)) -> Seq<u8> {
    str_field(p.0) + str_field(p.1)
}

pub open spec fn property_layout() -> spec_fn((Seq<char>, Seq<char>)) -> Seq<u8> {
    |p: (Seq<char>, Seq<char>)| property_bytes(p)
}

pub open spec fn read_property(b: Seq<u8>, pos: int) -> Option<((Seq<char>, Seq<char>), int)> {
    match read_str(b, pos) {
        Some((k, p)) => match read_str(b, p) {
            Some((v, q)) => Some(((k, v), q)),
            None => None,
        },
        None => None,
    }
}

pub open spec fn property_reader() -> spec_fn(Seq<u8>, int) -> Option<
    ((Seq<char>, Seq<char>), int),
> {
    |b: Seq<u8>, pos: int| read_property(b, pos)
}

pub open spec fn properties_view(ps: Seq<Properties>) -> Seq<(Seq<char>, Seq<char>)> {
    ps.map_values(|p: Properties| p@)
}

/// The stored form of a property list.
pub open spec fn properties_layout(ps: Seq<(Seq<char>, Seq<char>)>) -> Seq<u8> {
    list_bytes(ps, property_layout())
}

/// The property list that a blob holds, or the empty list where it is
/// malformed.
pub open spec fn properties_of_bytes(b: Seq<u8>) -> Seq<(Seq<char>, Seq<char>)> {
    list_of_bytes(b, property_reader())
}

pub open spec fn text_fits(s: Seq<char>) -> bool {
    encode_utf8(s).len() <= u32::MAX
}

/// Each length in the property list can be stored in four bytes.
pub open spec fn properties_fit(ps: Seq<(Seq<char>, Seq<char>)>) -> bool {
    &&& ps.len() <= u32::MAX
    &&& forall|i: int| #![trigger ps[i]] 0 <= i < ps.len() ==> text_fits(ps[i].0) && text_fits(ps[i].1)
}

pub open spec fn creator_bytes(c: (Seq<u8>, bool, u8)) -> Seq<u8> {
    c.0 + seq![bool_byte(c.1), c.2]
}

pub open spec fn creator_layout() -> spec_fn((Seq<u8>, bool, u8)) -> Seq<u8> {
    |c: (Seq<u8>, bool, u8)| creator_bytes(c)
}

pub open spec fn read_creator(b: Seq<u8>, pos: int) -> Option<((Seq<u8>, bool, u8), int)> {
    if 0 <= pos && pos + 34 <= b.len() && b[pos + 32] <= 1 {
        Some(((b.subrange(pos, pos + 32), b[pos + 32] == 1, b[pos + 33]), pos + 34))
    } else {
        None
    }
}

pub open spec fn creator_reader() -> spec_fn(Seq<u8>, int) -> Option<((Seq<u8>, bool, u8), int)> {
    |b: Seq<u8>, pos: int| read_creator(b, pos)
}

pub open spec fn creators_view(cs: Seq<Creator>) -> Seq<(Seq<u8>, bool, u8)> {
    cs.map_values(|c: Creator| c@)
}

/// The stored form of a creator list.
pub open spec fn creators_layout(cs: Seq<(Seq<u8>, bool, u8)>) -> Seq<u8> {
    list_bytes(cs, creator_layout())
}

/// The creator list that a blob holds, or the empty list where it is
/// malformed.
pub open spec fn creators_of_bytes(b: Seq<u8>) -> Seq<(Seq<u8>, bool, u8)> {
    list_of_bytes(b, creator_reader())
}

proof fn lemma_properties_read_back(ps: Seq<(Seq<char>, Seq<char>)>)
    requires
        properties_fit(ps),
    ensures
        reads_back(ps, property_layout(), property_reader()),
{
    assert forall|b: Seq<u8>, pos: int, i: int|
        0 <= i < ps.len() && #[trigger] stands_at(b, pos, property_layout()(ps[i])) implies property_reader()(
        b,
        pos,
    ) == Some((ps[i], pos + property_layout()(ps[i]).len())) by {
        let p = ps[i];
        lemma_stands_split(b, pos, str_field(p.0), str_field(p.1));
        lemma_read_str(b, pos, p.0);
        lemma_read_str(b, pos + str_field(p.0).len(), p.1);
    }
}

proof fn lemma_creators_read_back(cs: Seq<(Seq<u8>, bool, u8)>)
    requires
        forall|i: int| 0 <= i < cs.len() ==> (#[trigger] cs[i]).0.len() == 32,
    ensures
        reads_back(cs, creator_layout(), creator_reader()),
{
    assert forall|b: Seq<u8>, pos: int, i: int|
        0 <= i < cs.len() && #[trigger] stands_at(b, pos, creator_layout()(cs[i])) implies creator_reader()(
        b,
        pos,
    ) == Some((cs[i], pos + creator_layout()(cs[i]).len())) by {
        let c = cs[i];
        let w = creator_bytes(c);
        lemma_stands_split(b, pos, c.0, seq![bool_byte(c.1), c.2]);
        assert(b[pos + 32] == w[32]) by {
            assert(b.subrange(pos, pos + 34)[32] == w[32]);
        }
        assert(b[pos + 33] == w[33]) by {
            assert(b.subrange(pos, pos + 34)[33] == w[33]);
        }
    }
}

/// A property list, stored and read back, is the list itself, whatever bytes
/// follow it.
pub proof fn lemma_properties_round_trip(ps: Seq<Properties>, rest: Seq<u8>)
    requires
        properties_fit(properties_view(ps)),
    ensures
        properties_of_bytes(properties_layout(properties_view(ps)) + rest) == properties_view(ps),
{
    lemma_properties_read_back(properties_view(ps));
    lemma_list_round_trip(properties_view(ps), rest, property_layout(), property_reader());
}

/// A creator list, stored and read back, is the list itself, whatever bytes
/// follow it.
pub proof fn lemma_creators_round_trip(cs: Seq<Creator>, rest: Seq<u8>)
    requires
        cs.len() <= u32::MAX,
    ensures
        creators_of_bytes(creators_layout(creators_view(cs)) + rest) == creators_view(cs),
{
    lemma_creators_read_back(creators_view(cs));
    lemma_list_round_trip(creators_view(cs), rest, creator_layout(), creator_reader());
}


/// Lays out a property list.
pub fn encode_properties(ps: &Vec<Properties>) -> (r: Vec<u8>)
    requires
        properties_fit(properties_view(ps@)),
    ensures
        r@ == properties_layout(properties_view(ps@)),
{
    let ghost pv = properties_view(ps@);
    let mut out: Vec<u8> = Vec::new();
    push_u32(&mut out, ps.len() as u32);
    let mut i: usize = 0;
    while i < ps.len()
        invariant
            i <= ps@.len(),
            pv == properties_view(ps@),
            properties_fit(pv),
            out@ == u32_le(ps@.len() as u32) + list_body(pv.take(i as int), property_layout()),
        decreases ps@.len() - i,
    {
        assert(text_fits(pv[i as int].0) && text_fits(pv[i as int].1));
        push_str(&mut out, &ps[i].key);
        push_str(&mut out, &ps[i].value);
        proof {
            assert(pv.take(i + 1).drop_last() =~= pv.take(i as int));
            assert(pv.take(i + 1).last() == pv[i as int]);
            assert(out@ =~= u32_le(ps@.len() as u32) + list_body(pv.take(i + 1), property_layout()));
        }
        i = i + 1;
    }
    assert(pv.take(ps@.len() as int) =~= pv);
    out
}

/// Lays out a creator list.
pub fn encode_creators(cs: &Vec<Creator>) -> (r: Vec<u8>)
    requires
        cs@.len() <= u32::MAX,
    ensures
        r@ == creators_layout(creators_view(cs@)),
{
    let ghost cv = creators_view(cs@);
    let mut out: Vec<u8> = Vec::new();
    push_u32(&mut out, cs.len() as u32);
    let mut i: usize = 0;
    while i < cs.len()
        invariant
            i <= cs@.len(),
            cv == creators_view(cs@),
            out@ == u32_le(cs@.len() as u32) + list_body(cv.take(i as int), creator_layout()),
        decreases cs@.len() - i,
    {
        let c = cs[i];
        let a = array_to_vec(&c.address);
        let mut j: usize = 0;
        let ghost before = out@;
        while j < 32
            invariant
                j <= 32,
                a@ == c.address@,
                out@ == before + c.address@.subrange(0, j as int),
            decreases 32 - j,
        {
            out.push(a[j]);
            j = j + 1;
            assert(out@ =~= before + c.address@.subrange(0, j as int));
        }
        out.push(if c.verified { 1u8 } else { 0u8 });
        out.push(c.share);
        proof {
            assert(c.address@.subrange(0, 32) =~= c.address@);
            assert(cv.take(i + 1).drop_last() =~= cv.take(i as int));
            assert(cv.take(i + 1).last() == cv[i as int]);
            assert(out@ =~= u32_le(cs@.len() as u32) + list_body(cv.take(i + 1), creator_layout()));
        }
        i = i + 1;
    }
    assert(cv.take(cs@.len() as int) =~= cv);
    out
}

/// Reads the properties list that `b` holds, or `None` where it is malformed:
/// an empty list and a corrupt blob are told apart.
pub fn try_decode_properties(b: &[u8]) -> (r: Option<Vec<Properties>>)
    ensures
        match r {
            Some(v) => try_list_of_bytes(b@, property_reader()) == Some(properties_view(v@)),
            None => try_list_of_bytes(b@, property_reader()) is None,
        },
{
    let n = match read_u32_at(b, 0) {
        Some(n) => n,
        None => {
            return None;
        },
    };
    let mut out: Vec<Properties> = Vec::new();
    let mut pos: usize = 4;
    let mut i: u32 = 0;
    while i < n
        invariant
            i <= n,
            read_u32(b@, 0) == Some(n),
            read_items(b@, 4, i as nat, property_reader()) == Some(
                (properties_view(out@), pos as int),
            ),
        decreases n - i,
    {
        let (key, p) = match read_str_at(b, pos) {
            Some(x) => x,
            None => {
                proof {
                    lemma_read_items_fail(b@, 4, (i + 1) as nat, n as nat, property_reader());
                }
                return None;
            },
        };
        let (value, q) = match read_str_at(b, p) {
            Some(x) => x,
            None => {
                proof {
                    lemma_read_items_fail(b@, 4, (i + 1) as nat, n as nat, property_reader());
                }
                return None;
            },
        };
        let ghost old_view = properties_view(out@);
        out.push(Properties { key, value });
        assert(properties_view(out@) =~= old_view.push((key@, value@)));
        pos = q;
        i = i + 1;
    }
    Some(out)
}

/// Reads the properties list that `b` holds; the empty list where it is
/// malformed.
pub fn decode_properties(b: &[u8]) -> (r: Vec<Properties>)
    ensures
        properties_view(r@) == properties_of_bytes(b@),
{
    match try_decode_properties(b) {
        Some(v) => v,
        None => Vec::new(),
    }
}

/// Reads the creators list that `b` holds, or `None` where it is malformed:
/// an empty list and a corrupt blob are told apart.
pub fn try_decode_creators(b: &[u8]) -> (r: Option<Vec<Creator>>)
    ensures
        match r {
            Some(v) => try_list_of_bytes(b@, creator_reader()) == Some(creators_view(v@)),
            None => try_list_of_bytes(b@, creator_reader()) is None,
        },
{
    let n = match read_u32_at(b, 0) {
        Some(n) => n,
        None => {
            return None;
        },
    };
    let mut out: Vec<Creator> = Vec::new();
    let mut pos: usize = 4;
    let mut i: u32 = 0;
    while i < n
        invariant
            i <= n,
            read_u32(b@, 0) == Some(n),
            read_items(b@, 4, i as nat, creator_reader()) == Some(
                (creators_view(out@), pos as int),
            ),
        decreases n - i,
    {
        if pos > b.len() || b.len() - pos < 34 || b[pos + 32] > 1 {
            proof {
                lemma_read_items_fail(b@, 4, (i + 1) as nat, n as nat, creator_reader());
            }
            return None;
        }
        let mut address = [0u8; 32];
        let mut j: usize = 0;
        while j < 32
            invariant
                j <= 32,
                pos + 34 <= b.len(),
                forall|k: int| 0 <= k < j ==> address@[k] == b@[pos + k],
            decreases 32 - j,
        {
            address[j] = b[pos + j];
            j = j + 1;
        }
        assert(address@ =~= b@.subrange(pos as int, pos + 32));
        let c = Creator { address, verified: b[pos + 32] == 1, share: b[pos + 33] };
        let ghost old_view = creators_view(out@);
        out.push(c);
        assert(creators_view(out@) =~= old_view.push(c@));
        pos = pos + 34;
        i = i + 1;
    }
    Some(out)
}

/// Reads the creators list that `b` holds; the empty list where it is
/// malformed.
pub fn decode_creators(b: &[u8]) -> (r: Vec<Creator>)
    ensures
        creators_view(r@) == creators_of_bytes(b@),
{
    match try_decode_creators(b) {
        Some(v) => v,
        None => Vec::new(),
    }
}


impl Properties {
    /// The property's commitment: the field-sized hash of its layout.
    pub fn as_byte_vec(&self) -> (r: Vec<Vec<u8>>)
        requires
            text_fits(self.key@),
            text_fits(self.value@),
        ensures
            rows_view(r@) == commitment(property_bytes(self@)),
            one_field_value(rows_view(r@)),
    {
        let mut b: Vec<u8> = Vec::new();
        push_str(&mut b, &self.key);
        push_str(&mut b, &self.value);
        assert(b@ =~= property_bytes(self@));
        field_commitment(b.as_slice())
    }
}

impl Creator {
    /// The creator's commitment: the field-sized hash of its layout.
    pub fn as_byte_vec(&self) -> (r: Vec<Vec<u8>>)
        ensures
            rows_view(r@) == commitment(creator_bytes(self@)),
            one_field_value(rows_view(r@)),
    {
        let mut b = array_to_vec(&self.address);
        b.push(if self.verified { 1u8 } else { 0u8 });
        b.push(self.share);
        assert(b@ =~= creator_bytes(self@));
        field_commitment(b.as_slice())
    }
}

/// A property list taken as one value.
#[derive(Clone, Debug, Default)]
pub struct PropertiesVec(pub Vec<Properties>);

impl PropertiesVec {
    /// The list's commitment: the field-sized hash of its layout.
    pub fn as_byte_vec(&self) -> (r: Vec<Vec<u8>>)
        requires
            properties_fit(properties_view(self.0@)),
        ensures
            rows_view(r@) == commitment(properties_layout(properties_view(self.0@))),
            one_field_value(rows_view(r@)),
    {
        let b = encode_properties(&self.0);
        field_commitment(b.as_slice())
    }
}

/// A creator list taken as one value.
#[derive(Clone, Debug, Default)]
pub struct CreatorsVec(pub Vec<Creator>);

impl CreatorsVec {
    /// The list's commitment: the field-sized hash of its layout.
    pub fn as_byte_vec(&self) -> (r: Vec<Vec<u8>>)
        requires
            self.0@.len() <= u32::MAX,
        ensures
            rows_view(r@) == commitment(creators_layout(creators_view(self.0@))),
            one_field_value(rows_view(r@)),
    {
        let b = encode_creators(&self.0);
        field_commitment(b.as_slice())
    }
}

/// What a caller gives to create a node.
#[derive(Clone, Debug, PartialEq, Eq)]
pub struct NodeArgs {
    pub label: String,
    pub properties: Vec<Properties>,
    pub is_mutable: bool,
    pub creators: Vec<Creator>,
}

/// Every length in the arguments can be stored in four bytes.
pub open spec fn node_args_fit(a: NodeArgs) -> bool {
    &&& text_fits(a.label@)
    &&& properties_fit(properties_view(a.properties@))
    &&& a.creators@.len() <= u32::MAX
    &&& properties_layout(properties_view(a.properties@)).len() <= u32::MAX
    &&& creators_layout(creators_view(a.creators@)).len() <= u32::MAX
}

/// A node's properties and creators, each list kept in its stored form.
#[derive(Clone, Debug, Default)]
pub struct NodeData {
    pub properties_bytes: Vec<u8>,
    pub creators_bytes: Vec<u8>,
}

pub open spec fn node_data_bytes(d: NodeData) -> Seq<u8> {
    bytes_field(d.properties_bytes@) + bytes_field(d.creators_bytes@)
}

pub open spec fn node_data_fits(d: NodeData) -> bool {
    d.properties_bytes@.len() <= u32::MAX && d.creators_bytes@.len() <= u32::MAX
}

impl NodeData {
    pub fn new(properties: &Vec<Properties>, creators: &Vec<Creator>) -> (r: Self)
        requires
            properties_fit(properties_view(properties@)),
            creators@.len() <= u32::MAX,
        ensures
            r.properties_bytes@ == properties_layout(properties_view(properties@)),
            r.creators_bytes@ == creators_layout(creators_view(creators@)),
    {
        NodeData {
            properties_bytes: encode_properties(properties),
            creators_bytes: encode_creators(creators),
        }
    }

    /// The stored properties; the empty list where the blob is malformed.
    pub fn get_properties(&self) -> (r: Vec<Properties>)
        ensures
            properties_view(r@) == properties_of_bytes(self.properties_bytes@),
    {
        decode_properties(self.properties_bytes.as_slice())
    }

    /// The stored creators; the empty list where the blob is malformed.
    /// The stored properties, or `None` where the blob is malformed.
    pub fn try_properties(&self) -> (r: Option<Vec<Properties>>)
        ensures
            r matches Some(v) ==> try_list_of_bytes(self.properties_bytes@, property_reader())
                == Some(properties_view(v@)),
            r is None <==> try_list_of_bytes(self.properties_bytes@, property_reader()) is None,
    {
        try_decode_properties(self.properties_bytes.as_slice())
    }

    /// The stored creators, or `None` where the blob is malformed.
    pub fn try_creators(&self) -> (r: Option<Vec<Creator>>)
        ensures
            r matches Some(v) ==> try_list_of_bytes(self.creators_bytes@, creator_reader())
                == Some(creators_view(v@)),
            r is None <==> try_list_of_bytes(self.creators_bytes@, creator_reader()) is None,
    {
        try_decode_creators(self.creators_bytes.as_slice())
    }

    pub fn get_creators(&self) -> (r: Vec<Creator>)
        ensures
            creators_view(r@) == creators_of_bytes(self.creators_bytes@),
    {
        decode_creators(self.creators_bytes.as_slice())
    }

    pub fn try_to_vec(&self) -> (r: Vec<u8>)
        requires
            node_data_fits(*self),
        ensures
            r@ == node_data_bytes(*self),
    {
        let mut b: Vec<u8> = Vec::new();
        push_bytes(&mut b, self.properties_bytes.as_slice());
        push_bytes(&mut b, self.creators_bytes.as_slice());
        assert(b@ =~= node_data_bytes(*self));
        b
    }

    /// The commitment of both blobs: the field-sized hash of their layout.
    pub fn as_byte_vec(&self) -> (r: Vec<Vec<u8>>)
        requires
            node_data_fits(*self),
        ensures
            rows_view(r@) == commitment(node_data_bytes(*self)),
            one_field_value(rows_view(r@)),
    {
        let b = self.try_to_vec();
        field_commitment(b.as_slice())
    }
}

/// A graph vertex as it is stored.
#[derive(Clone, Debug, Default)]
pub struct NodeV1 {
    pub key: AccountKey,
    pub owner: [u8; 32],
    pub update_authority: UpdateAuthority,
    pub label: String,
    pub node_data: NodeData,
    pub is_mutable: bool,
    pub initialized_plugins: u16,
}

/// The stored form of a node: its fields in order.
pub open spec fn node_bytes(n: NodeV1) -> Seq<u8> {
    seq![key_byte(n.key)] + n.owner@ + authority_bytes(n.update_authority) + str_field(n.label@)
        + node_data_bytes(n.node_data) + seq![bool_byte(n.is_mutable)] + u16_le(
        n.initialized_plugins,
    )
}

/// The inputs of a node's hash, one per field: the tag, owner, authority and
/// blobs by their field-sized hashes, the label by its bytes, the flag by one
/// byte and the counter by two. The label goes in unreduced, so a label over
/// 32 bytes, or one that spells a number at or above the field's order, makes
/// the hash refuse the node.
pub open spec fn node_hash_inputs(n: NodeV1) -> Seq<Seq<u8>> {
    commitment(seq![key_byte(n.key)]) + commitment(n.owner@) + commitment(
        authority_bytes(n.update_authority),
    ) + seq![encode_utf8(n.label@)] + commitment(node_data_bytes(n.node_data)) + seq![
        seq![bool_byte(n.is_mutable)],
    ] + seq![u16_le(n.initialized_plugins)]
}

pub open spec fn node_fits(n: NodeV1) -> bool {
    text_fits(n.label@) && node_data_fits(n.node_data)
}

/// The bytes of "NodeV1", the name its discriminator is hashed from.
pub open spec fn node_name() -> Seq<u8> {
    seq![78u8, 111u8, 100u8, 101u8, 86u8, 49u8]
}


/// Appends `b`'s rows to `a`.
pub fn append_rows(a: &mut Vec<Vec<u8>>, b: Vec<Vec<u8>>)
    ensures
        rows_view(final(a)@) == rows_view(old(a)@) + rows_view(b@),
{
    let ghost rows = b@;
    let mut b = b;
    a.append(&mut b);
    assert(rows_view(a@) =~= rows_view(old(a)@) + rows_view(rows));
}

/// The bytes of a text, as one row.
pub fn text_row(s: &String) -> (r: Vec<Vec<u8>>)
    ensures
        rows_view(r@) == seq![encode_utf8(s@)],
{
    let r = vec![vstd::slice::slice_to_vec(s.as_str().as_bytes())];
    assert(rows_view(r@) =~= seq![encode_utf8(s@)]);
    r
}

/// A flag as one row of one byte.
pub fn flag_row(b: bool) -> (r: Vec<Vec<u8>>)
    ensures
        rows_view(r@) == seq![seq![bool_byte(b)]],
{
    let v = vec![if b { 1u8 } else { 0u8 }];
    assert(v@ =~= seq![bool_byte(b)]);
    let r = vec![v];
    assert(rows_view(r@) =~= seq![seq![bool_byte(b)]]);
    r
}

/// A counter as one row of its two bytes, least significant first.
pub fn counter_row(n: u16) -> (r: Vec<Vec<u8>>)
    ensures
        rows_view(r@) == seq![u16_le(n)],
{
    let mut v: Vec<u8> = Vec::new();
    push_u16(&mut v, n);
    assert(v@ =~= u16_le(n));
    let r = vec![v];
    assert(rows_view(r@) =~= seq![u16_le(n)]);
    r
}

/// Appends a 32-byte key to `out`.
pub fn push_key(out: &mut Vec<u8>, k: &[u8; 32])
    ensures
        final(out)@ == old(out)@ + k@,
{
    let mut v = array_to_vec(k);
    out.append(&mut v);
}

impl CompressedRecord for NodeV1 {
    open spec fn spec_layout(&self) -> Seq<u8> {
        node_bytes(*self)
    }

    open spec fn spec_hash_inputs(&self) -> Seq<Seq<u8>> {
        node_hash_inputs(*self)
    }

    open spec fn spec_name() -> Seq<u8> {
        node_name()
    }

    open spec fn spec_fits(&self) -> bool {
        node_fits(*self)
    }

    fn try_to_vec(&self) -> (r: Vec<u8>) {
        let mut out = vec![self.key.to_byte()];
        push_key(&mut out, &self.owner);
        let mut ua = self.update_authority.try_to_vec();
        out.append(&mut ua);
        push_str(&mut out, &self.label);
        let mut nd = self.node_data.try_to_vec();
        out.append(&mut nd);
        out.push(if self.is_mutable { 1u8 } else { 0u8 });
        push_u16(&mut out, self.initialized_plugins);
        assert(out@ =~= node_bytes(*self));
        out
    }

    fn hash_inputs(&self) -> (r: Vec<Vec<u8>>) {
        let mut r = self.key.as_byte_vec();
        append_rows(&mut r, field_commitment(&self.owner));
        append_rows(&mut r, self.update_authority.as_byte_vec());
        append_rows(&mut r, text_row(&self.label));
        append_rows(&mut r, self.node_data.as_byte_vec());
        append_rows(&mut r, flag_row(self.is_mutable));
        append_rows(&mut r, counter_row(self.initialized_plugins));
        r
    }

    fn discriminator() -> (r: [u8; 8]) {
        let name = [78u8, 111u8, 100u8, 101u8, 86u8, 49u8];
        assert(name@ =~= node_name());
        first_eight(&sha256(&name))
    }
}


/// Distinct property lists are stored as distinct blobs, so two records that
/// differ in a property are hashed from distinct bytes.
pub proof fn lemma_properties_layout_injective(first: Seq<Properties>, second: Seq<Properties>)
    requires
        properties_fit(properties_view(first)),
        properties_fit(properties_view(second)),
        properties_view(first) != properties_view(second),
    ensures
        properties_layout(properties_view(first)) != properties_layout(properties_view(second)),
{
    lemma_properties_round_trip(first, Seq::empty());
    lemma_properties_round_trip(second, Seq::empty());
    assert(properties_layout(properties_view(first)) + Seq::<u8>::empty() =~= properties_layout(
        properties_view(first),
    ));
    assert(properties_layout(properties_view(second)) + Seq::<u8>::empty() =~= properties_layout(
        properties_view(second),
    ));
}

} // verus!
