//! The little-endian, length-prefixed byte layout in which records and their
//! property and creator lists are stored.
use vstd::prelude::*;
use vstd::utf8::*;

verus! {

broadcast use vstd::utf8::encode_utf8_valid_utf8, vstd::utf8::encode_utf8_decode_utf8;

/// Four bytes of `n`, least significant first.
pub open spec fn u32_le(n: u32) -> Seq<u8> {
    seq![
        (n % 256) as u8,
        ((n / 256) % 256) as u8,
        ((n / 65536) % 256) as u8,
        (n / 16777216) as u8,
    ]
}

/// Two bytes of `n`, least significant first.
pub open spec fn u16_le(n: u16) -> Seq<u8> {
    seq![(n % 256) as u8, (n / 256) as u8]
}

/// The number that four bytes spell, least significant first.
pub open spec fn u32_of_le(b: Seq<u8>) -> u32
    recommends
        b.len() == 4,
{
    (b[0] as int + 256 * b[1] as int + 65536 * b[2] as int + 16777216 * b[3] as int) as u32
}

/// A byte string: its length as four bytes, then the bytes.
pub open spec fn bytes_field(b: Seq<u8>) -> Seq<u8> {
    u32_le(b.len() as u32) + b
}

/// A text: the byte string of its UTF-8 encoding.
pub open spec fn str_field(s: Seq<char>) -> Seq<u8> {
    bytes_field(encode_utf8(s))
}

pub open spec fn bool_byte(b: bool) -> u8 {
    if b {
        1
    } else {
        0
    }
}

pub proof fn lemma_u32_le_round_trip(n: u32)
    ensures
        u32_of_le(u32_le(n)) == n,
        u32_le(n).len() == 4,
{
    let b = u32_le(n);
    assert(b[0] as int + 256 * b[1] as int + 65536 * b[2] as int + 16777216 * b[3] as int == n)
        by (nonlinear_arith)
        requires
            b[0] == (n % 256) as u8,
            b[1] == ((n / 256) % 256) as u8,
            b[2] == ((n / 65536) % 256) as u8,
            b[3] == (n / 16777216) as u8,
    ;
}

pub fn push_u32(out: &mut Vec<u8>, n: u32)
    ensures
        final(out)@ == old(out)@ + u32_le(n),
{
    out.push((n % 256) as u8);
    out.push(((n / 256) % 256) as u8);
    out.push(((n / 65536) % 256) as u8);
    out.push((n / 16777216) as u8);
    assert(final(out)@ =~= old(out)@ + u32_le(n));
}

pub fn push_u16(out: &mut Vec<u8>, n: u16)
    ensures
        final(out)@ == old(out)@ + u16_le(n),
{
    out.push((n % 256) as u8);
    out.push((n / 256) as u8);
    assert(final(out)@ =~= old(out)@ + u16_le(n));
}

pub fn push_bytes(out: &mut Vec<u8>, b: &[u8])
    requires
        b@.len() <= u32::MAX,
    ensures
        final(out)@ == old(out)@ + bytes_field(b@),
{
    push_u32(out, b.len() as u32);
    let ghost mid = out@;
    let mut i: usize = 0;
    while i < b.len()
        invariant
            i <= b@.len(),
            out@ == mid + b@.subrange(0, i as int),
        decreases b@.len() - i,
    {
        out.push(b[i]);
        i = i + 1;
        assert(out@ =~= mid + b@.subrange(0, i as int));
    }
    assert(b@.subrange(0, b@.len() as int) =~= b@);
    assert(final(out)@ =~= old(out)@ + bytes_field(b@));
}

pub fn push_str(out: &mut Vec<u8>, s: &String)
    requires
        encode_utf8(s@).len() <= u32::MAX,
    ensures
        final(out)@ == old(out)@ + str_field(s@),
{
    push_bytes(out, s.as_str().as_bytes());
}


/// The number stored at `pos`, if four bytes stand there.
pub open spec fn read_u32(b: Seq<u8>, pos: int) -> Option<u32> {
    if 0 <= pos && pos + 4 <= b.len() {
        Some(u32_of_le(b.subrange(pos, pos + 4)))
    } else {
        None
    }
}

/// The text stored at `pos` and the position after it, if a length stands
/// there, that many bytes follow, and they are UTF-8.
pub open spec fn read_str(b: Seq<u8>, pos: int) -> Option<(Seq<char>, int)> {
    match read_u32(b, pos) {
        Some(n) => {
            let end = pos + 4 + n;
            if end <= b.len() && valid_utf8(b.subrange(pos + 4, end)) {
                Some((decode_utf8(b.subrange(pos + 4, end)), end))
            } else {
                None
            }
        },
        None => None,
    }
}

/// Relies on `std::str::from_utf8`: it accepts exactly the UTF-8 byte strings,
/// and the text it gives back is made of those bytes.
#[verifier::external_body]
fn text_of_utf8(b: &[u8]) -> (r: Option<String>)
    ensures
        r is Some <==> valid_utf8(b@),
        r is Some ==> encode_utf8(r->Some_0@) == b@,
{
    match std::str::from_utf8(b) {
        Ok(s) => Some(s.to_string()),
        Err(_) => None,
    }
}

pub fn read_u32_at(b: &[u8], pos: usize) -> (r: Option<u32>)
    ensures
        r == read_u32(b@, pos as int),
{
    if pos <= b.len() && b.len() - pos >= 4 {
        let v: u64 = b[pos] as u64 + 256 * (b[pos + 1] as u64) + 65536 * (b[pos + 2] as u64)
            + 16777216 * (b[pos + 3] as u64);
        let ghost sub = b@.subrange(pos as int, pos + 4);
        assert(sub[0] == b@[pos as int] && sub[1] == b@[pos + 1] && sub[2] == b@[pos + 2] && sub[3]
            == b@[pos + 3]);
        Some(v as u32)
    } else {
        None
    }
}

/// Reads the text stored at `pos`; gives it with the position after it.
pub fn read_str_at(b: &[u8], pos: usize) -> (r: Option<(String, usize)>)
    ensures
        match r {
            Some((s, end)) => read_str(b@, pos as int) == Some((s@, end as int)),
            None => read_str(b@, pos as int) is None,
        },
{
    match read_u32_at(b, pos) {
        Some(n) => {
            if (n as usize) <= b.len() - pos - 4 {
                let end = pos + 4 + n as usize;
                let sub = vstd::slice::slice_subrange(b, pos + 4, end);
                match text_of_utf8(sub) {
                    Some(s) => {
                        proof {
                            vstd::utf8::encode_utf8_decode_utf8(s@);
                        }
                        Some((s, end))
                    },
                    None => None,
                }
            } else {
                None
            }
        },
        None => None,
    }
}

/// What stands at `pos` in `b` is `w`.
pub open spec fn stands_at(b: Seq<u8>, pos: int, w: Seq<u8>) -> bool {
    0 <= pos && pos + w.len() <= b.len() && b.subrange(pos, pos + w.len()) == w
}

pub proof fn lemma_read_u32(b: Seq<u8>, pos: int, n: u32)
    requires
        stands_at(b, pos, u32_le(n)),
    ensures
        read_u32(b, pos) == Some(n),
{
    lemma_u32_le_round_trip(n);
}

pub proof fn lemma_read_str(b: Seq<u8>, pos: int, s: Seq<char>)
    requires
        stands_at(b, pos, str_field(s)),
        encode_utf8(s).len() <= u32::MAX,
    ensures
        read_str(b, pos) == Some((s, pos + str_field(s).len())),
{
    let e = encode_utf8(s);
    let n = e.len() as u32;
    assert(b.subrange(pos, pos + 4) =~= str_field(s).subrange(0, 4));
    assert(str_field(s).subrange(0, 4) =~= u32_le(n));
    lemma_u32_le_round_trip(n);
    let w = str_field(s);
    assert forall|i: int| 0 <= i < n implies b.subrange(pos + 4, pos + 4 + n)[i] == e[i] by {
        assert(b.subrange(pos, pos + w.len())[4 + i] == w[4 + i]);
    }
    assert(b.subrange(pos + 4, pos + 4 + n) =~= e);
}


pub proof fn lemma_stands_split(b: Seq<u8>, pos: int, x: Seq<u8>, y: Seq<u8>)
    requires
        stands_at(b, pos, x + y),
    ensures
        stands_at(b, pos, x),
        stands_at(b, pos + x.len(), y),
{
    let w = x + y;
    assert forall|i: int| 0 <= i < x.len() implies b.subrange(pos, pos + x.len())[i] == x[i] by {
        assert(b.subrange(pos, pos + w.len())[i] == w[i]);
    }
    assert(b.subrange(pos, pos + x.len()) =~= x);
    assert forall|i: int| 0 <= i < y.len() implies b.subrange(pos + x.len(), pos + x.len()
        + y.len())[i] == y[i] by {
        assert(b.subrange(pos, pos + w.len())[x.len() + i] == w[x.len() + i]);
    }
    assert(b.subrange(pos + x.len(), pos + x.len() + y.len()) =~= y);
}

/// The items of a list, each in its own layout, one after the other.
pub open spec fn list_body<T>(xs: Seq<T>, enc: spec_fn(T) -> Seq<u8>) -> Seq<u8>
    decreases xs.len(),
{
    if xs.len() == 0 {
        Seq::empty()
    } else {
        list_body(xs.drop_last(), enc) + enc(xs.last())
    }
}

/// A list: its number of items as four bytes, then the items.
pub open spec fn list_bytes<T>(xs: Seq<T>, enc: spec_fn(T) -> Seq<u8>) -> Seq<u8> {
    u32_le(xs.len() as u32) + list_body(xs, enc)
}

/// The first `n` items read one after the other from `pos`, with the
/// position after them, if each of them can be read.
pub open spec fn read_items<T>(
    b: Seq<u8>,
    pos: int,
    n: nat,
    rd: spec_fn(Seq<u8>, int) -> Option<(T, int)>,
) -> Option<(Seq<T>, int)>
    decreases n,
{
    if n == 0 {
        Some((Seq::empty(), pos))
    } else {
        match read_items(b, pos, (n - 1) as nat, rd) {
            Some((xs, p)) => match rd(b, p) {
                Some((x, q)) => Some((xs.push(x), q)),
                None => None,
            },
            None => None,
        }
    }
}

/// The list that opens `b` (bytes after it are left unread), or the empty
/// list where no list can be read there.
pub open spec fn list_of_bytes<T>(b: Seq<u8>, rd: spec_fn(Seq<u8>, int) -> Option<(T, int)>) -> Seq<
    T,
> {
    match read_u32(b, 0) {
        Some(n) => match read_items(b, 4, n as nat, rd) {
            Some((xs, _)) => xs,
            None => Seq::empty(),
        },
        None => Seq::empty(),
    }
}

/// The list that opens `b`, or `None` where no list can be read there.
pub open spec fn try_list_of_bytes<T>(
    b: Seq<u8>,
    rd: spec_fn(Seq<u8>, int) -> Option<(T, int)>,
) -> Option<Seq<T>> {
    match read_u32(b, 0) {
        Some(n) => match read_items(b, 4, n as nat, rd) {
            Some((xs, _)) => Some(xs),
            None => None,
        },
        None => None,
    }
}

/// `rd` reads back, wherever it stands, each item of `xs` laid out by `enc`.
pub open spec fn reads_back<T>(
    xs: Seq<T>,
    enc: spec_fn(T) -> Seq<u8>,
    rd: spec_fn(Seq<u8>, int) -> Option<(T, int)>,
) -> bool {
    forall|b: Seq<u8>, pos: int, i: int|
        0 <= i < xs.len() && #[trigger] stands_at(b, pos, enc(xs[i])) ==> rd(b, pos) == Some(
            (xs[i], pos + enc(xs[i]).len()),
        )
}

proof fn lemma_list_prefix<T>(b: Seq<u8>, xs: Seq<T>, enc: spec_fn(T) -> Seq<u8>, k: int)
    requires
        stands_at(b, 4, list_body(xs, enc)),
        0 <= k <= xs.len(),
    ensures
        stands_at(b, 4, list_body(xs.take(k), enc)),
        k < xs.len() ==> stands_at(b, 4 + list_body(xs.take(k), enc).len() as int, enc(xs[k])),
    decreases xs.len() - k,
{
    if k == xs.len() {
        assert(xs.take(k) =~= xs);
    } else {
        lemma_list_prefix(b, xs, enc, k + 1);
        assert(xs.take(k + 1).drop_last() =~= xs.take(k));
        lemma_stands_split(b, 4, list_body(xs.take(k), enc), enc(xs[k]));
    }
}

proof fn lemma_read_items<T>(
    b: Seq<u8>,
    xs: Seq<T>,
    enc: spec_fn(T) -> Seq<u8>,
    rd: spec_fn(Seq<u8>, int) -> Option<(T, int)>,
    k: int,
)
    requires
        stands_at(b, 4, list_body(xs, enc)),
        reads_back(xs, enc, rd),
        0 <= k <= xs.len(),
    ensures
        read_items(b, 4, k as nat, rd) == Some((xs.take(k), 4 + list_body(xs.take(k), enc).len() as int)),
    decreases k,
{
    if k == 0 {
        assert(xs.take(0) =~= Seq::<T>::empty());
    } else {
        lemma_read_items(b, xs, enc, rd, k - 1);
        lemma_list_prefix(b, xs, enc, k - 1);
        assert(xs.take(k).drop_last() =~= xs.take(k - 1));
        assert(xs.take(k - 1).push(xs[k - 1]) =~= xs.take(k));
    }
}

/// A list laid out by `enc` reads back as itself, whatever bytes follow it.
pub proof fn lemma_list_round_trip<T>(
    xs: Seq<T>,
    rest: Seq<u8>,
    enc: spec_fn(T) -> Seq<u8>,
    rd: spec_fn(Seq<u8>, int) -> Option<(T, int)>,
)
    requires
        xs.len() <= u32::MAX,
        reads_back(xs, enc, rd),
    ensures
        list_of_bytes(list_bytes(xs, enc) + rest, rd) == xs,
{
    let b = list_bytes(xs, enc) + rest;
    let n = xs.len() as u32;
    assert(stands_at(b, 0, u32_le(n) + list_body(xs, enc))) by {
        assert(b.subrange(0, list_bytes(xs, enc).len() as int) =~= list_bytes(xs, enc));
    }
    lemma_stands_split(b, 0, u32_le(n), list_body(xs, enc));
    lemma_read_u32(b, 0, n);
    lemma_read_items(b, xs, enc, rd, xs.len() as int);
    assert(xs.take(xs.len() as int) =~= xs);
}


/// Once an item cannot be read, no longer run of items can be.
pub proof fn lemma_read_items_fail<T>(
    b: Seq<u8>,
    pos: int,
    m: nat,
    n: nat,
    rd: spec_fn(Seq<u8>, int) -> Option<(T, int)>,
)
    requires
        read_items(b, pos, m, rd) is None,
        m <= n,
    ensures
        read_items(b, pos, n, rd) is None,
    decreases n - m,
{
    if m < n {
        assert(read_items(b, pos, (m + 1) as nat, rd) is None);
        lemma_read_items_fail(b, pos, (m + 1) as nat, n, rd);
    }
}


/// A byte string can be told from whatever follows it: equal bytes that open
/// with two stored byte strings open with the same one.
pub proof fn lemma_bytes_field_prefix_free(x: Seq<u8>, s: Seq<u8>, y: Seq<u8>, t: Seq<u8>)
    requires
        x.len() <= u32::MAX,
        y.len() <= u32::MAX,
        bytes_field(x) + s == bytes_field(y) + t,
    ensures
        x == y,
{
    let b = bytes_field(x) + s;
    assert(b.subrange(0, 4) =~= u32_le(x.len() as u32));
    assert((bytes_field(y) + t).subrange(0, 4) =~= u32_le(y.len() as u32));
    lemma_u32_le_round_trip(x.len() as u32);
    lemma_u32_le_round_trip(y.len() as u32);
    assert(x.len() == y.len());
    assert(x =~= b.subrange(4, 4 + x.len() as int));
    assert(y =~= (bytes_field(y) + t).subrange(4, 4 + y.len() as int));
}

} // verus!
