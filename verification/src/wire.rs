//! The binary encoding of the values that travel in a mesh packet.
//!
//! Fixed-width integers are little-endian, a 32-byte identifier is written as
//! it is, and a sequence is its length as a u64 followed by its elements.
//! For each kind of value there is a serialiser `ser_*`, a parser `parse_*`
//! that returns the value and the number of bytes it took, a proof that the
//! parser undoes the serialiser, and the executable reader and writer.

use vstd::bytes::*;
use vstd::prelude::*;
use vstd::slice::slice_subrange;
use vstd::utf8::*;

verus! {

/// Serialisation of one byte.
pub open spec fn ser_u8(x: u8) -> Seq<u8> {
    seq![x]
}

/// Parser for one byte at `pos`.
pub open spec fn parse_u8(s: Seq<u8>, pos: int) -> Option<(u8, int)> {
    if pos + 1 <= s.len() {
        Some((s[pos], pos + 1))
    } else {
        None
    }
}

/// Serialisation of a u32: four bytes, little-endian.
pub open spec fn ser_u32(x: u32) -> Seq<u8> {
    spec_u32_to_le_bytes(x)
}

/// Parser for a u32 at `pos`.
pub open spec fn parse_u32(s: Seq<u8>, pos: int) -> Option<(u32, int)> {
    if pos + 4 <= s.len() {
        Some((spec_u32_from_le_bytes(s.subrange(pos, pos + 4)), pos + 4))
    } else {
        None
    }
}

/// Serialisation of a u64: eight bytes, little-endian.
pub open spec fn ser_u64(x: u64) -> Seq<u8> {
    spec_u64_to_le_bytes(x)
}

/// Parser for a u64 at `pos`.
pub open spec fn parse_u64(s: Seq<u8>, pos: int) -> Option<(u64, int)> {
    if pos + 8 <= s.len() {
        Some((spec_u64_from_le_bytes(s.subrange(pos, pos + 8)), pos + 8))
    } else {
        None
    }
}

/// Parser for a 32-byte identifier at `pos`.
pub open spec fn parse_id(s: Seq<u8>, pos: int) -> Option<(Seq<u8>, int)> {
    if pos + 32 <= s.len() {
        Some((s.subrange(pos, pos + 32), pos + 32))
    } else {
        None
    }
}

/// Serialisation of a byte string: its length, then its bytes.
pub open spec fn ser_bytes(b: Seq<u8>) -> Seq<u8> {
    ser_u64(b.len() as u64) + b
}

/// Parser for a byte string at `pos`.
pub open spec fn parse_bytes(s: Seq<u8>, pos: int) -> Option<(Seq<u8>, int)> {
    match parse_u64(s, pos) {
        Some((n, at)) => if at + n <= s.len() {
            Some((s.subrange(at, at + n), at + n))
        } else {
            None
        },
        None => None,
    }
}

/// Serialisation of a text: its UTF-8 bytes as a byte string.
pub open spec fn ser_text(t: Seq<char>) -> Seq<u8> {
    ser_bytes(encode_utf8(t))
}

/// Parser for a text at `pos`: a byte string that is valid UTF-8.
pub open spec fn parse_text(s: Seq<u8>, pos: int) -> Option<(Seq<char>, int)> {
    match parse_bytes(s, pos) {
        Some((b, next)) => if valid_utf8(b) {
            Some((decode_utf8(b), next))
        } else {
            None
        },
        None => None,
    }
}

/// The identifiers of a list, one after the other.
pub open spec fn concat_ids(l: Seq<Seq<u8>>) -> Seq<u8> {
    Seq::new(32 * l.len(), |j: int| l[j / 32][j % 32])
}

/// Serialisation of a list of identifiers: its length, then the identifiers.
pub open spec fn ser_ids(l: Seq<Seq<u8>>) -> Seq<u8> {
    ser_u64(l.len() as u64) + concat_ids(l)
}

/// Parser for a list of identifiers at `pos`.
pub open spec fn parse_ids(s: Seq<u8>, pos: int) -> Option<(Seq<Seq<u8>>, int)> {
    match parse_u64(s, pos) {
        Some((n, at)) => if at + 32 * n <= s.len() {
            Some(
                (
                    Seq::new(n as nat, |i: int| s.subrange(at + 32 * i, at + 32 * i + 32)),
                    at + 32 * n,
                ),
            )
        } else {
            None
        },
        None => None,
    }
}

/// Every identifier of the list has 32 bytes.
pub open spec fn all_ids(l: Seq<Seq<u8>>) -> bool {
    forall|i: int| 0 <= i < l.len() ==> (#[trigger] l[i]).len() == 32
}

/// The byte views of a list of identifiers.
pub open spec fn ids_view(l: Seq<[u8; 32]>) -> Seq<Seq<u8>> {
    Seq::new(l.len(), |i: int| l[i]@)
}

/// Lengths of the fixed-width serialisations.
pub proof fn lemma_ser_lengths()
    ensures
        forall|x: u32| #[trigger] ser_u32(x).len() == 4,
        forall|x: u64| #[trigger] ser_u64(x).len() == 8,
        forall|b: Seq<u8>| #[trigger] ser_bytes(b).len() == 8 + b.len(),
        forall|t: Seq<char>| #[trigger] ser_text(t).len() == 8 + encode_utf8(t).len(),
        forall|l: Seq<Seq<u8>>| #[trigger] ser_ids(l).len() == 8 + 32 * l.len(),
{
    lemma_auto_spec_u32_to_from_le_bytes();
    lemma_auto_spec_u64_to_from_le_bytes();
}

/// A u8 found where its serialisation stands.
pub proof fn lemma_parse_u8(s: Seq<u8>, pos: int, x: u8)
    requires
        0 <= pos,
        pos + 1 <= s.len(),
        s.subrange(pos, pos + 1) == ser_u8(x),
    ensures
        parse_u8(s, pos) == Some((x, pos + 1)),
{
    assert(s.subrange(pos, pos + 1)[0] == x);
}

/// A u32 found where its serialisation stands.
pub proof fn lemma_parse_u32(s: Seq<u8>, pos: int, x: u32)
    requires
        0 <= pos,
        pos + 4 <= s.len(),
        s.subrange(pos, pos + 4) == ser_u32(x),
    ensures
        parse_u32(s, pos) == Some((x, pos + 4)),
{
    lemma_auto_spec_u32_to_from_le_bytes();
    assert(spec_u32_to_le_bytes(x).len() == 4);
}

/// A u64 found where its serialisation stands.
pub proof fn lemma_parse_u64(s: Seq<u8>, pos: int, x: u64)
    requires
        0 <= pos,
        pos + 8 <= s.len(),
        s.subrange(pos, pos + 8) == ser_u64(x),
    ensures
        parse_u64(s, pos) == Some((x, pos + 8)),
{
    lemma_auto_spec_u64_to_from_le_bytes();
}

/// A byte string found where its serialisation stands.
pub proof fn lemma_parse_bytes(s: Seq<u8>, pos: int, b: Seq<u8>)
    requires
        0 <= pos,
        b.len() <= u64::MAX,
        pos + 8 + b.len() <= s.len(),
        s.subrange(pos, pos + 8 + b.len()) == ser_bytes(b),
    ensures
        parse_bytes(s, pos) == Some((b, pos + 8 + b.len())),
{
    lemma_ser_lengths();
    let n = b.len() as u64;
    let w = s.subrange(pos, pos + 8 + b.len());
    assert(s.subrange(pos, pos + 8) =~= w.subrange(0, 8));
    assert(w.subrange(0, 8) =~= ser_u64(n));
    lemma_parse_u64(s, pos, n);
    assert(s.subrange(pos + 8, pos + 8 + n) =~= w.subrange(8, 8 + b.len() as int));
    assert(w.subrange(8, 8 + b.len() as int) =~= b);
}

/// A text found where its serialisation stands.
pub proof fn lemma_parse_text(s: Seq<u8>, pos: int, t: Seq<char>)
    requires
        0 <= pos,
        encode_utf8(t).len() <= u64::MAX,
        pos + 8 + encode_utf8(t).len() <= s.len(),
        s.subrange(pos, pos + 8 + encode_utf8(t).len()) == ser_text(t),
    ensures
        parse_text(s, pos) == Some((t, pos + 8 + encode_utf8(t).len())),
{
    lemma_parse_bytes(s, pos, encode_utf8(t));
    encode_utf8_valid_utf8(t);
    encode_utf8_decode_utf8(t);
}

/// A list of identifiers found where its serialisation stands.
pub proof fn lemma_parse_ids(s: Seq<u8>, pos: int, l: Seq<Seq<u8>>)
    requires
        0 <= pos,
        l.len() <= u64::MAX,
        all_ids(l),
        pos + 8 + 32 * l.len() <= s.len(),
        s.subrange(pos, pos + 8 + 32 * l.len()) == ser_ids(l),
    ensures
        parse_ids(s, pos) == Some((l, pos + 8 + 32 * l.len())),
{
    lemma_ser_lengths();
    let n = l.len() as u64;
    let w = s.subrange(pos, pos + 8 + 32 * l.len());
    assert(s.subrange(pos, pos + 8) =~= w.subrange(0, 8));
    assert(w.subrange(0, 8) =~= ser_u64(n));
    lemma_parse_u64(s, pos, n);
    let at = pos + 8;
    let got = Seq::new(n as nat, |i: int| s.subrange(at + 32 * i, at + 32 * i + 32));
    assert forall|i: int| 0 <= i < l.len() implies got[i] == l[i] by {
        assert forall|k: int| 0 <= k < 32 implies got[i][k] == l[i][k] by {
            let j = 32 * i + k;
            assert(j / 32 == i && j % 32 == k) by (nonlinear_arith)
                requires
                    j == 32 * i + k,
                    0 <= k < 32,
            ;
            assert(s[at + j] == w[8 + j]);
            assert(w[8 + j] == concat_ids(l)[j]);
        }
        assert(got[i] =~= l[i]);
    }
    assert(got =~= l);
}

/// A length as a usize holds it: the length, or the largest usize where
/// that does not fit.
pub open spec fn capped(n: int) -> usize {
    if n <= usize::MAX {
        n as usize
    } else {
        usize::MAX
    }
}

/// The sum of two lengths, capped.
pub fn add_capped(a: usize, b: usize) -> (r: usize)
    ensures
        r == capped(a + b),
{
    if a > usize::MAX - b {
        usize::MAX
    } else {
        a + b
    }
}

/// The length of `n` identifiers, capped.
pub fn ids_len_capped(n: usize) -> (r: usize)
    ensures
        r == capped(32 * n),
{
    if n > usize::MAX / 32 {
        usize::MAX
    } else {
        32 * n
    }
}

/// Appending is associative.
pub proof fn lemma_append_assoc(a: Seq<u8>, b: Seq<u8>, c: Seq<u8>)
    ensures
        (a + b) + c == a + (b + c),
{
    assert((a + b) + c =~= a + (b + c));
}

/// Appends a slice.
pub fn put_slice(out: &mut Vec<u8>, b: &[u8])
    ensures
        final(out)@ == old(out)@ + b@,
{
    let mut i: usize = 0;
    while i < b.len()
        invariant
            i <= b@.len(),
            out@ == old(out)@ + b@.subrange(0, i as int),
        decreases b@.len() - i,
    {
        out.push(b[i]);
        assert(b@.subrange(0, i + 1) =~= b@.subrange(0, i as int).push(b@[i as int]));
        i += 1;
    }
    assert(b@.subrange(0, i as int) =~= b@);
}

/// Appends one byte.
pub fn put_u8(out: &mut Vec<u8>, x: u8)
    ensures
        final(out)@ == old(out)@ + ser_u8(x),
{
    out.push(x);
    assert(out@ =~= old(out)@ + ser_u8(x));
}

/// Appends a u32.
pub fn put_u32(out: &mut Vec<u8>, x: u32)
    ensures
        final(out)@ == old(out)@ + ser_u32(x),
{
    let b = u32_to_le_bytes(x);
    put_slice(out, b.as_slice());
}

/// Appends a u64.
pub fn put_u64(out: &mut Vec<u8>, x: u64)
    ensures
        final(out)@ == old(out)@ + ser_u64(x),
{
    let b = u64_to_le_bytes(x);
    put_slice(out, b.as_slice());
}

/// Appends a 32-byte identifier.
pub fn put_id(out: &mut Vec<u8>, id: &[u8; 32])
    ensures
        final(out)@ == old(out)@ + id@,
{
    put_slice(out, id.as_slice());
}

/// Appends a byte string with its length.
pub fn put_bytes(out: &mut Vec<u8>, b: &[u8])
    ensures
        final(out)@ == old(out)@ + ser_bytes(b@),
{
    put_u64(out, b.len() as u64);
    put_slice(out, b);
    assert(out@ =~= old(out)@ + ser_bytes(b@));
}

/// Appends a list of identifiers with its length.
pub fn put_ids(out: &mut Vec<u8>, l: &[[u8; 32]])
    ensures
        final(out)@ == old(out)@ + ser_ids(ids_view(l@)),
{
    put_u64(out, l.len() as u64);
    let ghost start = out@;
    let mut i: usize = 0;
    while i < l.len()
        invariant
            i <= l@.len(),
            out@.len() == start.len() + 32 * i,
            forall|j: int| 0 <= j < start.len() ==> out@[j] == start[j],
            forall|j: int|
                0 <= j < 32 * i ==> out@[start.len() + j] == concat_ids(ids_view(l@))[j],
        decreases l@.len() - i,
    {
        let ghost before = out@;
        put_id(out, &l[i]);
        assert forall|j: int| 0 <= j < 32 * (i + 1) implies out@[start.len() + j] == concat_ids(
            ids_view(l@),
        )[j] by {
            if j >= 32 * i {
                let k = j - 32 * i;
                assert(j / 32 == i && j % 32 == k) by (nonlinear_arith)
                    requires
                        j == 32 * i + k,
                        0 <= k < 32,
                ;
                assert(out@[start.len() + j] == l@[i as int]@[k]);
            }
        }
        i += 1;
    }
    assert(out@ =~= start + concat_ids(ids_view(l@)));
    assert(out@ =~= old(out)@ + ser_ids(ids_view(l@)));
}

/// Reads one byte at `pos`.
pub fn get_u8(data: &[u8], pos: usize) -> (r: Option<(u8, usize)>)
    requires
        pos <= data@.len(),
    ensures
        match r {
            Some((v, next)) => parse_u8(data@, pos as int) == Some((v, next as int)),
            None => parse_u8(data@, pos as int) is None,
        },
{
    if data.len() - pos >= 1 {
        Some((data[pos], pos + 1))
    } else {
        None
    }
}

/// Reads a u32 at `pos`.
pub fn get_u32(data: &[u8], pos: usize) -> (r: Option<(u32, usize)>)
    requires
        pos <= data@.len(),
    ensures
        match r {
            Some((v, next)) => parse_u32(data@, pos as int) == Some((v, next as int)),
            None => parse_u32(data@, pos as int) is None,
        },
{
    if data.len() - pos >= 4 {
        let w = slice_subrange(data, pos, pos + 4);
        Some((u32_from_le_bytes(w), pos + 4))
    } else {
        None
    }
}

/// Reads a u64 at `pos`.
pub fn get_u64(data: &[u8], pos: usize) -> (r: Option<(u64, usize)>)
    requires
        pos <= data@.len(),
    ensures
        match r {
            Some((v, next)) => parse_u64(data@, pos as int) == Some((v, next as int)),
            None => parse_u64(data@, pos as int) is None,
        },
{
    if data.len() - pos >= 8 {
        let w = slice_subrange(data, pos, pos + 8);
        Some((u64_from_le_bytes(w), pos + 8))
    } else {
        None
    }
}

/// Copies the 32 bytes at `pos` into an identifier.
fn id_at(data: &[u8], pos: usize) -> (r: [u8; 32])
    requires
        pos + 32 <= data@.len(),
    ensures
        r@ == data@.subrange(pos as int, pos + 32),
{
    let total: usize = data.len();
    let mut a: [u8; 32] = [0u8;32];
    let mut i: usize = 0;
    while i < 32
        invariant
            i <= 32,
            total == data@.len(),
            pos + 32 <= data@.len(),
            forall|j: int| 0 <= j < i ==> a@[j] == data@[pos + j],
        decreases 32 - i,
    {
        a[i] = data[pos + i];
        i += 1;
    }
    assert(a@ =~= data@.subrange(pos as int, pos + 32));
    a
}

/// Reads a 32-byte identifier at `pos`.
pub fn get_id(data: &[u8], pos: usize) -> (r: Option<([u8; 32], usize)>)
    requires
        pos <= data@.len(),
    ensures
        match r {
            Some((v, next)) => parse_id(data@, pos as int) == Some((v@, next as int)),
            None => parse_id(data@, pos as int) is None,
        },
{
    if data.len() - pos >= 32 {
        let a = id_at(data, pos);
        Some((a, pos + 32))
    } else {
        None
    }
}

/// Reads a byte string at `pos`.
pub fn get_bytes(data: &[u8], pos: usize) -> (r: Option<(Vec<u8>, usize)>)
    requires
        pos <= data@.len(),
    ensures
        match r {
            Some((v, next)) => parse_bytes(data@, pos as int) == Some((v@, next as int)),
            None => parse_bytes(data@, pos as int) is None,
        },
{
    match get_u64(data, pos) {
        Some((n, at)) => {
            if (data.len() - at) as u64 >= n {
                let len: usize = n as usize;
                let w = slice_subrange(data, at, at + len);
                let mut v: Vec<u8> = Vec::new();
                put_slice(&mut v, w);
                Some((v, at + len))
            } else {
                None
            }
        },
        None => None,
    }
}

/// Reads a list of identifiers at `pos`.
pub fn get_ids(data: &[u8], pos: usize) -> (r: Option<(Vec<[u8; 32]>, usize)>)
    requires
        pos <= data@.len(),
    ensures
        match r {
            Some((v, next)) => parse_ids(data@, pos as int) == Some((ids_view(v@), next as int)),
            None => parse_ids(data@, pos as int) is None,
        },
{
    match get_u64(data, pos) {
        Some((n, at)) => {
            if ((data.len() - at) / 32) as u64 >= n {
                let count: usize = n as usize;
                let total: usize = data.len();
                let mut v: Vec<[u8; 32]> = Vec::new();
                let mut i: usize = 0;
                while i < count
                    invariant
                        i <= count,
                        at == pos + 8,
                        total == data@.len(),
                        at + 32 * count <= data@.len(),
                        v@.len() == i,
                        forall|j: int|
                            0 <= j < i ==> (#[trigger] v@[j])@ == data@.subrange(
                                at + 32 * j,
                                at + 32 * j + 32,
                            ),
                    decreases count - i,
                {
                    let a = id_at(data, at + 32 * i);
                    v.push(a);
                    i += 1;
                }
                assert(ids_view(v@) =~= Seq::new(
                    n as nat,
                    |i: int| data@.subrange(at + 32 * i, at + 32 * i + 32),
                ));
                Some((v, at + 32 * count))
            } else {
                None
            }
        },
        None => None,
    }
}

/// Appends a text with the length of its UTF-8 encoding.
pub fn put_text(out: &mut Vec<u8>, t: &str)
    ensures
        final(out)@ == old(out)@ + ser_text(t@),
        encode_utf8(t@).len() <= u64::MAX,
{
    let b = t.as_bytes();
    let n: usize = b.len();
    put_bytes(out, b);
}

/// `String::from_utf8`: the text whose UTF-8 encoding the bytes are, if
/// they are the encoding of one.
#[verifier::external_body]
fn text_from_utf8(bytes: Vec<u8>) -> (r: Option<String>)
    ensures
        r is Some <==> valid_utf8(bytes@),
        r matches Some(t) ==> encode_utf8(t@) == bytes@,
{
    match String::from_utf8(bytes) {
        Ok(t) => Some(t),
        Err(_) => None,
    }
}

/// Reads a text at `pos`.
pub fn get_text(data: &[u8], pos: usize) -> (r: Option<(String, usize)>)
    requires
        pos <= data@.len(),
    ensures
        match r {
            Some((v, next)) => parse_text(data@, pos as int) == Some((v@, next as int)) && next
                <= data@.len(),
            None => parse_text(data@, pos as int) is None,
        },
{
    match get_bytes(data, pos) {
        Some((b, next)) => match text_from_utf8(b) {
            Some(t) => {
                proof {
                    encode_utf8_decode_utf8(t@);
                }
                Some((t, next))
            },
            None => None,
        },
        None => None,
    }
}

/// A copy of a byte string.
pub fn copy_bytes(b: &[u8]) -> (r: Vec<u8>)
    ensures
        r@ == b@,
{
    let mut v: Vec<u8> = Vec::new();
    put_slice(&mut v, b);
    assert(v@ =~= b@);
    v
}

/// A copy of a list of identifiers.
pub fn copy_ids(l: &[[u8; 32]]) -> (r: Vec<[u8; 32]>)
    ensures
        r@ == l@,
{
    let mut v: Vec<[u8; 32]> = Vec::new();
    let mut i: usize = 0;
    while i < l.len()
        invariant
            i <= l@.len(),
            v@ == l@.subrange(0, i as int),
        decreases l@.len() - i,
    {
        v.push(l[i]);
        assert(l@.subrange(0, i + 1) =~= l@.subrange(0, i as int).push(l@[i as int]));
        i += 1;
    }
    assert(l@.subrange(0, i as int) =~= l@);
    v
}

} // verus!
