use vstd::prelude::*;
use crate::error::{Error, UNEXPECTED_EOF};

verus! {

/// The little-endian 16-bit integer at `p`.
pub open spec fn le_u16(s: Seq<u8>, p: int) -> int {
    s[p] + s[p + 1] * 256
}

/// The little-endian 32-bit integer at `p`.
pub open spec fn le_u32(s: Seq<u8>, p: int) -> int {
    le_u16(s, p) + le_u16(s, p + 2) * 0x1_0000
}

/// The little-endian 64-bit integer at `p`.
pub open spec fn le_u64(s: Seq<u8>, p: int) -> int {
    le_u32(s, p) + le_u32(s, p + 4) * 0x1_0000_0000
}

/// The error of input that ends inside a value.
pub open spec fn eof<T>() -> Result<T, Error> {
    Err(Error::Io(UNEXPECTED_EOF))
}

/// The length that marks a NULL value in a two-byte length prefix.
pub const NULL_U16_LEN: u16 = 0xFFFF;

/// The total length that marks a NULL value in a partially length-prefixed (PLP) value.
pub const PLP_NULL: u64 = 0xFFFF_FFFF_FFFF_FFFF;

/// A value with a two-byte length prefix: the payload (`None` for NULL) and
/// the number of bytes the value takes.
pub open spec fn spec_short_frame(s: Seq<u8>) -> Result<(Option<Seq<u8>>, int), Error> {
    if s.len() < 2 {
        eof()
    } else if le_u16(s, 0) == 0xFFFF {
        Ok((None, 2))
    } else if s.len() < 2 + le_u16(s, 0) {
        eof()
    } else {
        Ok((Some(s.subrange(2, 2 + le_u16(s, 0))), 2 + le_u16(s, 0)))
    }
}

/// A TEXT or NTEXT value: a text pointer of the length its first byte gives
/// (zero for NULL), an eight-byte timestamp, a four-byte length, the payload.
pub open spec fn spec_text_frame(s: Seq<u8>) -> Result<(Option<Seq<u8>>, int), Error> {
    if s.len() < 1 {
        eof()
    } else if s[0] == 0 {
        Ok((None, 1))
    } else {
        let h = 1 + s[0] + 8;
        if s.len() < h + 4 {
            eof()
        } else if s.len() < h + 4 + le_u32(s, h) {
            eof()
        } else {
            Ok((Some(s.subrange(h + 4, h + 4 + le_u32(s, h))), h + 4 + le_u32(s, h)))
        }
    }
}

/// The chunks of a PLP value from `p` on: each a four-byte length and that
/// many bytes, up to a chunk of length zero. Gives the joined chunks and the
/// position after the terminator.
pub open spec fn spec_plp_chunks(s: Seq<u8>, p: nat) -> Result<(Seq<u8>, int), Error>
    decreases s.len() - p,
{
    if s.len() < p + 4 {
        eof()
    } else if le_u32(s, p as int) == 0 {
        Ok((Seq::empty(), p as int + 4))
    } else if s.len() < p + 4 + le_u32(s, p as int) {
        eof()
    } else {
        let q = p as int + 4 + le_u32(s, p as int);
        match spec_plp_chunks(s, q as nat) {
            Ok((rest, end)) => Ok((s.subrange(p as int + 4, q) + rest, end)),
            Err(e) => Err(e),
        }
    }
}

/// A PLP value: an eight-byte total length (all ones for NULL), then chunks.
pub open spec fn spec_plp_frame(s: Seq<u8>) -> Result<(Option<Seq<u8>>, int), Error> {
    if s.len() < 8 {
        eof()
    } else if le_u64(s, 0) == 0xFFFF_FFFF_FFFF_FFFF {
        Ok((None, 8))
    } else {
        match spec_plp_chunks(s, 8) {
            Ok((data, end)) => Ok((Some(data), end)),
            Err(e) => Err(e),
        }
    }
}

/// The two little-endian bytes of `v`.
pub open spec fn le_bytes16(v: int) -> Seq<u8> {
    seq![(v % 256) as u8, (v / 256 % 256) as u8]
}

/// The four little-endian bytes of `v`.
pub open spec fn le_bytes32(v: int) -> Seq<u8> {
    le_bytes16(v % 0x1_0000) + le_bytes16(v / 0x1_0000 % 0x1_0000)
}

/// The eight little-endian bytes of `v`.
pub open spec fn le_bytes64(v: int) -> Seq<u8> {
    le_bytes32(v % 0x1_0000_0000) + le_bytes32(v / 0x1_0000_0000 % 0x1_0000_0000)
}

/// Splitting a number below `k * k` into its low and high digits in base `k`.
proof fn lemma_split_digits(v: int, k: int)
    requires
        0 < k,
        0 <= v < k * k,
    ensures
        0 <= v % k < k,
        0 <= v / k < k,
        v / k % k == v / k,
        v % k + (v / k % k) * k == v,
{
    assert(v == k * (v / k) + v % k) by (nonlinear_arith)
        requires
            0 < k,
    ;
    assert(0 <= v % k < k) by (nonlinear_arith)
        requires
            0 < k,
    ;
    assert(0 <= v / k < k) by (nonlinear_arith)
        requires
            0 < k,
            0 <= v < k * k,
    ;
    assert(v / k % k == v / k) by (nonlinear_arith)
        requires
            0 < k,
            0 <= v / k < k,
    ;
}

/// Reading back the bytes of a 16-bit integer.
pub proof fn lemma_le16(v: int, rest: Seq<u8>, p: int)
    requires
        0 <= v < 0x1_0000,
        0 <= p,
        p + 2 <= rest.len(),
        rest.subrange(p, p + 2) == le_bytes16(v),
    ensures
        le_u16(rest, p) == v,
{
    lemma_split_digits(v, 256);
    assert(rest[p] == rest.subrange(p, p + 2)[0]);
    assert(rest[p + 1] == rest.subrange(p, p + 2)[1]);
}

/// Reading back the bytes of a 32-bit integer.
pub proof fn lemma_le32(v: int, rest: Seq<u8>, p: int)
    requires
        0 <= v < 0x1_0000_0000,
        0 <= p,
        p + 4 <= rest.len(),
        rest.subrange(p, p + 4) == le_bytes32(v),
    ensures
        le_u32(rest, p) == v,
{
    lemma_split_digits(v, 0x1_0000);
    let lo = v % 0x1_0000;
    let hi = v / 0x1_0000 % 0x1_0000;
    assert(rest.subrange(p, p + 2) =~= rest.subrange(p, p + 4).subrange(0, 2));
    assert(rest.subrange(p + 2, p + 4) =~= rest.subrange(p, p + 4).subrange(2, 4));
    assert(le_bytes32(v).subrange(0, 2) =~= le_bytes16(lo));
    assert(le_bytes32(v).subrange(2, 4) =~= le_bytes16(hi));
    lemma_le16(lo, rest, p);
    lemma_le16(hi, rest, p + 2);
}

/// Reading back the bytes of a 64-bit integer.
pub proof fn lemma_le64(v: int, rest: Seq<u8>, p: int)
    requires
        0 <= v < 0x1_0000_0000_0000_0000,
        0 <= p,
        p + 8 <= rest.len(),
        rest.subrange(p, p + 8) == le_bytes64(v),
    ensures
        le_u64(rest, p) == v,
{
    lemma_split_digits(v, 0x1_0000_0000);
    let lo = v % 0x1_0000_0000;
    let hi = v / 0x1_0000_0000 % 0x1_0000_0000;
    assert(rest.subrange(p, p + 4) =~= rest.subrange(p, p + 8).subrange(0, 4));
    assert(rest.subrange(p + 4, p + 8) =~= rest.subrange(p, p + 8).subrange(4, 8));
    assert(le_bytes64(v).subrange(0, 4) =~= le_bytes32(lo));
    assert(le_bytes64(v).subrange(4, 8) =~= le_bytes32(hi));
    lemma_le32(lo, rest, p);
    lemma_le32(hi, rest, p + 4);
}

/// The little-endian 16-bit integer at `p`.
pub fn read_u16(s: &[u8], p: usize) -> (v: u16)
    requires
        p + 2 <= s@.len(),
    ensures
        v == le_u16(s@, p as int),
{
    let _len = s.len();
    (s[p] as u16) + (s[p + 1] as u16) * 256
}

/// The little-endian 32-bit integer at `p`.
pub fn read_u32(s: &[u8], p: usize) -> (v: u32)
    requires
        p + 4 <= s@.len(),
    ensures
        v == le_u32(s@, p as int),
{
    let _len = s.len();
    (read_u16(s, p) as u32) + (read_u16(s, p + 2) as u32) * 0x1_0000
}

/// The little-endian 64-bit integer at `p`.
pub fn read_u64(s: &[u8], p: usize) -> (v: u64)
    requires
        p + 8 <= s@.len(),
    ensures
        v == le_u64(s@, p as int),
{
    let _len = s.len();
    (read_u32(s, p) as u64) + (read_u32(s, p + 4) as u64) * 0x1_0000_0000
}

/// Appends `s[start..end]` to `out`.
pub fn append_range(out: &mut Vec<u8>, s: &[u8], start: usize, end: usize)
    requires
        start <= end <= s@.len(),
    ensures
        final(out)@ == old(out)@ + s@.subrange(start as int, end as int),
{
    let mut i = start;
    while i < end
        invariant
            start <= i <= end <= s@.len(),
            out@ == old(out)@ + s@.subrange(start as int, i as int),
        decreases end - i,
    {
        out.push(s[i]);
        assert(s@.subrange(start as int, i + 1) =~= s@.subrange(start as int, i as int).push(s@[i as int]));
        i = i + 1;
    }
}

/// Appends the two little-endian bytes of `v`.
pub fn push_u16(out: &mut Vec<u8>, v: u16)
    ensures
        final(out)@ == old(out)@ + le_bytes16(v as int),
{
    out.push((v % 256) as u8);
    out.push((v / 256) as u8);
    assert(final(out)@ =~= old(out)@ + le_bytes16(v as int));
}

/// Appends the four little-endian bytes of `v`.
pub fn push_u32(out: &mut Vec<u8>, v: u32)
    ensures
        final(out)@ == old(out)@ + le_bytes32(v as int),
{
    let lo: u16 = (v % 0x1_0000) as u16;
    let hi: u16 = (v / 0x1_0000) as u16;
    proof {
        lemma_split_digits(v as int, 0x1_0000);
    }
    let ghost start = out@;
    push_u16(out, lo);
    push_u16(out, hi);
    assert(le_bytes32(v as int) == le_bytes16(lo as int) + le_bytes16(hi as int));
    assert(final(out)@ =~= start + le_bytes32(v as int));
}

/// Appends the eight little-endian bytes of `v`.
pub fn push_u64(out: &mut Vec<u8>, v: u64)
    ensures
        final(out)@ == old(out)@ + le_bytes64(v as int),
{
    let lo: u32 = (v % 0x1_0000_0000) as u32;
    let hi: u32 = (v / 0x1_0000_0000) as u32;
    proof {
        lemma_split_digits(v as int, 0x1_0000_0000);
        assert(hi as int == v as int / 0x1_0000_0000 % 0x1_0000_0000);
        assert(lo as int == v as int % 0x1_0000_0000);
    }
    let ghost start = out@;
    push_u32(out, lo);
    push_u32(out, hi);
    assert(le_bytes64(v as int) == le_bytes32(lo as int) + le_bytes32(hi as int));
    assert(final(out)@ =~= start + le_bytes64(v as int));
}

/// Reads a value with a two-byte length prefix; see `spec_short_frame`.
pub fn read_short_frame(s: &[u8]) -> (r: Result<(Option<Vec<u8>>, usize), Error>)
    ensures
        match r {
            Ok((data, n)) => spec_short_frame(s@) == Ok::<(Option<Seq<u8>>, int), Error>((
                match data {
                    Some(d) => Some(d@),
                    None => None,
                },
                n as int,
            )),
            Err(e) => spec_short_frame(s@) == Err::<(Option<Seq<u8>>, int), Error>(e),
        },
{
    let len = s.len();
    if len < 2 {
        return Err(Error::Io(UNEXPECTED_EOF));
    }
    let n = read_u16(s, 0);
    if n == NULL_U16_LEN {
        return Ok((None, 2));
    }
    if len - 2 < n as usize {
        return Err(Error::Io(UNEXPECTED_EOF));
    }
    let end: usize = 2 + n as usize;
    let mut data: Vec<u8> = Vec::new();
    append_range(&mut data, s, 2, end);
    assert(data@ =~= s@.subrange(2, end as int));
    Ok((Some(data), end))
}

/// Reads a TEXT or NTEXT value; see `spec_text_frame`.
pub fn read_text_frame(s: &[u8]) -> (r: Result<(Option<Vec<u8>>, usize), Error>)
    ensures
        match r {
            Ok((data, n)) => spec_text_frame(s@) == Ok::<(Option<Seq<u8>>, int), Error>((
                match data {
                    Some(d) => Some(d@),
                    None => None,
                },
                n as int,
            )),
            Err(e) => spec_text_frame(s@) == Err::<(Option<Seq<u8>>, int), Error>(e),
        },
{
    let len = s.len();
    if len < 1 {
        return Err(Error::Io(UNEXPECTED_EOF));
    }
    if s[0] == 0 {
        return Ok((None, 1));
    }
    let h: usize = 1 + s[0] as usize + 8;
    if len < h || len - h < 4 {
        return Err(Error::Io(UNEXPECTED_EOF));
    }
    let n = read_u32(s, h);
    if len - h - 4 < n as usize {
        return Err(Error::Io(UNEXPECTED_EOF));
    }
    let end: usize = h + 4 + n as usize;
    let mut data: Vec<u8> = Vec::new();
    append_range(&mut data, s, h + 4, end);
    assert(data@ =~= s@.subrange(h + 4, end as int));
    Ok((Some(data), end))
}

/// Reads a PLP value; see `spec_plp_frame`.
pub fn read_plp_frame(s: &[u8]) -> (r: Result<(Option<Vec<u8>>, usize), Error>)
    ensures
        match r {
            Ok((data, n)) => spec_plp_frame(s@) == Ok::<(Option<Seq<u8>>, int), Error>((
                match data {
                    Some(d) => Some(d@),
                    None => None,
                },
                n as int,
            )),
            Err(e) => spec_plp_frame(s@) == Err::<(Option<Seq<u8>>, int), Error>(e),
        },
{
    let len = s.len();
    if len < 8 {
        return Err(Error::Io(UNEXPECTED_EOF));
    }
    if read_u64(s, 0) == PLP_NULL {
        return Ok((None, 8));
    }
    let mut data: Vec<u8> = Vec::new();
    let mut p: usize = 8;
    loop
        invariant
            8 <= p <= len,
            len == s@.len(),
            le_u64(s@, 0) != 0xFFFF_FFFF_FFFF_FFFF,
            spec_plp_chunks(s@, 8) == (match spec_plp_chunks(s@, p as nat) {
                Ok((rest, end)) => Ok::<(Seq<u8>, int), Error>((data@ + rest, end)),
                Err(e) => Err(e),
            }),
        decreases len - p,
    {
        if len - p < 4 {
            return Err(Error::Io(UNEXPECTED_EOF));
        }
        let n = read_u32(s, p);
        if n == 0 {
            assert(data@ + Seq::<u8>::empty() =~= data@);
            return Ok((Some(data), p + 4));
        }
        if len - p - 4 < n as usize {
            return Err(Error::Io(UNEXPECTED_EOF));
        }
        let q: usize = p + 4 + n as usize;
        let ghost old_data = data@;
        append_range(&mut data, s, p + 4, q);
        proof {
            match spec_plp_chunks(s@, q as nat) {
                Ok((rest, end)) => {
                    assert(old_data + (s@.subrange(p + 4, q as int) + rest) =~= data@ + rest);
                },
                Err(e) => {},
            }
        }
        p = q;
    }
}

/// The model of a frame read by the exec readers.
pub open spec fn frame_view(f: Result<(Option<Vec<u8>>, usize), Error>) -> Result<(Option<Seq<u8>>, int), Error> {
    match f {
        Ok((Some(d), n)) => Ok((Some(d@), n as int)),
        Ok((None, n)) => Ok((None, n as int)),
        Err(e) => Err(e),
    }
}

/// The joined chunks of a PLP value fit between its start and its end, and
/// the end lies within the input.
pub proof fn lemma_plp_chunks_bounds(s: Seq<u8>, p: nat)
    ensures
        spec_plp_chunks(s, p) matches Ok((data, end)) ==> p + 4 + data.len() <= end <= s.len(),
    decreases s.len() - p,
{
    if s.len() >= p + 4 && le_u32(s, p as int) != 0 && s.len() >= p + 4 + le_u32(s, p as int) {
        let q = p as int + 4 + le_u32(s, p as int);
        lemma_plp_chunks_bounds(s, q as nat);
    }
}

/// Every frame takes no more than the input holds, and its payload no more
/// than the frame.
pub proof fn lemma_frame_bounds(s: Seq<u8>)
    ensures
        spec_short_frame(s) matches Ok((d, n)) ==> n <= s.len() && (d matches Some(b) ==> b.len() <= n),
        spec_text_frame(s) matches Ok((d, n)) ==> n <= s.len() && (d matches Some(b) ==> b.len() <= n),
        spec_plp_frame(s) matches Ok((d, n)) ==> n <= s.len() && (d matches Some(b) ==> b.len() <= n),
{
    lemma_plp_chunks_bounds(s, 8);
}

/// The bytes of a value with a two-byte length prefix.
pub open spec fn short_bytes(data: Seq<u8>) -> Seq<u8> {
    le_bytes16(data.len() as int) + data
}

/// The length of the text pointer that written TEXT values carry.
pub const TEXT_POINTER_LEN: u8 = 16;

/// The bytes of a TEXT value: a sixteen-byte text pointer and an eight-byte
/// timestamp, both zero, then the length and the data.
pub open spec fn text_bytes(data: Seq<u8>) -> Seq<u8> {
    seq![16u8] + Seq::new(24, |i: int| 0u8) + le_bytes32(data.len() as int) + data
}

/// The bytes of a PLP value holding `data` in one chunk (none when empty).
pub open spec fn plp_bytes(data: Seq<u8>) -> Seq<u8> {
    le_bytes64(data.len() as int) + (if data.len() == 0 {
        Seq::<u8>::empty()
    } else {
        le_bytes32(data.len() as int) + data
    }) + le_bytes32(0)
}

/// A value with a length prefix is read back whole, whatever follows it.
pub proof fn law_short_frame_roundtrip(data: Seq<u8>, rest: Seq<u8>)
    requires
        data.len() < 0xFFFF,
    ensures
        spec_short_frame(short_bytes(data) + rest) == Ok::<(Option<Seq<u8>>, int), Error>((Some(data), data.len() as int + 2)),
{
    let s = short_bytes(data) + rest;
    assert(s.subrange(0, 2) =~= le_bytes16(data.len() as int));
    lemma_le16(data.len() as int, s, 0);
    assert(s.subrange(2, 2 + data.len() as int) =~= data);
}

/// A NULL with a length prefix is read back, whatever follows it.
pub proof fn law_short_null_roundtrip(rest: Seq<u8>)
    ensures
        spec_short_frame(le_bytes16(0xFFFF) + rest) == Ok::<(Option<Seq<u8>>, int), Error>((None, 2)),
{
    let s = le_bytes16(0xFFFF) + rest;
    assert(s.subrange(0, 2) =~= le_bytes16(0xFFFF));
    lemma_le16(0xFFFF, s, 0);
}

/// A TEXT value is read back whole, whatever follows it.
pub proof fn law_text_frame_roundtrip(data: Seq<u8>, rest: Seq<u8>)
    requires
        data.len() <= 0xFFFF_FFFF,
    ensures
        spec_text_frame(text_bytes(data) + rest) == Ok::<(Option<Seq<u8>>, int), Error>((Some(data), data.len() as int + 29)),
{
    let s = text_bytes(data) + rest;
    assert(s[0] == 16u8);
    assert(s.subrange(25, 29) =~= le_bytes32(data.len() as int));
    lemma_le32(data.len() as int, s, 25);
    assert(s.subrange(29, 29 + data.len() as int) =~= data);
}

/// A TEXT NULL is read back, whatever follows it.
pub proof fn law_text_null_roundtrip(rest: Seq<u8>)
    ensures
        spec_text_frame(seq![0u8] + rest) == Ok::<(Option<Seq<u8>>, int), Error>((None, 1)),
{
    assert((seq![0u8] + rest)[0] == 0u8);
}

/// A PLP value is read back whole, whatever follows it.
pub proof fn law_plp_frame_roundtrip(data: Seq<u8>, rest: Seq<u8>)
    requires
        data.len() <= 0xFFFF_FFFF,
    ensures
        spec_plp_frame(plp_bytes(data) + rest) == Ok::<(Option<Seq<u8>>, int), Error>((Some(data), plp_bytes(data).len() as int)),
{
    let s = plp_bytes(data) + rest;
    let n = data.len() as int;
    assert(s.subrange(0, 8) =~= le_bytes64(n));
    lemma_le64(n, s, 0);
    if n == 0 {
        assert(s.subrange(8, 12) =~= le_bytes32(0));
        lemma_le32(0, s, 8);
        assert(spec_plp_chunks(s, 8) == Ok::<(Seq<u8>, int), Error>((Seq::<u8>::empty(), 12)));
        assert(data =~= Seq::<u8>::empty());
    } else {
        assert(s.subrange(8, 12) =~= le_bytes32(n));
        lemma_le32(n, s, 8);
        assert(s.subrange(12, 12 + n) =~= data);
        assert(s.subrange(12 + n, 16 + n) =~= le_bytes32(0));
        lemma_le32(0, s, 12 + n);
        assert(spec_plp_chunks(s, (12 + n) as nat) == Ok::<(Seq<u8>, int), Error>((Seq::<u8>::empty(), 16 + n)));
        assert(data + Seq::<u8>::empty() =~= data);
    }
}

/// A PLP NULL is read back, whatever follows it.
pub proof fn law_plp_null_roundtrip(rest: Seq<u8>)
    ensures
        spec_plp_frame(le_bytes64(0xFFFF_FFFF_FFFF_FFFF) + rest) == Ok::<(Option<Seq<u8>>, int), Error>((None, 8)),
{
    let s = le_bytes64(0xFFFF_FFFF_FFFF_FFFF) + rest;
    assert(s.subrange(0, 8) =~= le_bytes64(0xFFFF_FFFF_FFFF_FFFF));
    lemma_le64(0xFFFF_FFFF_FFFF_FFFF, s, 0);
}

/// Appends a value with a two-byte length prefix.
pub fn push_short_frame(out: &mut Vec<u8>, data: &[u8])
    requires
        data@.len() < 0xFFFF,
    ensures
        final(out)@ == old(out)@ + short_bytes(data@),
{
    push_u16(out, data.len() as u16);
    append_range(out, data, 0, data.len());
    assert(data@.subrange(0, data@.len() as int) =~= data@);
    assert(final(out)@ =~= old(out)@ + short_bytes(data@));
}

/// Appends a TEXT value.
pub fn push_text_frame(out: &mut Vec<u8>, data: &[u8])
    requires
        data@.len() <= 0xFFFF_FFFF,
    ensures
        final(out)@ == old(out)@ + text_bytes(data@),
{
    let ghost start = out@;
    out.push(TEXT_POINTER_LEN);
    let mut i: usize = 0;
    while i < 24
        invariant
            0 <= i <= 24,
            out@ == start + seq![16u8] + Seq::new(i as nat, |k: int| 0u8),
        decreases 24 - i,
    {
        out.push(0u8);
        assert(start + seq![16u8] + Seq::new((i + 1) as nat, |k: int| 0u8) =~= start + seq![16u8] + Seq::new(i as nat, |k: int| 0u8) + seq![0u8]);
        i = i + 1;
    }
    push_u32(out, data.len() as u32);
    append_range(out, data, 0, data.len());
    assert(data@.subrange(0, data@.len() as int) =~= data@);
    assert(final(out)@ =~= start + text_bytes(data@));
}

/// Appends a PLP value holding `data` in one chunk.
pub fn push_plp_frame(out: &mut Vec<u8>, data: &[u8])
    requires
        data@.len() <= 0xFFFF_FFFF,
    ensures
        final(out)@ == old(out)@ + plp_bytes(data@),
{
    let ghost start = out@;
    push_u64(out, data.len() as u64);
    if data.len() > 0 {
        push_u32(out, data.len() as u32);
        append_range(out, data, 0, data.len());
    }
    push_u32(out, 0);
    assert(data@.subrange(0, data@.len() as int) =~= data@);
    assert(final(out)@ =~= start + plp_bytes(data@));
}

/// Integers read inside `s` are unchanged by what follows `s`.
pub proof fn lemma_read_prefix(s: Seq<u8>, rest: Seq<u8>, p: int)
    requires
        0 <= p,
    ensures
        p + 2 <= s.len() ==> le_u16(s + rest, p) == le_u16(s, p),
        p + 4 <= s.len() ==> le_u32(s + rest, p) == le_u32(s, p),
        p + 8 <= s.len() ==> le_u64(s + rest, p) == le_u64(s, p),
{
}

/// PLP chunks read inside `s` are unchanged by what follows `s`.
pub proof fn lemma_plp_chunks_prefix(s: Seq<u8>, rest: Seq<u8>, p: nat)
    ensures
        spec_plp_chunks(s, p) is Ok ==> spec_plp_chunks(s + rest, p) == spec_plp_chunks(s, p),
    decreases s.len() - p,
{
    if s.len() >= p + 4 {
        lemma_read_prefix(s, rest, p as int);
        let n = le_u32(s, p as int);
        if n != 0 && s.len() >= p + 4 + n {
            let q = p as int + 4 + n;
            lemma_plp_chunks_prefix(s, rest, q as nat);
            assert((s + rest).subrange(p as int + 4, q) =~= s.subrange(p as int + 4, q));
        }
    }
}

/// A frame read from `s` is unchanged by what follows `s`.
pub proof fn lemma_frames_prefix(s: Seq<u8>, rest: Seq<u8>)
    ensures
        spec_short_frame(s) is Ok ==> spec_short_frame(s + rest) == spec_short_frame(s),
        spec_text_frame(s) is Ok ==> spec_text_frame(s + rest) == spec_text_frame(s),
        spec_plp_frame(s) is Ok ==> spec_plp_frame(s + rest) == spec_plp_frame(s),
{
    lemma_read_prefix(s, rest, 0);
    if s.len() >= 2 {
        let n = le_u16(s, 0);
        if s.len() >= 2 + n {
            assert((s + rest).subrange(2, 2 + n) =~= s.subrange(2, 2 + n));
        }
    }
    if s.len() >= 1 && s[0] != 0 {
        let h = 1 + s[0] + 8;
        lemma_read_prefix(s, rest, h);
        if s.len() >= h + 4 && s.len() >= h + 4 + le_u32(s, h) {
            assert((s + rest).subrange(h + 4, h + 4 + le_u32(s, h)) =~= s.subrange(h + 4, h + 4 + le_u32(s, h)));
        }
    }
    lemma_plp_chunks_prefix(s, rest, 8);
}

} // verus!
