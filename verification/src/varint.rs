use vstd::prelude::*;
use crate::{VCRError, VCRResult};

verus! {

/// The variable-length (LEB128) encoding of a number: seven bits per byte, lowest first, with
/// the top bit set on every byte but the last.
pub open spec fn leb128(n: nat) -> Seq<u8>
    decreases n,
{
    if n < 128 {
        seq![n as u8]
    } else {
        seq![(n % 128 + 128) as u8] + leb128(n / 128)
    }
}

/// The LEB128 encoding of a `u32`: seven bits per byte, lowest first.
pub(crate) fn varint_u32_bytes(v: u32) -> (res: Vec<u8>)
    ensures
        res@ == leb128(v as nat),
{
    let mut out: Vec<u8> = Vec::new();
    let mut n: u32 = v;
    while n >= 128
        invariant
            out@ + leb128(n as nat) == leb128(v as nat),
        decreases n,
    {
        let b: u8 = (n % 128 + 128) as u8;
        proof {
            assert(leb128(n as nat) == seq![b] + leb128((n / 128) as nat));
            assert(out@.push(b) + leb128((n / 128) as nat) =~= out@ + leb128(n as nat));
        }
        out.push(b);
        n = n / 128;
    }
    proof {
        assert(leb128(n as nat) == seq![n as u8]);
        assert(out@.push(n as u8) =~= out@ + leb128(n as nat));
    }
    out.push(n as u8);
    out
}

/// The LEB128 encoding of a `u16`.
pub(crate) fn varint_u16_bytes(v: u16) -> (res: Vec<u8>)
    ensures
        res@ == leb128(v as nat),
{
    varint_u32_bytes(v as u32)
}

pub open spec fn pow128(n: int) -> int
    decreases n,
{
    if n <= 0 { 1 } else { 128 * pow128(n - 1) }
}

/// The number held by the low seven bits of the first `n` bytes, lowest group first.
pub open spec fn varint_value(s: Seq<u8>, n: int) -> int
    decreases n,
{
    if n <= 0 { 0 } else { varint_value(s, n - 1) + (s[n - 1] as int % 128) * pow128(n - 1) }
}

/// How `integer_encoding`'s `VarIntReader::read_varint` reads a number of at most `maxsize`
/// bytes from the start of `s`, scanning from byte `i`: the number (before it is cut to its
/// type) and the bytes taken. It ends with `UnexpectedEof` when the input ends first, and with
/// `InvalidData` when one more byte follows `maxsize` bytes that all have their top bit set.
pub open spec fn varint_scan(s: Seq<u8>, i: int, maxsize: int) -> (Result<int, VCRError>, int)
    decreases maxsize - i,
{
    if i < 0 || i >= s.len() {
        (Err(VCRError::UnexpectedEof), i)
    } else if i >= maxsize {
        (Err(VCRError::InvalidData), i + 1)
    } else if s[i] < 128 {
        (Ok(varint_value(s, i + 1)), i + 1)
    } else {
        varint_scan(s, i + 1, maxsize)
    }
}

/// Reading a `u32` (at most five bytes): the number cut to 32 bits, and the bytes taken.
pub open spec fn varint_u32_read(s: Seq<u8>) -> (Result<u32, VCRError>, int) {
    let (r, c) = varint_scan(s, 0, 5);
    (match r { Ok(v) => Ok((v % 0x1_0000_0000) as u32), Err(e) => Err(e) }, c)
}

/// Reading a `u16` (at most three bytes): the number cut to 16 bits, and the bytes taken.
pub open spec fn varint_u16_read(s: Seq<u8>) -> (Result<u16, VCRError>, int) {
    let (r, c) = varint_scan(s, 0, 3);
    (match r { Ok(v) => Ok((v % 0x1_0000) as u16), Err(e) => Err(e) }, c)
}

/// Reading a `u8` (at most two bytes): the number cut to 8 bits, and the bytes taken.
pub open spec fn varint_u8_read(s: Seq<u8>) -> (Result<u8, VCRError>, int) {
    let (r, c) = varint_scan(s, 0, 2);
    (match r { Ok(v) => Ok((v % 0x100) as u8), Err(e) => Err(e) }, c)
}

/// Reading a `u64` (at most ten bytes): the number cut to 64 bits, and the bytes taken.
pub open spec fn varint_u64_read(s: Seq<u8>) -> (Result<u64, VCRError>, int) {
    let (r, c) = varint_scan(s, 0, 10);
    (match r { Ok(v) => Ok((v % 0x1_0000_0000_0000_0000) as u64), Err(e) => Err(e) }, c)
}

pub proof fn lemma_scan_bounds(s: Seq<u8>, i: int, maxsize: int)
    requires
        0 <= i <= maxsize,
    ensures
        ({
            let (r, c) = varint_scan(s, i, maxsize);
            &&& i <= c
            &&& (r is Ok ==> c <= s.len() && c <= maxsize)
            &&& (r == Err::<int, VCRError>(VCRError::InvalidData) ==> c == maxsize + 1 && c <= s.len())
            &&& (r == Err::<int, VCRError>(VCRError::UnexpectedEof) ==> c <= s.len() || c == i)
            &&& (r is Err ==> r == Err::<int, VCRError>(VCRError::UnexpectedEof) || r == Err::<int, VCRError>(VCRError::InvalidData))
            &&& (r is Ok ==> 0 <= r.unwrap() < pow128(c))
        }),
    decreases maxsize - i,
{
    if 0 <= i < s.len() && i < maxsize {
        if s[i] < 128 {
            lemma_value_bound(s, i + 1);
        } else {
            lemma_scan_bounds(s, i + 1, maxsize);
        }
    }
}

proof fn lemma_value_bound(s: Seq<u8>, n: int)
    requires
        0 <= n,
    ensures
        0 <= varint_value(s, n) < pow128(n),
    decreases n,
{
    if n > 0 {
        lemma_value_bound(s, n - 1);
        let d = s[n - 1] as int % 128;
        assert(0 <= d <= 127);
        assert(d * pow128(n - 1) <= 127 * pow128(n - 1)) by (nonlinear_arith)
            requires 0 <= d <= 127, pow128(n - 1) >= 0;
    }
}

/// Reads a variable-length `u32` from `pos`, as `read_varint::<u32>` on a cursor does: the
/// result and the position after the bytes taken.
pub fn read_varint_u32(b: &[u8], pos: usize) -> (res: (VCRResult<u32>, usize))
    requires
        pos <= b@.len(),
    ensures
        (res.0, res.1 - pos) == varint_u32_read(b@.subrange(pos as int, b@.len() as int)),
        pos <= res.1 <= b@.len(),
        res.0 is Err ==> res.0 == Err::<u32, VCRError>(VCRError::UnexpectedEof) || res.0 == Err::<u32, VCRError>(VCRError::InvalidData),
        res.0 != Err::<u32, VCRError>(VCRError::UnexpectedEof) ==> res.1 > pos,
{
    let (r, next) = read_varint_scan(b, pos, 5);
    let v = match r {
        Ok(x) => Ok((x % 0x1_0000_0000u128) as u32),
        Err(e) => Err(e),
    };
    (v, next)
}

/// Reads a variable-length `u16` from `pos`, as `read_varint::<u16>` on a cursor does.
pub fn read_varint_u16(b: &[u8], pos: usize) -> (res: (VCRResult<u16>, usize))
    requires
        pos <= b@.len(),
    ensures
        (res.0, res.1 - pos) == varint_u16_read(b@.subrange(pos as int, b@.len() as int)),
        pos <= res.1 <= b@.len(),
        res.0 is Err ==> res.0 == Err::<u16, VCRError>(VCRError::UnexpectedEof) || res.0 == Err::<u16, VCRError>(VCRError::InvalidData),
        res.0 != Err::<u16, VCRError>(VCRError::UnexpectedEof) ==> res.1 > pos,
{
    let (r, next) = read_varint_scan(b, pos, 3);
    let v = match r {
        Ok(x) => Ok((x % 0x1_0000u128) as u16),
        Err(e) => Err(e),
    };
    (v, next)
}

/// Reads a variable-length `u8` from `pos`, as `read_varint::<u8>` on a cursor does.
pub fn read_varint_u8(b: &[u8], pos: usize) -> (res: (VCRResult<u8>, usize))
    requires
        pos <= b@.len(),
    ensures
        (res.0, res.1 - pos) == varint_u8_read(b@.subrange(pos as int, b@.len() as int)),
        pos <= res.1 <= b@.len(),
        res.0 is Err ==> res.0 == Err::<u8, VCRError>(VCRError::UnexpectedEof) || res.0 == Err::<u8, VCRError>(VCRError::InvalidData),
        res.0 != Err::<u8, VCRError>(VCRError::UnexpectedEof) ==> res.1 > pos,
{
    let (r, next) = read_varint_scan(b, pos, 2);
    let v = match r {
        Ok(x) => Ok((x % 0x100u128) as u8),
        Err(e) => Err(e),
    };
    (v, next)
}

/// Reads a variable-length `u64` from `pos`, as `read_varint::<u64>` on a cursor does.
pub fn read_varint_u64(b: &[u8], pos: usize) -> (res: (VCRResult<u64>, usize))
    requires
        pos <= b@.len(),
    ensures
        (res.0, res.1 - pos) == varint_u64_read(b@.subrange(pos as int, b@.len() as int)),
        pos <= res.1 <= b@.len(),
        res.0 is Err ==> res.0 == Err::<u64, VCRError>(VCRError::UnexpectedEof) || res.0 == Err::<u64, VCRError>(VCRError::InvalidData),
        res.0 != Err::<u64, VCRError>(VCRError::UnexpectedEof) ==> res.1 > pos,
{
    let (r, next) = read_varint_scan(b, pos, 10);
    let v = match r {
        Ok(x) => Ok((x % 0x1_0000_0000_0000_0000u128) as u64),
        Err(e) => Err(e),
    };
    (v, next)
}

fn read_varint_scan(b: &[u8], pos: usize, maxsize: usize) -> (res: (VCRResult<u128>, usize))
    requires
        pos <= b@.len(),
        1 <= maxsize <= 10,
    ensures
        ({
            let (r, c) = varint_scan(b@.subrange(pos as int, b@.len() as int), 0, maxsize as int);
            &&& res.1 == pos + c
            &&& match r { Ok(v) => res.0 == Ok::<u128, VCRError>(v as u128) && 0 <= v < pow128(maxsize as int) && v < 0x40_0000_0000_0000_0000, Err(e) => res.0 == Err::<u128, VCRError>(e) }
        }),
        pos <= res.1 <= b@.len(),
        res.0 is Err ==> res.0 == Err::<u128, VCRError>(VCRError::UnexpectedEof) || res.0 == Err::<u128, VCRError>(VCRError::InvalidData),
        res.0 != Err::<u128, VCRError>(VCRError::UnexpectedEof) ==> res.1 > pos,
{
    let ghost s = b@.subrange(pos as int, b@.len() as int);
    let n = b.len();
    let mut i: usize = 0;
    let mut value: u128 = 0;
    let mut scale: u128 = 1;
    proof {
        lemma_scan_bounds(s, 0, maxsize as int);
        reveal_with_fuel(pow128, 11);
        lemma_pow128_monotone(maxsize as int, 10);
    }
    while i < maxsize && pos + i < n && b[pos + i] >= 128
        invariant
            n == b@.len(),
            pos <= n,
            s == b@.subrange(pos as int, n as int),
            1 <= maxsize <= 10,
            i <= maxsize,
            pos + i <= n,
            forall|j: int| 0 <= j < i ==> s[j] >= 128,
            varint_scan(s, 0, maxsize as int) == varint_scan(s, i as int, maxsize as int),
            value as int == varint_value(s, i as int),
            scale as int == pow128(i as int),
            pow128(maxsize as int) <= pow128(10),
        decreases maxsize - i,
    {
        proof {
            reveal_with_fuel(pow128, 11);
            lemma_value_bound(s, i + 1);
            lemma_pow128_monotone(i + 1, maxsize as int);
        }
        value = value + (b[pos + i] as u128 % 128) * scale;
        scale = scale * 128;
        i = i + 1;
    }
    proof {
        reveal_with_fuel(pow128, 11);
    }
    if pos + i >= n {
        return (Err(VCRError::UnexpectedEof), pos + i);
    }
    if i >= maxsize {
        return (Err(VCRError::InvalidData), pos + i + 1);
    }
    proof {
        lemma_value_bound(s, i + 1);
        lemma_pow128_monotone(i + 1, maxsize as int);
    }
    let v = value + (b[pos + i] as u128 % 128) * scale;
    (Ok(v), pos + i + 1)
}

proof fn lemma_pow128_monotone(a: int, b: int)
    requires
        0 <= a <= b,
    ensures
        1 <= pow128(a) <= pow128(b),
    decreases b - a,
{
    if a < b {
        lemma_pow128_monotone(a, b - 1);
        assert(pow128(b) == 128 * pow128(b - 1));
    } else {
        lemma_pow128_positive(a);
    }
}

proof fn lemma_pow128_positive(a: int)
    ensures
        1 <= pow128(a),
    decreases a,
{
    if a > 0 {
        lemma_pow128_positive(a - 1);
    }
}


proof fn lemma_leb128_len(v: nat, k: nat)
    requires
        k >= 1,
        v < pow128(k as int),
    ensures
        1 <= leb128(v).len() <= k,
    decreases v,
{
    if v >= 128 {
        assert(pow128(k as int) == 128 * pow128(k - 1));
        if k == 1 {
            assert(pow128(0) == 1);
        }
        assert(v / 128 < pow128(k - 1)) by (nonlinear_arith)
            requires v < 128 * pow128(k - 1), v >= 0, pow128(k - 1) >= 1;
        lemma_pow128_positive(k - 1);
        lemma_leb128_len(v / 128, (k - 1) as nat);
    }
}

proof fn lemma_leb128_scan(s: Seq<u8>, i: int, v: nat, m: int)
    requires
        0 <= i,
        i + leb128(v).len() <= m,
        i + leb128(v).len() <= s.len(),
        s.subrange(i, i + leb128(v).len()) == leb128(v),
    ensures
        varint_scan(s, i, m) == (Ok::<int, VCRError>(varint_value(s, i + leb128(v).len())), i + leb128(v).len()),
        varint_value(s, i + leb128(v).len()) == varint_value(s, i) + v * pow128(i),
    decreases v,
{
    let l = leb128(v).len() as int;
    assert(s[i] == s.subrange(i, i + l)[0]);
    if v < 128 {
        assert(s[i] == v as u8);
        assert(varint_value(s, i + 1) == varint_value(s, i) + (s[i] as int % 128) * pow128(i));
    } else {
        let w = v / 128;
        let lw = leb128(w).len() as int;
        assert(leb128(v) == seq![(v % 128 + 128) as u8] + leb128(w));
        assert(l == 1 + lw);
        assert(leb128(v).subrange(1, l) =~= leb128(w));
        assert(s.subrange(i + 1, i + 1 + lw) =~= s.subrange(i, i + l).subrange(1, l));
        assert(s[i] == (v % 128 + 128) as u8);
        lemma_leb128_scan(s, i + 1, w, m);
        assert(varint_value(s, i + 1) == varint_value(s, i) + (s[i] as int % 128) * pow128(i));
        assert(s[i] as int % 128 == v % 128);
        assert(pow128(i + 1) == 128 * pow128(i));
        let pi = pow128(i);
        assert((v % 128) * pi + w * (128 * pi) == v * pi) by (nonlinear_arith)
            requires w == v / 128, v >= 0;
    }
}

/// A number below 2^32, written with `leb128` and followed by anything, reads back as a `u32`
/// from the bytes it was written to.
pub proof fn lemma_leb128_read_u32(v: u32, rest: Seq<u8>)
    ensures
        varint_u32_read(leb128(v as nat) + rest) == (Ok::<u32, VCRError>(v), leb128(v as nat).len() as int),
{
    let s = leb128(v as nat) + rest;
    reveal_with_fuel(pow128, 6);
    lemma_leb128_len(v as nat, 5);
    assert(s.subrange(0, leb128(v as nat).len() as int) =~= leb128(v as nat));
    lemma_leb128_scan(s, 0, v as nat, 5);
    assert(varint_value(s, 0) == 0);
}

/// A number below 2^16, written with `leb128` and followed by anything, reads back as a `u16`
/// from the bytes it was written to.
pub proof fn lemma_leb128_read_u16(v: u16, rest: Seq<u8>)
    ensures
        varint_u16_read(leb128(v as nat) + rest) == (Ok::<u16, VCRError>(v), leb128(v as nat).len() as int),
{
    let s = leb128(v as nat) + rest;
    reveal_with_fuel(pow128, 4);
    lemma_leb128_len(v as nat, 3);
    assert(s.subrange(0, leb128(v as nat).len() as int) =~= leb128(v as nat));
    lemma_leb128_scan(s, 0, v as nat, 3);
    assert(varint_value(s, 0) == 0);
}

} // verus!
