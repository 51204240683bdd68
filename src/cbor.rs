//! The subset of CBOR that the message formats of this crate use: unsigned
//! integers, byte and text strings, arrays, maps, booleans, null and
//! single-precision floats. Encoders always emit the shortest head, and write
//! a float in half precision where that loses nothing, else in single
//! precision; decoders also accept longer heads.
use vstd::prelude::*;
use vstd::utf8::*;

verus! {

broadcast use vstd::utf8::group_utf8_lib;

/// Why a byte string is not a well-formed value of the expected shape.
#[derive(Debug, Clone, Copy, PartialEq, Eq, Structural)]
pub enum DecodeError {
    /// The discriminant does not name a known variant.
    UnknownVariant,
    /// The input ends before a field or an announced byte.
    Truncated,
    /// A field has the wrong major type, length or range.
    TypeMismatch,
}

pub const MAJOR_UINT: u8 = 0;
pub const MAJOR_NEGATIVE: u8 = 1;
pub const MAJOR_BYTES: u8 = 2;
pub const MAJOR_TEXT: u8 = 3;
pub const MAJOR_ARRAY: u8 = 4;
pub const MAJOR_MAP: u8 = 5;

pub const FALSE_BYTE: u8 = 0xf4;
pub const TRUE_BYTE: u8 = 0xf5;
pub const NULL_BYTE: u8 = 0xf6;
pub const F16_BYTE: u8 = 0xf9;
pub const F32_BYTE: u8 = 0xfa;

pub open spec fn pow256(n: nat) -> nat
    decreases n,
{
    if n == 0 {
        1
    } else {
        256 * pow256((n - 1) as nat)
    }
}

/// The `n` low-order bytes of `a`, most significant first.
pub open spec fn be_bytes(a: nat, n: nat) -> Seq<u8>
    decreases n,
{
    if n == 0 {
        Seq::empty()
    } else {
        be_bytes(a / 256, (n - 1) as nat).push((a % 256) as u8)
    }
}

/// The number that a big-endian byte string stands for.
pub open spec fn be_value(s: Seq<u8>) -> nat
    decreases s.len(),
{
    if s.len() == 0 {
        0
    } else {
        (be_value(s.drop_last()) * 256 + s.last()) as nat
    }
}

/// How many bytes follow the initial byte when `a` is written as shortly as possible.
pub open spec fn arg_width(a: u64) -> nat {
    if a < 24 {
        0
    } else if a < 0x100 {
        1
    } else if a < 0x1_0000 {
        2
    } else if a < 0x1_0000_0000 {
        4
    } else {
        8
    }
}

/// The additional-information bits that announce `w` following bytes.
pub open spec fn width_code(w: nat) -> nat {
    if w == 1 {
        24
    } else if w == 2 {
        25
    } else if w == 4 {
        26
    } else {
        27
    }
}

/// The shortest head of a data item of major type `major` with argument `arg`.
#[verifier::opaque]
pub open spec fn enc_head(major: u8, arg: u64) -> Seq<u8> {
    let w = arg_width(arg);
    if w == 0 {
        seq![(major * 32 + arg) as u8]
    } else {
        seq![(major * 32 + width_code(w)) as u8] + be_bytes(arg as nat, w)
    }
}

/// Reads a head at `pos`: its major type, its argument and where the item goes on.
#[verifier::opaque]
pub open spec fn dec_head(s: Seq<u8>, pos: int) -> Result<(u8, u64, int), DecodeError> {
    if pos < 0 || pos >= s.len() {
        Err(DecodeError::Truncated)
    } else {
        let b = s[pos];
        let major = (b / 32) as u8;
        let ai = b % 32;
        if ai < 24 {
            Ok((major, ai as u64, pos + 1))
        } else if ai < 28 {
            let w: int = if ai == 24 {
                1
            } else if ai == 25 {
                2
            } else if ai == 26 {
                4
            } else {
                8
            };
            if pos + 1 + w > s.len() {
                Err(DecodeError::Truncated)
            } else {
                Ok((major, be_value(s.subrange(pos + 1, pos + 1 + w)) as u64, pos + 1 + w))
            }
        } else {
            Err(DecodeError::TypeMismatch)
        }
    }
}

/// Reads a head of the given major type.
pub open spec fn dec_head_of(s: Seq<u8>, pos: int, major: u8) -> Result<(u64, int), DecodeError> {
    match dec_head(s, pos) {
        Ok((m, a, p)) => if m == major {
            Ok((a, p))
        } else {
            Err(DecodeError::TypeMismatch)
        },
        Err(e) => Err(e),
    }
}

pub open spec fn enc_uint(a: u64) -> Seq<u8> {
    enc_head(MAJOR_UINT, a)
}

pub open spec fn dec_uint(s: Seq<u8>, pos: int) -> Result<(u64, int), DecodeError> {
    dec_head_of(s, pos, MAJOR_UINT)
}

pub open spec fn dec_u8(s: Seq<u8>, pos: int) -> Result<(u8, int), DecodeError> {
    match dec_uint(s, pos) {
        Ok((a, p)) => if a < 0x100 {
            Ok((a as u8, p))
        } else {
            Err(DecodeError::TypeMismatch)
        },
        Err(e) => Err(e),
    }
}

pub open spec fn dec_u16(s: Seq<u8>, pos: int) -> Result<(u16, int), DecodeError> {
    match dec_uint(s, pos) {
        Ok((a, p)) => if a < 0x1_0000 {
            Ok((a as u16, p))
        } else {
            Err(DecodeError::TypeMismatch)
        },
        Err(e) => Err(e),
    }
}

/// Reads the discriminant of a tagged value: an integer that names no
/// variant (negative, or above 255) is an unknown variant, anything else
/// than an integer a mismatch.
pub open spec fn dec_discriminant(s: Seq<u8>, pos: int) -> Result<(u8, int), DecodeError> {
    match dec_head(s, pos) {
        Err(e) => Err(e),
        Ok((m, a, q)) => if m == MAJOR_UINT && a < 0x100 {
            Ok((a as u8, q))
        } else if m == MAJOR_UINT || m == MAJOR_NEGATIVE {
            Err(DecodeError::UnknownVariant)
        } else {
            Err(DecodeError::TypeMismatch)
        },
    }
}

pub open spec fn enc_bytes(b: Seq<u8>) -> Seq<u8> {
    enc_head(MAJOR_BYTES, b.len() as u64) + b
}

/// Reads `n` raw bytes at `pos`.
pub open spec fn dec_raw(s: Seq<u8>, pos: int, n: int) -> Result<(Seq<u8>, int), DecodeError> {
    if pos + n > s.len() {
        Err(DecodeError::Truncated)
    } else {
        Ok((s.subrange(pos, pos + n), pos + n))
    }
}

pub open spec fn dec_bytes(s: Seq<u8>, pos: int) -> Result<(Seq<u8>, int), DecodeError> {
    match dec_head_of(s, pos, MAJOR_BYTES) {
        Ok((n, p)) => dec_raw(s, p, n as int),
        Err(e) => Err(e),
    }
}

pub open spec fn enc_text(t: Seq<char>) -> Seq<u8> {
    enc_head(MAJOR_TEXT, encode_utf8(t).len() as u64) + encode_utf8(t)
}

pub open spec fn dec_text(s: Seq<u8>, pos: int) -> Result<(Seq<char>, int), DecodeError> {
    match dec_head_of(s, pos, MAJOR_TEXT) {
        Ok((n, p)) => match dec_raw(s, p, n as int) {
            Ok((b, q)) => if valid_utf8(b) {
                Ok((decode_utf8(b), q))
            } else {
                Err(DecodeError::TypeMismatch)
            },
            Err(e) => Err(e),
        },
        Err(e) => Err(e),
    }
}

pub open spec fn enc_bool(b: bool) -> Seq<u8> {
    if b {
        seq![TRUE_BYTE]
    } else {
        seq![FALSE_BYTE]
    }
}

pub open spec fn dec_bool(s: Seq<u8>, pos: int) -> Result<(bool, int), DecodeError> {
    if pos < 0 || pos >= s.len() {
        Err(DecodeError::Truncated)
    } else if s[pos] == TRUE_BYTE {
        Ok((true, pos + 1))
    } else if s[pos] == FALSE_BYTE {
        Ok((false, pos + 1))
    } else {
        Err(DecodeError::TypeMismatch)
    }
}

pub open spec fn is_null_at(s: Seq<u8>, pos: int) -> bool {
    0 <= pos < s.len() && s[pos] == NULL_BYTE
}

pub open spec fn f32_is_inf(x: u32) -> bool {
    x & 0x7fff_ffff == 0x7f80_0000
}

pub open spec fn f32_is_nan(x: u32) -> bool {
    x & 0x7f80_0000 == 0x7f80_0000 && x & 0x7f_ffff != 0
}

/// The quiet NaN that half precision writes for every NaN.
pub const CANONICAL_NAN: u32 = 0x7fc0_0000;

/// A float that survives the wire: any value but a NaN other than the canonical one.
pub open spec fn f32_kept(x: u32) -> bool {
    !f32_is_nan(x) || x == CANONICAL_NAN
}

/// The half-precision pattern written for `x`: infinities, NaN (as the
/// canonical one) and every value that half precision holds exactly.
pub open spec fn half_code(x: u32) -> Option<u16> {
    if f32_is_inf(x) {
        Some(if x & 0x8000_0000 != 0 { 0xfc00u16 } else { 0x7c00u16 })
    } else if f32_is_nan(x) {
        Some(0x7e00u16)
    } else {
        half_exact(x)
    }
}

/// A single-precision float, given by its IEEE 754 bit pattern: in half
/// precision where that loses nothing, else in single precision.
pub open spec fn enc_f32(bits: u32) -> Seq<u8> {
    match half_code(bits) {
        Some(h) => seq![F16_BYTE] + be_bytes(h as nat, 2),
        None => seq![F32_BYTE] + be_bytes(bits as nat, 4),
    }
}

pub open spec fn half_exact(x: u32) -> Option<u16> {
    let exp = (x >> 23u32) & 0xff;
    let man = x & 0x7f_ffff;
    let sign = (x >> 16u32) & 0x8000;
    let sig = man | 0x80_0000;
    if exp == 0 && man == 0 {
        Some(sign as u16)
    } else if 113 <= exp && exp <= 142 && man & 0x1fff == 0 {
        Some((sign | (((exp - 112) as u32) << 10u32) | (man >> 13u32)) as u16)
    } else if 103 <= exp && exp <= 112 && (sig >> ((126 - exp) as u32)) << ((126 - exp) as u32) == sig {
        Some((sign | (sig >> ((126 - exp) as u32))) as u16)
    } else {
        None
    }
}

pub proof fn lemma_half_exact(x: u32)
    requires
        half_exact(x) is Some,
    ensures
        half_to_single(half_exact(x)->Some_0) == x,
{
    let exp = (x >> 23u32) & 0xff;
    let man = x & 0x7f_ffff;
    let sign = (x >> 16u32) & 0x8000;
    let sig = man | 0x80_0000;
    if exp == 0 && man == 0 {
        let h = sign as u16;
        assert((h as u32) << 16u32 == x && (h as u32) & 0x7fff == 0) by (bit_vector)
            requires
                (x >> 23u32) & 0xff == 0,
                x & 0x7f_ffff == 0,
                h == ((x >> 16u32) & 0x8000) as u16,
        ;
    } else if 113 <= exp && exp <= 142 && man & 0x1fff == 0 {
        let f = (exp - 112) as u32;
        let h = (sign | (f << 10u32) | (man >> 13u32)) as u16;
        let i = h as u32;
        assert(i & 0x7fff != 0 && i & 0x7c00 != 0x7c00 && i & 0x7c00 != 0
            && (((i & 0x8000) << 16u32) | (((((i & 0x7c00) >> 10u32) + 112) as u32) << 23u32) | ((i & 0x3ff) << 13u32)) == x) by (bit_vector)
            requires
                exp == (x >> 23u32) & 0xff,
                113 <= exp <= 142,
                (x & 0x7f_ffff) & 0x1fff == 0,
                f == exp - 112,
                h == ((((x >> 16u32) & 0x8000) | (f << 10u32) | ((x & 0x7f_ffff) >> 13u32)) as u16),
                i == h as u32,
        ;
    } else {
        let sh = (126 - exp) as u32;
        let k = sig >> sh;
        let h = (sign | k) as u16;
        let i = h as u32;
        let ee: u32 = if k >= 0x200 { 0 } else if k >= 0x100 { 1 } else if k >= 0x80 { 2 } else if k >= 0x40 { 3 } else if k >= 0x20 { 4 } else if k >= 0x10 { 5 } else if k >= 0x8 { 6 } else if k >= 0x4 { 7 } else if k >= 0x2 { 8 } else { 9 };
        assert(i & 0x3ff == k && i & 0x7c00 == 0 && i & 0x7fff != 0 && ((i & 0x8000) << 16u32) == x & 0x8000_0000) by (bit_vector)
            requires
                exp == (x >> 23u32) & 0xff,
                103 <= exp <= 112,
                sh == 126 - exp,
                k == ((x & 0x7f_ffff) | 0x80_0000) >> sh,
                h == ((((x >> 16u32) & 0x8000) | k) as u16),
                i == h as u32,
        ;
        assert(subnormal_shift(k) == ee);
        assert((x & 0x8000_0000) | (((112 - ee) as u32) << 23u32) | ((k << ((14 + ee) as u32)) & 0x7f_ffff) == x) by (bit_vector)
            requires
                exp == (x >> 23u32) & 0xff,
                103 <= exp <= 112,
                sh == 126 - exp,
                k == ((x & 0x7f_ffff) | 0x80_0000) >> sh,
                (((x & 0x7f_ffff) | 0x80_0000) >> sh) << sh == ((x & 0x7f_ffff) | 0x80_0000),
                ee == (if k >= 0x200 { 0u32 } else if k >= 0x100 { 1u32 } else if k >= 0x80 { 2u32 } else if k >= 0x40 { 3u32 } else if k >= 0x20 { 4u32 } else if k >= 0x10 { 5u32 } else if k >= 0x8 { 6u32 } else if k >= 0x4 { 7u32 } else if k >= 0x2 { 8u32 } else { 9u32 }),
        ;
    }
}

/// How far the mantissa of a subnormal half-precision float must move left to
/// become normal: the leading zeros of its 10-bit mantissa, plus one.
pub open spec fn subnormal_shift(man: u32) -> u32 {
    if man >= 0x200 {
        0
    } else if man >= 0x100 {
        1
    } else if man >= 0x80 {
        2
    } else if man >= 0x40 {
        3
    } else if man >= 0x20 {
        4
    } else if man >= 0x10 {
        5
    } else if man >= 0x8 {
        6
    } else if man >= 0x4 {
        7
    } else if man >= 0x2 {
        8
    } else {
        9
    }
}

/// The single-precision bit pattern of the value of a half-precision one; a
/// NaN stays a NaN, with its payload and the quiet bit set.
pub open spec fn half_to_single(h: u16) -> u32 {
    let i = h as u32;
    if i & 0x7fff == 0 {
        i << 16u32
    } else {
        let sign = (i & 0x8000) << 16u32;
        let exp = i & 0x7c00;
        let man = i & 0x3ff;
        if exp == 0x7c00 {
            if man == 0 {
                sign | 0x7f80_0000
            } else {
                sign | 0x7fc0_0000 | (man << 13u32)
            }
        } else if exp == 0 {
            let e = subnormal_shift(man);
            sign | (((112 - e) as u32) << 23u32) | ((man << ((14 + e) as u32)) & 0x7f_ffff)
        } else {
            sign | ((((exp >> 10u32) + 112) as u32) << 23u32) | (man << 13u32)
        }
    }
}

/// Reads a float as single precision. Half precision, which other writers use
/// where it loses nothing, is widened; double precision is refused.
pub open spec fn dec_f32(s: Seq<u8>, pos: int) -> Result<(u32, int), DecodeError> {
    if pos < 0 || pos >= s.len() {
        Err(DecodeError::Truncated)
    } else if s[pos] == F16_BYTE {
        if pos + 3 > s.len() {
            Err(DecodeError::Truncated)
        } else {
            Ok((half_to_single(be_value(s.subrange(pos + 1, pos + 3)) as u16), pos + 3))
        }
    } else if s[pos] != F32_BYTE {
        Err(DecodeError::TypeMismatch)
    } else if pos + 5 > s.len() {
        Err(DecodeError::Truncated)
    } else {
        Ok((be_value(s.subrange(pos + 1, pos + 5)) as u32, pos + 5))
    }
}

/// Reads the head of an array that must hold exactly `n` items.
pub open spec fn dec_array_of(s: Seq<u8>, pos: int, n: u64) -> Result<int, DecodeError> {
    match dec_head_of(s, pos, MAJOR_ARRAY) {
        Ok((len, p)) => if len < n {
            Err(DecodeError::Truncated)
        } else if len > n {
            Err(DecodeError::TypeMismatch)
        } else {
            Ok(p)
        },
        Err(e) => Err(e),
    }
}

// ---------------------------------------------------------------------------
// Lemmas
// ---------------------------------------------------------------------------

pub proof fn lemma_be_bytes_len(a: nat, n: nat)
    ensures
        be_bytes(a, n).len() == n,
    decreases n,
{
    if n > 0 {
        lemma_be_bytes_len(a / 256, (n - 1) as nat);
    }
}

pub proof fn lemma_be_round_trip(a: nat, n: nat)
    requires
        a < pow256(n),
    ensures
        be_value(be_bytes(a, n)) == a,
    decreases n,
{
    if n > 0 {
        let m = (n - 1) as nat;
        assert(a / 256 < pow256(m)) by (nonlinear_arith)
            requires
                a < 256 * pow256(m),
        ;
        lemma_be_round_trip(a / 256, m);
        let s = be_bytes(a, n);
        assert(s.drop_last() =~= be_bytes(a / 256, m));
    }
}

pub proof fn lemma_be_value_bound(s: Seq<u8>)
    ensures
        be_value(s) < pow256(s.len()),
    decreases s.len(),
{
    if s.len() > 0 {
        lemma_be_value_bound(s.drop_last());
        let v = be_value(s.drop_last());
        let p = pow256((s.len() - 1) as nat);
        let l = s.last() as nat;
        assert(v * 256 + l < 256 * p) by (nonlinear_arith)
            requires
                v < p,
                l < 256,
        ;
    }
}

pub proof fn lemma_pow256_values()
    ensures
        pow256(0) == 1,
        pow256(1) == 0x100,
        pow256(2) == 0x1_0000,
        pow256(4) == 0x1_0000_0000,
        pow256(8) == 0x1_0000_0000_0000_0000,
{
    reveal_with_fuel(pow256, 9);
}

pub proof fn lemma_head_round_trip(p: Seq<u8>, major: u8, arg: u64, r: Seq<u8>)
    requires
        major < 8,
    ensures
        dec_head(p + enc_head(major, arg) + r, p.len() as int) == Ok::<(u8, u64, int), DecodeError>(
            (major, arg, (p.len() + enc_head(major, arg).len()) as int),
        ),
{
    reveal(enc_head);
    reveal(dec_head);
    let e = enc_head(major, arg);
    let s = p + e + r;
    let w = arg_width(arg);
    lemma_pow256_values();
    lemma_be_bytes_len(arg as nat, w);
    assert(s[p.len() as int] == e[0]);
    if w == 0 {
        assert(e.len() == 1);
        let b = (major * 32 + arg) as u8;
        assert(b / 32 == major && b % 32 == arg) by (nonlinear_arith)
            requires
                major < 8,
                arg < 24,
                b == major * 32 + arg,
        ;
    } else {
        let b = (major * 32 + width_code(w)) as u8;
        assert(b / 32 == major && b % 32 == width_code(w)) by (nonlinear_arith)
            requires
                major < 8,
                24 <= width_code(w) < 28,
                b == major * 32 + width_code(w),
        ;
        lemma_be_round_trip(arg as nat, w);
        assert(s.subrange(p.len() + 1int, (p.len() + 1 + w) as int) =~= be_bytes(arg as nat, w));
    }
}

/// The first byte of a head carries its major type.
pub proof fn lemma_head_first_byte(major: u8, arg: u64)
    requires
        major < 8,
    ensures
        enc_head(major, arg).len() > 0,
        enc_head(major, arg)[0] / 32 == major,
{
    reveal(enc_head);
    let w = arg_width(arg);
    if w == 0 {
        let b = (major * 32 + arg) as u8;
        assert(b / 32 == major) by (nonlinear_arith)
            requires
                major < 8,
                arg < 24,
                b == major * 32 + arg,
        ;
    } else {
        let b = (major * 32 + width_code(w)) as u8;
        assert(b / 32 == major) by (nonlinear_arith)
            requires
                major < 8,
                24 <= width_code(w) < 28,
                b == major * 32 + width_code(w),
        ;
    }
}

pub proof fn lemma_head_of_round_trip(p: Seq<u8>, major: u8, arg: u64, r: Seq<u8>)
    requires
        major < 8,
    ensures
        dec_head_of(p + enc_head(major, arg) + r, p.len() as int, major) == Ok::<(u64, int), DecodeError>(
            (arg, (p.len() + enc_head(major, arg).len()) as int),
        ),
{
    lemma_head_round_trip(p, major, arg, r);
}

pub proof fn lemma_uint_round_trip(p: Seq<u8>, a: u64, r: Seq<u8>)
    ensures
        dec_uint(p + enc_uint(a) + r, p.len() as int) == Ok::<(u64, int), DecodeError>(
            (a, (p.len() + enc_uint(a).len()) as int),
        ),
{
    lemma_head_round_trip(p, MAJOR_UINT, a, r);
}

pub proof fn lemma_u8_round_trip(p: Seq<u8>, a: u8, r: Seq<u8>)
    ensures
        dec_u8(p + enc_uint(a as u64) + r, p.len() as int) == Ok::<(u8, int), DecodeError>(
            (a, (p.len() + enc_uint(a as u64).len()) as int),
        ),
{
    lemma_head_round_trip(p, MAJOR_UINT, a as u64, r);
}

pub proof fn lemma_discriminant_round_trip(p: Seq<u8>, a: u8, r: Seq<u8>)
    ensures
        dec_discriminant(p + enc_uint(a as u64) + r, p.len() as int) == Ok::<(u8, int), DecodeError>(
            (a, (p.len() + enc_uint(a as u64).len()) as int),
        ),
{
    lemma_head_round_trip(p, MAJOR_UINT, a as u64, r);
}

pub proof fn lemma_u16_round_trip(p: Seq<u8>, a: u16, r: Seq<u8>)
    ensures
        dec_u16(p + enc_uint(a as u64) + r, p.len() as int) == Ok::<(u16, int), DecodeError>(
            (a, (p.len() + enc_uint(a as u64).len()) as int),
        ),
{
    lemma_head_round_trip(p, MAJOR_UINT, a as u64, r);
}

proof fn lemma_raw_round_trip(p: Seq<u8>, b: Seq<u8>, r: Seq<u8>)
    ensures
        dec_raw(p + b + r, p.len() as int, b.len() as int) == Ok::<(Seq<u8>, int), DecodeError>(
            (b, (p.len() + b.len()) as int),
        ),
{
    assert((p + b + r).subrange(p.len() as int, (p.len() + b.len()) as int) =~= b);
}

pub proof fn lemma_bytes_round_trip(p: Seq<u8>, b: Seq<u8>, r: Seq<u8>)
    requires
        b.len() <= u64::MAX,
    ensures
        dec_bytes(p + enc_bytes(b) + r, p.len() as int) == Ok::<(Seq<u8>, int), DecodeError>(
            (b, (p.len() + enc_bytes(b).len()) as int),
        ),
{
    let h = enc_head(MAJOR_BYTES, b.len() as u64);
    assert(p + enc_bytes(b) + r =~= p + h + (b + r));
    assert(p + enc_bytes(b) + r =~= (p + h) + b + r);
    lemma_head_round_trip(p, MAJOR_BYTES, b.len() as u64, b + r);
    lemma_raw_round_trip(p + h, b, r);
}

pub proof fn lemma_text_round_trip(p: Seq<u8>, t: Seq<char>, r: Seq<u8>)
    requires
        encode_utf8(t).len() <= u64::MAX,
    ensures
        dec_text(p + enc_text(t) + r, p.len() as int) == Ok::<(Seq<char>, int), DecodeError>(
            (t, (p.len() + enc_text(t).len()) as int),
        ),
{
    let b = encode_utf8(t);
    let h = enc_head(MAJOR_TEXT, b.len() as u64);
    assert(p + enc_text(t) + r =~= p + h + (b + r));
    assert(p + enc_text(t) + r =~= (p + h) + b + r);
    lemma_head_round_trip(p, MAJOR_TEXT, b.len() as u64, b + r);
    lemma_raw_round_trip(p + h, b, r);
    encode_utf8_valid_utf8(t);
    encode_utf8_decode_utf8(t);
}

pub proof fn lemma_bool_round_trip(p: Seq<u8>, b: bool, r: Seq<u8>)
    ensures
        dec_bool(p + enc_bool(b) + r, p.len() as int) == Ok::<(bool, int), DecodeError>(
            (b, (p.len() + 1) as int),
        ),
{
    assert((p + enc_bool(b) + r)[p.len() as int] == enc_bool(b)[0]);
}

pub proof fn lemma_null_at(p: Seq<u8>, r: Seq<u8>)
    ensures
        is_null_at(p + seq![NULL_BYTE] + r, p.len() as int),
{
    assert((p + seq![NULL_BYTE] + r)[p.len() as int] == NULL_BYTE);
}

proof fn lemma_half_code(x: u32)
    requires
        half_code(x) is Some,
        f32_kept(x),
    ensures
        half_to_single(half_code(x)->Some_0) == x,
{
    if f32_is_inf(x) {
        let i: u32 = if x & 0x8000_0000 != 0 { 0xfc00u32 } else { 0x7c00u32 };
        assert(i & 0x7fff != 0 && i & 0x7c00 == 0x7c00 && i & 0x3ff == 0 && ((i & 0x8000) << 16u32)
            | 0x7f80_0000 == x) by (bit_vector)
            requires
                x & 0x7fff_ffff == 0x7f80_0000,
                i == (if x & 0x8000_0000 != 0 { 0xfc00u32 } else { 0x7c00u32 }),
        ;
        assert(half_code(x)->Some_0 as u32 == i);
    } else if f32_is_nan(x) {
        let i: u32 = 0x7e00;
        assert(i & 0x7fff != 0 && i & 0x7c00 == 0x7c00 && i & 0x3ff != 0 && (((i & 0x8000) << 16u32)
            | 0x7fc0_0000 | ((i & 0x3ff) << 13u32)) == 0x7fc0_0000u32) by (bit_vector)
            requires
                i == 0x7e00u32,
        ;
    } else {
        lemma_half_exact(x);
    }
}

pub proof fn lemma_f32_round_trip(p: Seq<u8>, bits: u32, r: Seq<u8>)
    requires
        f32_kept(bits),
    ensures
        dec_f32(p + enc_f32(bits) + r, p.len() as int) == Ok::<(u32, int), DecodeError>(
            (bits, (p.len() + enc_f32(bits).len()) as int),
        ),
{
    let s = p + enc_f32(bits) + r;
    lemma_pow256_values();
    match half_code(bits) {
        Some(h) => {
            lemma_be_bytes_len(h as nat, 2);
            lemma_be_round_trip(h as nat, 2);
            assert(s[p.len() as int] == F16_BYTE);
            assert(s.subrange(p.len() + 1int, (p.len() + 3) as int) =~= be_bytes(h as nat, 2));
            lemma_half_code(bits);
        },
        None => {
            lemma_be_bytes_len(bits as nat, 4);
            lemma_be_round_trip(bits as nat, 4);
            assert(s[p.len() as int] == F32_BYTE);
            assert(s.subrange(p.len() + 1int, (p.len() + 5) as int) =~= be_bytes(bits as nat, 4));
        },
    }
}

pub proof fn lemma_array_round_trip(p: Seq<u8>, n: u64, r: Seq<u8>)
    ensures
        dec_array_of(p + enc_head(MAJOR_ARRAY, n) + r, p.len() as int, n) == Ok::<int, DecodeError>(
            (p.len() + enc_head(MAJOR_ARRAY, n).len()) as int,
        ),
{
    lemma_head_round_trip(p, MAJOR_ARRAY, n, r);
}

// ---------------------------------------------------------------------------
// Executable encoders
// ---------------------------------------------------------------------------

/// Appends the `n` low-order bytes of `a`, most significant first.
pub fn push_be(out: &mut Vec<u8>, a: u64, n: usize)
    ensures
        final(out)@ == old(out)@ + be_bytes(a as nat, n as nat),
    decreases n,
{
    if n > 0 {
        push_be(out, a / 256, n - 1);
        out.push((a % 256) as u8);
        assert(final(out)@ =~= old(out)@ + be_bytes(a as nat, n as nat));
    } else {
        assert(out@ =~= old(out)@ + be_bytes(a as nat, n as nat));
    }
}

pub fn write_head(out: &mut Vec<u8>, major: u8, arg: u64)
    requires
        major < 8,
    ensures
        final(out)@ == old(out)@ + enc_head(major, arg),
{
    reveal(enc_head);
    if arg < 24 {
        out.push(major * 32 + arg as u8);
        assert(out@ =~= old(out)@ + enc_head(major, arg));
    } else {
        let (w, code): (usize, u8) = if arg < 0x100 {
            (1, 24)
        } else if arg < 0x1_0000 {
            (2, 25)
        } else if arg < 0x1_0000_0000 {
            (4, 26)
        } else {
            (8, 27)
        };
        out.push(major * 32 + code);
        let ghost mid = out@;
        push_be(out, arg, w);
        assert(out@ =~= old(out)@ + enc_head(major, arg));
    }
}

pub fn write_uint(out: &mut Vec<u8>, a: u64)
    ensures
        final(out)@ == old(out)@ + enc_uint(a),
{
    write_head(out, MAJOR_UINT, a);
}

pub fn write_bytes(out: &mut Vec<u8>, b: &[u8])
    ensures
        final(out)@ == old(out)@ + enc_bytes(b@),
{
    write_head(out, MAJOR_BYTES, b.len() as u64);
    let ghost start = out@;
    let mut i: usize = 0;
    while i < b.len()
        invariant
            0 <= i <= b.len(),
            out@ == start + b@.subrange(0, i as int),
        decreases b.len() - i,
    {
        out.push(b[i]);
        i = i + 1;
        assert(out@ =~= start + b@.subrange(0, i as int));
    }
    assert(b@.subrange(0, b.len() as int) =~= b@);
    assert(out@ =~= old(out)@ + enc_bytes(b@));
}

pub fn write_text(out: &mut Vec<u8>, t: &str)
    ensures
        final(out)@ == old(out)@ + enc_text(t@),
{
    let b = t.as_bytes();
    write_bytes_with_major(out, MAJOR_TEXT, b);
}

fn write_bytes_with_major(out: &mut Vec<u8>, major: u8, b: &[u8])
    requires
        major < 8,
    ensures
        final(out)@ == old(out)@ + enc_head(major, b@.len() as u64) + b@,
{
    write_head(out, major, b.len() as u64);
    let ghost start = out@;
    let mut i: usize = 0;
    while i < b.len()
        invariant
            0 <= i <= b.len(),
            out@ == start + b@.subrange(0, i as int),
        decreases b.len() - i,
    {
        out.push(b[i]);
        i = i + 1;
        assert(out@ =~= start + b@.subrange(0, i as int));
    }
    assert(b@.subrange(0, b.len() as int) =~= b@);
    assert(out@ =~= old(out)@ + enc_head(major, b@.len() as u64) + b@);
}

pub fn write_bool(out: &mut Vec<u8>, b: bool)
    ensures
        final(out)@ == old(out)@ + enc_bool(b),
{
    out.push(if b { TRUE_BYTE } else { FALSE_BYTE });
    assert(out@ =~= old(out)@ + enc_bool(b));
}

pub fn write_null(out: &mut Vec<u8>)
    ensures
        final(out)@ == old(out)@ + seq![NULL_BYTE],
{
    out.push(NULL_BYTE);
    assert(out@ =~= old(out)@ + seq![NULL_BYTE]);
}

/// The half-precision pattern written for `x`, if any.
pub fn half_code_of(x: u32) -> (r: Option<u16>)
    ensures
        r == half_code(x),
{
    if x & 0x7fff_ffff == 0x7f80_0000 {
        return Some(if x & 0x8000_0000 != 0 { 0xfc00u16 } else { 0x7c00u16 });
    }
    if x & 0x7f80_0000 == 0x7f80_0000 && x & 0x7f_ffff != 0 {
        return Some(0x7e00u16);
    }
    let exp = (x >> 23u32) & 0xff;
    let man = x & 0x7f_ffff;
    let sign = (x >> 16u32) & 0x8000;
    let sig = man | 0x80_0000;
    if exp == 0 && man == 0 {
        Some(sign as u16)
    } else if 113 <= exp && exp <= 142 && man & 0x1fff == 0 {
        Some((sign | ((exp - 112) << 10u32) | (man >> 13u32)) as u16)
    } else if 103 <= exp && exp <= 112 && (sig >> (126 - exp)) << (126 - exp) == sig {
        Some((sign | (sig >> (126 - exp))) as u16)
    } else {
        None
    }
}

pub fn write_f32(out: &mut Vec<u8>, bits: u32)
    ensures
        final(out)@ == old(out)@ + enc_f32(bits),
{
    match half_code_of(bits) {
        Some(h) => {
            out.push(F16_BYTE);
            push_be(out, h as u64, 2);
        },
        None => {
            out.push(F32_BYTE);
            push_be(out, bits as u64, 4);
        },
    }
    assert(out@ =~= old(out)@ + enc_f32(bits));
}

// ---------------------------------------------------------------------------
// Executable decoders
// ---------------------------------------------------------------------------

/// Reads `w` bytes at `pos` as a big-endian number.
fn read_be(s: &[u8], pos: usize, w: usize) -> (r: u64)
    requires
        w <= 8,
        pos + w <= s@.len(),
    ensures
        r as nat == be_value(s@.subrange(pos as int, pos + w)),
{
    let mut acc: u64 = 0;
    let mut i: usize = 0;
    proof {
        lemma_pow256_values();
    }
    while i < w
        invariant
            w <= 8,
            pos + w <= s.len(),
            0 <= i <= w,
            acc as nat == be_value(s@.subrange(pos as int, pos + i)),
            pow256(8) == 0x1_0000_0000_0000_0000,
        decreases w - i,
    {
        let ghost prev = s@.subrange(pos as int, pos + i);
        let ghost next = s@.subrange(pos as int, pos + i + 1);
        proof {
            assert(next.drop_last() =~= prev);
            lemma_be_value_bound(next);
            lemma_pow_mono((i + 1) as nat, 8);
        }
        acc = acc * 256 + s[pos + i] as u64;
        i = i + 1;
    }
    acc
}

proof fn lemma_pow_mono(a: nat, b: nat)
    requires
        a <= b,
    ensures
        pow256(a) <= pow256(b),
    decreases b,
{
    if a < b {
        lemma_pow_mono(a, (b - 1) as nat);
    }
}

pub fn read_head(s: &[u8], pos: usize) -> (r: Result<(u8, u64, usize), DecodeError>)
    ensures
        match r {
            Ok((m, a, p)) => dec_head(s@, pos as int) == Ok::<(u8, u64, int), DecodeError>(
                (m, a, p as int),
            ),
            Err(e) => dec_head(s@, pos as int) == Err::<(u8, u64, int), DecodeError>(e),
        },
{
    reveal(dec_head);
    if pos >= s.len() {
        return Err(DecodeError::Truncated);
    }
    let b = s[pos];
    let major = b / 32;
    let ai = b % 32;
    if ai < 24 {
        Ok((major, ai as u64, pos + 1))
    } else if ai < 28 {
        let w: usize = if ai == 24 {
            1
        } else if ai == 25 {
            2
        } else if ai == 26 {
            4
        } else {
            8
        };
        if w > s.len() - pos - 1 {
            Err(DecodeError::Truncated)
        } else {
            let a = read_be(s, pos + 1, w);
            Ok((major, a, pos + 1 + w))
        }
    } else {
        Err(DecodeError::TypeMismatch)
    }
}

pub fn read_head_of(s: &[u8], pos: usize, major: u8) -> (r: Result<(u64, usize), DecodeError>)
    ensures
        match r {
            Ok((a, p)) => dec_head_of(s@, pos as int, major) == Ok::<(u64, int), DecodeError>(
                (a, p as int),
            ),
            Err(e) => dec_head_of(s@, pos as int, major) == Err::<(u64, int), DecodeError>(e),
        },
{
    match read_head(s, pos) {
        Ok((m, a, p)) => if m == major {
            Ok((a, p))
        } else {
            Err(DecodeError::TypeMismatch)
        },
        Err(e) => Err(e),
    }
}

pub fn read_uint(s: &[u8], pos: usize) -> (r: Result<(u64, usize), DecodeError>)
    ensures
        match r {
            Ok((a, p)) => dec_uint(s@, pos as int) == Ok::<(u64, int), DecodeError>((a, p as int)),
            Err(e) => dec_uint(s@, pos as int) == Err::<(u64, int), DecodeError>(e),
        },
{
    read_head_of(s, pos, MAJOR_UINT)
}

pub fn read_u8(s: &[u8], pos: usize) -> (r: Result<(u8, usize), DecodeError>)
    ensures
        match r {
            Ok((a, p)) => dec_u8(s@, pos as int) == Ok::<(u8, int), DecodeError>((a, p as int)),
            Err(e) => dec_u8(s@, pos as int) == Err::<(u8, int), DecodeError>(e),
        },
{
    match read_uint(s, pos) {
        Ok((a, p)) => if a < 0x100 {
            Ok((a as u8, p))
        } else {
            Err(DecodeError::TypeMismatch)
        },
        Err(e) => Err(e),
    }
}

pub fn read_discriminant(s: &[u8], pos: usize) -> (r: Result<(u8, usize), DecodeError>)
    ensures
        match r {
            Ok((a, p)) => dec_discriminant(s@, pos as int) == Ok::<(u8, int), DecodeError>((a, p as int)),
            Err(e) => dec_discriminant(s@, pos as int) == Err::<(u8, int), DecodeError>(e),
        },
{
    match read_head(s, pos) {
        Err(e) => Err(e),
        Ok((m, a, q)) => if m == MAJOR_UINT && a < 0x100 {
            Ok((a as u8, q))
        } else if m == MAJOR_UINT || m == MAJOR_NEGATIVE {
            Err(DecodeError::UnknownVariant)
        } else {
            Err(DecodeError::TypeMismatch)
        },
    }
}

pub fn read_u16(s: &[u8], pos: usize) -> (r: Result<(u16, usize), DecodeError>)
    ensures
        match r {
            Ok((a, p)) => dec_u16(s@, pos as int) == Ok::<(u16, int), DecodeError>((a, p as int)),
            Err(e) => dec_u16(s@, pos as int) == Err::<(u16, int), DecodeError>(e),
        },
{
    match read_uint(s, pos) {
        Ok((a, p)) => if a < 0x1_0000 {
            Ok((a as u16, p))
        } else {
            Err(DecodeError::TypeMismatch)
        },
        Err(e) => Err(e),
    }
}

/// Copies `n` raw bytes at `pos`.
pub fn read_raw(s: &[u8], pos: usize, n: u64) -> (r: Result<(Vec<u8>, usize), DecodeError>)
    ensures
        match r {
            Ok((b, p)) => dec_raw(s@, pos as int, n as int) == Ok::<(Seq<u8>, int), DecodeError>(
                (b@, p as int),
            ),
            Err(e) => dec_raw(s@, pos as int, n as int) == Err::<(Seq<u8>, int), DecodeError>(e),
        },
{
    if pos > s.len() || n > (s.len() - pos) as u64 {
        return Err(DecodeError::Truncated);
    }
    let n = n as usize;
    let mut out: Vec<u8> = Vec::new();
    let mut i: usize = 0;
    while i < n
        invariant
            pos + n <= s.len(),
            0 <= i <= n,
            out@ == s@.subrange(pos as int, pos + i),
        decreases n - i,
    {
        out.push(s[pos + i]);
        i = i + 1;
        assert(out@ =~= s@.subrange(pos as int, pos + i));
    }
    Ok((out, pos + n))
}

pub fn read_bytes(s: &[u8], pos: usize) -> (r: Result<(Vec<u8>, usize), DecodeError>)
    ensures
        match r {
            Ok((b, p)) => dec_bytes(s@, pos as int) == Ok::<(Seq<u8>, int), DecodeError>(
                (b@, p as int),
            ),
            Err(e) => dec_bytes(s@, pos as int) == Err::<(Seq<u8>, int), DecodeError>(e),
        },
{
    match read_head_of(s, pos, MAJOR_BYTES) {
        Ok((n, p)) => read_raw(s, p, n),
        Err(e) => Err(e),
    }
}

/// Relies on std's `String::from_utf8`: it succeeds exactly on valid UTF-8 and
/// then holds the characters that the bytes encode.
#[verifier::external_body]
pub(crate) fn string_from_utf8(b: Vec<u8>) -> (r: Option<String>)
    ensures
        match r {
            Some(t) => valid_utf8(b@) && t@ == decode_utf8(b@),
            None => !valid_utf8(b@),
        },
{
    String::from_utf8(b).ok()
}

pub fn read_text(s: &[u8], pos: usize) -> (r: Result<(String, usize), DecodeError>)
    ensures
        match r {
            Ok((t, p)) => dec_text(s@, pos as int) == Ok::<(Seq<char>, int), DecodeError>(
                (t@, p as int),
            ),
            Err(e) => dec_text(s@, pos as int) == Err::<(Seq<char>, int), DecodeError>(e),
        },
{
    match read_head_of(s, pos, MAJOR_TEXT) {
        Ok((n, p)) => match read_raw(s, p, n) {
            Ok((b, q)) => match string_from_utf8(b) {
                Some(t) => Ok((t, q)),
                None => Err(DecodeError::TypeMismatch),
            },
            Err(e) => Err(e),
        },
        Err(e) => Err(e),
    }
}

pub fn read_bool(s: &[u8], pos: usize) -> (r: Result<(bool, usize), DecodeError>)
    ensures
        match r {
            Ok((b, p)) => dec_bool(s@, pos as int) == Ok::<(bool, int), DecodeError>(
                (b, p as int),
            ),
            Err(e) => dec_bool(s@, pos as int) == Err::<(bool, int), DecodeError>(e),
        },
{
    if pos >= s.len() {
        Err(DecodeError::Truncated)
    } else if s[pos] == TRUE_BYTE {
        Ok((true, pos + 1))
    } else if s[pos] == FALSE_BYTE {
        Ok((false, pos + 1))
    } else {
        Err(DecodeError::TypeMismatch)
    }
}

pub fn null_at(s: &[u8], pos: usize) -> (r: bool)
    ensures
        r == is_null_at(s@, pos as int),
{
    pos < s.len() && s[pos] == NULL_BYTE
}

fn shift_of(man: u32) -> (r: u32)
    ensures
        r == subnormal_shift(man),
        r <= 9,
{
    if man >= 0x200 {
        0
    } else if man >= 0x100 {
        1
    } else if man >= 0x80 {
        2
    } else if man >= 0x40 {
        3
    } else if man >= 0x20 {
        4
    } else if man >= 0x10 {
        5
    } else if man >= 0x8 {
        6
    } else if man >= 0x4 {
        7
    } else if man >= 0x2 {
        8
    } else {
        9
    }
}

/// Widens a half-precision bit pattern to single precision.
pub fn widen_half(h: u16) -> (r: u32)
    ensures
        r == half_to_single(h),
{
    let i = h as u32;
    if i & 0x7fff == 0 {
        i << 16u32
    } else {
        let sign = (i & 0x8000) << 16u32;
        let exp = i & 0x7c00;
        let man = i & 0x3ff;
        if exp == 0x7c00 {
            if man == 0 {
                sign | 0x7f80_0000
            } else {
                sign | 0x7fc0_0000 | (man << 13u32)
            }
        } else if exp == 0 {
            let e = shift_of(man);
            sign | ((112 - e) << 23u32) | ((man << (14 + e)) & 0x7f_ffff)
        } else {
            assert((exp >> 10u32) < 32) by (bit_vector)
                requires
                    exp == i & 0x7c00,
            ;
            sign | (((exp >> 10u32) + 112) << 23u32) | (man << 13u32)
        }
    }
}

pub fn read_f32(s: &[u8], pos: usize) -> (r: Result<(u32, usize), DecodeError>)
    ensures
        match r {
            Ok((b, p)) => dec_f32(s@, pos as int) == Ok::<(u32, int), DecodeError>((b, p as int)),
            Err(e) => dec_f32(s@, pos as int) == Err::<(u32, int), DecodeError>(e),
        },
{
    if pos >= s.len() {
        Err(DecodeError::Truncated)
    } else if s[pos] == F16_BYTE {
        if 2 > s.len() - pos - 1 {
            Err(DecodeError::Truncated)
        } else {
            let v = read_be(s, pos + 1, 2);
            proof {
                lemma_be_value_bound(s@.subrange(pos + 1, pos + 3));
                lemma_pow256_values();
            }
            Ok((widen_half(v as u16), pos + 3))
        }
    } else if s[pos] != F32_BYTE {
        Err(DecodeError::TypeMismatch)
    } else if 4 > s.len() - pos - 1 {
        Err(DecodeError::Truncated)
    } else {
        let v = read_be(s, pos + 1, 4);
        proof {
            lemma_be_value_bound(s@.subrange(pos + 1, pos + 5));
            lemma_pow256_values();
        }
        Ok((v as u32, pos + 5))
    }
}

pub fn read_array_of(s: &[u8], pos: usize, n: u64) -> (r: Result<usize, DecodeError>)
    ensures
        match r {
            Ok(p) => dec_array_of(s@, pos as int, n) == Ok::<int, DecodeError>(p as int),
            Err(e) => dec_array_of(s@, pos as int, n) == Err::<int, DecodeError>(e),
        },
{
    match read_head_of(s, pos, MAJOR_ARRAY) {
        Ok((len, p)) => if len < n {
            Err(DecodeError::Truncated)
        } else if len > n {
            Err(DecodeError::TypeMismatch)
        } else {
            Ok(p)
        },
        Err(e) => Err(e),
    }
}

} // verus!
