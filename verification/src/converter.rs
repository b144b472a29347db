use vstd::prelude::*;

verus! {

use vstd::arithmetic::power::pow;
use vstd::arithmetic::power::lemma_pow_adds;
use vstd::arithmetic::power::lemma_pow_positive;
use vstd::arithmetic::power::lemma_pow_increases;
use crate::text::string_from_utf8;
use vstd::utf8::decode_utf8;
use vstd::utf8::valid_utf8;

/// Why a raw payload could not be decoded.
#[derive(Debug, Clone, PartialEq, Eq)]
pub enum ConversionError {
    /// The payload length differs from what the codec demands.
    LenMismatch { expected: usize, actual: usize },
    /// The decoded signed value cannot be represented in an `i64`.
    BigIntCastError,
    /// The decoded unsigned value cannot be represented in an `i64`.
    BigUintCastError,
    /// The payload is not valid UTF-8 after trailing NUL bytes are stripped.
    Utf8Error,
}

/// Declares how a raw octet buffer becomes a typed value.
/// `l` is the byte length in `[0, 8]`, `m` a multiplier in `[-10, 10]`,
/// `d` a decimal exponent and `b` a binary exponent: numeric codecs yield
/// `value * m * 10^d * 2^b`.
#[derive(Debug, Clone, Copy, PartialEq, Eq)]
pub enum Converter {
    Raw,
    Utf8,
    F32,
    Signed { l: u8, m: i8, d: i32, b: i32 },
    Unsigned { l: u8, m: i8, d: i32, b: i32 },
}

impl Converter {
    /// The field ranges that a well-formed configuration guarantees.
    pub open spec fn wf(self) -> bool {
        match self {
            Converter::Signed { l, m, .. } => l <= 8 && -10 <= m <= 10,
            Converter::Unsigned { l, m, .. } => l <= 8 && -10 <= m <= 10,
            _ => true,
        }
    }
}

/// A decoded characteristic value. Numeric results with a negative exponent
/// stay exact: `Scaled` carries the factors `value * multiplier * 10^d * 2^b`
/// unevaluated, and `F32Bits` carries the IEEE-754 bit pattern of a float
/// read from the wire, so no rounding happens inside the library.
#[derive(Debug, Clone, PartialEq)]
pub enum CharacteristicValue {
    Raw(Vec<u8>),
    Utf8(String),
    I64(i64),
    F32Bits(u32),
    Scaled { value: i64, multiplier: i8, decimal_exponent: i32, binary_exponent: i32 },
}

impl CharacteristicValue {
    /// Whether the value can feed a numeric sink (counter, gauge, histogram).
    pub fn is_numeric(&self) -> (r: bool)
        ensures
            r == (self matches CharacteristicValue::I64(_) || self
                matches CharacteristicValue::F32Bits(_) || self
                matches CharacteristicValue::Scaled { .. }),
    {
        match self {
            CharacteristicValue::I64(_) => true,
            CharacteristicValue::F32Bits(_) => true,
            CharacteristicValue::Scaled { .. } => true,
            _ => false,
        }
    }
}

/// The unsigned little-endian reading of a byte string.
pub open spec fn u_le(s: Seq<u8>) -> nat
    decreases s.len(),
{
    if s.len() == 0 {
        0
    } else {
        (s[0] + 256 * u_le(s.drop_first())) as nat
    }
}

/// The two's-complement little-endian reading of a byte string.
pub open spec fn s_le(s: Seq<u8>) -> int {
    if s.len() > 0 && s.last() >= 128 {
        u_le(s) - pow(256, s.len())
    } else {
        u_le(s) as int
    }
}


/// The values of `pow(256, n)` for `n` up to eight.
proof fn pow256_table()
    ensures
        pow(256, 0nat) == 1,
        pow(256, 1nat) == 0x100,
        pow(256, 2nat) == 0x10000,
        pow(256, 3nat) == 0x1000000,
        pow(256, 4nat) == 0x100000000,
        pow(256, 5nat) == 0x10000000000,
        pow(256, 6nat) == 0x1000000000000,
        pow(256, 7nat) == 0x100000000000000,
        pow(256, 8nat) == 0x10000000000000000,
{
    reveal(pow);
    assert(pow(256, 0nat) == 1);
    assert(pow(256, 1nat) == 256 * pow(256, 0nat));
    assert(pow(256, 2nat) == 256 * pow(256, 1nat));
    assert(pow(256, 3nat) == 256 * pow(256, 2nat));
    assert(pow(256, 4nat) == 256 * pow(256, 3nat));
    assert(pow(256, 5nat) == 256 * pow(256, 4nat));
    assert(pow(256, 6nat) == 256 * pow(256, 5nat));
    assert(pow(256, 7nat) == 256 * pow(256, 6nat));
    assert(pow(256, 8nat) == 256 * pow(256, 7nat));
}

/// One unfolding step of `pow(256, _)`.
proof fn pow256_step(n: nat)
    ensures
        pow(256, (n + 1) as nat) == 256 * pow(256, n),
{
    lemma_pow_adds(256, 1nat, n);
    vstd::arithmetic::power::lemma_pow1(256);
}

pub proof fn lemma_u_le_bound(s: Seq<u8>)
    ensures
        u_le(s) < pow(256, s.len()),
    decreases s.len(),
{
    if s.len() == 0 {
        pow256_table();
    } else {
        lemma_u_le_bound(s.drop_first());
        pow256_step((s.len() - 1) as nat);
        assert(pow(256, s.len()) == 256 * pow(256, (s.len() - 1) as nat));
        assert(u_le(s) == (s[0] + 256 * u_le(s.drop_first())) as nat);
        assert(256 * u_le(s.drop_first()) <= 256 * (pow(256, (s.len() - 1) as nat) - 1))
            by (nonlinear_arith)
            requires
                u_le(s.drop_first()) <= pow(256, (s.len() - 1) as nat) - 1,
        ;
    }
}

pub proof fn lemma_u_le_drop_last(s: Seq<u8>)
    requires
        s.len() > 0,
    ensures
        u_le(s) == u_le(s.drop_last()) + s.last() * pow(256, (s.len() - 1) as nat),
    decreases s.len(),
{
    if s.len() == 1 {
        assert(s.drop_last().len() == 0);
        pow256_table();
        assert(s.drop_first().len() == 0);
        assert(u_le(s.drop_first()) == 0);
        assert(u_le(s.drop_last()) == 0);
        assert(u_le(s) == s[0]);
        assert(s.last() == s[0]);
    } else {
        lemma_u_le_drop_last(s.drop_first());
        assert(s.drop_first().drop_last() =~= s.drop_last().drop_first());
        assert(s.drop_first().last() == s.last());
        assert(u_le(s) == (s[0] + 256 * u_le(s.drop_first())) as nat);
        assert(u_le(s.drop_last()) == s[0] + 256 * u_le(s.drop_last().drop_first()));
        let n = (s.len() - 2) as nat;
        assert(u_le(s.drop_first()) == u_le(s.drop_first().drop_last()) + s.last() * pow(256, n));
        assert(256 * (u_le(s.drop_last().drop_first()) + s.last() * pow(256, n)) == 256 * u_le(
            s.drop_last().drop_first(),
        ) + s.last() * (256 * pow(256, n))) by (nonlinear_arith);
        pow256_step(n);
    }
}

/// Reads the unsigned little-endian value of at most eight bytes.
pub fn u64_from_le(bytes: &Vec<u8>) -> (r: u64)
    requires
        bytes@.len() <= 8,
    ensures
        r == u_le(bytes@),
{
    let len = bytes.len();
    let mut acc: u64 = 0;
    let mut i: usize = 0;
    proof {
        assert(bytes@.skip(len as int) =~= Seq::<u8>::empty());
        vstd::arithmetic::power::lemma_pow0(256);
    }
    while i < len
        invariant
            i <= len,
            len == bytes@.len() <= 8,
            acc == u_le(bytes@.skip(len - i)),
            acc < pow(256, i as nat),
        decreases len - i,
    {
        let k = len - 1 - i;
        proof {
            assert(bytes@.skip(k as int).drop_first() =~= bytes@.skip(k + 1));
            assert(u_le(bytes@.skip(k as int)) == bytes@[k as int] + 256 * u_le(
                bytes@.skip(k + 1),
            ));
            pow256_step(i as nat);
            assert(pow(256, i as nat) <= pow(256, 7)) by {
                lemma_pow_increases(256, i as nat, 7);
            }
            assert(pow(256, 7) == 0x100000000000000) by { pow256_table(); }
            assert(256 * acc + 256 <= 256 * pow(256, i as nat)) by (nonlinear_arith)
                requires
                    acc < pow(256, i as nat),
            ;
        }
        acc = acc * 256 + (bytes[k] as u64);
        i = i + 1;
    }
    proof {
        assert(bytes@.skip(0) =~= bytes@);
    }
    acc
}

/// `pow(256, l)` for `l` up to eight, exact in an `i128`.
fn pow256_i128(l: usize) -> (r: i128)
    requires
        l <= 8,
    ensures
        r == pow(256, l as nat),
        r >= 1,
{
    proof {
        pow256_table();
    }
    match l {
        0 => 1,
        1 => 0x100,
        2 => 0x10000,
        3 => 0x1000000,
        4 => 0x100000000,
        5 => 0x10000000000,
        6 => 0x1000000000000,
        7 => 0x100000000000000,
        _ => 0x10000000000000000,
    }
}

/// Reads the two's-complement little-endian value of at most eight bytes.
pub fn i64_from_le(bytes: &Vec<u8>) -> (r: i64)
    requires
        bytes@.len() <= 8,
    ensures
        r == s_le(bytes@),
{
    let len = bytes.len();
    let u = u64_from_le(bytes);
    if len > 0 && bytes[len - 1] >= 128 {
        proof {
            lemma_u_le_drop_last(bytes@);
            lemma_u_le_bound(bytes@);
            lemma_pow_positive(256, (len - 1) as nat);
            assert(u_le(bytes@) >= 128 * pow(256, (len - 1) as nat)) by (nonlinear_arith)
                requires
                    u_le(bytes@) == u_le(bytes@.drop_last()) + bytes@.last() * pow(
                        256,
                        (len - 1) as nat,
                    ),
                    bytes@.last() >= 128,
                    u_le(bytes@.drop_last()) >= 0,
                    pow(256, (len - 1) as nat) >= 1,
            ;
            pow256_step((len - 1) as nat);
            assert(pow(256, len as nat) == 256 * pow(256, (len - 1) as nat));
        }
        let p = pow256_i128(len);
        let v: i128 = (u as i128) - p;
        proof {
            assert(v >= -128 * pow(256, (len - 1) as nat));
            assert(pow(256, (len - 1) as nat) <= pow(256, 7)) by {
                lemma_pow_increases(256, (len - 1) as nat, 7);
            }
            assert(pow(256, 7) == 0x100000000000000) by { pow256_table(); }
        }
        v as i64
    } else {
        proof {
            if len > 0 {
                lemma_u_le_drop_last(bytes@);
                lemma_u_le_bound(bytes@.drop_last());
                lemma_pow_positive(256, (len - 1) as nat);
                assert(u_le(bytes@) < 128 * pow(256, (len - 1) as nat)) by (nonlinear_arith)
                    requires
                        u_le(bytes@) == u_le(bytes@.drop_last()) + bytes@.last() * pow(
                            256,
                            (len - 1) as nat,
                        ),
                        bytes@.last() < 128,
                        u_le(bytes@.drop_last()) < pow(256, (len - 1) as nat),
                        pow(256, (len - 1) as nat) >= 1,
                ;
                assert(pow(256, (len - 1) as nat) <= pow(256, 7)) by {
                    lemma_pow_increases(256, (len - 1) as nat, 7);
                }
                assert(pow(256, 7) == 0x100000000000000) by { pow256_table(); }
            }
        }
        u as i64
    }
}

/// `pow(base, e)` when it fits an `i64`, `None` when it does not.
fn checked_pow_i64(base: i64, e: u32) -> (r: Option<i64>)
    requires
        2 <= base,
    ensures
        r matches Some(p) ==> p == pow(base as int, e as nat) && p <= i64::MAX,
        r is None ==> pow(base as int, e as nat) > i64::MAX,
{
    let mut acc: i64 = 1;
    let mut j: u32 = 0;
    proof {
        vstd::arithmetic::power::lemma_pow0(base as int);
    }
    while j < e
        invariant
            j <= e,
            2 <= base,
            1 <= acc,
            acc == pow(base as int, j as nat),
        decreases e - j,
    {
        if acc > i64::MAX / base {
            proof {
                assert(pow(base as int, (j + 1) as nat) == pow(base as int, j as nat) * base) by {
                    lemma_pow_adds(base as int, j as nat, 1nat);
                    vstd::arithmetic::power::lemma_pow1(base as int);
                }
                assert(acc * base > i64::MAX) by (nonlinear_arith)
                    requires
                        acc > i64::MAX / base,
                        2 <= base,
                        acc >= 1,
                ;
                lemma_pow_increases(base as nat, (j + 1) as nat, e as nat);
            }
            return None;
        }
        proof {
            assert(acc * base <= i64::MAX) by (nonlinear_arith)
                requires
                    acc <= i64::MAX / base,
                    2 <= base,
                    acc >= 1,
            ;
            assert(pow(base as int, (j + 1) as nat) == pow(base as int, j as nat) * base) by {
                lemma_pow_adds(base as int, j as nat, 1nat);
                vstd::arithmetic::power::lemma_pow1(base as int);
            }
            assert(acc * base >= 1) by (nonlinear_arith)
                requires
                    acc >= 1,
                    base >= 2,
            ;
        }
        acc = acc * base;
        j = j + 1;
    }
    Some(acc)
}

/// The exact mathematical result of a numeric codec with non-negative
/// exponents: `raw * m * 10^d * 2^b`.
pub open spec fn spec_scaled_int(raw: int, m: int, d: nat, b: nat) -> int {
    raw * m * pow(10, d) * pow(2, b)
}

pub open spec fn in_i64(v: int) -> bool {
    i64::MIN <= v <= i64::MAX
}


/// Any positive power of ten is divisible by five.
proof fn lemma_pow10_mod5(d: nat)
    requires
        d >= 1,
    ensures
        pow(10, d) % 5 == 0,
    decreases d,
{
    if d == 1 {
        vstd::arithmetic::power::lemma_pow1(10);
    } else {
        lemma_pow10_mod5((d - 1) as nat);
        assert(pow(10, d) == 10 * pow(10, (d - 1) as nat)) by {
            lemma_pow_adds(10, 1nat, (d - 1) as nat);
            vstd::arithmetic::power::lemma_pow1(10);
        }
        let x = pow(10, (d - 1) as nat);
        assert(10 * x == (2 * x) * 5) by (nonlinear_arith);
        vstd::arithmetic::div_mod::lemma_mod_multiples_basic(2 * x, 5);
    }
}

/// A power of ten that exceeds `i64::MAX` exceeds `2^63` as well, because
/// `2^63` is not divisible by five.
proof fn lemma_pow10_above_max(d: nat)
    requires
        pow(10, d) > i64::MAX,
    ensures
        pow(10, d) >= 0x8000000000000001,
{
    if d == 0 {
        vstd::arithmetic::power::lemma_pow0(10);
    } else {
        lemma_pow10_mod5(d);
        assert(0x8000000000000000int % 5 == 3);
    }
}

/// Multiplies the decoded raw value out when both exponents are non-negative;
/// returns the product exactly when the mathematical result fits an `i64`.
fn scale_integral(raw: i64, m: i8, d: u32, b: u32) -> (r: Option<i64>)
    ensures
        r matches Some(v) ==> in_i64(spec_scaled_int(raw as int, m as int, d as nat, b as nat))
            && v == spec_scaled_int(raw as int, m as int, d as nat, b as nat),
        r is None ==> !in_i64(spec_scaled_int(raw as int, m as int, d as nat, b as nat)),
{
    let ghost exact = spec_scaled_int(raw as int, m as int, d as nat, b as nat);
    proof {
        assert((raw as int) * (m as int) <= i128::MAX && (raw as int) * (m as int)
            >= i128::MIN) by (nonlinear_arith)
            requires
                i64::MIN <= raw <= i64::MAX,
                i8::MIN <= m <= i8::MAX,
        ;
        lemma_pow_positive(10, d as nat);
        lemma_pow_positive(2, b as nat);
    }
    let prod_m: i128 = (raw as i128) * (m as i128);
    if prod_m == 0 {
        proof {
            assert(exact == 0) by (nonlinear_arith)
                requires
                    exact == (raw as int * m as int) * pow(10, d as nat) * pow(2, b as nat),
                    raw as int * m as int == 0,
            ;
        }
        return Some(0);
    }
    let p10 = match checked_pow_i64(10, d) {
        Some(p) => p,
        None => {
            proof {
                lemma_pow10_above_max(d as nat);
                lemma_magnitude(raw as int * m as int, pow(10, d as nat), pow(2, b as nat));
            }
            return None;
        },
    };
    if b >= 64 {
        proof {
            vstd::arithmetic::power2::lemma_pow2(64nat);
            vstd::arithmetic::power2::lemma2_to64();
            lemma_pow_increases(2nat, 64nat, b as nat);
            lemma_magnitude(raw as int * m as int, pow(10, d as nat), pow(2, b as nat));
        }
        return None;
    }
    let p2 = pow2_i128(b as usize);
    if prod_m > i64::MAX as i128 || prod_m < i64::MIN as i128 {
        proof {
            lemma_magnitude(raw as int * m as int, pow(10, d as nat), pow(2, b as nat));
        }
        return None;
    }
    proof {
        assert((prod_m as int) * (p10 as int) <= i128::MAX && (prod_m as int) * (p10 as int)
            >= i128::MIN) by (nonlinear_arith)
            requires
                i64::MIN <= prod_m <= i64::MAX,
                1 <= p10 <= i64::MAX,
        ;
    }
    let t1: i128 = prod_m * (p10 as i128);
    if t1 > i64::MAX as i128 || t1 < i64::MIN as i128 {
        proof {
            lemma_last_factor(raw as int * m as int * pow(10, d as nat), pow(2, b as nat));
        }
        return None;
    }
    proof {
        assert((t1 as int) * (p2 as int) <= i128::MAX && (t1 as int) * (p2 as int)
            >= i128::MIN) by (nonlinear_arith)
            requires
                i64::MIN <= t1 <= i64::MAX,
                1 <= p2 <= 0x8000000000000000,
        ;
    }
    let t2: i128 = t1 * p2;
    if t2 > i64::MAX as i128 || t2 < i64::MIN as i128 {
        return None;
    }
    Some(t2 as i64)
}

/// `pow(2, e)` for `e` up to 63, exact in an `i128`.
fn pow2_i128(e: usize) -> (r: i128)
    requires
        e <= 63,
    ensures
        r == pow(2, e as nat),
        1 <= r <= 0x8000000000000000,
{
    let mut acc: i128 = 1;
    let mut j: usize = 0;
    proof {
        vstd::arithmetic::power::lemma_pow0(2);
        vstd::arithmetic::power2::lemma2_to64();
        vstd::arithmetic::power2::lemma2_to64_rest();
    }
    while j < e
        invariant
            j <= e <= 63,
            acc == pow(2, j as nat),
            1 <= acc,
            acc <= pow(2, j as nat),
        decreases e - j,
    {
        proof {
            assert(pow(2, (j + 1) as nat) == pow(2, j as nat) * 2) by {
                lemma_pow_adds(2, j as nat, 1nat);
                vstd::arithmetic::power::lemma_pow1(2);
            }
            assert(pow(2, (j + 1) as nat) <= pow(2, 63nat)) by {
                lemma_pow_increases(2nat, (j + 1) as nat, 63nat);
            }
            assert(pow(2, 63nat) == 0x8000000000000000) by {
                vstd::arithmetic::power2::lemma_pow2(63nat);
                vstd::arithmetic::power2::lemma2_to64_rest();
            }
        }
        acc = acc * 2;
        j = j + 1;
    }
    proof {
        assert(pow(2, e as nat) <= pow(2, 63nat)) by {
            lemma_pow_increases(2nat, e as nat, 63nat);
        }
        assert(pow(2, 63nat) == 0x8000000000000000) by {
            vstd::arithmetic::power2::lemma_pow2(63nat);
            vstd::arithmetic::power2::lemma2_to64_rest();
        }
    }
    acc
}

/// A non-zero integer times factors of at least one keeps or grows its
/// magnitude, so the full product is at least as far from zero as any
/// factor or partial product.
proof fn lemma_magnitude(a: int, p: int, q: int)
    requires
        p >= 1,
        q >= 1,
        a != 0,
    ensures
        a > 0 ==> a * p * q >= a && a * p * q >= p && a * p * q >= q,
        a < 0 ==> a * p * q <= a && a * p * q <= -p && a * p * q <= -q,
{
    if a > 0 {
        assert(a * p >= a && a * p >= p) by (nonlinear_arith)
            requires
                a >= 1,
                p >= 1,
        ;
        assert(a * p * q >= a * p && a * p * q >= q) by (nonlinear_arith)
            requires
                a * p >= 1,
                q >= 1,
        ;
    } else {
        assert(a * p <= a && a * p <= -p) by (nonlinear_arith)
            requires
                a <= -1,
                p >= 1,
        ;
        assert(a * p * q <= a * p && a * p * q <= -q) by (nonlinear_arith)
            requires
                a * p <= -1,
                q >= 1,
        ;
    }
}

/// The magnitude argument for the last factor alone.
proof fn lemma_last_factor(t: int, q: int)
    requires
        q >= 1,
    ensures
        t > i64::MAX ==> t * q > i64::MAX,
        t < i64::MIN ==> t * q < i64::MIN,
{
    if t > 0 {
        assert(t * q >= t) by (nonlinear_arith)
            requires
                t >= 1,
                q >= 1,
        ;
    }
    if t < 0 {
        assert(t * q <= t) by (nonlinear_arith)
            requires
                t <= -1,
                q >= 1,
        ;
    }
}

/// The byte string with its trailing NUL bytes removed.
pub open spec fn strip_trailing_nuls(s: Seq<u8>) -> Seq<u8>
    decreases s.len(),
{
    if s.len() > 0 && s.last() == 0 {
        strip_trailing_nuls(s.drop_last())
    } else {
        s
    }
}

impl Converter {
    /// Decodes one raw payload. `Raw` hands the bytes through; `Utf8` strips
    /// trailing NUL bytes and decodes; `F32` reads exactly four bytes as an
    /// IEEE-754 bit pattern; `Signed` / `Unsigned` read an `l`-byte
    /// little-endian integer and scale it by `m * 10^d * 2^b`, exactly.
    pub fn convert(&self, value: Vec<u8>) -> (r: Result<CharacteristicValue, ConversionError>)
        requires
            self.wf(),
        ensures
            self matches Converter::Raw ==> r matches Ok(v) && v matches CharacteristicValue::Raw(
                b,
            ) && b == value,
            self matches Converter::Utf8 ==> {
                let t = strip_trailing_nuls(value@);
                if valid_utf8(t) {
                    r matches Ok(v) && v matches CharacteristicValue::Utf8(s) && s@ == decode_utf8(
                        t,
                    )
                } else {
                    r == Err::<CharacteristicValue, _>(ConversionError::Utf8Error)
                }
            },
            self matches Converter::F32 ==> if value@.len() == 4 {
                r matches Ok(v) && v matches CharacteristicValue::F32Bits(bits) && bits == u_le(
                    value@,
                )
            } else {
                r == Err::<CharacteristicValue, _>(
                    ConversionError::LenMismatch { expected: 4, actual: value@.len() as usize },
                )
            },
            self matches Converter::Signed { l, m, d, b } ==> spec_numeric_result(
                r,
                value@,
                *l,
                *m,
                *d,
                *b,
                s_le(value@),
                true,
            ),
            self matches Converter::Unsigned { l, m, d, b } ==> spec_numeric_result(
                r,
                value@,
                *l,
                *m,
                *d,
                *b,
                u_le(value@) as int,
                false,
            ),
    {
        match self {
            Converter::Raw => Ok(CharacteristicValue::Raw(value)),
            Converter::Utf8 => {
                let mut v = value;
                while v.len() > 0 && v[v.len() - 1] == 0
                    invariant
                        strip_trailing_nuls(v@) == strip_trailing_nuls(value@),
                    decreases v.len(),
                {
                    proof {
                        assert(v@.drop_last() =~= v@.subrange(0, v@.len() - 1));
                    }
                    v.pop();
                }
                match string_from_utf8(v) {
                    Some(s) => Ok(CharacteristicValue::Utf8(s)),
                    None => Err(ConversionError::Utf8Error),
                }
            },
            Converter::F32 => {
                if value.len() != 4 {
                    return Err(
                        ConversionError::LenMismatch { expected: 4, actual: value.len() },
                    );
                }
                let bits = u64_from_le(&value);
                proof {
                    lemma_u_le_bound(value@);
                    assert(pow(256, 4) == 0x100000000) by { pow256_table(); }
                }
                Ok(CharacteristicValue::F32Bits(bits as u32))
            },
            Converter::Signed { l, m, d, b } => {
                if value.len() != (*l as usize) {
                    return Err(
                        ConversionError::LenMismatch { expected: *l as usize, actual: value.len() },
                    );
                }
                let raw = i64_from_le(&value);
                scale_or_defer(raw, *m, *d, *b, true)
            },
            Converter::Unsigned { l, m, d, b } => {
                if value.len() != (*l as usize) {
                    return Err(
                        ConversionError::LenMismatch { expected: *l as usize, actual: value.len() },
                    );
                }
                let u = u64_from_le(&value);
                if u > i64::MAX as u64 {
                    return Err(ConversionError::BigUintCastError);
                }
                scale_or_defer(u as i64, *m, *d, *b, false)
            },
        }
    }
}

/// What a numeric codec (`Signed` or `Unsigned`) returns for a payload whose
/// little-endian reading is `raw`: a length mismatch error when the payload
/// is not `l` bytes; an unsigned value above `i64::MAX` cannot be cast; with
/// non-negative exponents the exact product or a cast error when it leaves
/// `i64`; with a negative exponent the factors carried exactly.
pub open spec fn spec_numeric_result(
    r: Result<CharacteristicValue, ConversionError>,
    bytes: Seq<u8>,
    l: u8,
    m: i8,
    d: i32,
    b: i32,
    raw: int,
    signed: bool,
) -> bool {
    if bytes.len() != l {
        r == Err::<CharacteristicValue, _>(
            ConversionError::LenMismatch { expected: l as usize, actual: bytes.len() as usize },
        )
    } else if !signed && raw > i64::MAX {
        r == Err::<CharacteristicValue, _>(ConversionError::BigUintCastError)
    } else if d >= 0 && b >= 0 {
        if in_i64(spec_scaled_int(raw, m as int, d as nat, b as nat)) {
            r matches Ok(v) && v matches CharacteristicValue::I64(x) && x == spec_scaled_int(
                raw,
                m as int,
                d as nat,
                b as nat,
            )
        } else {
            r == Err::<CharacteristicValue, _>(ConversionError::BigIntCastError)
        }
    } else {
        r matches Ok(v) && v matches CharacteristicValue::Scaled {
            value,
            multiplier,
            decimal_exponent,
            binary_exponent,
        } && value == raw && multiplier == m && decimal_exponent == d && binary_exponent == b
    }
}

/// Multiplies out when both exponents are non-negative, else defers the
/// factors into a `Scaled` value.
fn scale_or_defer(raw: i64, m: i8, d: i32, b: i32, signed: bool) -> (r: Result<
    CharacteristicValue,
    ConversionError,
>)
    ensures
        if d >= 0 && b >= 0 {
            if in_i64(spec_scaled_int(raw as int, m as int, d as nat, b as nat)) {
                r matches Ok(v) && v matches CharacteristicValue::I64(x) && x == spec_scaled_int(
                    raw as int,
                    m as int,
                    d as nat,
                    b as nat,
                )
            } else {
                r == Err::<CharacteristicValue, _>(ConversionError::BigIntCastError)
            }
        } else {
            r matches Ok(v) && v matches CharacteristicValue::Scaled {
                value,
                multiplier,
                decimal_exponent,
                binary_exponent,
            } && value == raw && multiplier == m && decimal_exponent == d && binary_exponent == b
        },
{
    let _ = signed;
    if d >= 0 && b >= 0 {
        match scale_integral(raw, m, d as u32, b as u32) {
            Some(v) => Ok(CharacteristicValue::I64(v)),
            None => Err(ConversionError::BigIntCastError),
        }
    } else {
        Ok(
            CharacteristicValue::Scaled {
                value: raw,
                multiplier: m,
                decimal_exponent: d,
                binary_exponent: b,
            },
        )
    }
}


/// The `l`-byte little-endian encoding of an unsigned value.
pub open spec fn u_le_bytes(u: nat, l: nat) -> Seq<u8>
    decreases l,
{
    if l == 0 {
        Seq::empty()
    } else {
        seq![(u % 256) as u8] + u_le_bytes(u / 256, (l - 1) as nat)
    }
}

pub proof fn lemma_u_le_bytes_len(u: nat, l: nat)
    ensures
        u_le_bytes(u, l).len() == l,
    decreases l,
{
    if l > 0 {
        lemma_u_le_bytes_len(u / 256, (l - 1) as nat);
    }
}

/// Encoding then decoding an unsigned value in range is the identity.
pub proof fn lemma_u_le_bytes_decode(u: nat, l: nat)
    requires
        u < pow(256, l),
    ensures
        u_le(u_le_bytes(u, l)) == u,
    decreases l,
{
    if l == 0 {
        pow256_table();
    } else {
        let rest = u_le_bytes(u / 256, (l - 1) as nat);
        lemma_u_le_bytes_len(u / 256, (l - 1) as nat);
        assert(u / 256 < pow(256, (l - 1) as nat)) by {
            pow256_step((l - 1) as nat);
            assert(u < 256 * pow(256, (l - 1) as nat));
            assert(u / 256 < pow(256, (l - 1) as nat)) by (nonlinear_arith)
                requires
                    u < 256 * pow(256, (l - 1) as nat),
                    u >= 0,
            ;
        }
        lemma_u_le_bytes_decode(u / 256, (l - 1) as nat);
        let s = u_le_bytes(u, l);
        assert(s[0] == (u % 256) as u8);
        assert(s.drop_first() =~= rest);
        assert(u_le(s) == u % 256 + 256 * (u / 256));
        assert(u % 256 + 256 * (u / 256) == u) by (nonlinear_arith)
            requires
                u >= 0,
        ;
    }
}

/// The top byte decides the sign: at least 128 exactly when the unsigned
/// reading reaches half the range.
proof fn lemma_top_byte(s: Seq<u8>)
    requires
        s.len() > 0,
    ensures
        s.last() >= 128 <==> u_le(s) >= 128 * pow(256, (s.len() - 1) as nat),
{
    lemma_u_le_drop_last(s);
    lemma_u_le_bound(s.drop_last());
    lemma_pow_positive(256, (s.len() - 1) as nat);
    let p = pow(256, (s.len() - 1) as nat);
    if s.last() >= 128 {
        assert(s.last() * p >= 128 * p) by (nonlinear_arith)
            requires
                s.last() >= 128,
                p >= 1,
        ;
    } else {
        assert(s.last() * p <= 127 * p) by (nonlinear_arith)
            requires
                s.last() <= 127,
                p >= 1,
        ;
        assert(u_le(s.drop_last()) + s.last() * p < 128 * p) by (nonlinear_arith)
            requires
                u_le(s.drop_last()) < p,
                s.last() * p <= 127 * p,
                p >= 1,
        ;
    }
}

/// Writes a signed value as `l` little-endian two's-complement bytes.
/// The value must fit: `-(256^l)/2 <= v < (256^l)/2`.
#[verifier::loop_isolation(false)]
pub fn i64_to_le_bytes(v: i64, l: usize) -> (r: Vec<u8>)
    requires
        l <= 8,
        -pow(256, l as nat) <= 2 * v < pow(256, l as nat),
    ensures
        r@.len() == l,
        s_le(r@) == v,
{
    proof {
        pow256_table();
        lemma_pow_positive(256, l as nat);
    }
    let p = pow256_i128(l);
    let u: u64 = if v >= 0 {
        proof {
            assert(2 * v < pow(256, l as nat));
        }
        v as u64
    } else {
        let w: i128 = (v as i128) + p;
        proof {
            assert(2 * v >= -pow(256, l as nat));
            assert(w >= 0 && w < pow(256, l as nat));
            assert(pow(256, l as nat) <= pow(256, 8nat)) by {
                lemma_pow_increases(256, l as nat, 8nat);
            }
        }
        w as u64
    };
    let ghost u0 = u as nat;
    proof {
        assert(u0 < pow(256, l as nat));
        lemma_u_le_bytes_len(u0, l as nat);
    }
    let mut out: Vec<u8> = Vec::new();
    let mut cur: u64 = u;
    let mut j: usize = 0;
    proof {
        assert(out@ + u_le_bytes(cur as nat, (l - j) as nat) =~= u_le_bytes(u0, l as nat));
    }
    while j < l
        invariant
            j <= l,
            out@.len() == j,
            out@ + u_le_bytes(cur as nat, (l - j) as nat) == u_le_bytes(u0, l as nat),
        decreases l - j,
    {
        let b: u8 = (cur % 256) as u8;
        proof {
            let tail = u_le_bytes(cur as nat, (l - j) as nat);
            assert(tail == seq![(cur as nat % 256) as u8] + u_le_bytes(
                cur as nat / 256,
                (l - j - 1) as nat,
            ));
            assert((out@.push(b)) + u_le_bytes((cur / 256) as nat, (l - j - 1) as nat)
                =~= out@ + tail);
        }
        out.push(b);
        cur = cur / 256;
        j = j + 1;
    }
    proof {
        assert(u_le_bytes((cur) as nat, 0nat) =~= Seq::<u8>::empty());
        assert(out@ =~= u_le_bytes(u0, l as nat));
        lemma_u_le_bytes_decode(u0, l as nat);
        assert(u_le(out@) == u0);
        if l == 0 {
            assert(v == 0);
            assert(s_le(out@) == 0);
        } else {
            lemma_top_byte(out@);
            pow256_step((l - 1) as nat);
            assert(pow(256, l as nat) == 256 * pow(256, (l - 1) as nat));
            if v >= 0 {
                assert(2 * v < pow(256, l as nat));
                assert(u0 < 128 * pow(256, (l - 1) as nat)) by (nonlinear_arith)
                    requires
                        2 * u0 < 256 * pow(256, (l - 1) as nat),
                ;
                assert(out@.last() < 128);
                assert(s_le(out@) == u0);
            } else {
                assert(2 * (u0 - pow(256, l as nat)) >= -pow(256, l as nat));
                assert(u0 >= 128 * pow(256, (l - 1) as nat)) by (nonlinear_arith)
                    requires
                        2 * u0 >= pow(256, l as nat),
                        pow(256, l as nat) == 256 * pow(256, (l - 1) as nat),
                ;
                assert(out@.last() >= 128);
                assert(s_le(out@) == u0 - pow(256, l as nat));
            }
        }
    }
    out
}

/// The scaling round trip is exact: a value `x` stored as `x * 2^k` in
/// `l` little-endian two's-complement bytes and decoded by
/// `Signed { l, m: 1, d: 0, b: -k }` comes back as the factors
/// `(x * 2^k) * 1 * 10^0 * 2^(-k)`, which denote exactly `x`.
pub proof fn lemma_signed_scaling_round_trip(
    r: Result<CharacteristicValue, ConversionError>,
    bytes: Seq<u8>,
    x: int,
    k: u32,
    l: u8,
)
    requires
        k >= 1,
        k <= 0x7fffffff,
        bytes.len() == l,
        s_le(bytes) == x * pow(2, k as nat),
        spec_numeric_result(r, bytes, l, 1, 0, ((-(k as int)) as i32), s_le(bytes), true),
    ensures
        r matches Ok(cv) && cv matches CharacteristicValue::Scaled {
            value,
            multiplier,
            decimal_exponent,
            binary_exponent,
        } && value == x * pow(2, k as nat) && multiplier == 1 && decimal_exponent == 0
            && binary_exponent == -(k as int),
{
}

} // verus!
