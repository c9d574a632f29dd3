use num_bigint::BigInt;
use num_traits::{Pow, ToPrimitive};
use vstd::arithmetic::div_mod::{lemma_mod_bound, lemma_mul_mod_noop_general, lemma_small_mod};
use vstd::arithmetic::mul::lemma_mul_nonnegative;
use vstd::arithmetic::power::{
    lemma_pow1, lemma_pow_adds, lemma_pow_mod_noop, lemma_pow_multiplies, lemma_square_is_pow2, pow,
};
use vstd::prelude::*;

verus! {

/// The value of little-endian base-256 digits, read as an unsigned number.
pub open spec fn unsigned_le(b: Seq<u8>) -> nat
    decreases b.len(),
{
    if b.len() == 0 {
        0
    } else {
        b[0] as nat + 256 * unsigned_le(b.drop_first())
    }
}

/// The value of little-endian bytes read in two's complement: an empty
/// sequence is zero, and a last byte of 128 or more makes the value negative.
pub open spec fn signed_le(b: Seq<u8>) -> int {
    if b.len() > 0 && b.last() >= 128 {
        unsigned_le(b) - pow(256, b.len())
    } else {
        unsigned_le(b) as int
    }
}

pub open spec fn abs(x: int) -> int {
    if x < 0 {
        -x
    } else {
        x
    }
}

/// Quotient of `x` by `y`, rounded toward zero.
pub open spec fn trunc_div(x: int, y: int) -> int {
    let q = abs(x) / abs(y);
    if (x < 0) == (y < 0) {
        q
    } else {
        -q
    }
}

/// Remainder of `x` by `y` that goes with `trunc_div`: its sign follows `x`.
pub open spec fn trunc_rem(x: int, y: int) -> int {
    if x < 0 {
        -(abs(x) % abs(y))
    } else {
        x % abs(y)
    }
}

/// `r` is the integer square root of `x`: the largest `r` with `r * r <= x`.
pub open spec fn is_isqrt(x: int, r: int) -> bool {
    0 <= r && r * r <= x && x < (r + 1) * (r + 1)
}

/// The integer square root of a non-negative `x`.
pub open spec fn isqrt(x: int) -> int
    recommends
        x >= 0,
{
    choose|r: int| is_isqrt(x, r)
}

pub open spec fn is_digit(b: u8) -> bool {
    48 <= b <= 57
}

/// A non-empty run of ASCII decimal digits.
pub open spec fn is_digits(s: Seq<u8>) -> bool {
    s.len() > 0 && forall|i: int| 0 <= i < s.len() ==> is_digit(#[trigger] s[i])
}

/// The value of ASCII decimal digits, most significant first.
pub open spec fn digits_value(s: Seq<u8>) -> nat
    decreases s.len(),
{
    if s.len() == 0 {
        0
    } else {
        10 * digits_value(s.drop_last()) + (s.last() - 48) as nat
    }
}

/// ASCII text of a decimal integer: an optional `-` (byte 45), then digits.
pub open spec fn is_signed_decimal(s: Seq<u8>) -> bool {
    is_digits(s) || (s.len() > 0 && s[0] == 45 && is_digits(s.drop_first()))
}

pub open spec fn signed_decimal_value(s: Seq<u8>) -> int {
    if s.len() > 0 && s[0] == 45 {
        -digits_value(s.drop_first())
    } else {
        digits_value(s) as int
    }
}

/// An arbitrary-precision signed integer, held as its two's-complement bytes
/// in little-endian order. Every byte sequence denotes an integer.
#[derive(Debug)]
pub struct Num {
    bytes: Vec<u8>,
}

impl View for Num {
    type V = int;

    closed spec fn view(&self) -> int {
        signed_le(self.bytes@)
    }
}

/// Relies on `BigInt`'s `+`: the exact sum.
#[verifier::external_body]
pub(crate) fn big_add(a: &Num, b: &Num) -> (r: Num)
    ensures
        r@ == a@ + b@,
{
    let x = BigInt::from_signed_bytes_le(&a.bytes) + BigInt::from_signed_bytes_le(&b.bytes);
    Num { bytes: x.to_signed_bytes_le() }
}

/// Relies on `BigInt`'s `-`: the exact difference.
#[verifier::external_body]
pub(crate) fn big_sub(a: &Num, b: &Num) -> (r: Num)
    ensures
        r@ == a@ - b@,
{
    let x = BigInt::from_signed_bytes_le(&a.bytes) - BigInt::from_signed_bytes_le(&b.bytes);
    Num { bytes: x.to_signed_bytes_le() }
}

/// Relies on `BigInt`'s `*`: the exact product.
#[verifier::external_body]
pub(crate) fn big_mul(a: &Num, b: &Num) -> (r: Num)
    ensures
        r@ == a@ * b@,
{
    let x = BigInt::from_signed_bytes_le(&a.bytes) * BigInt::from_signed_bytes_le(&b.bytes);
    Num { bytes: x.to_signed_bytes_le() }
}

/// Relies on `BigInt`'s `/`: the quotient rounded toward zero. It panics on a
/// zero divisor.
#[verifier::external_body]
pub(crate) fn big_div(a: &Num, b: &Num) -> (r: Num)
    requires
        b@ != 0,
    ensures
        r@ == trunc_div(a@, b@),
{
    let x = BigInt::from_signed_bytes_le(&a.bytes) / BigInt::from_signed_bytes_le(&b.bytes);
    Num { bytes: x.to_signed_bytes_le() }
}

/// Relies on `BigInt`'s `%`: the remainder of the division rounded toward
/// zero, with the sign of the dividend. It panics on a zero divisor.
#[verifier::external_body]
pub(crate) fn big_rem(a: &Num, b: &Num) -> (r: Num)
    requires
        b@ != 0,
    ensures
        r@ == trunc_rem(a@, b@),
{
    let x = BigInt::from_signed_bytes_le(&a.bytes) % BigInt::from_signed_bytes_le(&b.bytes);
    Num { bytes: x.to_signed_bytes_le() }
}

/// Relies on `num_traits::Pow<u128>` for `BigInt`: the exact power, computed
/// by repeated squaring (the result has to fit in memory).
#[verifier::external_body]
pub(crate) fn big_pow(a: &Num, e: u128) -> (r: Num)
    ensures
        r@ == pow(a@, e as nat),
{
    let x = Pow::pow(BigInt::from_signed_bytes_le(&a.bytes), e);
    Num { bytes: x.to_signed_bytes_le() }
}

/// Relies on `BigInt::sqrt`: the truncated square root. It panics on a
/// negative argument.
#[verifier::external_body]
pub(crate) fn big_sqrt(a: &Num) -> (r: Num)
    requires
        a@ >= 0,
    ensures
        is_isqrt(a@, r@),
{
    let x = BigInt::from_signed_bytes_le(&a.bytes).sqrt();
    Num { bytes: x.to_signed_bytes_le() }
}

/// Relies on `BigInt::parse_bytes` in radix 10, which reads an optional `-`
/// followed by decimal digits.
#[verifier::external_body]
pub(crate) fn big_parse_decimal(text: &[u8]) -> (r: Option<Num>)
    requires
        is_signed_decimal(text@),
    ensures
        r is Some,
        r->0@ == signed_decimal_value(text@),
{
    match BigInt::parse_bytes(text, 10) {
        Some(x) => Some(Num { bytes: x.to_signed_bytes_le() }),
        None => None,
    }
}

/// Relies on `BigInt::from::<i64>`: the same value.
#[verifier::external_body]
pub(crate) fn big_from_i64(v: i64) -> (r: Num)
    ensures
        r@ == v as int,
{
    Num { bytes: BigInt::from(v).to_signed_bytes_le() }
}

/// Relies on `ToPrimitive::to_u8` for `BigInt`: `Some` exactly when the
/// value fits in a `u8`.
#[verifier::external_body]
pub(crate) fn big_to_u8(a: &Num) -> (r: Option<u8>)
    ensures
        0 <= a@ <= u8::MAX ==> r == Some(a@ as u8),
        !(0 <= a@ <= u8::MAX) ==> r is None,
{
    BigInt::from_signed_bytes_le(&a.bytes).to_u8()
}

/// Relies on `ToPrimitive::to_u128` for `BigInt`: `Some` exactly when the
/// value fits in a `u128`.
#[verifier::external_body]
pub(crate) fn big_to_u128(a: &Num) -> (r: Option<u128>)
    ensures
        0 <= a@ <= u128::MAX ==> r == Some(a@ as u128),
        !(0 <= a@ <= u128::MAX) ==> r is None,
{
    BigInt::from_signed_bytes_le(&a.bytes).to_u128()
}

/// Relies on `BigInt`'s `==`: equality of the values.
#[verifier::external_body]
pub(crate) fn big_eq(a: &Num, b: &Num) -> (r: bool)
    ensures
        r == (a@ == b@),
{
    BigInt::from_signed_bytes_le(&a.bytes) == BigInt::from_signed_bytes_le(&b.bytes)
}

proof fn lemma_unsigned_le_bound(b: Seq<u8>)
    ensures
        unsigned_le(b) < pow(256, b.len()),
    decreases b.len(),
{
    reveal(pow);
    if b.len() > 0 {
        lemma_unsigned_le_bound(b.drop_first());
    }
}

proof fn lemma_unsigned_le_zero(b: Seq<u8>)
    ensures
        unsigned_le(b) == 0 <==> forall|i: int| 0 <= i < b.len() ==> b[i] == 0,
    decreases b.len(),
{
    if b.len() > 0 {
        lemma_unsigned_le_zero(b.drop_first());
        if unsigned_le(b) == 0 {
            assert forall|i: int| 0 <= i < b.len() implies b[i] == 0 by {
                if i > 0 {
                    assert(b[i] == b.drop_first()[i - 1]);
                }
            }
        }
        if forall|i: int| 0 <= i < b.len() ==> b[i] == 0 {
            assert forall|i: int| 0 <= i < b.len() - 1 implies b.drop_first()[i] == 0 by {
                assert(b.drop_first()[i] == b[i + 1]);
            }
        }
    }
}

proof fn lemma_signed_le_negative(b: Seq<u8>)
    ensures
        signed_le(b) < 0 <==> (b.len() > 0 && b.last() >= 128),
{
    lemma_unsigned_le_bound(b);
}

proof fn lemma_signed_le_parity(b: Seq<u8>)
    requires
        b.len() > 0,
    ensures
        signed_le(b) % 2 == b[0] % 2,
{
    let n = b.len();
    let rest = unsigned_le(b.drop_first()) as int;
    assert(pow(256, n) == 256 * pow(256, (n - 1) as nat)) by {
        reveal(pow);
    }
    let k = if b.last() >= 128 {
        rest - pow(256, (n - 1) as nat)
    } else {
        rest
    };
    assert(signed_le(b) == b[0] + 256 * k);
    assert((b[0] + 256 * k) % 2 == b[0] % 2) by (nonlinear_arith);
}


proof fn lemma_isqrt_unique(x: int, r: int)
    requires
        is_isqrt(x, r),
    ensures
        isqrt(x) == r,
{
    let s = isqrt(x);
    assert(is_isqrt(x, s));
    if s < r {
        assert((s + 1) * (s + 1) <= r * r) by (nonlinear_arith)
            requires
                0 <= s,
                s + 1 <= r,
        ;
    } else if r < s {
        assert((r + 1) * (r + 1) <= s * s) by (nonlinear_arith)
            requires
                0 <= r,
                r + 1 <= s,
        ;
    }
}

proof fn lemma_pow_nonneg(x: int, e: nat)
    requires
        x >= 0,
    ensures
        pow(x, e) >= 0,
    decreases e,
{
    reveal(pow);
    if e > 0 {
        lemma_pow_nonneg(x, (e - 1) as nat);
        lemma_mul_nonnegative(x, pow(x, (e - 1) as nat));
    }
}

pub proof fn lemma_pow_of_negation(x: int, e: nat)
    ensures
        pow(-x, e) == if e % 2 == 0 {
            pow(x, e)
        } else {
            -pow(x, e)
        },
    decreases e,
{
    reveal(pow);
    if e > 0 {
        lemma_pow_of_negation(x, (e - 1) as nat);
        let p = pow(x, (e - 1) as nat);
        assert((-x) * (-p) == x * p) by (nonlinear_arith);
        assert((-x) * p == -(x * p)) by (nonlinear_arith);
    }
}

/// One round of square-and-multiply leaves `acc * b^e` unchanged modulo `m`.
proof fn lemma_square_multiply_step(acc: int, b: int, e: nat, m: int)
    requires
        m > 0,
    ensures
        e % 2 == 1 ==> ((acc * b) % m) * pow((b * b) % m, e / 2) % m == acc * pow(b, e) % m,
        e % 2 == 0 ==> acc * pow((b * b) % m, e / 2) % m == acc * pow(b, e) % m,
{
    let h = e / 2;
    let p = pow((b * b) % m, h);
    let q = pow(b, 2 * h);
    lemma_pow_mod_noop(b * b, h, m);
    lemma_square_is_pow2(b);
    lemma_pow_multiplies(b, 2, h);
    assert(p % m == q % m);
    if e % 2 == 1 {
        assert(e == 2 * h + 1);
        lemma_pow_adds(b, 2 * h, 1);
        lemma_pow1(b);
        lemma_mul_mod_noop_general(acc * b, p, m);
        lemma_mul_mod_noop_general(acc * b, q, m);
        assert(acc * b * q == acc * (q * b)) by (nonlinear_arith);
    } else {
        assert(e == 2 * h);
        lemma_mul_mod_noop_general(acc, p, m);
        lemma_mul_mod_noop_general(acc, q, m);
    }
}

impl Num {
    /// The integer `v`.
    pub fn from_i64(v: i64) -> (r: Num)
        ensures
            r@ == v as int,
    {
        big_from_i64(v)
    }

    /// The integer whose two's-complement little-endian bytes are `bytes`.
    pub fn from_signed_bytes_le(bytes: Vec<u8>) -> (r: Num)
        ensures
            r@ == signed_le(bytes@),
    {
        Num { bytes }
    }

    /// Two's-complement little-endian bytes of this integer.
    pub fn to_signed_bytes_le(&self) -> (r: Vec<u8>)
        ensures
            signed_le(r@) == self@,
    {
        self.bytes.clone()
    }

    /// The integer square root of a non-negative number.
    pub fn sqrt(&self) -> (r: Num)
        requires
            self@ >= 0,
        ensures
            r@ == isqrt(self@),
    {
        let r = big_sqrt(self);
        proof {
            lemma_isqrt_unique(self@, r@);
        }
        r
    }

    /// `base` to the power `exponent`, reduced by `trunc_rem` modulo
    /// `modulus`. Square-and-multiply: the number of multiplications grows
    /// with the bit length of `exponent`, and every factor is below `modulus`.
    pub fn mod_pow(base: &Num, exponent: &Num, modulus: &Num) -> (r: Num)
        requires
            exponent@ >= 0,
            modulus@ > 0,
        ensures
            r@ == trunc_rem(pow(base@, exponent@ as nat), modulus@),
    {
        let ghost m = modulus@;
        let ghost a = abs(base@);
        let ghost n = exponent@ as nat;
        let zero = big_from_i64(0);
        let one = big_from_i64(1);
        let two = big_from_i64(2);
        let mut b = big_rem(base, modulus);
        if b.is_negative() {
            b = big_sub(&zero, &b);
        }
        let mut acc = big_rem(&one, modulus);
        let mut e = exponent.clone();
        proof {
            lemma_mod_bound(a, m);
            lemma_pow_mod_noop(a, n, m);
            lemma_mul_mod_noop_general(1, pow(a % m, n), m);
        }
        while !e.is_zero()
            invariant
                m == modulus@,
                m > 0,
                two@ == 2,
                0 <= acc@ < m,
                0 <= b@ < m,
                e@ >= 0,
                acc@ * pow(b@, e@ as nat) % m == pow(a, n) % m,
            decreases e@,
        {
            proof {
                lemma_square_multiply_step(acc@, b@, e@ as nat, m);
                lemma_mul_nonnegative(acc@, b@);
                lemma_mul_nonnegative(b@, b@);
            }
            if e.is_odd() {
                acc = big_rem(&big_mul(&acc, &b), modulus);
            }
            b = big_rem(&big_mul(&b, &b), modulus);
            e = big_div(&e, &two);
            proof {
                lemma_mod_bound(acc@, m);
                lemma_mod_bound(b@, m);
            }
        }
        proof {
            assert(pow(b@, 0) == 1) by {
                reveal(pow);
            }
            lemma_small_mod(acc@ as nat, m as nat);
            lemma_pow_nonneg(a, n);
            lemma_mod_bound(pow(a, n), m);
            assert(acc@ * pow(b@, e@ as nat) == acc@);
            assert(acc@ == pow(a, n) % m);
            if base@ < 0 {
                lemma_pow_of_negation(a, n);
                assert(-a == base@);
            }
        }
        if base.is_negative() && exponent.is_odd() {
            acc = big_sub(&zero, &acc);
        }
        assert(base@ < 0 && n % 2 == 1 ==> acc@ == trunc_rem(pow(base@, n), m)) by {
            if base@ < 0 && n % 2 == 1 {
                let p = pow(a, n);
                assert(pow(base@, n) == -p);
                assert(abs(-p) == p);
                if p == 0 {
                    assert(0int % m == 0);
                }
            }
        }
        acc
    }

    pub fn is_zero(&self) -> (r: bool)
        ensures
            r == (self@ == 0),
    {
        let mut i: usize = 0;
        while i < self.bytes.len()
            invariant
                i <= self.bytes@.len(),
                forall|j: int| 0 <= j < i ==> self.bytes@[j] == 0,
            decreases self.bytes@.len() - i,
        {
            if self.bytes[i] != 0 {
                proof {
                    lemma_unsigned_le_zero(self.bytes@);
                    lemma_signed_le_negative(self.bytes@);
                }
                return false;
            }
            i += 1;
        }
        proof {
            lemma_unsigned_le_zero(self.bytes@);
        }
        true
    }

    pub fn is_negative(&self) -> (r: bool)
        ensures
            r == (self@ < 0),
    {
        proof {
            lemma_signed_le_negative(self.bytes@);
        }
        let n = self.bytes.len();
        n > 0 && self.bytes[n - 1] >= 128
    }

    pub fn is_odd(&self) -> (r: bool)
        ensures
            r == (self@ % 2 == 1),
    {
        if self.bytes.len() == 0 {
            false
        } else {
            proof {
                lemma_signed_le_parity(self.bytes@);
            }
            self.bytes[0] % 2 == 1
        }
    }
}

impl Clone for Num {
    fn clone(&self) -> (r: Num)
        ensures
            r@ == self@,
    {
        let bytes = self.bytes.clone();
        assert(bytes@ =~= self.bytes@);
        Num { bytes }
    }
}

} // verus!

verus! {

impl PartialEq for Num {
    fn eq(&self, other: &Num) -> (r: bool) {
        big_eq(self, other)
    }
}

impl vstd::std_specs::cmp::PartialEqSpecImpl for Num {
    open spec fn obeys_eq_spec() -> bool {
        true
    }

    open spec fn eq_spec(&self, other: &Num) -> bool {
        self@ == other@
    }
}

} // verus!
