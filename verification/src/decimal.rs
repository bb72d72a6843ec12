//! Exact decimal numbers: an integer of any size beside a count of fraction digits.
//! The arithmetic is bigdecimal's; this module states what it computes. A decimal
//! crosses to bigdecimal as `BigDecimal::new` of `BigInt::from_signed_bytes_le` of its
//! digits, and comes back through `into_bigint_and_exponent` and `to_signed_bytes_le`,
//! which read and write two's complement as `signed_le` does.

use bigdecimal::num_bigint::BigInt;
use bigdecimal::BigDecimal;
use vstd::arithmetic::power::pow;
use vstd::prelude::*;

verus! {

/// The largest scale, in either direction, that a decimal may have and still enter a
/// sum: adding two decimals multiplies one of them by ten to the difference of their
/// scales, and bigdecimal panics where that difference overflows.
pub const MAX_SCALE: i64 = 100_000;

/// The number that little-endian bytes spell out in base 256.
pub open spec fn unsigned_le(bytes: Seq<u8>) -> nat
    decreases bytes.len(),
{
    if bytes.len() == 0 {
        0
    } else {
        bytes[0] as nat + 256 * unsigned_le(bytes.drop_first())
    }
}

/// The integer that little-endian bytes spell out in two's complement. No bytes at all
/// spell zero.
pub open spec fn signed_le(bytes: Seq<u8>) -> int {
    if bytes.len() > 0 && bytes.last() >= 128 {
        unsigned_le(bytes) - pow(256, bytes.len())
    } else {
        unsigned_le(bytes) as int
    }
}

/// What a decimal stands for: `unscaled / 10^scale`.
pub ghost struct DecimalValue {
    pub unscaled: int,
    pub scale: int,
}

impl DecimalValue {
    pub open spec fn zero() -> DecimalValue {
        DecimalValue { unscaled: 0, scale: 0 }
    }

    /// `self` written with `scale` fraction digits, which is exact where `scale` is no
    /// smaller than the scale of `self`.
    pub open spec fn rescaled(self, scale: int) -> int {
        self.unscaled * pow(10, (scale - self.scale) as nat)
    }

    /// The exact sum, written with the larger of the two scales.
    pub open spec fn plus(self, other: DecimalValue) -> DecimalValue {
        let scale = if self.scale >= other.scale {
            self.scale
        } else {
            other.scale
        };
        DecimalValue { unscaled: self.rescaled(scale) + other.rescaled(scale), scale }
    }
}

/// A decimal as a division left it: the unscaled integer in two's complement,
/// little-endian, and the count of fraction digits, which may be any.
#[derive(Clone, Debug, PartialEq, Eq)]
pub struct Quotient {
    pub digits: Vec<u8>,
    pub scale: i64,
}

impl View for Quotient {
    type V = DecimalValue;

    open spec fn view(&self) -> DecimalValue {
        DecimalValue { unscaled: signed_le(self.digits@), scale: self.scale as int }
    }
}

/// A decimal number that can enter a sum: its scale is within `MAX_SCALE` of zero. The
/// unscaled integer is kept in two's complement, little-endian.
#[derive(Debug, PartialEq, Eq)]
pub struct Decimal {
    digits: Vec<u8>,
    scale: i64,
}

impl View for Decimal {
    type V = DecimalValue;

    open spec fn view(&self) -> DecimalValue {
        DecimalValue { unscaled: signed_le(self.bytes()), scale: self.places() }
    }
}

impl Clone for Decimal {
    fn clone(&self) -> (copy: Decimal)
        ensures
            copy.bytes() == self.bytes(),
            copy.places() == self.places(),
    {
        proof {
            use_type_invariant(self);
        }
        Decimal { digits: self.digits.clone(), scale: self.scale }
    }
}

impl Decimal {
    #[verifier::type_invariant]
    spec fn scale_in_range(&self) -> bool {
        -MAX_SCALE <= self.scale <= MAX_SCALE
    }

    /// The bytes of the unscaled integer.
    pub closed spec fn bytes(&self) -> Seq<u8> {
        self.digits@
    }

    /// The count of fraction digits.
    pub closed spec fn places(&self) -> int {
        self.scale as int
    }

    /// The decimal with these digits and this scale, unless the scale is out of range.
    pub fn new(digits: Vec<u8>, scale: i64) -> (made: Option<Decimal>)
        ensures
            made is Some <==> -MAX_SCALE <= scale <= MAX_SCALE,
            made matches Some(decimal) ==> decimal.bytes() == digits@ && decimal.places()
                == scale,
    {
        if -MAX_SCALE <= scale && scale <= MAX_SCALE {
            Some(Decimal { digits, scale })
        } else {
            None
        }
    }

    /// The unscaled integer in two's complement, little-endian.
    pub fn digits(&self) -> (digits: &Vec<u8>)
        ensures
            digits@ == self.bytes(),
    {
        &self.digits
    }

    /// The count of fraction digits.
    pub fn scale(&self) -> (scale: i64)
        ensures
            scale == self.places(),
            -MAX_SCALE <= scale <= MAX_SCALE,
    {
        proof {
            use_type_invariant(self);
        }
        self.scale
    }
}

/// The quotient that bigdecimal's division gives for `numerator / denominator`, each an
/// unscaled integer beside its scale: the exact quotient where it has few digits, and
/// one rounded to the precision that bigdecimal was built with where it has not.
pub uninterp spec fn decimal_quotient(
    numerator: int,
    numerator_scale: int,
    denominator: int,
    denominator_scale: int,
) -> (int, int);

/// `BigDecimal::from` on a `u32`: the integer itself, with no fraction digits.
#[verifier::external_body]
pub(crate) fn decimal_from_u32(n: u32) -> (made: Decimal)
    ensures
        made@ == (DecimalValue { unscaled: n as int, scale: 0 }),
{
    let (digits, scale) = BigDecimal::from(n).into_bigint_and_exponent();
    Decimal { digits: digits.to_signed_bytes_le(), scale }
}

/// `BigDecimal`'s `+`: the sum is exact and has the larger of the two scales, which keeps
/// it in range; the operand with the smaller scale is multiplied by the power of ten
/// between them.
#[verifier::external_body]
pub(crate) fn decimal_add(a: &Decimal, b: &Decimal) -> (sum: Decimal)
    ensures
        sum@ == a@.plus(b@),
{
    let x = BigDecimal::new(BigInt::from_signed_bytes_le(&a.digits), a.scale);
    let y = BigDecimal::new(BigInt::from_signed_bytes_le(&b.digits), b.scale);
    let (digits, scale) = (x + y).into_bigint_and_exponent();
    Decimal { digits: digits.to_signed_bytes_le(), scale }
}

/// `BigDecimal`'s `/`, which panics on a zero divisor: the quotient is the one named
/// `decimal_quotient`.
#[verifier::external_body]
pub(crate) fn decimal_div(a: &Decimal, b: &Decimal) -> (quotient: Quotient)
    requires
        b@.unscaled != 0,
    ensures
        (quotient@.unscaled, quotient@.scale) == decimal_quotient(
            a@.unscaled,
            a@.scale,
            b@.unscaled,
            b@.scale,
        ),
{
    let x = BigDecimal::new(BigInt::from_signed_bytes_le(&a.digits), a.scale);
    let y = BigDecimal::new(BigInt::from_signed_bytes_le(&b.digits), b.scale);
    let (digits, scale) = (x / y).into_bigint_and_exponent();
    Quotient { digits: digits.to_signed_bytes_le(), scale }
}

} // verus!
