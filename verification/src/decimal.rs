//! Exact decimal numbers, held as a 96-bit mantissa and a power-of-ten
//! scale.  Arithmetic that rounds is done by `rust_decimal`.
use crate::text::nat_text;
use rust_decimal::Decimal;
use vstd::prelude::*;

verus! {

/// A decimal as the pair (mantissa, scale): its value is mantissa / 10^scale.
pub type DecModel = (int, nat);

pub open spec fn pow10(n: nat) -> int
    decreases n,
{
    if n == 0 {
        1
    } else {
        10 * pow10((n - 1) as nat)
    }
}

/// 2^96 - 1, the largest mantissa a decimal can hold.
pub open spec fn max_mantissa() -> int {
    79228162514264337593543950335
}

pub open spec fn max_scale() -> nat {
    28
}

pub open spec fn dec_valid(d: DecModel) -> bool {
    &&& -max_mantissa() <= d.0 <= max_mantissa()
    &&& d.1 <= max_scale()
}

/// Numeric order: the value of `a` is below the value of `b`.
pub open spec fn dec_lt(a: DecModel, b: DecModel) -> bool {
    a.0 * pow10(b.1) < b.0 * pow10(a.1)
}

/// Numeric equality of values (1.0 and 1.00 are equal).
pub open spec fn dec_same_value(a: DecModel, b: DecModel) -> bool {
    a.0 * pow10(b.1) == b.0 * pow10(a.1)
}

pub open spec fn dec_zero() -> DecModel {
    (0, 0)
}

pub open spec fn dec_max() -> DecModel {
    (max_mantissa(), 0)
}

/// The decimal's value is a whole number of `unit`s: value(d) == n * value(unit).
pub open spec fn dec_is_multiple_of(d: DecModel, unit: DecModel) -> bool {
    exists|n: int| #[trigger] (n * unit.0) * pow10(d.1) == d.0 * pow10(unit.1)
}

/// What `Decimal::from_str` gives for a text: the parsed decimal, or the
/// text of the error it reports.
pub uninterp spec fn decimal_parse(text: Seq<char>) -> Result<DecModel, Seq<char>>;

/// What `Decimal::checked_div` gives (`None` on division by zero or overflow).
pub uninterp spec fn decimal_checked_div(a: DecModel, b: DecModel) -> Option<DecModel>;

/// What `Decimal::checked_mul` gives (`None` on overflow).
pub uninterp spec fn decimal_checked_mul(a: DecModel, b: DecModel) -> Option<DecModel>;

/// What `Decimal::checked_add` gives (`None` on overflow).
pub uninterp spec fn decimal_checked_add(a: DecModel, b: DecModel) -> Option<DecModel>;

/// What `Decimal::checked_sub` gives (`None` on overflow).
pub uninterp spec fn decimal_checked_sub(a: DecModel, b: DecModel) -> Option<DecModel>;

/// The digits of the mantissa's magnitude (none for zero), padded on the
/// left with zeros to at least as many digits as the scale.
pub open spec fn decimal_digits(a: DecModel) -> Seq<char> {
    let m: nat = if a.0 < 0 {
        (-a.0) as nat
    } else {
        a.0 as nat
    };
    let raw = if m == 0 {
        Seq::<char>::empty()
    } else {
        nat_text(m)
    };
    if raw.len() < a.1 {
        Seq::new((a.1 - raw.len()) as nat, |i: int| '0') + raw
    } else {
        raw
    }
}

/// The text that `Decimal`'s `Display` writes: a minus sign for a negative
/// value, the digits with the point placed `scale` digits from the right
/// (a lone `0` before the point when no digit is left there), and `0` for
/// zero at scale 0.
pub open spec fn decimal_text(a: DecModel) -> Seq<char> {
    let d = decimal_digits(a);
    let whole = d.len() - a.1;
    let sign = if a.0 < 0 {
        seq!['-']
    } else {
        Seq::<char>::empty()
    };
    if a.1 == 0 {
        if d.len() == 0 {
            seq!['0']
        } else {
            sign + d
        }
    } else {
        sign + (if whole == 0 {
            seq!['0']
        } else {
            d.subrange(0, whole)
        }) + seq!['.'] + d.subrange(whole, d.len() as int)
    }
}

/// The exact product when it needs no rounding.
pub open spec fn exact_product(a: DecModel, b: DecModel) -> DecModel {
    if a.0 * b.0 == 0 {
        (0, 0)
    } else {
        (a.0 * b.0, a.1 + b.1)
    }
}

pub open spec fn product_is_exact(a: DecModel, b: DecModel) -> bool {
    &&& a.1 + b.1 <= max_scale()
    &&& -max_mantissa() <= a.0 * b.0 <= max_mantissa()
}

/// The largest whole number not above the value (Verus `/` on a positive
/// divisor rounds toward minus infinity).
pub open spec fn floor_model(a: DecModel) -> DecModel {
    (a.0 / pow10(a.1), 0)
}

/// A decimal number with at most 28 digits after the point and a mantissa
/// of at most 96 bits, as `rust_decimal::Decimal` holds it.
#[derive(Clone, Copy, Debug)]
pub struct Dec {
    mantissa: i128,
    scale: u32,
}

impl View for Dec {
    type V = DecModel;

    closed spec fn view(&self) -> DecModel {
        (self.mantissa as int, self.scale as nat)
    }
}

impl Dec {
    #[verifier::type_invariant]
    spec fn inv(self) -> bool {
        dec_valid(self@)
    }

    pub fn zero() -> (r: Dec)
        ensures
            r@ == dec_zero(),
    {
        Dec { mantissa: 0, scale: 0 }
    }

    /// `Decimal::MAX`.
    pub fn max_value() -> (r: Dec)
        ensures
            r@ == dec_max(),
    {
        Dec { mantissa: 79228162514264337593543950335, scale: 0 }
    }

    /// The decimal mantissa / 10^scale, when it can be held.
    pub fn from_parts(mantissa: i128, scale: u32) -> (r: Option<Dec>)
        ensures
            r is Some <==> dec_valid((mantissa as int, scale as nat)),
            r matches Some(d) ==> d@ == (mantissa as int, scale as nat),
    {
        if -79228162514264337593543950335 <= mantissa && mantissa <= 79228162514264337593543950335
            && scale <= 28 {
            Some(Dec { mantissa, scale })
        } else {
            None
        }
    }

    pub fn mantissa(&self) -> (r: i128)
        ensures
            r == self@.0,
    {
        self.mantissa
    }

    pub fn scale(&self) -> (r: u32)
        ensures
            r == self@.1,
    {
        self.scale
    }

    pub fn is_zero(&self) -> (r: bool)
        ensures
            r == dec_same_value(self@, dec_zero()),
    {
        proof {
            lemma_compare_zero(self@);
        }
        self.mantissa == 0
    }

    /// The value is above zero.
    pub fn is_positive(&self) -> (r: bool)
        ensures
            r == dec_lt(dec_zero(), self@),
    {
        proof {
            lemma_compare_zero(self@);
        }
        self.mantissa > 0
    }

    /// The value is below zero.
    pub fn is_negative(&self) -> (r: bool)
        ensures
            r == dec_lt(self@, dec_zero()),
    {
        proof {
            lemma_compare_zero(self@);
        }
        self.mantissa < 0
    }

    /// `Decimal::from_str`.
    pub fn parse(text: &str) -> (r: Result<Dec, String>)
        ensures
            match decimal_parse(text@) {
                Ok(v) => r matches Ok(d) && d@ == v,
                Err(e) => r matches Err(m) && m@ == e,
            },
    {
        let r = decimal_from_str(text);
        match r {
            Ok(d) => {
                proof {
                    use_type_invariant(d);
                }
                Ok(d)
            },
            Err(e) => Err(e),
        }
    }

    /// The value is below the other's (`<` on `Decimal`).
    pub fn lt(&self, other: &Dec) -> (r: bool)
        ensures
            r == dec_lt(self@, other@),
    {
        proof {
            use_type_invariant(self);
            use_type_invariant(other);
        }
        decimal_less(self, other)
    }

    /// `Decimal::checked_div`.
    pub fn checked_div(&self, other: &Dec) -> (r: Option<Dec>)
        ensures
            r matches Some(d) ==> Some(d@) == decimal_checked_div(self@, other@),
            r is None ==> decimal_checked_div(self@, other@) is None,
    {
        proof {
            use_type_invariant(self);
            use_type_invariant(other);
        }
        decimal_div(self, other)
    }

    /// `Decimal::checked_mul`.
    pub fn checked_mul(&self, other: &Dec) -> (r: Option<Dec>)
        ensures
            r matches Some(d) ==> Some(d@) == decimal_checked_mul(self@, other@),
            r is None ==> decimal_checked_mul(self@, other@) is None,
            product_is_exact(self@, other@) ==> r is Some && r.unwrap()@ == exact_product(self@, other@),
    {
        proof {
            use_type_invariant(self);
            use_type_invariant(other);
        }
        decimal_mul(self, other)
    }

    /// `Decimal::checked_add`.
    pub fn checked_add(&self, other: &Dec) -> (r: Option<Dec>)
        ensures
            r matches Some(d) ==> Some(d@) == decimal_checked_add(self@, other@),
            r is None ==> decimal_checked_add(self@, other@) is None,
    {
        proof {
            use_type_invariant(self);
            use_type_invariant(other);
        }
        decimal_add(self, other)
    }

    /// `Decimal::checked_sub`.
    pub fn checked_sub(&self, other: &Dec) -> (r: Option<Dec>)
        ensures
            r matches Some(d) ==> Some(d@) == decimal_checked_sub(self@, other@),
            r is None ==> decimal_checked_sub(self@, other@) is None,
    {
        proof {
            use_type_invariant(self);
            use_type_invariant(other);
        }
        decimal_sub(self, other)
    }

    /// `Decimal::floor`.
    pub fn floor(&self) -> (r: Dec)
        ensures
            r@ == floor_model(self@),
    {
        proof {
            use_type_invariant(self);
        }
        decimal_floor(self)
    }

    /// The text `Decimal` displays.
    pub fn to_text(&self) -> (r: String)
        ensures
            r@ == decimal_text(self@),
    {
        proof {
            use_type_invariant(self);
        }
        decimal_display(self)
    }
}

pub proof fn lemma_compare_zero(a: DecModel)
    ensures
        dec_same_value(a, dec_zero()) <==> a.0 == 0,
        dec_lt(dec_zero(), a) <==> a.0 > 0,
        dec_lt(a, dec_zero()) <==> a.0 < 0,
{
    assert(pow10(0) == 1);
}

/// `Decimal::from_str`; the error is kept as the text its `Display` writes.
/// A decimal it returns holds a mantissa of at most 96 bits and a scale of at
/// most 28, as every `Decimal` does.
#[verifier::external_body]
fn decimal_from_str(text: &str) -> (r: Result<Dec, String>)
    ensures
        match decimal_parse(text@) {
            Ok(v) => r matches Ok(d) && d@ == v,
            Err(e) => r matches Err(m) && m@ == e,
        },
        r matches Ok(d) ==> dec_valid(d@),
{
    match <Decimal as std::str::FromStr>::from_str(text) {
        Ok(d) => Ok(Dec { mantissa: d.mantissa(), scale: d.scale() }),
        Err(e) => Err(e.to_string()),
    }
}

/// `<` on `Decimal`, which compares the numbers' values.
#[verifier::external_body]
fn decimal_less(a: &Dec, b: &Dec) -> (r: bool)
    requires
        dec_valid(a@),
        dec_valid(b@),
    ensures
        r == dec_lt(a@, b@),
{
    Decimal::from_i128_with_scale(a.mantissa, a.scale) < Decimal::from_i128_with_scale(
        b.mantissa,
        b.scale,
    )
}

/// `Decimal::checked_div`: `None` on a zero divisor or an overflow.
#[verifier::external_body]
fn decimal_div(a: &Dec, b: &Dec) -> (r: Option<Dec>)
    requires
        dec_valid(a@),
        dec_valid(b@),
    ensures
        r matches Some(d) ==> Some(d@) == decimal_checked_div(a@, b@) && dec_valid(d@),
        r is None ==> decimal_checked_div(a@, b@) is None,
{
    Decimal::from_i128_with_scale(a.mantissa, a.scale).checked_div(
        Decimal::from_i128_with_scale(b.mantissa, b.scale),
    ).map(|d| Dec { mantissa: d.mantissa(), scale: d.scale() })
}

/// `Decimal::checked_mul`.  When the product of the mantissas fits in 96
/// bits and the scales add up to at most 28 the product is exact: the
/// mantissas' product over the scales' sum, and zero (scale 0) when an
/// operand is zero.
#[verifier::external_body]
fn decimal_mul(a: &Dec, b: &Dec) -> (r: Option<Dec>)
    requires
        dec_valid(a@),
        dec_valid(b@),
    ensures
        r matches Some(d) ==> Some(d@) == decimal_checked_mul(a@, b@) && dec_valid(d@),
        r is None ==> decimal_checked_mul(a@, b@) is None,
        product_is_exact(a@, b@) ==> r is Some && r.unwrap()@ == exact_product(a@, b@),
{
    Decimal::from_i128_with_scale(a.mantissa, a.scale).checked_mul(
        Decimal::from_i128_with_scale(b.mantissa, b.scale),
    ).map(|d| Dec { mantissa: d.mantissa(), scale: d.scale() })
}

/// `Decimal::checked_add`.
#[verifier::external_body]
fn decimal_add(a: &Dec, b: &Dec) -> (r: Option<Dec>)
    requires
        dec_valid(a@),
        dec_valid(b@),
    ensures
        r matches Some(d) ==> Some(d@) == decimal_checked_add(a@, b@) && dec_valid(d@),
        r is None ==> decimal_checked_add(a@, b@) is None,
{
    Decimal::from_i128_with_scale(a.mantissa, a.scale).checked_add(
        Decimal::from_i128_with_scale(b.mantissa, b.scale),
    ).map(|d| Dec { mantissa: d.mantissa(), scale: d.scale() })
}

/// `Decimal::checked_sub`.
#[verifier::external_body]
fn decimal_sub(a: &Dec, b: &Dec) -> (r: Option<Dec>)
    requires
        dec_valid(a@),
        dec_valid(b@),
    ensures
        r matches Some(d) ==> Some(d@) == decimal_checked_sub(a@, b@) && dec_valid(d@),
        r is None ==> decimal_checked_sub(a@, b@) is None,
{
    Decimal::from_i128_with_scale(a.mantissa, a.scale).checked_sub(
        Decimal::from_i128_with_scale(b.mantissa, b.scale),
    ).map(|d| Dec { mantissa: d.mantissa(), scale: d.scale() })
}

/// `Decimal::floor`: the largest whole number not above the value, at scale 0.
#[verifier::external_body]
fn decimal_floor(a: &Dec) -> (r: Dec)
    requires
        dec_valid(a@),
    ensures
        r@ == floor_model(a@),
        dec_valid(r@),
{
    let d = Decimal::from_i128_with_scale(a.mantissa, a.scale).floor();
    Dec { mantissa: d.mantissa(), scale: d.scale() }
}

/// `Decimal`'s `Display`.
#[verifier::external_body]
fn decimal_display(a: &Dec) -> (r: String)
    requires
        dec_valid(a@),
    ensures
        r@ == decimal_text(a@),
{
    Decimal::from_i128_with_scale(a.mantissa, a.scale).to_string()
}

} // verus!
