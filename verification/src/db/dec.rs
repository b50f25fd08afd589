//! A plain representation of the arbitrary-precision decimals a field can
//! hold: a sign, a 96-bit mantissa and a scale, mirroring what the
//! `rust_decimal` crate stores. Rendering to text and parsing from text are
//! the only operations the store needs; both go through `rust_decimal`.

use vstd::prelude::*;

verus! {

/// The largest mantissa a decimal may carry: it must fit in 96 bits.
pub const DEC_MAX_MANTISSA: u128 = 0xFFFF_FFFF_FFFF_FFFF_FFFF_FFFF;

/// The largest scale (count of fractional digits) a decimal may carry.
pub const DEC_MAX_SCALE: u32 = 28;

/// Spec-level image of a [`Dec`].
pub struct DecV {
    pub neg: bool,
    pub mantissa: u128,
    pub scale: u32,
}

impl DecV {
    /// A well-formed decimal: the mantissa fits in 96 bits, the scale is at
    /// most 28, and zero is never negative, so that each numeric value has
    /// one representation per scale.
    pub open spec fn wf(self) -> bool {
        &&& self.mantissa <= DEC_MAX_MANTISSA
        &&& self.scale <= DEC_MAX_SCALE
        &&& (self.neg ==> self.mantissa > 0)
    }
}

/// A signed fixed-point decimal: `(-1)^neg * mantissa * 10^(-scale)`.
#[derive(Debug, Clone, Copy, PartialEq, Eq, Structural)]
pub struct Dec {
    neg: bool,
    mantissa: u128,
    scale: u32,
}

impl View for Dec {
    type V = DecV;

    closed spec fn view(&self) -> DecV {
        DecV { neg: self.neg, mantissa: self.mantissa, scale: self.scale }
    }
}

impl Dec {
    #[verifier::type_invariant]
    pub open spec fn inv(self) -> bool {
        self@.wf()
    }

    /// Builds a decimal from its parts; rejects parts no decimal can carry.
    pub fn new(neg: bool, mantissa: u128, scale: u32) -> (r: Option<Dec>)
        ensures
            r matches Some(d) ==> d@ == (DecV { neg, mantissa, scale }),
            r is Some <==> (DecV { neg, mantissa, scale }).wf(),
    {
        if mantissa <= DEC_MAX_MANTISSA && scale <= DEC_MAX_SCALE && (!neg || mantissa > 0) {
            Some(Dec { neg, mantissa, scale })
        } else {
            None
        }
    }

    /// True when the decimal is below zero.
    pub fn is_negative(&self) -> (r: bool)
        ensures
            r == self@.neg,
    {
        self.neg
    }

    /// The 96-bit magnitude of the decimal.
    pub fn mantissa(&self) -> (r: u128)
        ensures
            r == self@.mantissa,
    {
        self.mantissa
    }

    /// The count of fractional digits.
    pub fn scale(&self) -> (r: u32)
        ensures
            r == self@.scale,
    {
        self.scale
    }

    /// The canonical text of the decimal, as it is stored on disk.
    pub fn to_text(&self) -> (r: String)
        ensures
            r@ == decimal_text(self@.neg, self@.mantissa, self@.scale),
            dec_of_text(r@) == Some((self@.neg, self@.mantissa, self@.scale)),
            forall|i: int| 0 <= i < r@.len() ==> r@[i] != '"',
    {
        proof {
            use_type_invariant(self);
        }
        decimal_to_string(self.neg, self.mantissa, self.scale)
    }

    /// Parses the canonical decimal text back into a decimal. Returns `None`
    /// both when `rust_decimal` rejects the text and when what it accepts
    /// lies outside the parts a [`Dec`] may carry.
    pub fn from_text(s: &str) -> (r: Option<Dec>)
        ensures
            match dec_of_text(s@) {
                Some((neg, mantissa, scale)) => {
                    let v = DecV { neg, mantissa, scale };
                    if v.wf() {
                        r matches Some(d) && d@ == v
                    } else {
                        r is None
                    }
                },
                None => r is None,
            },
    {
        match parse_decimal(s) {
            Some((neg, mantissa, scale)) => Dec::new(neg, mantissa, scale),
            None => None,
        }
    }
}

/// Two decimals are equal exactly when their spec-level images are.
pub proof fn lemma_dec_eq_view(a: Dec, b: Dec)
    ensures
        (a == b) <==> (a@ == b@),
{
}

/// The text `rust_decimal` renders for the decimal with the given parts.
pub uninterp spec fn decimal_text(neg: bool, mantissa: u128, scale: u32) -> Seq<char>;

/// The decimal parts (sign, mantissa, scale) that `rust_decimal` reads from
/// the given text, or `None` where it rejects the text.
pub uninterp spec fn dec_of_text(s: Seq<char>) -> Option<(bool, u128, u32)>;

/// Relies on `rust_decimal::Decimal`: `from_i128_with_scale` builds the
/// decimal with exactly the given signed mantissa and scale (it panics only
/// above 96 mantissa bits or scale 28, which the precondition rules out), and
/// its `Display` renders sign, digits and at most one decimal point -- so no
/// quote character -- keeping every digit of the mantissa, so that
/// `Decimal::from_str` reads the same parts back.
#[verifier::external_body]
fn decimal_to_string(neg: bool, mantissa: u128, scale: u32) -> (r: String)
    requires
        (DecV { neg, mantissa, scale }).wf(),
    ensures
        r@ == decimal_text(neg, mantissa, scale),
        dec_of_text(r@) == Some((neg, mantissa, scale)),
        forall|i: int| 0 <= i < r@.len() ==> r@[i] != '"',
{
    let signed: i128 = if neg { -(mantissa as i128) } else { mantissa as i128 };
    rust_decimal::Decimal::from_i128_with_scale(signed, scale).to_string()
}

/// Relies on `rust_decimal::Decimal::from_str`, which depends on the text
/// alone, together with `mantissa` (signed 96-bit value) and `scale`.
#[verifier::external_body]
fn parse_decimal(s: &str) -> (r: Option<(bool, u128, u32)>)
    ensures
        r == dec_of_text(s@),
{
    match <rust_decimal::Decimal as core::str::FromStr>::from_str(s) {
        Ok(d) => {
            let m: i128 = d.mantissa();
            Some((m < 0, m.unsigned_abs(), d.scale()))
        },
        Err(_) => None,
    }
}

/// The `rust_decimal::Decimal` type itself, carried opaquely where a caller
/// hands one in.
#[verifier::external_type_specification]
#[verifier::external_body]
pub struct ExDecimal(rust_decimal::Decimal);

/// Relies on `rust_decimal::Decimal::mantissa` and `scale`: the mantissa is a
/// signed 96-bit value and the scale is at most 28. The sign is taken from
/// the signed mantissa, so a negative result always has a nonzero magnitude.
#[verifier::external_body]
pub(crate) fn decompose_decimal(d: &rust_decimal::Decimal) -> (r: (bool, u128, u32))
    ensures
        r.1 <= DEC_MAX_MANTISSA,
        r.2 <= DEC_MAX_SCALE,
        r.0 ==> r.1 > 0,
{
    let m: i128 = d.mantissa();
    (m < 0, m.unsigned_abs(), d.scale())
}

} // verus!
