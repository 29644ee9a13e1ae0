//! Point codes: decimal-first resolution keyed by the SS7 [`Variant`] of the
//! owning node or tenant.
//!
//! A configuration writes point codes as bare integers ([`RawPc`]). The variant
//! of the owner then resolves each into a typed [`PointCode`], so one tenant can
//! be ITU and another ANSI in the same file: the same integer names different
//! points under different variants.
use crate::text::{decimal, decimal_of};
use vstd::prelude::*;
use vstd::string::*;

verus! {

/// The SS7 variant, which fixes the width and layout of a point code.
#[derive(Clone, Copy, PartialEq, Eq, Structural, Debug, Hash)]
pub enum Variant {
    /// 14 bits, structured 3-8-3.
    Itu,
    /// 24 bits, structured 8-8-8.
    Ansi,
    /// 24 bits, structured 8-8-8.
    China,
}

/// The largest point code of a variant.
pub open spec fn largest(variant: Variant) -> u32 {
    if variant == Variant::Itu {
        0x3FFF
    } else {
        0xFF_FFFF
    }
}

/// The number of bits of a variant's point codes.
pub open spec fn width(variant: Variant) -> u8 {
    if variant == Variant::Itu {
        14
    } else {
        24
    }
}

/// The name of a variant as it appears in error text.
pub open spec fn variant_text(variant: Variant) -> Seq<char> {
    match variant {
        Variant::Itu => "Itu"@,
        Variant::Ansi => "Ansi"@,
        Variant::China => "China"@,
    }
}

impl Variant {
    /// The largest point code of this variant.
    pub fn max_value(self) -> (r: u32)
        ensures
            r == largest(self),
    {
        match self {
            Variant::Itu => 0x3FFF,
            _ => 0xFF_FFFF,
        }
    }

    /// The number of bits of a point code of this variant.
    pub fn bits(self) -> (r: u8)
        ensures
            r == width(self),
    {
        match self {
            Variant::Itu => 14,
            _ => 24,
        }
    }

    /// The variant's name.
    pub fn name(self) -> (r: &'static str)
        ensures
            r@ == variant_text(self),
    {
        match self {
            Variant::Itu => "Itu",
            Variant::Ansi => "Ansi",
            Variant::China => "China",
        }
    }
}

/// Why a point code was refused.
#[derive(Clone, Debug, PartialEq, Eq)]
pub enum PointCodeError {
    /// The text has neither one nor three components.
    Components(String, usize),
    /// A component is not a number.
    NotANumber(String),
    /// A component does not fit its field.
    ComponentTooLarge { value: u32, bits: u8, variant: Variant },
    /// The value does not fit the variant.
    OutOfRange { value: u32, bits: u8, variant: Variant },
}

/// What a [`PointCodeError`] holds.
pub enum PointCodeFault {
    Components(Seq<char>, usize),
    NotANumber(Seq<char>),
    ComponentTooLarge { value: u32, bits: u8, variant: Variant },
    OutOfRange { value: u32, bits: u8, variant: Variant },
}

impl PointCodeFault {
    /// The error text.
    pub open spec fn text(self) -> Seq<char> {
        match self {
            PointCodeFault::Components(s, n) => "point code '"@ + s + "' has "@ + decimal(n as nat)
                + " components, expected 1 (decimal) or 3 (a-b-c)"@,
            PointCodeFault::NotANumber(s) => "point code component '"@ + s + "' is not a number"@,
            PointCodeFault::ComponentTooLarge { value, bits, variant } => "point code component "@
                + decimal(value as nat) + " exceeds "@ + decimal(bits as nat) + "-bit field for "@
                + variant_text(variant),
            PointCodeFault::OutOfRange { value, bits, variant } => "point code "@ + decimal(
                value as nat,
            ) + " exceeds the "@ + decimal(bits as nat) + "-bit range for "@ + variant_text(variant),
        }
    }
}

impl View for PointCodeError {
    type V = PointCodeFault;

    open spec fn view(&self) -> PointCodeFault {
        match *self {
            PointCodeError::Components(s, n) => PointCodeFault::Components(s@, n),
            PointCodeError::NotANumber(s) => PointCodeFault::NotANumber(s@),
            PointCodeError::ComponentTooLarge {
                value,
                bits,
                variant,
            } => PointCodeFault::ComponentTooLarge { value, bits, variant },
            PointCodeError::OutOfRange { value, bits, variant } => PointCodeFault::OutOfRange {
                value,
                bits,
                variant,
            },
        }
    }
}

impl PointCodeError {
    /// The error text.
    pub fn to_string(&self) -> (r: String)
        ensures
            r@ == self@.text(),
    {
        match self {
            PointCodeError::Components(s, n) => "point code '".to_owned().concat(s.as_str()).concat(
                "' has ",
            ).concat(decimal_of(*n as u64).as_str()).concat(
                " components, expected 1 (decimal) or 3 (a-b-c)",
            ),
            PointCodeError::NotANumber(s) => "point code component '".to_owned().concat(
                s.as_str(),
            ).concat("' is not a number"),
            PointCodeError::ComponentTooLarge {
                value,
                bits,
                variant,
            } => "point code component ".to_owned().concat(
                decimal_of(*value as u64).as_str(),
            ).concat(" exceeds ").concat(decimal_of(*bits as u64).as_str()).concat(
                "-bit field for ",
            ).concat((*variant).name()),
            PointCodeError::OutOfRange { value, bits, variant } => "point code ".to_owned().concat(
                decimal_of(*value as u64).as_str(),
            ).concat(" exceeds the ").concat(decimal_of(*bits as u64).as_str()).concat(
                "-bit range for ",
            ).concat((*variant).name()),
        }
    }
}

/// A point code together with the variant it belongs to. Two point codes are
/// equal only when both agree.
#[derive(Clone, Copy, PartialEq, Eq, Structural, Debug, Hash)]
pub struct PointCode {
    pub value: u32,
    pub variant: Variant,
}

/// The outcome of resolving a decimal value under a variant.
pub open spec fn resolved(value: u32, variant: Variant) -> Result<PointCode, PointCodeFault> {
    if value <= largest(variant) {
        Ok(PointCode { value, variant })
    } else {
        Err(PointCodeFault::OutOfRange { value, bits: width(variant), variant })
    }
}

/// The widths in bits of the three fields of a variant's structured form.
pub open spec fn field_widths(variant: Variant) -> (u8, u8, u8) {
    if variant == Variant::Itu {
        (3, 8, 3)
    } else {
        (8, 8, 8)
    }
}

/// The outcome of assembling a point code from its three fields: the first
/// field too large for its width is the error.
pub open spec fn assembled(a: u32, b: u32, c: u32, variant: Variant) -> Result<
    PointCode,
    PointCodeFault,
> {
    let (wa, wb, wc) = field_widths(variant);
    if a >= vstd::arithmetic::power2::pow2(wa as nat) {
        Err(PointCodeFault::ComponentTooLarge { value: a, bits: wa, variant })
    } else if b >= vstd::arithmetic::power2::pow2(wb as nat) {
        Err(PointCodeFault::ComponentTooLarge { value: b, bits: wb, variant })
    } else if c >= vstd::arithmetic::power2::pow2(wc as nat) {
        Err(PointCodeFault::ComponentTooLarge { value: c, bits: wc, variant })
    } else {
        Ok(
            PointCode {
                value: ((a * vstd::arithmetic::power2::pow2(wb as nat) + b)
                    * vstd::arithmetic::power2::pow2(wc as nat) + c) as u32,
                variant,
            },
        )
    }
}

/// The outcome as plain values.
pub open spec fn outcome(r: Result<PointCode, PointCodeError>) -> Result<PointCode, PointCodeFault> {
    match r {
        Ok(p) => Ok(p),
        Err(e) => Err(e@),
    }
}

impl PointCode {
    /// The value fits the variant.
    pub open spec fn wf(self) -> bool {
        self.value <= largest(self.variant)
    }

    /// A point code from its value.
    pub fn from_value(value: u32, variant: Variant) -> (r: Result<PointCode, PointCodeError>)
        ensures
            outcome(r) == resolved(value, variant),
            r matches Ok(p) ==> p.wf(),
    {
        if value > variant.max_value() {
            return Err(PointCodeError::OutOfRange { value, bits: variant.bits(), variant });
        }
        Ok(PointCode { value, variant })
    }

    /// The value.
    pub fn value(self) -> (r: u32)
        ensures
            r == self.value,
    {
        self.value
    }

    /// The variant.
    pub fn variant(self) -> (r: Variant)
        ensures
            r == self.variant,
    {
        self.variant
    }
}

/// What `mtp3::PointCode::parse` makes of a text under a variant.
pub uninterp spec fn point_code_of_text(s: Seq<char>, variant: Variant) -> Result<
    PointCode,
    PointCodeFault,
>;

/// Calls `mtp3::PointCode::parse`. What it makes of an arbitrary text is left to
/// its name; of the two documented forms the contract says more. A plain decimal
/// number is that value under the variant. Three decimal numbers joined by
/// dashes are the three fields of the variant's structured form. A point code
/// that comes back has the variant asked for and fits it.
#[verifier::external_body]
fn parse_outside(s: &str, variant: Variant) -> (r: Result<PointCode, PointCodeError>)
    ensures
        outcome(r) == point_code_of_text(s@, variant),
        forall|n: u32| s@ == decimal(n as nat) ==> outcome(r) == #[trigger] resolved(n, variant),
        forall|a: u32, b: u32, c: u32|
            s@ == decimal(a as nat) + "-"@ + decimal(b as nat) + "-"@ + decimal(c as nat)
                ==> outcome(r) == #[trigger] assembled(a, b, c, variant),
        r matches Ok(p) ==> p.wf() && p.variant == variant,
{
    let wide = match variant {
        Variant::Itu => ::mtp3::Variant::Itu,
        Variant::Ansi => ::mtp3::Variant::Ansi,
        Variant::China => ::mtp3::Variant::China,
    };
    match ::mtp3::PointCode::parse(s, wide) {
        Ok(p) => Ok(PointCode { value: p.value(), variant }),
        Err(::mtp3::PointCodeError::Components(t, n)) => Err(PointCodeError::Components(t, n)),
        Err(::mtp3::PointCodeError::NotANumber(t)) => Err(PointCodeError::NotANumber(t)),
        Err(::mtp3::PointCodeError::ComponentTooLarge { value, bits, .. }) => Err(PointCodeError::ComponentTooLarge { value, bits, variant }),
        Err(::mtp3::PointCodeError::OutOfRange { value, bits, .. }) => Err(PointCodeError::OutOfRange { value, bits, variant }),
    }
}

/// A point code as a configuration writes it: a bare decimal integer, still
/// unresolved, because its width comes from the variant of its owner.
#[derive(Clone, Copy, PartialEq, Eq, Structural, Debug, Hash)]
pub struct RawPc(pub u32);

impl RawPc {
    /// Resolves the value under `variant`. It succeeds exactly when the value
    /// fits the variant's width.
    pub fn resolve(self, variant: Variant) -> (r: Result<PointCode, PointCodeError>)
        ensures
            outcome(r) == resolved(self.0, variant),
            r matches Ok(p) ==> p.wf(),
    {
        PointCode::from_value(self.0, variant)
    }
}

impl From<u32> for RawPc {
    fn from(v: u32) -> (r: RawPc)
    {
        RawPc(v)
    }
}

impl vstd::std_specs::convert::FromSpecImpl<u32> for RawPc {
    open spec fn obeys_from_spec() -> bool {
        true
    }

    open spec fn from_spec(v: u32) -> RawPc {
        RawPc(v)
    }
}

/// Resolves a decimal value under a variant.
pub fn resolve(value: u32, variant: Variant) -> (r: Result<PointCode, PointCodeError>)
    ensures
        outcome(r) == resolved(value, variant),
        r matches Ok(p) ==> p.wf(),
{
    PointCode::from_value(value, variant)
}

/// Parses a point code that may be decimal (`"1000"`) or structured (`"2-1-3"`).
/// The decimal form gives what [`resolve`] gives of the number, the structured
/// form the point code with those three fields.
pub fn parse(s: &str, variant: Variant) -> (r: Result<PointCode, PointCodeError>)
    ensures
        outcome(r) == point_code_of_text(s@, variant),
        forall|n: u32| s@ == decimal(n as nat) ==> outcome(r) == #[trigger] resolved(n, variant),
        forall|a: u32, b: u32, c: u32|
            s@ == decimal(a as nat) + "-"@ + decimal(b as nat) + "-"@ + decimal(c as nat)
                ==> outcome(r) == #[trigger] assembled(a, b, c, variant),
        r matches Ok(p) ==> p.wf() && p.variant == variant,
{
    parse_outside(s, variant)
}

/// One value resolved under two variants gives two different point codes: the
/// variant is part of a point code's identity.
pub proof fn law_variant_is_identity(value: u32, v: Variant, w: Variant)
    requires
        v != w,
        resolved(value, v) is Ok,
        resolved(value, w) is Ok,
    ensures
        resolved(value, v) != resolved(value, w),
{
}

} // verus!
