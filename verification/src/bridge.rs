//! Trusted bridges to outside libraries.
//!
//! Each function here wraps exactly one call into an outside crate (or into
//! a part of the standard library that carries no specification) and states
//! what that call returns. Results that are functions of the arguments alone
//! but have no short description — a Unicode name table, a math-class
//! table — are given opaque names; everything downstream of these bridges
//! is verified against those names.

use vstd::prelude::*;

use unicode_math_class::MathClass as UnicodeMathClass;

verus! {

/// Classification of a character for math layout, as plain values.
#[derive(Clone, Copy, Debug, PartialEq, Eq, Structural)]
pub enum MathClass {
    Normal,
    Alphabetic,
    Binary,
    Closing,
    Diacritic,
    Fence,
    GlyphPart,
    Large,
    Opening,
    Punctuation,
    Relation,
    Space,
    Unary,
    Vary,
    Special,
}

/// The math class the compiler's tables assign to a character, if any.
pub uninterp spec fn math_class_of(c: char) -> Option<MathClass>;

/// Relies on typst::utils::default_math_class: the class of a character is
/// read from a fixed Unicode table with fixed overrides, so it depends on
/// the character alone.
#[verifier::external_body]
pub(crate) fn lookup_math_class(c: char) -> (r: Option<MathClass>)
    ensures
        r == math_class_of(c),
{
    typst::utils::default_math_class(c).map(|m| match m {
        UnicodeMathClass::Normal => MathClass::Normal, UnicodeMathClass::Alphabetic => MathClass::Alphabetic,
        UnicodeMathClass::Binary => MathClass::Binary, UnicodeMathClass::Closing => MathClass::Closing,
        UnicodeMathClass::Diacritic => MathClass::Diacritic, UnicodeMathClass::Fence => MathClass::Fence,
        UnicodeMathClass::GlyphPart => MathClass::GlyphPart, UnicodeMathClass::Large => MathClass::Large,
        UnicodeMathClass::Opening => MathClass::Opening, UnicodeMathClass::Punctuation => MathClass::Punctuation,
        UnicodeMathClass::Relation => MathClass::Relation, UnicodeMathClass::Space => MathClass::Space,
        UnicodeMathClass::Unary => MathClass::Unary, UnicodeMathClass::Vary => MathClass::Vary,
        UnicodeMathClass::Special => MathClass::Special,
    })
}

/// The Unicode name of a character, if the name table has one.
pub uninterp spec fn unicode_name_of(c: char) -> Option<Seq<char>>;

/// Relies on unicode_names2::name: the name is read from a static table, so
/// it depends on the character alone.
#[verifier::external_body]
pub(crate) fn unicode_char_name(c: char) -> (r: Option<String>)
    ensures
        (r is Some) == (unicode_name_of(c) is Some),
        r matches Some(s) ==> unicode_name_of(c) matches Some(t) && s@ == t,
{
    unicode_names2::name(c).map(|n| n.to_string())
}

/// Relies on char::from_u32, as its documentation states it: every code
/// point is a char except the surrogate halves and values past the maximum.
pub assume_specification[ char::from_u32 ](v: u32) -> (r: Option<char>)
    ensures
        (r is Some) == (v < 0xD800 || (0xE000 <= v && v <= 0x10FFFF)),
        r matches Some(c) ==> c as u32 == v,
;

/// Relies on char's Display, via ToString: the string of one character.
#[verifier::external_body]
pub(crate) fn char_to_string(c: char) -> (r: String)
    ensures
        r@ == seq![c],
{
    c.to_string()
}

} // verus!
