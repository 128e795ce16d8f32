//! Fallible conversion from a borrowed raw token, and its mirror trait.
//!
//! These traits are the extension point through which new operand, variable
//! and evaluator types are taught how to read themselves out of a raw token.

use vstd::prelude::*;
use crate::text::{spec_parse_int, spec_int_text, parse_int_in_range, int_text, ParseNumErr, Render};

verus! {

/// Attempt to construct `Self` via a conversion from a reference.
///
/// The conversion is pure: `spec_try_from_ref` is its mathematical content
/// and `try_from_ref` must agree with it.
pub trait TryFromRef<T>: Sized {
    /// The type returned in the event of a conversion error.
    type Err;

    /// What the conversion yields on `t`.
    spec fn spec_try_from_ref(t: T) -> Result<Self, Self::Err>;

    /// Performs the conversion.
    fn try_from_ref(t: &T) -> (r: Result<Self, Self::Err>)
        ensures
            r == Self::spec_try_from_ref(*t),
    ;
}

/// An attempted conversion that does not consume `self`.
///
/// Library authors should not implement this trait directly, but should
/// prefer implementing [`TryFromRef`], which provides an equivalent
/// `TryIntoRef` implementation for free through a blanket implementation.
pub trait TryIntoRef<U>: Sized {
    /// The type returned in the event of a conversion error.
    type Err;

    /// What the conversion yields on `self`.
    spec fn spec_try_into_ref(self) -> Result<U, Self::Err>;

    /// Performs the conversion.
    fn try_into_ref(&self) -> (r: Result<U, Self::Err>)
        ensures
            r == Self::spec_try_into_ref(*self),
    ;
}

impl<T, U: TryFromRef<T>> TryIntoRef<U> for T {
    type Err = U::Err;

    open spec fn spec_try_into_ref(self) -> Result<U, U::Err> {
        U::spec_try_from_ref(self)
    }

    fn try_into_ref(&self) -> (r: Result<U, U::Err>) {
        U::try_from_ref(self)
    }
}

impl<'a> TryFromRef<&'a str> for i8 {
    type Err = ParseNumErr;

    open spec fn spec_try_from_ref(t: &'a str) -> Result<i8, ParseNumErr> {
        match spec_parse_int(t@, i8::MIN as int, i8::MAX as int) {
            Ok(v) => Ok(v as i8),
            Err(e) => Err(e),
        }
    }

    fn try_from_ref(t: &&'a str) -> (r: Result<i8, ParseNumErr>) {
        match parse_int_in_range(*t, i8::MIN as i64, i8::MAX as i64) {
            Ok(v) => Ok(v as i8),
            Err(e) => Err(e),
        }
    }
}

impl<'a> TryFromRef<&'a str> for i32 {
    type Err = ParseNumErr;

    open spec fn spec_try_from_ref(t: &'a str) -> Result<i32, ParseNumErr> {
        match spec_parse_int(t@, i32::MIN as int, i32::MAX as int) {
            Ok(v) => Ok(v as i32),
            Err(e) => Err(e),
        }
    }

    fn try_from_ref(t: &&'a str) -> (r: Result<i32, ParseNumErr>) {
        match parse_int_in_range(*t, i32::MIN as i64, i32::MAX as i64) {
            Ok(v) => Ok(v as i32),
            Err(e) => Err(e),
        }
    }
}

impl<'a> TryFromRef<&'a str> for i64 {
    type Err = ParseNumErr;

    open spec fn spec_try_from_ref(t: &'a str) -> Result<i64, ParseNumErr> {
        match spec_parse_int(t@, i64::MIN as int, i64::MAX as int) {
            Ok(v) => Ok(v as i64),
            Err(e) => Err(e),
        }
    }

    fn try_from_ref(t: &&'a str) -> (r: Result<i64, ParseNumErr>) {
        parse_int_in_range(*t, i64::MIN, i64::MAX)
    }
}

impl Render for i8 {
    open spec fn spec_text(&self) -> Seq<char> {
        spec_int_text(*self as int)
    }

    fn render(&self) -> (s: String) {
        int_text(*self as i64)
    }
}

impl Render for i32 {
    open spec fn spec_text(&self) -> Seq<char> {
        spec_int_text(*self as int)
    }

    fn render(&self) -> (s: String) {
        int_text(*self as i64)
    }
}

impl Render for i64 {
    open spec fn spec_text(&self) -> Seq<char> {
        spec_int_text(*self as int)
    }

    fn render(&self) -> (s: String) {
        int_text(*self)
    }
}

} // verus!

verus! {

/// Round trip: the canonical text of an 8-bit operand reads back as that
/// operand.
pub proof fn lemma_i8_round_trip<'a>(t: &'a str, v: i8)
    requires
        t@ == v.spec_text(),
    ensures
        <i8 as TryFromRef<&'a str>>::spec_try_from_ref(t) == Ok::<i8, ParseNumErr>(v),
{
    crate::text::lemma_int_text_round_trip(v as int, i8::MIN as int, i8::MAX as int);
}

/// Round trip: the canonical text of a 32-bit operand reads back as that
/// operand.
pub proof fn lemma_i32_round_trip<'a>(t: &'a str, v: i32)
    requires
        t@ == v.spec_text(),
    ensures
        <i32 as TryFromRef<&'a str>>::spec_try_from_ref(t) == Ok::<i32, ParseNumErr>(v),
{
    crate::text::lemma_int_text_round_trip(v as int, i32::MIN as int, i32::MAX as int);
}

/// Round trip: the canonical text of a 64-bit operand reads back as that
/// operand.
pub proof fn lemma_i64_round_trip<'a>(t: &'a str, v: i64)
    requires
        t@ == v.spec_text(),
    ensures
        <i64 as TryFromRef<&'a str>>::spec_try_from_ref(t) == Ok::<i64, ParseNumErr>(v),
{
    crate::text::lemma_int_text_round_trip(v as int, i64::MIN as int, i64::MAX as int);
}

} // verus!
