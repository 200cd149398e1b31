//! Overload resolution by name mangling.
//!
//! The callee's symbol name is derived from a base name plus a type tag for
//! the first argument only: the surface language has no true multimethod
//! dispatch, so one tag keeps call-site resolution local.

use vstd::prelude::*;

use crate::value::ValueType;

verus! {

/// Relies on String::push_str: appends exactly the characters of `suffix`.
#[verifier::external_body]
pub(crate) fn append_str(s: &mut String, suffix: &str)
    ensures
        final(s)@ == old(s)@ + suffix@,
{
    s.push_str(suffix)
}

/// Relies on str::contains with a `&str` pattern: true exactly when `needle`
/// occurs as a contiguous substring of `hay`.
#[verifier::external_body]
pub(crate) fn contains_sub(hay: &str, needle: &str) -> (r: bool)
    ensures
        r == spec_contains(hay@, needle@),
{
    hay.contains(needle)
}

/// `needle` occurs contiguously somewhere inside `hay`.
pub open spec fn spec_contains(hay: Seq<char>, needle: Seq<char>) -> bool {
    exists|i: int|
        0 <= i && i + needle.len() <= hay.len() && #[trigger] hay.subrange(
            i,
            i + needle.len(),
        ) == needle
}

/// The suffix appended for the type of a call's first argument: every
/// integer-family type (including `Bool`) shares one tag, so integer
/// overloads collapse onto a single runtime entry.
pub open spec fn spec_mangle_suffix(at: ValueType) -> Seq<char> {
    match at {
        ValueType::Str => "__s__"@,
        ValueType::Bool => "__i__"@,
        ValueType::I8 => "__i__"@,
        ValueType::I16 => "__i__"@,
        ValueType::I32 => "__i__"@,
        ValueType::F32 => "__f__"@,
        _ => ""@,
    }
}

/// The mangled overload name: the base name with the type tag appended.
pub open spec fn spec_mangling(origin: Seq<char>, at: ValueType) -> Seq<char> {
    origin + spec_mangle_suffix(at)
}

/// Derive the overload-resolved symbol name from a base name and the type of
/// the first argument.  The result is a pure function of its arguments, so
/// mangling is deterministic: equal inputs give byte-equal names.
pub fn mangling(origin: &String, at: ValueType) -> (r: String)
    ensures
        r@ == spec_mangling(origin@, at),
{
    let mut r = origin.clone();
    let suffix: &str = match at {
        ValueType::Str => "__s__",
        ValueType::Bool => "__i__",
        ValueType::I8 => "__i__",
        ValueType::I16 => "__i__",
        ValueType::I32 => "__i__",
        ValueType::F32 => "__f__",
        ValueType::Void => "",
    };
    append_str(&mut r, suffix);
    r
}

} // verus!
