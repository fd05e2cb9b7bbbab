//! Case conversions of artifact names, done by the `heck` crate.
use vstd::prelude::*;
use heck::{ToKebabCase, ToLowerCamelCase, ToPascalCase, ToSnakeCase};
use crate::text::{is_ascii_letter, is_ascii_upper, is_ascii_lower};

verus! {

/// What `heck::ToPascalCase::to_pascal_case` returns for the given text.
pub uninterp spec fn pascal_case_of(s: Seq<char>) -> Seq<char>;

/// What `heck::ToLowerCamelCase::to_lower_camel_case` returns for the given text.
pub uninterp spec fn camel_case_of(s: Seq<char>) -> Seq<char>;

/// What `heck::ToSnakeCase::to_snake_case` returns for the given text.
pub uninterp spec fn snake_case_of(s: Seq<char>) -> Seq<char>;

/// What `heck::ToKebabCase::to_kebab_case` returns for the given text.
pub uninterp spec fn kebab_case_of(s: Seq<char>) -> Seq<char>;

/// Calls `heck`'s `to_pascal_case`. heck splits the text into words at every
/// character that is not alphanumeric and at case changes, and writes each
/// word with its first character upper-cased. When the text begins with an
/// ASCII letter the first word begins with that letter, so the result begins
/// with an ASCII capital; that is the one fact claimed beyond the name.
#[verifier::external_body]
pub(crate) fn to_pascal_case(s: &str) -> (res: String)
    ensures
        res@ == pascal_case_of(s@),
        s@.len() > 0 && is_ascii_letter(s@[0]) ==> res@.len() > 0 && is_ascii_upper(res@[0]),
{
    s.to_pascal_case()
}

/// Calls `heck`'s `to_lower_camel_case`. The first word is written in lower
/// case and the following ones capitalised, with no separator; when the text
/// begins with an ASCII letter the result begins with an ASCII lower-case
/// letter, the one fact claimed beyond the name.
#[verifier::external_body]
pub(crate) fn to_camel_case(s: &str) -> (res: String)
    ensures
        res@ == camel_case_of(s@),
        s@.len() > 0 && is_ascii_letter(s@[0]) ==> res@.len() > 0 && is_ascii_lower(res@[0]),
{
    s.to_lower_camel_case()
}

/// Calls `heck`'s `to_snake_case`: the lower-cased words joined by `_`. Words
/// hold only alphanumeric characters, so no `-` is ever written; that is the
/// one fact claimed beyond the name.
#[verifier::external_body]
pub(crate) fn to_snake_case(s: &str) -> (res: String)
    ensures
        res@ == snake_case_of(s@),
        !res@.contains('-'),
{
    s.to_snake_case()
}

/// Calls `heck`'s `to_kebab_case`: the lower-cased words joined by `-`. Words
/// hold only alphanumeric characters, so no `_` is ever written; that is the
/// one fact claimed beyond the name.
#[verifier::external_body]
pub(crate) fn to_kebab_case(s: &str) -> (res: String)
    ensures
        res@ == kebab_case_of(s@),
        !res@.contains('_'),
{
    s.to_kebab_case()
}

} // verus!
