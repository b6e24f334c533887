//! What the library takes on trust from other crates and from the standard library.

use crate::expansion::{expands, expansion_view, look_up, Environment, Missing};
use vstd::prelude::*;
use vstd::utf8::{decode_utf8, valid_utf8};

verus! {

/// Declares `std::string::FromUtf8Error`, the error of `String::from_utf8`. It is carried, never
/// looked into.
#[verifier::external_type_specification]
#[verifier::external_body]
pub struct ExFromUtf8Error(std::string::FromUtf8Error);

/// `String::from_utf8` succeeds on exactly the byte vectors that are valid UTF-8, and then the
/// string holds the characters that the bytes encode.
pub assume_specification[ String::from_utf8 ](vec: Vec<u8>) -> (r: Result<
    String,
    std::string::FromUtf8Error,
>)
    ensures
        r is Ok <==> valid_utf8(vec@),
        r matches Ok(s) ==> s@ == decode_utf8(vec@),
;

/// `String::push` appends one character to the end of the string.
pub assume_specification[ String::push ](s: &mut String, ch: char)
    ensures
        final(s)@ == old(s)@.push(ch),
;

/// Calls `shellexpand::full_with_context`, which is `shellexpand::full` with the home directory and the
/// variables given by the caller. Claimed is that it puts the home directory in the place of a leading
/// `~`, and the values of variables, looked up in `environment`, in the place of `$NAME`, `${NAME}` and
/// `${NAME:-DEFAULT}`, and that it fails with the first variable that has neither a value nor a
/// default. Which characters outside ASCII it takes for part of a name, and whether it takes a
/// backslash after the tilde for a separator, which it does on Windows alone, is not stated.
#[verifier::external_body]
pub(crate) fn expand(path: &str, environment: &Environment) -> (r: Result<String, Missing>)
    ensures
        expands(path@, environment@, expansion_view(r)),
{
    match shellexpand::full_with_context(
        path,
        || environment.home.as_deref(),
        |name| look_up(environment, name),
    ) {
        Ok(expanded) => Ok(expanded.into_owned()),
        Err(e) => Err(Missing { name: e.var_name, cause: e.cause }),
    }
}

} // verus!
