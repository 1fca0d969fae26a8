//! Addresses of services as the URL parser prints them.
//!
//! The services hand each other their addresses as texts. A text that is
//! put together here goes through the parser of the `url` crate once, so
//! that it reads as an address that was configured reads.

use vstd::prelude::*;
use vstd::string::*;

use crate::utils::concat2;

verus! {

/// The text of `text` parsed as a URL and printed again, as
/// `url::Url::parse` and the `Display` of `Url` give it; nothing where the
/// parser refuses the text.
pub uninterp spec fn url_printed(text: Seq<char>) -> Option<Seq<char>>;

/// The text of `path` resolved against the URL `base` and printed, as
/// `url::Url::parse`, `Url::join` and the `Display` of `Url` give it;
/// nothing where the parser refuses one of the two.
pub uninterp spec fn url_joined(base: Seq<char>, path: Seq<char>) -> Option<Seq<char>>;

/// Parses `text` with `url::Url::parse` and prints the URL. The contract
/// claims only that the outcome is a function of `text`: what the parser
/// makes of a text is not stated.
#[verifier::external_body]
pub(crate) fn url_print(text: &str) -> (printed: Option<String>)
    ensures
        match printed {
            Some(url) => url_printed(text@) == Some(url@),
            None => url_printed(text@) is None,
        },
{
    url::Url::parse(text).ok().map(|url| url.to_string())
}

/// Parses `base` with `url::Url::parse`, resolves `path` against it with
/// `Url::join` and prints the URL. The contract claims only that the outcome
/// is a function of the two texts.
#[verifier::external_body]
pub(crate) fn url_join(base: &str, path: &str) -> (joined: Option<String>)
    ensures
        match joined {
            Some(url) => url_joined(base@, path@) == Some(url@),
            None => url_joined(base@, path@) is None,
        },
{
    url::Url::parse(base).ok()?.join(path).ok().map(|url| url.to_string())
}

/// The address that `text` gives: the text as the parser prints it, and the
/// text itself where the parser refuses it.
pub open spec fn spec_address(text: Seq<char>) -> Seq<char> {
    match url_printed(text) {
        Some(url) => url,
        None => text,
    }
}

/// The address of `path` under the address `base`: the two as the parser
/// joins them, and the one after the other where the parser refuses them.
pub open spec fn spec_address_under(base: Seq<char>, path: Seq<char>) -> Seq<char> {
    match url_joined(base, path) {
        Some(url) => url,
        None => base + path,
    }
}

/// What the parser made of a text, or `text` where it made nothing of it.
pub fn found_or(found: Option<String>, text: String) -> (out: String)
    ensures
        out@ == match found {
            Some(url) => url@,
            None => text@,
        },
{
    match found {
        Some(url) => url,
        None => text,
    }
}

/// The address that `text` gives.
pub fn address(text: &str) -> (out: String)
    ensures
        out@ == spec_address(text@),
{
    let printed = url_print(text);
    found_or(printed, String::from_str(text))
}

/// The address of `path` under the address `base`.
pub fn address_under(base: &str, path: &str) -> (out: String)
    ensures
        out@ == spec_address_under(base@, path@),
{
    let joined = url_join(base, path);
    found_or(joined, concat2(base, path))
}

} // verus!
