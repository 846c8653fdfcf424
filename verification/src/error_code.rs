//! Error codes: every user-facing error message carries an `[E-xxxx]`
//! prefix. Groups: 1000 import, 2000 parse, 3000 translate, 4000 digest,
//! 9000 system.
use vstd::prelude::*;
use crate::text::{chars_of, eq_v};

verus! {

/// The file is not a PDF, or it is damaged.
pub const IMPORT_INVALID: &'static str = "E-1001";
/// The file was imported before.
pub const IMPORT_DUP: &'static str = "E-1002";
/// The file could not be read or copied.
pub const IMPORT_IO: &'static str = "E-1003";
/// Parsing failed.
pub const PARSE_FAILED: &'static str = "E-2001";
/// Translation failed (general).
pub const TRANSLATE_FAILED: &'static str = "E-3001";
/// The network is unreachable or timed out.
pub const TRANSLATE_NETWORK: &'static str = "E-3014";
/// Wrong configuration (base URL, model name).
pub const TRANSLATE_CONFIG: &'static str = "E-3015";
/// The model answered abnormally (authentication, rate limit, format).
pub const TRANSLATE_LLM: &'static str = "E-3016";
/// The digest failed.
pub const DIGEST_FAILED: &'static str = "E-4001";
/// A resource does not exist.
pub const NOT_FOUND_ERR: &'static str = "E-9003";
/// Internal error (invalid argument and the like).
pub const INTERNAL_ERR: &'static str = "E-9999";

/// An error message with its code: `[E-1001] message`.
pub open spec fn coded(code: Seq<char>, msg: Seq<char>) -> Seq<char> {
    "["@ + code + "] "@ + msg
}

pub fn err(code: &str, msg: &str) -> (r: String)
    ensures
        r@ == coded(code@, msg@),
{
    let mut s = String::new();
    s.append("[");
    s.append(code);
    s.append("] ");
    s.append(msg);
    s
}

/// The code of a translation error category.
pub open spec fn category_code(category: Seq<char>) -> Seq<char> {
    if category == "network"@ {
        TRANSLATE_NETWORK@
    } else if category == "llm"@ {
        TRANSLATE_LLM@
    } else if category == "config"@ {
        TRANSLATE_CONFIG@
    } else {
        TRANSLATE_FAILED@
    }
}

pub fn from_translate_category(category: &str) -> (r: &'static str)
    ensures
        r@ == category_code(category@),
{
    let c = chars_of(category);
    if eq_v(&c, &chars_of("network")) {
        TRANSLATE_NETWORK
    } else if eq_v(&c, &chars_of("llm")) {
        TRANSLATE_LLM
    } else if eq_v(&c, &chars_of("config")) {
        TRANSLATE_CONFIG
    } else {
        TRANSLATE_FAILED
    }
}

} // verus!
