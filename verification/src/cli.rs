//! What the arguments of the command line mean.

use crate::json;
use crate::params::Params;
use crate::text::{first_visible, first_visible_char};
use vstd::prelude::*;

verus! {

/// Why a JSON value that is no collection is refused.
pub const NOT_A_COLLECTION: &'static str = "JSON must be a top-level Object ({}) or Array ([])";

/// Why params given on the command line are refused.
#[derive(Debug)]
pub enum CollectionError {
    /// They are not JSON.
    Json(serde_json::Error),
    /// They are JSON, but neither an object nor an array. This is the
    /// explanation.
    NotACollection(&'static str),
}

/// The JSON text of a value as the collection that it is, told by its bracket.
pub fn as_collection(text: String) -> (params: Result<Params, CollectionError>)
    ensures
        match first_visible(text@) {
            Some('{') => params matches Ok(Params::Object(t)) && t@ == text@,
            Some('[') => params matches Ok(Params::Array(t)) && t@ == text@,
            _ => params matches Err(CollectionError::NotACollection(why)) && why@
                == NOT_A_COLLECTION@,
        },
{
    match first_visible_char(text.as_str()) {
        Some('{') => Ok(Params::Object(text)),
        Some('[') => Ok(Params::Array(text)),
        _ => Err(CollectionError::NotACollection(NOT_A_COLLECTION)),
    }
}

/// Ensures that the input is a valid JSON Object or Array, and gives it the form
/// in which it is sent.
pub fn parse_json_collection(s: &str) -> (params: Result<Params, CollectionError>)
    ensures
        match json::json_rewritten(s@) {
            None => params matches Err(CollectionError::Json(_)),
            Some(text) => match first_visible(text) {
                Some('{') => params matches Ok(Params::Object(t)) && t@ == text,
                Some('[') => params matches Ok(Params::Array(t)) && t@ == text,
                _ => params matches Err(CollectionError::NotACollection(why)) && why@
                    == NOT_A_COLLECTION@,
            },
        },
{
    match json::rewrite(s) {
        Ok(text) => as_collection(text),
        Err(e) => Err(CollectionError::Json(e)),
    }
}

/// The blanket log level for a number of verbosity flags.
pub fn default_level(verbose: u8) -> (level: &'static str)
    ensures
        verbose == 0 ==> level@ == "warn"@,
        verbose == 1 ==> level@ == "info"@,
        verbose == 2 ==> level@ == "debug"@,
        verbose >= 3 ==> level@ == "trace"@,
{
    match verbose {
        0 => "warn",
        1 => "info",
        2 => "debug",
        _ => "trace",
    }
}

} // verus!
