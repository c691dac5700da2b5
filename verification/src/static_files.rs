//! The front end's files as the service serves them.
use vstd::prelude::*;

use crate::text::{ends_with, seq_ends_with};

verus! {

/// A file of the front end: its bytes and its content type.
pub struct StaticFile {
    pub content: &'static [u8],
    pub content_type: &'static str,
}

/// Which file answers a request for a path.
#[derive(Clone, Copy, Debug, PartialEq, Eq)]
pub enum StaticChoice {
    /// The file at the requested path.
    Requested,
    /// The index page, which the front end routes from.
    Index,
    NotFound,
}

/// The file that answers a request: the requested one when it exists, else
/// the index page when it exists, else nothing.
pub fn static_choice(requested_exists: bool, index_exists: bool) -> (r: StaticChoice)
    ensures
        requested_exists ==> r == StaticChoice::Requested,
        !requested_exists && index_exists ==> r == StaticChoice::Index,
        !requested_exists && !index_exists ==> r == StaticChoice::NotFound,
{
    if requested_exists {
        StaticChoice::Requested
    } else if index_exists {
        StaticChoice::Index
    } else {
        StaticChoice::NotFound
    }
}

/// The content type the front end's files are served with, by their
/// ending: style sheets, scripts and the HTML page; anything else as bytes.
pub open spec fn content_type_spec(path: Seq<char>) -> Seq<char> {
    if seq_ends_with(path, ".css"@) {
        "text/css"@
    } else if seq_ends_with(path, ".js"@) {
        "application/javascript"@
    } else if seq_ends_with(path, ".html"@) {
        "text/html; charset=utf-8"@
    } else {
        "application/octet-stream"@
    }
}

/// The content type of a front-end file.
pub fn content_type_for(path: &str) -> (r: &'static str)
    ensures
        r@ == content_type_spec(path@),
{
    if ends_with(path, ".css") {
        "text/css"
    } else if ends_with(path, ".js") {
        "application/javascript"
    } else if ends_with(path, ".html") {
        "text/html; charset=utf-8"
    } else {
        "application/octet-stream"
    }
}

} // verus!
