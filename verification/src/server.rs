//! The development HTTP server's two overrides: substituting the project's
//! own not-found page into any not-found response, and resolving a directory
//! request to that directory's index document instead of redirecting.

use vstd::prelude::*;
use vstd::string::StrSliceExecFns;
use vstd::string::StringExecFns;

verus! {

/// The HTTP status that triggers the not-found substitution.
pub const NOT_FOUND_STATUS: u16 = 404;

/// A response body as the override logic leaves it.
pub struct ResponseOverride {
    /// The body to send.
    pub body: Vec<u8>,
    /// Whether the content type must be forced to HTML.
    pub force_html: bool,
}

/// Decide the body of an outgoing response: a not-found response whose
/// project has a custom not-found page gets that page as its body, with the
/// content type forced to HTML; every other response passes through
/// untouched.
pub fn not_found_override(status: u16, body: Vec<u8>, not_found_page: Option<Vec<u8>>) -> (r:
    ResponseOverride)
    ensures
        status == NOT_FOUND_STATUS && not_found_page is Some ==> r.body@
            == not_found_page.unwrap()@ && r.force_html,
        !(status == NOT_FOUND_STATUS && not_found_page is Some) ==> r.body@ == body@
            && !r.force_html,
{
    if status == NOT_FOUND_STATUS {
        match not_found_page {
            Some(page) => ResponseOverride { body: page, force_html: true },
            None => ResponseOverride { body, force_html: false },
        }
    } else {
        ResponseOverride { body, force_html: false }
    }
}

/// The path of the index document a directory request resolves to.
pub open spec fn index_path_spec(dir: Seq<char>) -> Seq<char> {
    if dir.len() > 0 && dir[dir.len() - 1] == '/' {
        dir + "index.html"@
    } else {
        dir + "/index.html"@
    }
}

/// Resolve a requested directory path to its index document, served in
/// place rather than through a redirect, so that neither a relative
/// redirect nor the index file name ever reaches the browser.
pub fn directory_index_path(dir: &str) -> (r: String)
    ensures
        r@ == index_path_spec(dir@),
{
    let n = dir.unicode_len();
    let mut r = String::from_str(dir);
    if n > 0 && dir.get_char(n - 1) == '/' {
        r.append("index.html");
    } else {
        r.append("/index.html");
    }
    r
}

} // verus!
