//! A synchronization client for a remote workspace service that models
//! page content as lists of blocks. The client authenticates with a
//! bearer token, lists databases, queries the pages of a database,
//! fetches a page's plain-text content and replaces it. Request
//! construction, response parsing and the conversion between plain text
//! and paragraph blocks are verified; only the HTTP transport and the
//! outside JSON parser are trusted, behind narrow contracts.

pub mod client;
pub mod extract;
pub mod json;
pub mod paragraphs;
pub mod protocol;
pub mod remote;

pub use client::NotionClient;
pub use client::NotionError;

use vstd::prelude::*;

verus! {

/// The fixed base endpoint of the remote workspace API, including its version
/// segment. Every request URL is built by appending a path to this base.
pub open spec fn spec_base_url() -> Seq<char> {
    "https://api.notion.com/v1"@
}

/// The base endpoint as a string slice.
pub fn base_url() -> (r: &'static str)
    ensures
        r@ == spec_base_url(),
{
    "https://api.notion.com/v1"
}

} // verus!
