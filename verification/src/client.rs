//! The synchronization client: the stateful entry point holding the
//! bearer token, the fixed base endpoint and the currently selected page.
//! Each remote operation checks the token, builds its request with the
//! verified protocol functions, carries it through one trusted HTTP call,
//! and reads the response with the verified extraction functions.

use vstd::prelude::*;
use crate::extract::{
    extract_block_ids, extract_content, extract_databases, extract_pages, spec_content,
    spec_databases, spec_pages,
};
use crate::json::Json;
use crate::paragraphs::split_paragraphs;
use crate::protocol::{
    archive_body, auth_header, block_url, build_append_body, children_url, protocol_version,
    query_body, query_url, search_body, search_url,
};
use crate::remote::{http_get, http_patch, http_post, parse_value, spec_parse_json, value_to_json};
use crate::spec_base_url;

verus! {

/// Why a remote operation failed: the client holds no token, the
/// transport failed (carrying the underlying error's message), or the
/// response body was not valid JSON (carrying the parse error's message).
/// A response that parses but lacks expected fields is not an error:
/// those cases degrade to empty content or sentinel titles.
#[derive(Debug)]
pub enum NotionError {
    Unauthenticated,
    Transport(String),
    Protocol(String),
}

impl NotionError {
    /// A human-readable description of the failure.
    pub fn message(&self) -> (m: String)
        ensures
            *self is Unauthenticated ==> m@ == "No API token provided"@,
            self matches NotionError::Transport(t) ==> m@ == t@,
            self matches NotionError::Protocol(t) ==> m@ == t@,
    {
        match self {
            NotionError::Unauthenticated => "No API token provided".to_owned(),
            NotionError::Transport(t) => t.clone(),
            NotionError::Protocol(t) => t.clone(),
        }
    }
}

/// Parses response text into the library's JSON tree; text that is not
/// valid JSON becomes a protocol error.
pub fn parse_json(s: &str) -> (r: Result<Json, NotionError>)
    ensures
        r matches Ok(j) ==> spec_parse_json(s@) == Some(j),
        r matches Err(e) ==> spec_parse_json(s@) is None && e is Protocol,
{
    match parse_value(s) {
        Ok(v) => Ok(value_to_json(&v)),
        Err(m) => Err(NotionError::Protocol(m)),
    }
}

/// The synchronization client's state. An empty token means
/// unauthenticated: every remote operation then fails before any
/// network call. The currently selected page id starts empty and changes
/// only through `select_page`.
pub struct NotionClient {
    pub token: String,
    pub base_url: String,
    pub current_page_id: String,
}

impl NotionClient {
    /// A fresh client over the fixed base endpoint, with no page selected.
    pub fn new(token: String) -> (c: NotionClient)
        ensures
            c.token == token,
            c.base_url@ == spec_base_url(),
            c.current_page_id@ == Seq::<char>::empty(),
    {
        NotionClient {
            token,
            base_url: crate::base_url().to_owned(),
            current_page_id: String::new(),
        }
    }

    /// Replaces the stored token. Persisting it for future sessions is
    /// the caller's side effect, outside this library.
    pub fn set_token(&mut self, token: String)
        ensures
            final(self).token == token,
            final(self).base_url == old(self).base_url,
            final(self).current_page_id == old(self).current_page_id,
    {
        self.token = token;
    }

    /// Selects a page. Pure state mutation: no remote call, and no check
    /// that the page exists.
    pub fn select_page(&mut self, page_id: String)
        ensures
            final(self).current_page_id == page_id,
            final(self).token == old(self).token,
            final(self).base_url == old(self).base_url,
    {
        self.current_page_id = page_id;
    }

    /// Lists the databases the token can see, as `(id, title)` pairs in
    /// the order the remote service returned them.
    pub fn list_databases(&self) -> (r: Result<Vec<(String, String)>, NotionError>)
        ensures
            self.token@.len() == 0 ==> (r matches Err(e) && e is Unauthenticated),
            self.token@.len() > 0 ==> !(r matches Err(e) && e is Unauthenticated),
            r matches Ok(list) ==> exists|body: Seq<char>, doc: Json|
                #![trigger spec_parse_json(body), spec_databases(doc)]
                spec_parse_json(body) == Some(doc) && list.deep_view() == spec_databases(doc),
    {
        if self.token.as_str().is_empty() {
            return Err(NotionError::Unauthenticated);
        }
        let url = search_url(self.base_url.as_str());
        let auth = auth_header(self.token.as_str());
        let body = match http_post(
            url.as_str(),
            auth.as_str(),
            protocol_version(),
            search_body(),
        ) {
            Ok(b) => b,
            Err(m) => {
                return Err(NotionError::Transport(m));
            },
        };
        let doc = match parse_json(body.as_str()) {
            Ok(d) => d,
            Err(e) => {
                return Err(e);
            },
        };
        Ok(extract_databases(&doc))
    }

    /// Queries the pages of database `database_id`, as `(id, title)`
    /// pairs in the order the remote service returned them. The id is
    /// not validated locally: a bad id surfaces as a remote-side error.
    pub fn query_database(&self, database_id: &str) -> (r: Result<
        Vec<(String, String)>,
        NotionError,
    >)
        ensures
            self.token@.len() == 0 ==> (r matches Err(e) && e is Unauthenticated),
            self.token@.len() > 0 ==> !(r matches Err(e) && e is Unauthenticated),
            r matches Ok(list) ==> exists|body: Seq<char>, doc: Json|
                #![trigger spec_parse_json(body), spec_pages(doc)]
                spec_parse_json(body) == Some(doc) && list.deep_view() == spec_pages(doc),
    {
        if self.token.as_str().is_empty() {
            return Err(NotionError::Unauthenticated);
        }
        let url = query_url(self.base_url.as_str(), database_id);
        let auth = auth_header(self.token.as_str());
        let body = match http_post(
            url.as_str(),
            auth.as_str(),
            protocol_version(),
            query_body(),
        ) {
            Ok(b) => b,
            Err(m) => {
                return Err(NotionError::Transport(m));
            },
        };
        let doc = match parse_json(body.as_str()) {
            Ok(d) => d,
            Err(e) => {
                return Err(e);
            },
        };
        Ok(extract_pages(&doc))
    }

    /// Fetches the plain-text content of page `page_id`: the text of
    /// every paragraph block, each followed by one line break, in remote
    /// order; other block kinds contribute nothing.
    pub fn get_page_content(&self, page_id: &str) -> (r: Result<String, NotionError>)
        ensures
            self.token@.len() == 0 ==> (r matches Err(e) && e is Unauthenticated),
            self.token@.len() > 0 ==> !(r matches Err(e) && e is Unauthenticated),
            r matches Ok(content) ==> exists|body: Seq<char>, doc: Json|
                #![trigger spec_parse_json(body), spec_content(doc)]
                spec_parse_json(body) == Some(doc) && content@ == spec_content(doc),
    {
        if self.token.as_str().is_empty() {
            return Err(NotionError::Unauthenticated);
        }
        let url = children_url(self.base_url.as_str(), page_id);
        let auth = auth_header(self.token.as_str());
        let body = match http_get(url.as_str(), auth.as_str(), protocol_version()) {
            Ok(b) => b,
            Err(m) => {
                return Err(NotionError::Transport(m));
            },
        };
        let doc = match parse_json(body.as_str()) {
            Ok(d) => d,
            Err(e) => {
                return Err(e);
            },
        };
        Ok(extract_content(&doc))
    }

    /// Replaces the content of page `page_id` with `content` in two
    /// phases, as the remote protocol forces: first every current child
    /// block is archived, one request per block in listing order; then
    /// the paragraphs of `content` (its non-empty lines) are appended as
    /// new paragraph blocks in one request. The two phases are not
    /// atomic: a failure after archiving leaves the page empty. A
    /// remote-side archive failure is not visible in the response and
    /// does not stop the update; only a transport failure does.
    pub fn update_page_content(&self, page_id: &str, content: &str) -> (r: Result<
        (),
        NotionError,
    >)
        ensures
            self.token@.len() == 0 ==> (r matches Err(e) && e is Unauthenticated),
            self.token@.len() > 0 ==> !(r matches Err(e) && e is Unauthenticated),
    {
        if self.token.as_str().is_empty() {
            return Err(NotionError::Unauthenticated);
        }
        let url = children_url(self.base_url.as_str(), page_id);
        let auth = auth_header(self.token.as_str());
        let listing = match http_get(url.as_str(), auth.as_str(), protocol_version()) {
            Ok(b) => b,
            Err(m) => {
                return Err(NotionError::Transport(m));
            },
        };
        let doc = match parse_json(listing.as_str()) {
            Ok(d) => d,
            Err(e) => {
                return Err(e);
            },
        };
        let ids = extract_block_ids(&doc);
        let n = ids.len();
        let mut i: usize = 0;
        while i < n
            invariant
                n == ids.len(),
                i <= n,
                self.token@.len() > 0,
            decreases n - i,
        {
            let burl = block_url(self.base_url.as_str(), ids[i].as_str());
            match http_patch(
                burl.as_str(),
                auth.as_str(),
                protocol_version(),
                archive_body(),
            ) {
                Ok(_) => {},
                Err(m) => {
                    return Err(NotionError::Transport(m));
                },
            }
            i += 1;
        }
        let paragraphs = split_paragraphs(content);
        let append = build_append_body(&paragraphs);
        match http_patch(url.as_str(), auth.as_str(), protocol_version(), append.as_str()) {
            Ok(_) => Ok(()),
            Err(m) => Err(NotionError::Transport(m)),
        }
    }
}

} // verus!
