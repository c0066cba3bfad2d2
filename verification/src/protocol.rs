//! Request construction for the remote content protocol: the URLs of the
//! five HTTP calls, the two fixed request headers, and the JSON request
//! bodies, built and escaped character by character so that every byte
//! sent is pinned by a contract.

use vstd::prelude::*;

verus! {

// ---------------------------------------------------------------------
// Headers
// ---------------------------------------------------------------------
/// The authorization header value: the bearer scheme before the token.
pub open spec fn spec_auth_header(token: Seq<char>) -> Seq<char> {
    "Bearer "@ + token
}

/// Builds the authorization header value for `token`.
pub fn auth_header(token: &str) -> (r: String)
    ensures
        r@ == spec_auth_header(token@),
{
    let mut r = "Bearer ".to_owned();
    r.append(token);
    r
}

/// The protocol version every request announces.
pub open spec fn spec_protocol_version() -> Seq<char> {
    "2022-06-28"@
}

/// The protocol version header value.
pub fn protocol_version() -> (r: &'static str)
    ensures
        r@ == spec_protocol_version(),
{
    "2022-06-28"
}

// ---------------------------------------------------------------------
// URLs
// ---------------------------------------------------------------------
/// The URL that lists or appends the child blocks of page `id`.
pub open spec fn spec_children_url(base: Seq<char>, id: Seq<char>) -> Seq<char> {
    base + "/blocks/"@ + id + "/children"@
}

/// Builds the child-block URL of page `id`.
pub fn children_url(base: &str, id: &str) -> (r: String)
    ensures
        r@ == spec_children_url(base@, id@),
{
    let mut r = base.to_owned();
    r.append("/blocks/");
    r.append(id);
    r.append("/children");
    r
}

/// The URL that archives a single block.
pub open spec fn spec_block_url(base: Seq<char>, id: Seq<char>) -> Seq<char> {
    base + "/blocks/"@ + id
}

/// Builds the URL of block `id`.
pub fn block_url(base: &str, id: &str) -> (r: String)
    ensures
        r@ == spec_block_url(base@, id@),
{
    let mut r = base.to_owned();
    r.append("/blocks/");
    r.append(id);
    r
}

/// The URL of the workspace-wide search.
pub open spec fn spec_search_url(base: Seq<char>) -> Seq<char> {
    base + "/search"@
}

/// Builds the search URL.
pub fn search_url(base: &str) -> (r: String)
    ensures
        r@ == spec_search_url(base@),
{
    let mut r = base.to_owned();
    r.append("/search");
    r
}

/// The URL that queries the pages of database `id`.
pub open spec fn spec_query_url(base: Seq<char>, id: Seq<char>) -> Seq<char> {
    base + "/databases/"@ + id + "/query"@
}

/// Builds the query URL of database `id`.
pub fn query_url(base: &str, id: &str) -> (r: String)
    ensures
        r@ == spec_query_url(base@, id@),
{
    let mut r = base.to_owned();
    r.append("/databases/");
    r.append(id);
    r.append("/query");
    r
}

// ---------------------------------------------------------------------
// Fixed request bodies
// ---------------------------------------------------------------------
/// The search body restricting results to databases.
pub open spec fn spec_search_body() -> Seq<char> {
    "{\"filter\":{\"value\":\"database\",\"property\":\"object\"}}"@
}

/// The search request body.
pub fn search_body() -> (r: &'static str)
    ensures
        r@ == spec_search_body(),
{
    "{\"filter\":{\"value\":\"database\",\"property\":\"object\"}}"
}

/// The empty query body: no filter and no sort, first page of results only.
pub open spec fn spec_query_body() -> Seq<char> {
    "{}"@
}

/// The query request body.
pub fn query_body() -> (r: &'static str)
    ensures
        r@ == spec_query_body(),
{
    "{}"
}

/// The body that marks one block archived.
pub open spec fn spec_archive_body() -> Seq<char> {
    "{\"archived\":true}"@
}

/// The archive request body.
pub fn archive_body() -> (r: &'static str)
    ensures
        r@ == spec_archive_body(),
{
    "{\"archived\":true}"
}

// ---------------------------------------------------------------------
// JSON string escaping
// ---------------------------------------------------------------------
/// The sixteen hexadecimal digits, in value order.
pub open spec fn spec_hex_digits() -> Seq<char> {
    "0123456789abcdef"@
}

/// How one character appears inside a JSON string literal: quote,
/// backslash and the named control characters take a two-character
/// escape, the remaining control characters a hexadecimal escape, and
/// every other character stands for itself.
pub open spec fn spec_escape_char(c: char) -> Seq<char> {
    if c == '"' {
        seq!['\\', '"']
    } else if c == '\\' {
        seq!['\\', '\\']
    } else if c == '\n' {
        seq!['\\', 'n']
    } else if c == '\r' {
        seq!['\\', 'r']
    } else if c == '\t' {
        seq!['\\', 't']
    } else if (c as u32) < 32 {
        seq!['\\', 'u', '0', '0'] + seq![
            spec_hex_digits()[(c as u32 / 16) as int],
            spec_hex_digits()[(c as u32 % 16) as int],
        ]
    } else {
        seq![c]
    }
}

/// The characters of `s` as they appear inside a JSON string literal.
pub open spec fn spec_escape(s: Seq<char>) -> Seq<char>
    decreases s.len(),
{
    if s.len() == 0 {
        Seq::empty()
    } else {
        spec_escape_char(s[0]) + spec_escape(s.drop_first())
    }
}

/// Escaping a concatenation escapes each part in place.
pub proof fn lemma_escape_concat(a: Seq<char>, b: Seq<char>)
    ensures
        spec_escape(a + b) == spec_escape(a) + spec_escape(b),
    decreases a.len(),
{
    if a.len() == 0 {
        assert(a + b =~= b);
        assert(spec_escape(a) + spec_escape(b) =~= spec_escape(b));
    } else {
        assert((a + b).drop_first() =~= a.drop_first() + b);
        lemma_escape_concat(a.drop_first(), b);
        assert(spec_escape(a + b) == spec_escape_char(a[0]) + (spec_escape(a.drop_first())
            + spec_escape(b)));
        assert(spec_escape_char(a[0]) + (spec_escape(a.drop_first()) + spec_escape(b))
            =~= (spec_escape_char(a[0]) + spec_escape(a.drop_first())) + spec_escape(b));
    }
}

/// Escapes `s` for use inside a JSON string literal.
pub fn escape_json(s: &str) -> (r: String)
    ensures
        r@ == spec_escape(s@),
{
    let n = s.unicode_len();
    let mut out = String::new();
    let mut i: usize = 0;
    while i < n
        invariant
            n == s@.len(),
            i <= n,
            out@ == spec_escape(s@.take(i as int)),
        decreases n - i,
    {
        let c = s.get_char(i);
        if c == '"' {
            out.append("\\\"");
            proof {
                reveal_strlit("\\\"");
                assert("\\\""@ =~= spec_escape_char(c));
            }
        } else if c == '\\' {
            out.append("\\\\");
            proof {
                reveal_strlit("\\\\");
                assert("\\\\"@ =~= spec_escape_char(c));
            }
        } else if c == '\n' {
            out.append("\\n");
            proof {
                reveal_strlit("\\n");
                assert("\\n"@ =~= spec_escape_char(c));
            }
        } else if c == '\r' {
            out.append("\\r");
            proof {
                reveal_strlit("\\r");
                assert("\\r"@ =~= spec_escape_char(c));
            }
        } else if c == '\t' {
            out.append("\\t");
            proof {
                reveal_strlit("\\t");
                assert("\\t"@ =~= spec_escape_char(c));
            }
        } else if (c as u32) < 32 {
            let ghost before = out@;
            out.append("\\u00");
            let digits = "0123456789abcdef";
            proof {
                reveal_strlit("\\u00");
                reveal_strlit("0123456789abcdef");
            }
            let hi = ((c as u32) / 16) as usize;
            let lo = ((c as u32) % 16) as usize;
            out.append(digits.substring_char(hi, hi + 1));
            out.append(digits.substring_char(lo, lo + 1));
            proof {
                assert(out@ =~= before + spec_escape_char(c));
            }
        } else {
            out.append(s.substring_char(i, i + 1));
            proof {
                assert(s@.subrange(i as int, i as int + 1) =~= seq![s@[i as int]]);
            }
        }
        proof {
            assert(s@.take(i as int + 1) =~= s@.take(i as int) + seq![s@[i as int]]);
            lemma_escape_concat(s@.take(i as int), seq![s@[i as int]]);
            assert(seq![s@[i as int]].drop_first() =~= Seq::<char>::empty());
            assert(spec_escape(Seq::<char>::empty()) =~= Seq::<char>::empty());
            assert(spec_escape(seq![s@[i as int]]) =~= spec_escape_char(s@[i as int])
                + spec_escape(seq![s@[i as int]].drop_first()));
            assert(spec_escape(seq![s@[i as int]]) =~= spec_escape_char(s@[i as int]));
        }
        i += 1;
    }
    proof {
        assert(s@.take(n as int) =~= s@);
    }
    out
}

// ---------------------------------------------------------------------
// The append-children body
// ---------------------------------------------------------------------
/// One paragraph block carrying a single plain-text run with content `p`.
pub open spec fn spec_block_json(p: Seq<char>) -> Seq<char> {
    "{\"object\":\"block\",\"type\":\"paragraph\",\"paragraph\":{\"rich_text\":[{\"type\":\"text\",\"text\":{\"content\":\""@
        + spec_escape(p) + "\"}}]}}"@
}

/// The comma-separated block list for the paragraphs `ps`, in order.
pub open spec fn spec_blocks_json(ps: Seq<Seq<char>>) -> Seq<char>
    decreases ps.len(),
{
    if ps.len() == 0 {
        Seq::empty()
    } else if ps.len() == 1 {
        spec_block_json(ps[0])
    } else {
        spec_block_json(ps[0]) + ","@ + spec_blocks_json(ps.drop_first())
    }
}

/// The append-children request body: every paragraph of `ps` becomes one
/// paragraph block, in order.
pub open spec fn spec_append_body(ps: Seq<Seq<char>>) -> Seq<char> {
    "{\"children\":["@ + spec_blocks_json(ps) + "]}"@
}

/// Adding a paragraph at the end appends one block (and a separating
/// comma when blocks precede it).
pub proof fn lemma_blocks_json_snoc(ps: Seq<Seq<char>>, q: Seq<char>)
    ensures
        ps.len() == 0 ==> spec_blocks_json(ps.push(q)) == spec_block_json(q),
        ps.len() > 0 ==> spec_blocks_json(ps.push(q)) == spec_blocks_json(ps) + ","@
            + spec_block_json(q),
    decreases ps.len(),
{
    if ps.len() == 0 {
        assert(ps.push(q)[0] == q);
    } else {
        let t = ps.push(q);
        assert(t.drop_first() =~= ps.drop_first().push(q));
        lemma_blocks_json_snoc(ps.drop_first(), q);
        if ps.len() == 1 {
            assert(spec_blocks_json(t) == spec_block_json(ps[0]) + ","@ + spec_block_json(q));
        } else {
            assert(spec_blocks_json(t) == spec_block_json(ps[0]) + ","@ + (spec_blocks_json(
                ps.drop_first(),
            ) + ","@ + spec_block_json(q)));
            assert(spec_block_json(ps[0]) + ","@ + (spec_blocks_json(ps.drop_first()) + ","@
                + spec_block_json(q)) =~= (spec_block_json(ps[0]) + ","@ + spec_blocks_json(
                ps.drop_first(),
            )) + ","@ + spec_block_json(q));
        }
    }
}

/// Appends one paragraph block for `p` to `out`.
fn append_block_json(out: &mut String, p: &str)
    ensures
        final(out)@ == old(out)@ + spec_block_json(p@),
{
    out.append(
        "{\"object\":\"block\",\"type\":\"paragraph\",\"paragraph\":{\"rich_text\":[{\"type\":\"text\",\"text\":{\"content\":\"",
    );
    let esc = escape_json(p);
    out.append(esc.as_str());
    out.append("\"}}]}}");
}

/// Builds the append-children request body for the paragraphs `ps`.
pub fn build_append_body(ps: &Vec<String>) -> (r: String)
    ensures
        r@ == spec_append_body(ps.deep_view()),
{
    let mut out = "{\"children\":[".to_owned();
    let n = ps.len();
    let mut i: usize = 0;
    while i < n
        invariant
            n == ps.len(),
            i <= n,
            ps.deep_view().len() == n,
            forall|k: int| 0 <= k < n ==> ps.deep_view()[k] == ps@[k]@,
            out@ == "{\"children\":["@ + spec_blocks_json(ps.deep_view().take(i as int)),
        decreases n - i,
    {
        if i > 0 {
            out.append(",");
        }
        append_block_json(&mut out, ps[i].as_str());
        proof {
            let dv = ps.deep_view();
            assert(dv.take(i as int + 1) =~= dv.take(i as int).push(dv[i as int]));
            lemma_blocks_json_snoc(dv.take(i as int), dv[i as int]);
            if i > 0 {
                assert(out@ =~= "{\"children\":["@ + spec_blocks_json(dv.take(i as int + 1)));
            } else {
                assert(out@ =~= "{\"children\":["@ + spec_blocks_json(dv.take(1)));
            }
        }
        i += 1;
    }
    proof {
        assert(ps.deep_view().take(n as int) =~= ps.deep_view());
    }
    out.append("]}");
    out
}

} // verus!
