//! Response parsing for the remote content protocol: reading page text,
//! block ids, database summaries and page summaries out of a response
//! document. Optional fields are tolerated everywhere: a missing field
//! contributes nothing, and a missing or empty title degrades to a
//! sentinel title instead of an error.

use vstd::prelude::*;
use crate::json::{Json, eq_str, spec_get, spec_get_str};

verus! {

/// The sentinel title of a database whose title cannot be read.
pub open spec fn spec_untitled_database() -> Seq<char> {
    "Untitled Database"@
}

/// The sentinel title of a page whose title cannot be read.
pub open spec fn spec_untitled_page() -> Seq<char> {
    "Untitled Page"@
}

// ---------------------------------------------------------------------
// Rich-text runs
// ---------------------------------------------------------------------
/// The text one rich-text run contributes: its `plain_text` string, or
/// nothing when the field is absent or not a string.
pub open spec fn spec_run_text(run: Json) -> Seq<char> {
    match spec_get_str(run, "plain_text"@) {
        Some(t) => t,
        None => Seq::empty(),
    }
}

/// The text of a rich-text array: every run's contribution, in array order.
pub open spec fn spec_runs_text(runs: Seq<Json>) -> Seq<char>
    decreases runs.len(),
{
    if runs.len() == 0 {
        Seq::empty()
    } else {
        spec_run_text(runs[0]) + spec_runs_text(runs.drop_first())
    }
}

/// Run extraction preserves order: the text of two run lists read one
/// after the other is the text of the first followed by the text of the
/// second.
pub proof fn lemma_runs_text_concat(a: Seq<Json>, b: Seq<Json>)
    ensures
        spec_runs_text(a + b) == spec_runs_text(a) + spec_runs_text(b),
    decreases a.len(),
{
    if a.len() == 0 {
        assert(a + b =~= b);
        assert(spec_runs_text(a) + spec_runs_text(b) =~= spec_runs_text(b));
    } else {
        assert((a + b).drop_first() =~= a.drop_first() + b);
        lemma_runs_text_concat(a.drop_first(), b);
        assert(spec_run_text(a[0]) + (spec_runs_text(a.drop_first()) + spec_runs_text(b))
            =~= (spec_run_text(a[0]) + spec_runs_text(a.drop_first())) + spec_runs_text(b));
    }
}

/// Concatenates the `plain_text` of every run, in order.
pub fn rich_text_to_string(runs: &Vec<Json>) -> (r: String)
    ensures
        r@ == spec_runs_text(runs@),
{
    let mut out = String::new();
    let n = runs.len();
    let mut i: usize = 0;
    proof {
        assert(runs@.take(0) =~= Seq::<Json>::empty());
    }
    while i < n
        invariant
            n == runs.len(),
            i <= n,
            out@ == spec_runs_text(runs@.take(i as int)),
        decreases n - i,
    {
        match runs[i].get_str("plain_text") {
            Some(t) => {
                out.append(t.as_str());
            },
            None => {},
        }
        proof {
            assert(runs@.take(i as int + 1) =~= runs@.take(i as int) + seq![runs@[i as int]]);
            lemma_runs_text_concat(runs@.take(i as int), seq![runs@[i as int]]);
            assert(seq![runs@[i as int]].drop_first() =~= Seq::<Json>::empty());
            assert(spec_runs_text(Seq::<Json>::empty()) =~= Seq::<char>::empty());
            assert(spec_runs_text(seq![runs@[i as int]]) =~= spec_run_text(runs@[i as int]));
        }
        i += 1;
    }
    proof {
        assert(runs@.take(n as int) =~= runs@);
    }
    out
}

// ---------------------------------------------------------------------
// Page content
// ---------------------------------------------------------------------
/// The text one block contributes to page content: for a paragraph block
/// with a rich-text array, the text of its runs followed by one line
/// break; any other block contributes nothing.
pub open spec fn spec_block_text(b: Json) -> Seq<char> {
    if spec_get_str(b, "type"@) == Some("paragraph"@) {
        match spec_get(b, "paragraph"@) {
            Some(p) => match spec_get(p, "rich_text"@) {
                Some(Json::Arr(runs)) => spec_runs_text(runs@).push('\n'),
                _ => Seq::empty(),
            },
            None => Seq::empty(),
        }
    } else {
        Seq::empty()
    }
}

/// The content of a block list: each block's contribution, in order.
pub open spec fn spec_blocks_text(bs: Seq<Json>) -> Seq<char>
    decreases bs.len(),
{
    if bs.len() == 0 {
        Seq::empty()
    } else {
        spec_block_text(bs[0]) + spec_blocks_text(bs.drop_first())
    }
}

pub proof fn lemma_blocks_text_concat(a: Seq<Json>, b: Seq<Json>)
    ensures
        spec_blocks_text(a + b) == spec_blocks_text(a) + spec_blocks_text(b),
    decreases a.len(),
{
    if a.len() == 0 {
        assert(a + b =~= b);
        assert(spec_blocks_text(a) + spec_blocks_text(b) =~= spec_blocks_text(b));
    } else {
        assert((a + b).drop_first() =~= a.drop_first() + b);
        lemma_blocks_text_concat(a.drop_first(), b);
        assert(spec_block_text(a[0]) + (spec_blocks_text(a.drop_first()) + spec_blocks_text(b))
            =~= (spec_block_text(a[0]) + spec_blocks_text(a.drop_first())) + spec_blocks_text(b));
    }
}

/// The page content of a response document: the contributions of the
/// blocks under `results`, or empty content when `results` is absent or
/// not an array.
pub open spec fn spec_content(doc: Json) -> Seq<char> {
    match spec_get(doc, "results"@) {
        Some(Json::Arr(bs)) => spec_blocks_text(bs@),
        _ => Seq::empty(),
    }
}

/// Reads page content out of a child-block response document.
pub fn extract_content(doc: &Json) -> (r: String)
    ensures
        r@ == spec_content(*doc),
{
    let blocks = match doc.get("results") {
        Some(v) => match v.as_array() {
            Some(a) => a,
            None => {
                return String::new();
            },
        },
        None => {
            return String::new();
        },
    };
    let mut out = String::new();
    let n = blocks.len();
    let mut i: usize = 0;
    proof {
        assert(blocks@.take(0) =~= Seq::<Json>::empty());
    }
    while i < n
        invariant
            n == blocks.len(),
            i <= n,
            out@ == spec_blocks_text(blocks@.take(i as int)),
        decreases n - i,
    {
        let is_paragraph = match blocks[i].get_str("type") {
            Some(t) => eq_str(t.as_str(), "paragraph"),
            None => false,
        };
        if is_paragraph {
            match blocks[i].get("paragraph") {
                Some(p) => {
                    match p.get("rich_text") {
                        Some(rt) => {
                            match rt.as_array() {
                                Some(runs) => {
                                    let text = rich_text_to_string(runs);
                                    out.append(text.as_str());
                                    out.append("\n");
                                    proof {
                                        reveal_strlit("\n");
                                        assert(out@ =~= spec_blocks_text(blocks@.take(i as int))
                                            + spec_block_text(blocks@[i as int]));
                                    }
                                },
                                None => {},
                            }
                        },
                        None => {},
                    }
                },
                None => {},
            }
        }
        proof {
            assert(blocks@.take(i as int + 1) =~= blocks@.take(i as int) + seq![
                blocks@[i as int],
            ]);
            lemma_blocks_text_concat(blocks@.take(i as int), seq![blocks@[i as int]]);
            assert(seq![blocks@[i as int]].drop_first() =~= Seq::<Json>::empty());
            assert(spec_blocks_text(Seq::<Json>::empty()) =~= Seq::<char>::empty());
            assert(spec_blocks_text(seq![blocks@[i as int]]) =~= spec_block_text(
                blocks@[i as int],
            ));
        }
        i += 1;
    }
    proof {
        assert(blocks@.take(n as int) =~= blocks@);
    }
    out
}

// ---------------------------------------------------------------------
// Block ids
// ---------------------------------------------------------------------
/// The ids of the blocks of a list, in order; a block without a string
/// `id` is passed over.
pub open spec fn spec_list_ids(bs: Seq<Json>) -> Seq<Seq<char>>
    decreases bs.len(),
{
    if bs.len() == 0 {
        Seq::empty()
    } else {
        match spec_get_str(bs[0], "id"@) {
            Some(id) => seq![id] + spec_list_ids(bs.drop_first()),
            None => spec_list_ids(bs.drop_first()),
        }
    }
}

pub proof fn lemma_list_ids_concat(a: Seq<Json>, b: Seq<Json>)
    ensures
        spec_list_ids(a + b) == spec_list_ids(a) + spec_list_ids(b),
    decreases a.len(),
{
    if a.len() == 0 {
        assert(a + b =~= b);
        assert(spec_list_ids(a) + spec_list_ids(b) =~= spec_list_ids(b));
    } else {
        assert((a + b).drop_first() =~= a.drop_first() + b);
        lemma_list_ids_concat(a.drop_first(), b);
        match spec_get_str(a[0], "id"@) {
            Some(id) => {
                assert(seq![id] + (spec_list_ids(a.drop_first()) + spec_list_ids(b)) =~= (seq![id]
                    + spec_list_ids(a.drop_first())) + spec_list_ids(b));
            },
            None => {},
        }
    }
}

/// The block ids of a response document, in the order the blocks stand
/// under `results`; empty when `results` is absent or not an array.
pub open spec fn spec_block_ids(doc: Json) -> Seq<Seq<char>> {
    match spec_get(doc, "results"@) {
        Some(Json::Arr(bs)) => spec_list_ids(bs@),
        _ => Seq::empty(),
    }
}

/// Reads the block ids out of a child-block response document.
pub fn extract_block_ids(doc: &Json) -> (r: Vec<String>)
    ensures
        r.deep_view() == spec_block_ids(*doc),
{
    let mut out: Vec<String> = Vec::new();
    proof {
        assert(out.deep_view() =~= Seq::<Seq<char>>::empty());
    }
    let blocks = match doc.get("results") {
        Some(v) => match v.as_array() {
            Some(a) => a,
            None => {
                return out;
            },
        },
        None => {
            return out;
        },
    };
    let n = blocks.len();
    let mut i: usize = 0;
    proof {
        assert(blocks@.take(0) =~= Seq::<Json>::empty());
    }
    while i < n
        invariant
            n == blocks.len(),
            i <= n,
            out.deep_view() == spec_list_ids(blocks@.take(i as int)),
        decreases n - i,
    {
        match blocks[i].get_str("id") {
            Some(id) => {
                let ghost before = out.deep_view();
                out.push(id.clone());
                proof {
                    assert(out.deep_view() =~= before + seq![id@]);
                }
            },
            None => {},
        }
        proof {
            assert(blocks@.take(i as int + 1) =~= blocks@.take(i as int) + seq![
                blocks@[i as int],
            ]);
            lemma_list_ids_concat(blocks@.take(i as int), seq![blocks@[i as int]]);
            assert(seq![blocks@[i as int]].drop_first() =~= Seq::<Json>::empty());
            assert(spec_list_ids(Seq::<Json>::empty()) =~= Seq::<Seq<char>>::empty());
            match spec_get_str(blocks@[i as int], "id"@) {
                Some(id) => {
                    assert(spec_list_ids(seq![blocks@[i as int]]) =~= seq![id]);
                },
                None => {
                    assert(spec_list_ids(seq![blocks@[i as int]]) =~= Seq::<Seq<char>>::empty());
                },
            }
        }
        i += 1;
    }
    proof {
        assert(blocks@.take(n as int) =~= blocks@);
    }
    out
}

// ---------------------------------------------------------------------
// Database summaries
// ---------------------------------------------------------------------
/// The raw title text of a database search result: the text of its
/// `title` run array, or empty when that field is absent or not an array.
pub open spec fn spec_db_title_text(db: Json) -> Seq<char> {
    match spec_get(db, "title"@) {
        Some(Json::Arr(runs)) => spec_runs_text(runs@),
        _ => Seq::empty(),
    }
}

/// The title of a database search result: its raw title text, or the
/// sentinel when no title text can be read.
pub open spec fn spec_db_title(db: Json) -> Seq<char> {
    if spec_db_title_text(db).len() > 0 {
        spec_db_title_text(db)
    } else {
        spec_untitled_database()
    }
}

/// Reads a database's title, falling back to the sentinel.
pub fn database_title(db: &Json) -> (t: String)
    ensures
        t@ == spec_db_title(*db),
{
    let text = match db.get("title") {
        Some(v) => match v.as_array() {
            Some(runs) => rich_text_to_string(runs),
            None => String::new(),
        },
        None => String::new(),
    };
    if text.as_str().is_empty() {
        "Untitled Database".to_owned()
    } else {
        text
    }
}

/// The `(id, title)` summaries of a result list, in order; a result
/// without a string `id` is passed over.
pub open spec fn spec_db_entries(rs: Seq<Json>) -> Seq<(Seq<char>, Seq<char>)>
    decreases rs.len(),
{
    if rs.len() == 0 {
        Seq::empty()
    } else {
        match spec_get_str(rs[0], "id"@) {
            Some(id) => seq![(id, spec_db_title(rs[0]))] + spec_db_entries(rs.drop_first()),
            None => spec_db_entries(rs.drop_first()),
        }
    }
}

pub proof fn lemma_db_entries_concat(a: Seq<Json>, b: Seq<Json>)
    ensures
        spec_db_entries(a + b) == spec_db_entries(a) + spec_db_entries(b),
    decreases a.len(),
{
    if a.len() == 0 {
        assert(a + b =~= b);
        assert(spec_db_entries(a) + spec_db_entries(b) =~= spec_db_entries(b));
    } else {
        assert((a + b).drop_first() =~= a.drop_first() + b);
        lemma_db_entries_concat(a.drop_first(), b);
        match spec_get_str(a[0], "id"@) {
            Some(id) => {
                assert(seq![(id, spec_db_title(a[0]))] + (spec_db_entries(a.drop_first())
                    + spec_db_entries(b)) =~= (seq![(id, spec_db_title(a[0]))] + spec_db_entries(
                    a.drop_first(),
                )) + spec_db_entries(b));
            },
            None => {},
        }
    }
}

/// The database summaries of a search response document, in remote order;
/// empty when `results` is absent or not an array.
pub open spec fn spec_databases(doc: Json) -> Seq<(Seq<char>, Seq<char>)> {
    match spec_get(doc, "results"@) {
        Some(Json::Arr(rs)) => spec_db_entries(rs@),
        _ => Seq::empty(),
    }
}

/// Reads `(id, title)` database summaries out of a search response.
pub fn extract_databases(doc: &Json) -> (r: Vec<(String, String)>)
    ensures
        r.deep_view() == spec_databases(*doc),
{
    let mut out: Vec<(String, String)> = Vec::new();
    proof {
        assert(out.deep_view() =~= Seq::<(Seq<char>, Seq<char>)>::empty());
    }
    let results = match doc.get("results") {
        Some(v) => match v.as_array() {
            Some(a) => a,
            None => {
                return out;
            },
        },
        None => {
            return out;
        },
    };
    let n = results.len();
    let mut i: usize = 0;
    proof {
        assert(results@.take(0) =~= Seq::<Json>::empty());
    }
    while i < n
        invariant
            n == results.len(),
            i <= n,
            out.deep_view() == spec_db_entries(results@.take(i as int)),
        decreases n - i,
    {
        match results[i].get_str("id") {
            Some(id) => {
                let id_owned = id.clone();
                let title = database_title(&results[i]);
                let ghost before = out.deep_view();
                let ghost id_view = id@;
                let ghost title_view = title@;
                out.push((id_owned, title));
                proof {
                    assert(out.deep_view() =~= before + seq![(id_view, title_view)]);
                }
            },
            None => {},
        }
        proof {
            assert(results@.take(i as int + 1) =~= results@.take(i as int) + seq![
                results@[i as int],
            ]);
            lemma_db_entries_concat(results@.take(i as int), seq![results@[i as int]]);
            assert(seq![results@[i as int]].drop_first() =~= Seq::<Json>::empty());
            assert(spec_db_entries(Seq::<Json>::empty()) =~= Seq::<(Seq<char>, Seq<char>)>::empty());
            match spec_get_str(results@[i as int], "id"@) {
                Some(id) => {
                    assert(spec_db_entries(seq![results@[i as int]]) =~= seq![
                        (id, spec_db_title(results@[i as int])),
                    ]);
                },
                None => {
                    assert(spec_db_entries(seq![results@[i as int]]) =~= Seq::<
                        (Seq<char>, Seq<char>),
                    >::empty());
                },
            }
        }
        i += 1;
    }
    proof {
        assert(results@.take(n as int) =~= results@);
    }
    out
}

// ---------------------------------------------------------------------
// Page summaries
// ---------------------------------------------------------------------
/// The value of the first property whose declared type is `title`, in
/// the order the property entries were yielded.
pub open spec fn spec_first_title_prop(entries: Seq<(String, Json)>) -> Option<Json>
    decreases entries.len(),
{
    if entries.len() == 0 {
        None
    } else if spec_get_str(entries[0].1, "type"@) == Some("title"@) {
        Some(entries[0].1)
    } else {
        spec_first_title_prop(entries.drop_first())
    }
}

/// Finds the first title-typed property of a property map.
fn first_title_prop(entries: &Vec<(String, Json)>) -> (r: Option<&Json>)
    ensures
        match r {
            Some(p) => spec_first_title_prop(entries@) == Some(*p),
            None => spec_first_title_prop(entries@) is None,
        },
{
    let n = entries.len();
    let mut i: usize = 0;
    proof {
        assert(entries@.skip(0) =~= entries@);
    }
    while i < n
        invariant
            n == entries.len(),
            i <= n,
            spec_first_title_prop(entries@) == spec_first_title_prop(entries@.skip(i as int)),
        decreases n - i,
    {
        proof {
            assert(entries@.skip(i as int).drop_first() =~= entries@.skip(i as int + 1));
            assert(entries@.skip(i as int)[0] == entries@[i as int]);
        }
        let is_title = match entries[i].1.get_str("type") {
            Some(t) => eq_str(t.as_str(), "title"),
            None => false,
        };
        if is_title {
            return Some(&entries[i].1);
        }
        i += 1;
    }
    None
}

/// The raw title text of a page: the text of the `title` run array of its
/// first title-typed property; empty when the page has no property map,
/// no title-typed property, or no readable run array.
pub open spec fn spec_page_title_text(page: Json) -> Seq<char> {
    match spec_get(page, "properties"@) {
        Some(Json::Obj(entries)) => match spec_first_title_prop(entries@) {
            Some(p) => match spec_get(p, "title"@) {
                Some(Json::Arr(runs)) => spec_runs_text(runs@),
                _ => Seq::empty(),
            },
            None => Seq::empty(),
        },
        _ => Seq::empty(),
    }
}

/// The title of a page: its raw title text, or the sentinel when no
/// title text can be read.
pub open spec fn spec_page_title(page: Json) -> Seq<char> {
    if spec_page_title_text(page).len() > 0 {
        spec_page_title_text(page)
    } else {
        spec_untitled_page()
    }
}

/// Reads a page's title, falling back to the sentinel.
pub fn page_title(page: &Json) -> (t: String)
    ensures
        t@ == spec_page_title(*page),
{
    let text = match page.get("properties") {
        Some(props) => match props {
            Json::Obj(entries) => match first_title_prop(entries) {
                Some(p) => match p.get("title") {
                    Some(v) => match v.as_array() {
                        Some(runs) => rich_text_to_string(runs),
                        None => String::new(),
                    },
                    None => String::new(),
                },
                None => String::new(),
            },
            _ => String::new(),
        },
        None => String::new(),
    };
    if text.as_str().is_empty() {
        "Untitled Page".to_owned()
    } else {
        text
    }
}

/// The `(id, title)` summaries of a query result list, in order; a result
/// without a string `id` is passed over.
pub open spec fn spec_page_entries(rs: Seq<Json>) -> Seq<(Seq<char>, Seq<char>)>
    decreases rs.len(),
{
    if rs.len() == 0 {
        Seq::empty()
    } else {
        match spec_get_str(rs[0], "id"@) {
            Some(id) => seq![(id, spec_page_title(rs[0]))] + spec_page_entries(rs.drop_first()),
            None => spec_page_entries(rs.drop_first()),
        }
    }
}

pub proof fn lemma_page_entries_concat(a: Seq<Json>, b: Seq<Json>)
    ensures
        spec_page_entries(a + b) == spec_page_entries(a) + spec_page_entries(b),
    decreases a.len(),
{
    if a.len() == 0 {
        assert(a + b =~= b);
        assert(spec_page_entries(a) + spec_page_entries(b) =~= spec_page_entries(b));
    } else {
        assert((a + b).drop_first() =~= a.drop_first() + b);
        lemma_page_entries_concat(a.drop_first(), b);
        match spec_get_str(a[0], "id"@) {
            Some(id) => {
                assert(seq![(id, spec_page_title(a[0]))] + (spec_page_entries(a.drop_first())
                    + spec_page_entries(b)) =~= (seq![(id, spec_page_title(a[0]))]
                    + spec_page_entries(a.drop_first())) + spec_page_entries(b));
            },
            None => {},
        }
    }
}

/// The page summaries of a query response document, in remote order;
/// empty when `results` is absent or not an array.
pub open spec fn spec_pages(doc: Json) -> Seq<(Seq<char>, Seq<char>)> {
    match spec_get(doc, "results"@) {
        Some(Json::Arr(rs)) => spec_page_entries(rs@),
        _ => Seq::empty(),
    }
}

/// Reads `(id, title)` page summaries out of a query response.
pub fn extract_pages(doc: &Json) -> (r: Vec<(String, String)>)
    ensures
        r.deep_view() == spec_pages(*doc),
{
    let mut out: Vec<(String, String)> = Vec::new();
    proof {
        assert(out.deep_view() =~= Seq::<(Seq<char>, Seq<char>)>::empty());
    }
    let results = match doc.get("results") {
        Some(v) => match v.as_array() {
            Some(a) => a,
            None => {
                return out;
            },
        },
        None => {
            return out;
        },
    };
    let n = results.len();
    let mut i: usize = 0;
    proof {
        assert(results@.take(0) =~= Seq::<Json>::empty());
    }
    while i < n
        invariant
            n == results.len(),
            i <= n,
            out.deep_view() == spec_page_entries(results@.take(i as int)),
        decreases n - i,
    {
        match results[i].get_str("id") {
            Some(id) => {
                let id_owned = id.clone();
                let title = page_title(&results[i]);
                let ghost before = out.deep_view();
                let ghost id_view = id@;
                let ghost title_view = title@;
                out.push((id_owned, title));
                proof {
                    assert(out.deep_view() =~= before + seq![(id_view, title_view)]);
                }
            },
            None => {},
        }
        proof {
            assert(results@.take(i as int + 1) =~= results@.take(i as int) + seq![
                results@[i as int],
            ]);
            lemma_page_entries_concat(results@.take(i as int), seq![results@[i as int]]);
            assert(seq![results@[i as int]].drop_first() =~= Seq::<Json>::empty());
            assert(spec_page_entries(Seq::<Json>::empty()) =~= Seq::<
                (Seq<char>, Seq<char>),
            >::empty());
            match spec_get_str(results@[i as int], "id"@) {
                Some(id) => {
                    assert(spec_page_entries(seq![results@[i as int]]) =~= seq![
                        (id, spec_page_title(results@[i as int])),
                    ]);
                },
                None => {
                    assert(spec_page_entries(seq![results@[i as int]]) =~= Seq::<
                        (Seq<char>, Seq<char>),
                    >::empty());
                },
            }
        }
        i += 1;
    }
    proof {
        assert(results@.take(n as int) =~= results@);
    }
    out
}

} // verus!
