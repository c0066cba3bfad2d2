use notion_sync::extract::{
    extract_block_ids, extract_content, extract_databases, extract_pages, rich_text_to_string,
};
use notion_sync::json::Json;

fn jstr(x: &str) -> Json {
    Json::Str(x.to_string())
}

fn obj(entries: Vec<(&str, Json)>) -> Json {
    Json::Obj(
        entries
            .into_iter()
            .map(|(k, v)| (k.to_string(), v))
            .collect(),
    )
}

fn run(text: &str) -> Json {
    obj(vec![("plain_text", jstr(text))])
}

fn paragraph_block(runs: Vec<Json>) -> Json {
    obj(vec![
        ("type", jstr("paragraph")),
        ("paragraph", obj(vec![("rich_text", Json::Arr(runs))])),
    ])
}

fn results_doc(results: Vec<Json>) -> Json {
    obj(vec![("results", Json::Arr(results))])
}

fn pairs(expected: &[(&str, &str)]) -> Vec<(String, String)> {
    expected
        .iter()
        .map(|(a, b)| (a.to_string(), b.to_string()))
        .collect()
}

#[test]
fn runs_concatenate_in_order() {
    assert_eq!(rich_text_to_string(&vec![run("Hel"), run("lo")]), "Hello");
}

#[test]
fn runs_without_plain_text_contribute_nothing() {
    let runs = vec![run("a"), obj(vec![]), obj(vec![("plain_text", Json::Null)]), run("b")];
    assert_eq!(rich_text_to_string(&runs), "ab");
}

#[test]
fn content_skips_non_paragraph_blocks() {
    let heading = obj(vec![
        ("type", jstr("heading_1")),
        ("heading_1", obj(vec![("rich_text", Json::Arr(vec![run("Title")]))])),
    ]);
    let doc = results_doc(vec![paragraph_block(vec![run("Hi "), run("there")]), heading]);
    assert_eq!(extract_content(&doc), "Hi there\n");
}

#[test]
fn paragraph_without_rich_text_contributes_nothing() {
    let bare = obj(vec![("type", jstr("paragraph")), ("paragraph", obj(vec![]))]);
    let doc = results_doc(vec![bare, paragraph_block(vec![run("x")])]);
    assert_eq!(extract_content(&doc), "x\n");
}

#[test]
fn paragraph_with_empty_rich_text_is_a_blank_line() {
    let doc = results_doc(vec![paragraph_block(vec![])]);
    assert_eq!(extract_content(&doc), "\n");
}

#[test]
fn content_of_unexpected_document_is_empty() {
    assert_eq!(extract_content(&obj(vec![])), "");
    assert_eq!(extract_content(&obj(vec![("results", jstr("no"))])), "");
    assert_eq!(extract_content(&Json::Null), "");
}

#[test]
fn block_ids_in_listing_order() {
    let doc = results_doc(vec![
        obj(vec![("id", jstr("b1"))]),
        obj(vec![("type", jstr("paragraph"))]),
        obj(vec![("id", jstr("b2"))]),
    ]);
    assert_eq!(extract_block_ids(&doc), vec!["b1".to_string(), "b2".to_string()]);
}

#[test]
fn database_titles_concatenate_runs() {
    let doc = results_doc(vec![obj(vec![
        ("id", jstr("db1")),
        ("title", Json::Arr(vec![run("My "), run("Notes")])),
    ])]);
    assert_eq!(extract_databases(&doc), pairs(&[("db1", "My Notes")]));
}

#[test]
fn missing_title_array_yields_database_sentinel() {
    let doc = results_doc(vec![
        obj(vec![("id", jstr("db1"))]),
        obj(vec![("id", jstr("db2")), ("title", Json::Arr(vec![]))]),
        obj(vec![("id", jstr("db3")), ("title", jstr("not-an-array"))]),
    ]);
    assert_eq!(
        extract_databases(&doc),
        pairs(&[
            ("db1", "Untitled Database"),
            ("db2", "Untitled Database"),
            ("db3", "Untitled Database"),
        ])
    );
}

#[test]
fn database_without_id_is_skipped() {
    let doc = results_doc(vec![
        obj(vec![("title", Json::Arr(vec![run("ignored")]))]),
        obj(vec![("id", jstr("db9")), ("title", Json::Arr(vec![run("Kept")]))]),
    ]);
    assert_eq!(extract_databases(&doc), pairs(&[("db9", "Kept")]));
}

fn title_property(runs: Vec<Json>) -> Json {
    obj(vec![("type", jstr("title")), ("title", Json::Arr(runs))])
}

#[test]
fn page_title_comes_from_the_title_typed_property() {
    let properties = obj(vec![
        ("Status", obj(vec![("type", jstr("select"))])),
        ("Name", title_property(vec![run("Plan")])),
    ]);
    let doc = results_doc(vec![obj(vec![("id", jstr("p1")), ("properties", properties)])]);
    assert_eq!(extract_pages(&doc), pairs(&[("p1", "Plan")]));
}

#[test]
fn missing_title_property_yields_page_sentinel() {
    let doc = results_doc(vec![
        obj(vec![("id", jstr("p1")), ("properties", obj(vec![]))]),
        obj(vec![("id", jstr("p2"))]),
        obj(vec![(
            "id",
            jstr("p3"),
        ), ("properties", obj(vec![("Name", title_property(vec![]))]))]),
    ]);
    assert_eq!(
        extract_pages(&doc),
        pairs(&[
            ("p1", "Untitled Page"),
            ("p2", "Untitled Page"),
            ("p3", "Untitled Page"),
        ])
    );
}

#[test]
fn duplicate_keys_read_the_first_entry() {
    let j = Json::Obj(vec![
        ("k".to_string(), jstr("first")),
        ("k".to_string(), jstr("second")),
    ]);
    assert_eq!(j.get_str("k").map(|s| s.as_str()), Some("first"));
}
