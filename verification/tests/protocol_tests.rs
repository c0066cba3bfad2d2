use notion_sync::base_url;
use notion_sync::paragraphs::split_paragraphs;
use notion_sync::protocol::{
    archive_body, auth_header, block_url, build_append_body, children_url, escape_json,
    protocol_version, query_body, query_url, search_body, search_url,
};

#[test]
fn base_url_is_the_versioned_endpoint() {
    assert_eq!(base_url(), "https://api.notion.com/v1");
}

#[test]
fn auth_header_uses_bearer_scheme() {
    assert_eq!(auth_header("secret-token"), "Bearer secret-token");
    assert_eq!(auth_header(""), "Bearer ");
}

#[test]
fn protocol_version_is_pinned() {
    assert_eq!(protocol_version(), "2022-06-28");
}

#[test]
fn request_urls() {
    let base = base_url();
    assert_eq!(
        children_url(base, "page-42"),
        "https://api.notion.com/v1/blocks/page-42/children"
    );
    assert_eq!(block_url(base, "b7"), "https://api.notion.com/v1/blocks/b7");
    assert_eq!(search_url(base), "https://api.notion.com/v1/search");
    assert_eq!(
        query_url(base, "db-1"),
        "https://api.notion.com/v1/databases/db-1/query"
    );
}

#[test]
fn fixed_bodies() {
    assert_eq!(
        search_body(),
        "{\"filter\":{\"value\":\"database\",\"property\":\"object\"}}"
    );
    assert_eq!(query_body(), "{}");
    assert_eq!(archive_body(), "{\"archived\":true}");
}

#[test]
fn escape_handles_quotes_backslashes_and_controls() {
    assert_eq!(escape_json("plain"), "plain");
    assert_eq!(escape_json("a\"b"), "a\\\"b");
    assert_eq!(escape_json("a\\b"), "a\\\\b");
    assert_eq!(escape_json("a\nb\tc\rd"), "a\\nb\\tc\\rd");
    assert_eq!(escape_json("\u{1}\u{1f}"), "\\u0001\\u001f");
    assert_eq!(escape_json("caf\u{e9}"), "caf\u{e9}");
}

fn paragraph_block(text: &str) -> String {
    format!(
        "{{\"object\":\"block\",\"type\":\"paragraph\",\"paragraph\":{{\"rich_text\":[{{\"type\":\"text\",\"text\":{{\"content\":\"{}\"}}}}]}}}}",
        text
    )
}

#[test]
fn append_body_has_one_block_per_paragraph_in_order() {
    let paragraphs = split_paragraphs("Line1\n\nLine2");
    assert_eq!(paragraphs, vec!["Line1".to_string(), "Line2".to_string()]);
    let body = build_append_body(&paragraphs);
    let expected = format!(
        "{{\"children\":[{},{}]}}",
        paragraph_block("Line1"),
        paragraph_block("Line2")
    );
    assert_eq!(body, expected);
}

#[test]
fn append_body_of_no_paragraphs_is_an_empty_list() {
    let body = build_append_body(&Vec::new());
    assert_eq!(body, "{\"children\":[]}");
}

#[test]
fn append_body_is_valid_json_with_escaped_content() {
    let paragraphs = vec!["say \"hi\"".to_string(), "a\\b".to_string()];
    let body = build_append_body(&paragraphs);
    let value: serde_json::Value = serde_json::from_str(&body).expect("body must parse");
    let children = value.get("children").and_then(|c| c.as_array()).unwrap();
    assert_eq!(children.len(), 2);
    for (i, expected) in ["say \"hi\"", "a\\b"].iter().enumerate() {
        let content = children[i]
            .get("paragraph")
            .and_then(|p| p.get("rich_text"))
            .and_then(|r| r.as_array())
            .and_then(|r| r[0].get("text"))
            .and_then(|t| t.get("content"))
            .and_then(|c| c.as_str())
            .unwrap();
        assert_eq!(content, *expected);
        assert_eq!(
            children[i].get("type").and_then(|t| t.as_str()),
            Some("paragraph")
        );
    }
}
