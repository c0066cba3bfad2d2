use notion_sync::client::{parse_json, NotionError};
use notion_sync::extract::extract_content;
use notion_sync::protocol::children_url;
use notion_sync::NotionClient;

#[test]
fn new_client_has_fixed_endpoint_and_no_page() {
    let client = NotionClient::new("tok".to_string());
    assert_eq!(client.token, "tok");
    assert_eq!(client.base_url, "https://api.notion.com/v1");
    assert_eq!(client.current_page_id, "");
}

#[test]
fn empty_token_fails_every_operation_before_any_network_call() {
    let client = NotionClient::new(String::new());
    assert!(matches!(client.list_databases(), Err(NotionError::Unauthenticated)));
    assert!(matches!(client.query_database("db"), Err(NotionError::Unauthenticated)));
    assert!(matches!(client.get_page_content("p"), Err(NotionError::Unauthenticated)));
    assert!(matches!(
        client.update_page_content("p", "text"),
        Err(NotionError::Unauthenticated)
    ));
}

#[test]
fn set_token_replaces_only_the_token() {
    let mut client = NotionClient::new(String::new());
    client.select_page("p".to_string());
    client.set_token("fresh".to_string());
    assert_eq!(client.token, "fresh");
    assert_eq!(client.base_url, "https://api.notion.com/v1");
    assert_eq!(client.current_page_id, "p");
}

#[test]
fn selected_page_id_drives_both_fetch_and_save_urls() {
    let mut client = NotionClient::new("tok".to_string());
    client.select_page("page-42".to_string());
    assert_eq!(client.current_page_id, "page-42");
    let fetch_url = children_url(&client.base_url, &client.current_page_id);
    let save_url = children_url(&client.base_url, &client.current_page_id);
    assert_eq!(fetch_url, "https://api.notion.com/v1/blocks/page-42/children");
    assert_eq!(fetch_url, save_url);
}

#[test]
fn unauthenticated_message_matches() {
    assert_eq!(NotionError::Unauthenticated.message(), "No API token provided");
    assert_eq!(NotionError::Transport("boom".to_string()).message(), "boom");
}

#[test]
fn parse_json_accepts_a_response_body() {
    let body = "{\"results\":[{\"type\":\"paragraph\",\"paragraph\":{\"rich_text\":[{\"plain_text\":\"Hi \"},{\"plain_text\":\"there\"}]}},{\"type\":\"heading_1\"}]}";
    let doc = parse_json(body).expect("valid JSON must parse");
    assert_eq!(extract_content(&doc), "Hi there\n");
}

#[test]
fn parse_json_rejects_malformed_text() {
    assert!(matches!(parse_json("{\"results\":"), Err(NotionError::Protocol(_))));
    assert!(matches!(parse_json(""), Err(NotionError::Protocol(_))));
}

#[test]
fn parse_json_tolerates_unexpected_shapes() {
    let doc = parse_json("{\"results\":{\"not\":\"an array\"}}").expect("parses");
    assert_eq!(extract_content(&doc), "");
    let doc = parse_json("[1,2,3]").expect("parses");
    assert_eq!(extract_content(&doc), "");
}
