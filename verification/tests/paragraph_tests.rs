use notion_sync::paragraphs::{count_lines, join_paragraphs, split_paragraphs};

fn strings(parts: &[&str]) -> Vec<String> {
    parts.iter().map(|p| p.to_string()).collect()
}

#[test]
fn split_drops_trailing_blank() {
    assert_eq!(split_paragraphs("a\nb\n"), strings(&["a", "b"]));
}

#[test]
fn split_drops_blank_middle_line() {
    assert_eq!(split_paragraphs("a\n\nb"), strings(&["a", "b"]));
}

#[test]
fn split_empty_content_has_no_paragraphs() {
    assert_eq!(split_paragraphs(""), strings(&[]));
}

#[test]
fn split_only_breaks_has_no_paragraphs() {
    assert_eq!(split_paragraphs("\n\n\n"), strings(&[]));
}

#[test]
fn split_without_breaks_is_one_paragraph() {
    assert_eq!(split_paragraphs("solo"), strings(&["solo"]));
}

#[test]
fn join_appends_one_break_per_paragraph() {
    assert_eq!(join_paragraphs(&strings(&["a", "b"])), "a\nb\n");
    assert_eq!(join_paragraphs(&strings(&[])), "");
}

#[test]
fn round_trip_without_blank_lines() {
    let content = "a\nb\n";
    let rewritten = join_paragraphs(&split_paragraphs(content));
    assert_eq!(rewritten, content);
}

#[test]
fn written_paragraphs_read_back_unchanged() {
    let ps = strings(&["x", "y z"]);
    assert_eq!(split_paragraphs(&join_paragraphs(&ps)), ps);
}

#[test]
fn blank_lines_do_not_round_trip() {
    let rewritten = join_paragraphs(&split_paragraphs("a\n\nb"));
    assert_eq!(rewritten, "a\nb\n");
}

#[test]
fn missing_final_break_does_not_round_trip() {
    let rewritten = join_paragraphs(&split_paragraphs("a\nb"));
    assert_eq!(rewritten, "a\nb\n");
}

#[test]
fn count_lines_matches_line_iterator() {
    for text in ["", "a", "a\n", "a\nb", "a\n\nb", "\n", "x\r\ny\n"] {
        assert_eq!(count_lines(text), text.lines().count(), "text {:?}", text);
    }
}
