use knope_versioning::jsonc::strip_json_comments;

#[test]
fn removes_line_comments() {
    let input = "{\n  // comment\n  \"key\": \"value\"\n}";
    let expected = "{\n  \n  \"key\": \"value\"\n}";
    assert_eq!(strip_json_comments(input), expected);
}

#[test]
fn removes_block_comments() {
    let input = "{/* comment */\n\"key\": \"value\"\n}";
    let expected = "{\n\"key\": \"value\"\n}";
    assert_eq!(strip_json_comments(input), expected);
}

#[test]
fn preserves_comments_inside_strings() {
    let input = "{\n  \"regex\": \"/\\\\/\"\n}";
    assert_eq!(strip_json_comments(input), input);
}

#[test]
fn keeps_text_without_slashes() {
    let input = "{\"a\": [1, 2, \"b\"]}";
    assert_eq!(strip_json_comments(input), input);
}

#[test]
fn unterminated_block_comment_runs_to_the_end() {
    assert_eq!(strip_json_comments("{} /* open"), "{} ");
}

#[test]
fn line_comment_at_end_of_input() {
    assert_eq!(strip_json_comments("1 // x"), "1 ");
}

#[test]
fn slash_without_comment_is_kept() {
    let text = "{\"a\": 1 / 2, \"url\": \"http://x\"}";
    assert_eq!(strip_json_comments(text), text);
}

#[test]
fn stripping_only_leaves_characters_out() {
    let text = "{ /* c */ \"a\": 1 // d\n}";
    let stripped = strip_json_comments(text);
    assert_eq!(stripped, "{  \"a\": 1 \n}");
    assert!(stripped.len() <= text.len());
}

#[test]
fn stripping_twice_is_stripping_once() {
    let text = "{ \"a\": \"/* kept */\", /* b */ \"c\": 1 // d\n, \"e\": \"x\\\"//y\" }";
    let once = strip_json_comments(text);
    assert_eq!(strip_json_comments(&once), once);
}
