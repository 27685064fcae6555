use lua_desanitizer::lua_desanitizer::{contains_nil, desanitize, is_comment_line, is_whitespace_char};

fn chars(s: &str) -> Vec<char> {
    s.chars().collect()
}

#[test]
fn nil_assignment_is_commented() {
    assert_eq!(desanitize("local x = nil"), "--local x = nil");
}

#[test]
fn commented_line_is_unchanged() {
    assert_eq!(desanitize("-- local x = nil"), "-- local x = nil");
}

#[test]
fn indented_comment_is_unchanged() {
    assert_eq!(desanitize("   \t-- os = nil"), "   \t-- os = nil");
}

#[test]
fn near_miss_is_unchanged() {
    assert_eq!(desanitize("x =nil"), "x =nil");
    assert_eq!(desanitize("x = ni"), "x = ni");
    assert_eq!(desanitize("x = Nil"), "x = Nil");
}

#[test]
fn substring_inside_a_longer_identifier_still_matches() {
    assert_eq!(desanitize("x = nil_value"), "--x = nil_value");
    assert_eq!(desanitize("x = nil_value = nil"), "--x = nil_value = nil");
    assert_eq!(desanitize("print(\"a = nil\")"), "--print(\"a = nil\")");
}

#[test]
fn indentation_is_kept_after_the_marker() {
    assert_eq!(desanitize("\tsanitizeModule('os') io = nil  "), "--\tsanitizeModule('os') io = nil  ");
}

#[test]
fn three_lines_first_and_last_commented() {
    let input = "os = nil\nlocal y = 1\nio = nil";
    assert_eq!(desanitize(input), "--os = nil\r\nlocal y = 1\r\n--io = nil");
}

#[test]
fn bare_newlines_become_crlf() {
    assert_eq!(desanitize("a\nb\nc"), "a\r\nb\r\nc");
    assert_eq!(desanitize("a\r\nb\nc"), "a\r\nb\r\nc");
}

#[test]
fn trailing_newline_is_dropped() {
    assert_eq!(desanitize("a\n"), "a");
    assert_eq!(desanitize("a\r\n"), "a");
}

#[test]
fn empty_text_stays_empty() {
    assert_eq!(desanitize(""), "");
    assert_eq!(desanitize("\n"), "");
}

#[test]
fn blank_lines_inside_are_kept() {
    assert_eq!(desanitize("a\n\nb = nil"), "a\r\n\r\n--b = nil");
}

#[test]
fn lone_carriage_return_stays_in_the_line() {
    assert_eq!(desanitize("a\rb"), "a\rb");
    assert_eq!(desanitize("a\r\r\nb"), "a\r\r\nb");
}

#[test]
fn non_ascii_text_is_kept() {
    assert_eq!(desanitize("é = nil\nñ"), "--é = nil\r\nñ");
}

#[test]
fn second_pass_changes_nothing() {
    let inputs = [
        "os = nil\nlocal y = 1\nio = nil",
        "  lfs = nil\r\n-- x = nil\n\nrequire = nil\n",
        "",
        "\n",
        "a\r",
        "x = nil_value\n\tsanitizeModule('io') = nil",
    ];
    for input in inputs {
        let once = desanitize(input);
        assert_eq!(desanitize(&once), once);
    }
}

#[test]
fn trailing_blank_line_breaks_idempotence() {
    let once = desanitize("a\n\n");
    assert_eq!(once, "a\r\n");
    assert_eq!(desanitize(&once), "a");
}

#[test]
fn lines_are_kept_in_order() {
    let input = "os = nil\nlocal y = 1\n-- io = nil\nlfs = nil";
    let output = desanitize(input);
    let before: Vec<&str> = input.lines().collect();
    let after: Vec<&str> = output.lines().collect();
    assert_eq!(before.len(), after.len());
    for (b, a) in before.iter().zip(after.iter()) {
        assert!(*a == *b || *a == format!("--{}", b));
    }
}

#[test]
fn every_newline_follows_a_carriage_return() {
    let output = desanitize("a\nb = nil\n\nc\r\nd\n");
    let bytes = output.as_bytes();
    for i in 0..bytes.len() {
        if bytes[i] == b'\n' {
            assert!(i > 0 && bytes[i - 1] == b'\r');
        }
    }
}

#[test]
fn whitespace_matches_std() {
    for u in 0u32..0x11_0000 {
        if let Some(c) = char::from_u32(u) {
            assert_eq!(is_whitespace_char(c), c.is_whitespace(), "{:?}", c);
        }
    }
}

#[test]
fn comment_detection() {
    assert!(is_comment_line(&chars("--")));
    assert!(is_comment_line(&chars(" \u{3000}-- x")));
    assert!(!is_comment_line(&chars("-")));
    assert!(!is_comment_line(&chars("x -- y")));
    assert!(!is_comment_line(&chars("")));
}

#[test]
fn nil_detection() {
    assert!(contains_nil(&chars(" = nil")));
    assert!(contains_nil(&chars("a = nil;")));
    assert!(!contains_nil(&chars(" = ni")));
    assert!(!contains_nil(&chars("a= nil")));
}
