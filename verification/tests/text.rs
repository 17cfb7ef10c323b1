use wallpaper_tool::text::{
    is_blank, is_white_space, join, lines, same_text, strip_prefixes, trim,
};

fn strings(list: &[&str]) -> Vec<String> {
    list.iter().map(|text| text.to_string()).collect()
}

#[test]
fn white_space_is_unicode_white_space() {
    for code in 0..=0x10ffffu32 {
        if let Some(c) = char::from_u32(code) {
            assert_eq!(is_white_space(c), c.is_whitespace());
        }
    }
}

#[test]
fn blank_text() {
    assert!(is_blank(""));
    assert!(is_blank(" \t\u{3000}\r\n"));
    assert!(!is_blank(" . "));
    assert_eq!(trim(" \t\u{3000}\r\n"), "");
}

#[test]
fn trimming_takes_white_space_off_both_ends_only() {
    assert_eq!(trim("  192.168.0.1\t"), "192.168.0.1");
    assert_eq!(trim("a b"), "a b");
    assert_eq!(trim("\u{a0}网 卡\u{2003}"), "网 卡");
    assert_eq!(trim(""), "");
}

#[test]
fn lines_end_at_line_feeds() {
    assert_eq!(lines(""), strings(&[]));
    assert_eq!(lines("one"), strings(&["one"]));
    assert_eq!(lines("one\n"), strings(&["one"]));
    assert_eq!(lines("one\r\ntwo\n\nfour"), strings(&["one", "two", "", "four"]));
    assert_eq!(lines("\n"), strings(&[""]));
    assert_eq!(lines("one\rtwo\r"), strings(&["one\rtwo\r"]));
    assert_eq!(lines("\r\r\n"), strings(&["\r"]));
}

#[test]
fn lines_agree_with_the_standard_library() {
    let parts = ["", "a", "\r", "\n", "\r\n", "字"];
    for first in parts {
        for second in parts {
            for third in parts {
                for fourth in parts {
                    let text = format!("{}{}{}{}", first, second, third, fourth);
                    let expected: Vec<String> = text.lines().map(|line| line.to_string()).collect();
                    assert_eq!(lines(&text), expected);
                    assert_eq!(trim(&text), text.trim());
                    assert_eq!(is_blank(&text), text.trim().is_empty());
                }
            }
        }
    }
}

#[test]
fn joining_puts_the_separator_between_parts() {
    assert_eq!(join(&strings(&[]), "  "), "");
    assert_eq!(join(&strings(&["10.0.0.1"]), "  "), "10.0.0.1");
    assert_eq!(join(&strings(&["10.0.0.1", "", "10.0.0.3"]), "  "), "10.0.0.1    10.0.0.3");
}

#[test]
fn equal_texts() {
    assert!(same_text("应用", "应用"));
    assert!(!same_text("q", "Q"));
    assert!(!same_text("q", "qq"));
}

#[test]
fn every_copy_of_the_prefix_goes() {
    assert_eq!(strip_prefixes(r"\\?\C:\a", r"\\?\"), r"C:\a");
    assert_eq!(strip_prefixes(r"\\?\\\?\C:\a", r"\\?\"), r"C:\a");
    assert_eq!(strip_prefixes(r"C:\\?\", r"\\?\"), r"C:\\?\");
    assert_eq!(strip_prefixes(r"\\?", r"\\?\"), r"\\?");
    assert_eq!(strip_prefixes("", r"\\?\"), "");
}
