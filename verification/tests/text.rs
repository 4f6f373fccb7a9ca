use todo_rs::keys::key_byte;
use todo_rs::text::{insert_char, remove_char, str_len, strip_prefix};

#[test]
fn strip_prefix_returns_what_follows_the_prefix() {
    assert_eq!(strip_prefix("TODO: x", "TODO: "), Some("x"));
    assert_eq!(strip_prefix("TODO: ", "TODO: "), Some(""));
    assert_eq!(strip_prefix("abc", ""), Some("abc"));
    assert_eq!(strip_prefix("", ""), Some(""));
    assert_eq!(strip_prefix("\u{e9}t\u{e9}", "\u{e9}"), Some("t\u{e9}"));
}

#[test]
fn strip_prefix_is_none_without_the_prefix() {
    assert_eq!(strip_prefix("TODO", "TODO: "), None);
    assert_eq!(strip_prefix("", "a"), None);
    assert_eq!(strip_prefix("abd", "abc"), None);
    assert_eq!(strip_prefix("xab", "ab"), None);
    assert_eq!(strip_prefix("\u{e9}", "\u{e8}"), None);
    assert_eq!(strip_prefix("e", "\u{e9}"), None);
}

#[test]
fn strip_prefix_agrees_with_the_standard_library() {
    let texts = ["", "a", "ab", "TODO: x", "DONE: y", "\u{e9}a", "\u{1f600}\u{e9}", "a\u{e9}"];
    for text in texts {
        for prefix in texts {
            assert_eq!(strip_prefix(text, prefix), text.strip_prefix(prefix));
        }
    }
}

#[test]
fn insert_char_agrees_with_the_standard_library() {
    for text in ["", "a", "abc", "\u{e9}a", "a\u{1f600}b"] {
        for at in 0..=text.len() {
            if text.is_char_boundary(at) {
                for c in ['x', ' ', '\u{e9}'] {
                    let mut ours = text.to_string();
                    insert_char(&mut ours, at, c);
                    let mut theirs = text.to_string();
                    theirs.insert(at, c);
                    assert_eq!(ours, theirs);
                }
            }
        }
    }
}

#[test]
fn remove_char_agrees_with_the_standard_library() {
    for text in ["a", "abc", "\u{e9}a", "a\u{1f600}b", "\u{20ac}", "\u{1f600}"] {
        for at in 0..text.len() {
            if text.is_char_boundary(at) {
                let mut ours = text.to_string();
                remove_char(&mut ours, at);
                let mut theirs = text.to_string();
                theirs.remove(at);
                assert_eq!(ours, theirs);
            }
        }
    }
}

#[test]
fn str_len_counts_bytes() {
    assert_eq!(str_len(""), 0);
    assert_eq!(str_len("abc"), 3);
    assert_eq!(str_len("\u{e9}"), 2);
    assert_eq!(str_len("\u{1f600}"), 4);
}

#[test]
fn key_byte_is_the_low_byte() {
    assert_eq!(key_byte(0), 0);
    assert_eq!(key_byte('q' as i32), b'q');
    assert_eq!(key_byte(0x14b), 0x4b);
    assert_eq!(key_byte(-1), 0xff);
    assert_eq!(key_byte(i32::MIN), 0);
    for key in [-300, -1, 0, 10, 255, 256, 0x104, 70000] {
        assert_eq!(key_byte(key), key as u8);
    }
}
