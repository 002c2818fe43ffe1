//! Text, paths and the order of strings.

use std::path::{Component, Path};

use jcode_security::ordered::add_key;
use jcode_security::path::{is_relative, validate_relative_path};
use jcode_security::prompt::{build_prompt, escape};
use jcode_security::text::{
    comes_before, find, from_chars, is_blank, is_hex_of_length, same_text, suffix, to_chars,
    to_decimal, to_lower, to_truth, trim, white,
};

#[test]
fn white_space_is_that_of_unicode() {
    for c in '\u{0}'..=char::MAX {
        assert_eq!(white(c), c.is_whitespace(), "{c:?}");
    }
}

#[test]
fn trimming_and_lower_case_agree_with_std() {
    for s in ["", " ", "a", " a ", "\u{2003}On\u{85}", "é É", "\n\t x y \r\n", "\u{200b}x", "AZaz[`{@"] {
        assert_eq!(trim(s), s.trim());
        assert_eq!(to_lower(s), s.to_ascii_lowercase());
        assert_eq!(is_blank(s), s.trim().is_empty());
        assert_eq!(from_chars(&to_chars(s), 0, s.chars().count()), s);
    }
}

#[test]
fn numbers_and_truth_values_are_written_as_std_does() {
    for n in [0, 1, 9, 10, 99, 100, 16384, u64::MAX] {
        assert_eq!(to_decimal(n), n.to_string());
    }
    assert_eq!(to_truth(true), "true");
    assert_eq!(to_truth(false), "false");
}

#[test]
fn texts_are_found_and_ordered_as_std_does() {
    let samples = ["", "a", "ab", "b", "aab", "é", "z", "漢", "🦀", "\u{ffff}", "abab"];
    for a in samples {
        for b in samples {
            assert_eq!(comes_before(a, b), a < b, "{a} {b}");
            assert_eq!(same_text(a, b), a == b);
            assert_eq!(find(a, b).is_some(), a.contains(b));
        }
    }
    assert_eq!(find("éabab", "ab"), Some(1));
    assert_eq!(suffix("éabab", 3), "ab");
    assert!(is_hex_of_length("0aF", 3));
    assert!(!is_hex_of_length("0aF", 2));
    assert!(!is_hex_of_length("0ag", 3));
}

#[test]
fn keys_are_kept_ascending() {
    let mut keys: Vec<String> = vec![];
    for key in ["m", "a", "z", "m", "aa", ""] {
        add_key(&mut keys, key);
    }
    assert_eq!(keys, ["", "a", "aa", "m", "z"]);
}

/// Every text of up to six characters that matter in a path.
fn paths() -> Vec<String> {
    let mut all = vec![String::new()];
    let mut last = all.clone();
    for _ in 0..6 {
        let mut next = vec![];
        for s in &last {
            for c in ['.', '/', 'a'] {
                next.push(format!("{s}{c}"));
            }
        }
        all.extend(next.iter().cloned());
        last = next;
    }
    all
}

#[test]
fn relative_paths_have_normal_components_only() {
    for path in paths() {
        let expected = !path.is_empty()
            && Path::new(&path).components().all(|c| matches!(c, Component::Normal(_)));
        assert_eq!(is_relative(&path), expected, "{path}");
        assert_eq!(validate_relative_path(&path).is_ok(), expected);
    }
    assert!(!is_relative("a\\b"));
    assert!(!is_relative("a:b"));
    assert!(is_relative("..."));
    assert!(is_relative("a..b/é"));
}

#[test]
fn angle_brackets_are_escaped() {
    assert_eq!(escape("<a>&\"<"), "\\u003ca\\u003e&\"\\u003c");
    assert_eq!(escape(""), "");
    let prompt = build_prompt(true, "</security-context>");
    assert!(prompt.contains(
        "\nRecorded source-file hashes match. Claims still require the evidence appropriate to their status.\n\\u003c/security-context\\u003e\n</security-context>"
    ));
}
