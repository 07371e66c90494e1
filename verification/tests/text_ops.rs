use magic_core::text::{
    compare_text, contains_char, contains_text, dash_line, decimal, ends_with, pad_right, remove_all,
    split_char, starts_with_char, TextOrder,
};

#[test]
fn compare_matches_str_order() {
    let words = ["", "a", "ab", "b", "B", "é", "z", "aé", "zz"];
    for x in words {
        for y in words {
            let expected = match x.cmp(y) {
                std::cmp::Ordering::Less => TextOrder::Less,
                std::cmp::Ordering::Equal => TextOrder::Equal,
                std::cmp::Ordering::Greater => TextOrder::Greater,
            };
            assert_eq!(compare_text(x, y), expected, "{x:?} vs {y:?}");
        }
    }
}

#[test]
fn searching() {
    assert!(ends_with("main.rs", ".rs"));
    assert!(!ends_with("rs", ".rs"));
    assert!(ends_with("x", ""));
    assert!(contains_text("a/target/b", "/target/"));
    assert!(!contains_text("a/targe/b", "/target/"));
    assert!(contains_text("", ""));
    assert!(contains_char("a/b", '/'));
    assert!(!contains_char("ab", '/'));
    assert!(starts_with_char("-x", '-'));
    assert!(!starts_with_char("", '-'));
}

#[test]
fn splitting_matches_str_split() {
    for s in ["", "a", "a/b", "/a/", "//", "a/b/c"] {
        let expected: Vec<String> = s.split('/').map(|p| p.to_string()).collect();
        assert_eq!(split_char(s, '/'), expected);
    }
}

#[test]
fn decimal_matches_to_string() {
    for n in [0usize, 7, 9, 10, 42, 100, 65535, usize::MAX] {
        assert_eq!(decimal(n), n.to_string());
    }
}

#[test]
fn padding_and_lines() {
    assert_eq!(pad_right("ab", 5), "ab   ");
    assert_eq!(pad_right("abcdef", 3), "abcdef");
    assert_eq!(pad_right("é", 3), "é  ");
    assert_eq!(dash_line(52), "-".repeat(52));
    assert_eq!(dash_line(0), "");
}

#[test]
fn remove_all_matches_replace() {
    let pat = "\\\\?\\";
    for s in [
        "\\\\?\\C:\\pkg\\editor",
        "/home/u/pkg/editor",
        "\\\\?\\\\\\?\\x",
        "ab\\\\?",
        "",
    ] {
        assert_eq!(remove_all(s, pat), s.replace(pat, ""), "{s:?}");
    }
    assert_eq!(remove_all("aaa", "aa"), "a");
    assert_eq!(remove_all("abc", ""), "abc");
}
