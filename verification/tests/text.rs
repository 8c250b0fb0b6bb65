use contest_harvest::text::{
    chars_of, chars_precede, copy_range, drop_newlines, ends_with, find_from, find_last,
    holds_before, leading_end, matches_at, push_all, replace_range, same_chars, same_text,
    split_at_each, text_precedes, trailing_start,
};

fn v(s: &str) -> Vec<char> {
    s.chars().collect()
}

#[test]
fn chars_of_keeps_every_char() {
    assert_eq!(chars_of("a=b"), vec!['a', '=', 'b']);
    assert_eq!(chars_of(""), Vec::<char>::new());
    assert_eq!(chars_of("é\u{1F600}"), vec!['é', '\u{1F600}']);
}

#[test]
fn copy_range_copies_the_range() {
    assert_eq!(copy_range(&v("abcdef"), 1, 4), v("bcd"));
    assert_eq!(copy_range(&v("abcdef"), 2, 2), v(""));
    assert_eq!(copy_range(&v("abcdef"), 0, 6), v("abcdef"));
}

#[test]
fn push_all_appends() {
    let mut out = v("ab");
    push_all(&mut out, &v("cd"));
    assert_eq!(out, v("abcd"));
    push_all(&mut out, &v(""));
    assert_eq!(out, v("abcd"));
}

#[test]
fn matches_at_compares_in_place() {
    assert!(matches_at(&v("hello world"), 6, &v("world")));
    assert!(!matches_at(&v("hello world"), 5, &v("world")));
    assert!(!matches_at(&v("hello"), 3, &v("low")));
    assert!(matches_at(&v("hello"), 5, &v("")));
}

#[test]
fn ends_with_and_same_chars() {
    assert!(ends_with(&v("a/b.sol"), &v(".sol")));
    assert!(!ends_with(&v("a/b.sol.txt"), &v(".sol")));
    assert!(!ends_with(&v("sol"), &v(".sol")));
    assert!(ends_with(&v(".sol"), &v(".sol")));
    assert!(same_chars(&v("blob"), &v("blob")));
    assert!(!same_chars(&v("blob"), &v("blobs")));
    assert!(!same_chars(&v("blob"), &v("blot")));
    assert!(same_text("public", "public"));
    assert!(!same_text("public", "Public"));
    assert!(!same_text("public", ""));
}

#[test]
fn leading_end_skips_every_repetition() {
    assert_eq!(leading_end(&v("ababc"), 0, &v("ab")), 4);
    assert_eq!(leading_end(&v("xababc"), 1, &v("ab")), 5);
    assert_eq!(leading_end(&v("abc"), 0, &v("bc")), 0);
    assert_eq!(leading_end(&v("abab"), 0, &v("ab")), 4);
    assert_eq!(leading_end(&v("abc"), 0, &v("")), 0);
}

#[test]
fn trailing_start_skips_every_repetition() {
    assert_eq!(trailing_start(&v("cabab"), 0, &v("ab")), 1);
    assert_eq!(trailing_start(&v("abab"), 2, &v("ab")), 2);
    assert_eq!(trailing_start(&v("abab"), 1, &v("ab")), 2);
    assert_eq!(trailing_start(&v("abc"), 0, &v("ab")), 3);
    assert_eq!(trailing_start(&v("abc"), 0, &v("")), 3);
}

#[test]
fn replace_range_replaces_from_the_left() {
    assert_eq!(replace_range(&v("a\\\"b\\\"c"), 0, 7, &v("\\\""), &v("\"")), v("a\"b\"c"));
    assert_eq!(replace_range(&v("aaa"), 0, 3, &v("aa"), &v("b")), v("ba"));
    assert_eq!(replace_range(&v("xaaay"), 1, 4, &v("a"), &v("")), v(""));
    assert_eq!(replace_range(&v("abc"), 0, 3, &v(""), &v("z")), v("abc"));
    assert_eq!(replace_range(&v("abc"), 0, 2, &v("bc"), &v("z")), v("ab"));
}

#[test]
fn find_last_and_find_from() {
    assert_eq!(find_last(&v("a/b/c"), '/'), Some(3));
    assert_eq!(find_last(&v("abc"), '/'), None);
    assert_eq!(find_last(&v(""), '/'), None);
    assert_eq!(find_from(&v("a=b=c"), 0, '='), 1);
    assert_eq!(find_from(&v("a=b=c"), 2, '='), 3);
    assert_eq!(find_from(&v("a=b=c"), 4, '='), 5);
    assert!(holds_before(&v("a=b=c"), 3, '='));
    assert!(!holds_before(&v("a=b=c"), 1, '='));
}

#[test]
fn split_at_each_gives_one_piece_more_than_separators() {
    assert_eq!(split_at_each(&v("a\nb\n\nc"), '\n'), vec![v("a"), v("b"), v(""), v("c")]);
    assert_eq!(split_at_each(&v("a\n"), '\n'), vec![v("a"), v("")]);
    assert_eq!(split_at_each(&v(""), '\n'), vec![v("")]);
    assert_eq!(split_at_each(&v("abc"), '\n'), vec![v("abc")]);
}

#[test]
fn drop_newlines_drops_only_newlines() {
    assert_eq!(drop_newlines(&v("ab\ncd\n\nef\n")), v("abcdef"));
    assert_eq!(drop_newlines(&v("a\r\nb")), v("a\rb"));
    assert_eq!(drop_newlines(&v("")), v(""));
}

#[test]
fn the_order_of_strings_is_the_order_of_the_standard_library() {
    let texts = [
        "", "a", "A", "aa", "ab", "b", "Token", "Tokens", "token", "Z", "_x", "0", "10", "9",
        "\u{e9}", "e\u{301}", "\u{1F600}", "\u{ffff}", "\u{10000}", "z\u{e9}", "zz",
    ];
    for one in texts {
        for other in texts {
            assert_eq!(text_precedes(one, other), one < other, "{:?} {:?}", one, other);
            assert_eq!(chars_precede(&v(one), &v(other)), one < other);
        }
    }
}
