use music_player::text::{
    chars_of, collapse_spaces, compare, compare_text, contains, find, find_from, matches_at,
    replace_all, same_text, slice, string_of, trim, whitespace, Relation,
};

fn cs(s: &str) -> Vec<char> {
    s.chars().collect()
}

fn st(v: &[char]) -> String {
    v.iter().collect()
}

#[test]
fn chars_and_string_round_trip() {
    assert_eq!(chars_of("héllo"), vec!['h', 'é', 'l', 'l', 'o']);
    assert_eq!(chars_of(""), Vec::<char>::new());
    assert_eq!(string_of(&cs("A & B")), "A & B");
    assert_eq!(string_of(&Vec::new()), "");
}

#[test]
fn slice_takes_the_given_range() {
    assert_eq!(slice(&cs("abcdef"), 1, 4), cs("bcd"));
    assert_eq!(slice(&cs("abc"), 3, 3), cs(""));
    assert_eq!(slice(&cs("abc"), 0, 3), cs("abc"));
}

#[test]
fn matches_at_tests_one_position() {
    let hay = cs("abcabc");
    assert!(matches_at(&hay, &cs("abc"), 0));
    assert!(matches_at(&hay, &cs("abc"), 3));
    assert!(!matches_at(&hay, &cs("abc"), 1));
    assert!(!matches_at(&hay, &cs("abc"), 4));
    assert!(!matches_at(&hay, &cs("abc"), 100));
    assert!(matches_at(&hay, &cs(""), 6));
    assert!(!matches_at(&hay, &cs(""), 7));
    assert!(!matches_at(&cs("ab"), &cs("abc"), 0));
}

#[test]
fn find_gives_the_first_occurrence() {
    assert_eq!(find(&cs("A - B - C"), &cs(" - ")), Some(1));
    assert_eq!(find(&cs("abc"), &cs(" - ")), None);
    assert_eq!(find(&cs("abc"), &cs("")), Some(0));
    assert_eq!(find(&cs(""), &cs("")), Some(0));
    assert_eq!(find(&cs(""), &cs("a")), None);
    assert_eq!(find(&cs("aaa"), &cs("aa")), Some(0));
}

#[test]
fn find_from_skips_what_comes_before() {
    assert_eq!(find_from(&cs("abcabc"), &cs("abc"), 1), Some(3));
    assert_eq!(find_from(&cs("abcabc"), &cs("abc"), 4), None);
    assert_eq!(find_from(&cs("abc"), &cs(""), 3), Some(3));
    assert_eq!(find_from(&cs("abc"), &cs(""), 4), None);
    assert_eq!(find_from(&cs("abc"), &cs("c"), usize::MAX), None);
}

#[test]
fn contains_is_substring_search() {
    assert!(contains("hello world", "lo w"));
    assert!(contains("hello", ""));
    assert!(contains("", ""));
    assert!(!contains("", "a"));
    assert!(!contains("hello", "world"));
    assert!(contains("hello", "hello"));
    assert!(!contains("hello", "hello!"));
    assert!(!contains("Song1", "song1"));
}

#[test]
fn replace_all_takes_occurrences_from_the_left() {
    assert_eq!(st(&replace_all(&cs("A&B"), &cs("&"), &cs(" & "))), "A & B");
    assert_eq!(st(&replace_all(&cs("aaa"), &cs("aa"), &cs("b"))), "ba");
    assert_eq!(st(&replace_all(&cs("aaaa"), &cs("aa"), &cs("b"))), "bb");
    assert_eq!(st(&replace_all(&cs("abc"), &cs("x"), &cs("y"))), "abc");
    assert_eq!(st(&replace_all(&cs("abc"), &cs("abc"), &cs(""))), "");
    assert_eq!(st(&replace_all(&cs("ab"), &cs("abc"), &cs("x"))), "ab");
    assert_eq!(st(&replace_all(&cs(""), &cs("a"), &cs("x"))), "");
    assert_eq!(st(&replace_all(&cs("&&"), &cs("&"), &cs("&&"))), "&&&&");
}

#[test]
fn replace_all_leaves_the_text_when_the_pattern_is_empty() {
    assert_eq!(st(&replace_all(&cs("abc"), &cs(""), &cs("x"))), "abc");
    assert_eq!(st(&replace_all(&cs(""), &cs(""), &cs("x"))), "");
}

#[test]
fn replace_all_agrees_with_std_on_nonempty_patterns() {
    let texts = ["", "a", "aa", "aaa", "abab", "ababa", "feat.feat.", "x&y&&z", "a  b   c"];
    let patterns = ["a", "aa", "ab", "aba", "&", "feat.", "  "];
    let fills = ["", "x", " & ", "aa"];
    for t in texts {
        for p in patterns {
            for f in fills {
                assert_eq!(st(&replace_all(&cs(t), &cs(p), &cs(f))), t.replace(p, f));
            }
        }
    }
}

#[test]
fn collapse_spaces_leaves_single_spaces() {
    assert_eq!(st(&collapse_spaces(&cs("a  b"))), "a b");
    assert_eq!(st(&collapse_spaces(&cs("a   b"))), "a b");
    assert_eq!(st(&collapse_spaces(&cs("a    b     c"))), "a b c");
    assert_eq!(st(&collapse_spaces(&cs("  a  "))), " a ");
    assert_eq!(st(&collapse_spaces(&cs("a b"))), "a b");
    assert_eq!(st(&collapse_spaces(&cs(""))), "");
    assert_eq!(st(&collapse_spaces(&cs(" "))), " ");
    assert_eq!(st(&collapse_spaces(&cs("   "))), " ");
    assert_eq!(st(&collapse_spaces(&cs("a\t\tb"))), "a\t\tb");
}

#[test]
fn whitespace_agrees_with_std() {
    let mut n: u32 = 0;
    while n <= 0x10FFFF {
        if let Some(c) = char::from_u32(n) {
            assert_eq!(whitespace(c), c.is_whitespace(), "code point {:x}", n);
        }
        n += 1;
    }
}

#[test]
fn trim_removes_white_space_at_both_ends() {
    assert_eq!(st(&trim(&cs("  a b  "))), "a b");
    assert_eq!(st(&trim(&cs("\t\na\u{3000}"))), "a");
    assert_eq!(st(&trim(&cs("   "))), "");
    assert_eq!(st(&trim(&cs(""))), "");
    assert_eq!(st(&trim(&cs("a"))), "a");
    assert_eq!(st(&trim(&cs("a  "))), "a");
    assert_eq!(st(&trim(&cs("  a"))), "a");
}

#[test]
fn trim_agrees_with_std() {
    let texts = ["", " ", "a", " a", "a ", " a b ", "\u{a0}x\u{2003}", "\r\n x y \t", "\u{85}"];
    for t in texts {
        assert_eq!(st(&trim(&cs(t))), t.trim());
    }
}

#[test]
fn compare_is_the_lexicographic_order() {
    assert_eq!(compare(&cs("a"), &cs("b")), Relation::Before);
    assert_eq!(compare(&cs("b"), &cs("a")), Relation::After);
    assert_eq!(compare(&cs("abc"), &cs("abc")), Relation::Same);
    assert_eq!(compare(&cs(""), &cs("")), Relation::Same);
    assert_eq!(compare(&cs(""), &cs("a")), Relation::Before);
    assert_eq!(compare(&cs("a"), &cs("")), Relation::After);
    assert_eq!(compare(&cs("ab"), &cs("abc")), Relation::Before);
    assert_eq!(compare(&cs("abd"), &cs("abc")), Relation::After);
    assert_eq!(compare(&cs("B"), &cs("a")), Relation::Before);
    assert_eq!(compare(&cs("Z"), &cs("a")), Relation::Before);
}

#[test]
fn compare_text_agrees_with_the_order_of_strings() {
    let texts = ["", "a", "A", "ab", "abc", "b", "é", "z", "日本", "\u{10FFFF}", "a b", "a-b"];
    for x in texts {
        for y in texts {
            let expected = if x < y {
                Relation::Before
            } else if x == y {
                Relation::Same
            } else {
                Relation::After
            };
            assert_eq!(compare_text(x, y), expected, "{:?} and {:?}", x, y);
        }
    }
}

#[test]
fn same_text_tells_equal_from_different() {
    assert!(same_text("mp3", "mp3"));
    assert!(!same_text("mp3", "MP3"));
    assert!(!same_text("mp3", "mp"));
    assert!(same_text("", ""));
}
