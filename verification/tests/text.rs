use tui_todo::text::{chars_of, contains_chars, find_matches, split_chars, stands_at};

fn cs(s: &str) -> Vec<char> {
    s.chars().collect()
}

#[test]
fn chars_of_a_string() {
    assert_eq!(chars_of("aé b"), vec!['a', 'é', ' ', 'b']);
    assert_eq!(chars_of(""), Vec::<char>::new());
}

#[test]
fn stands_at_checks_one_place() {
    let hay = cs("banana");
    assert!(stands_at(&hay, &cs("ana"), 1));
    assert!(stands_at(&hay, &cs("ana"), 3));
    assert!(!stands_at(&hay, &cs("ana"), 2));
    assert!(!stands_at(&hay, &cs("ana"), 4));
    assert!(stands_at(&hay, &cs(""), 6));
    assert!(!stands_at(&hay, &cs(""), 7));
    assert!(!stands_at(&hay, &cs("bananas"), 0));
    assert!(!stands_at(&hay, &cs("a"), usize::MAX));
}

#[test]
fn contains_agrees_with_std() {
    for (hay, needle) in [
        ("banana", "nan"),
        ("banana", "nab"),
        ("banana", ""),
        ("", ""),
        ("", "a"),
        ("abc", "abc"),
        ("abc", "abcd"),
        ("héllo", "él"),
        ("aab", "ab"),
    ] {
        assert_eq!(contains_chars(&cs(hay), &cs(needle)), hay.contains(needle));
    }
}

#[test]
fn split_agrees_with_std() {
    for s in ["", " ", "a", "a b", " a", "a ", "a  b", "  ", "ab cd ef", "é ü"] {
        let expected: Vec<Vec<char>> = s.split(" ").map(cs).collect();
        assert_eq!(split_chars(&cs(s)), expected);
    }
}

#[test]
fn matches_agree_with_std() {
    for (hay, needle) in [
        ("banana", "ana"),
        ("aaaa", "aa"),
        ("aaaaa", "aa"),
        ("abc", ""),
        ("", ""),
        ("", "a"),
        ("abcabc", "bc"),
        ("abc", "abcd"),
        ("a b a", " "),
    ] {
        let expected: Vec<usize> = hay.match_indices(needle).map(|m| m.0).collect();
        assert_eq!(find_matches(&cs(hay), &cs(needle)), expected);
    }
}

#[test]
fn matches_count_characters() {
    assert_eq!(find_matches(&cs("é milk é"), &cs("é")), vec![0, 7]);
}
