use poly::text::{
    append, decimal, find, from_chars, has, lines, replace, rfind, same, to_chars,
};

fn chars(s: &str) -> Vec<char> {
    s.chars().collect()
}

fn line_strings(text: &str) -> Vec<String> {
    lines(&chars(text)).iter().map(from_chars).collect()
}

#[test]
fn chars_and_strings_convert_both_ways() {
    assert_eq!(to_chars("héllo"), vec!['h', 'é', 'l', 'l', 'o']);
    assert_eq!(from_chars(&vec!['h', 'é', 'l', 'l', 'o']), "héllo");
    assert_eq!(from_chars(&Vec::new()), "");
}

#[test]
fn append_puts_one_text_behind_the_other() {
    assert_eq!(append("ab", "cd"), "abcd");
    assert_eq!(append("", ""), "");
}

#[test]
fn same_compares_contents() {
    assert!(same(&chars("abc"), &chars("abc")));
    assert!(!same(&chars("abc"), &chars("abd")));
    assert!(!same(&chars("abc"), &chars("ab")));
}

#[test]
fn find_gives_first_occurrence() {
    assert_eq!(find(&chars("abcabc"), &chars("bc")), Some(1));
    assert_eq!(find(&chars("abcabc"), &chars("cb")), None);
    assert_eq!(find(&chars("abc"), &chars("")), Some(0));
    assert_eq!(find(&chars("ab"), &chars("abc")), None);
    assert!(has(&chars("a nohash b"), &chars("nohash")));
    assert!(!has(&chars("a nohas b"), &chars("nohash")));
}

#[test]
fn rfind_gives_last_occurrence() {
    assert_eq!(rfind(&chars("a.b.c"), '.'), Some(3));
    assert_eq!(rfind(&chars("abc"), '.'), None);
}

#[test]
fn replace_matches_the_standard_library() {
    let cases = [
        ("this is old", "old", "new"),
        ("aaaa", "aa", "b"),
        ("aaa", "aa", "b"),
        ("abc", "x", "y"),
        ("abc", "", "-"),
        ("", "", "-"),
        ("", "a", "b"),
        ("/app.css and /app.css", "/app.css", "/app.1234567.css"),
        ("abab", "ab", "abab"),
    ];
    for (hay, from, to) in cases {
        let ours = from_chars(&replace(&chars(hay), &chars(from), &chars(to)));
        assert_eq!(ours, hay.replace(from, to), "{hay:?} {from:?} {to:?}");
    }
}

#[test]
fn lines_match_the_standard_library() {
    let cases = [
        "",
        "a",
        "a\n",
        "a\nb",
        "a\r\nb\r\n",
        "\n",
        "\n\n",
        "a\n\nb",
        "a\rb\n",
        "a\r",
        "\r\n",
        "a\r\r\nb",
    ];
    for text in cases {
        let theirs: Vec<String> = text.lines().map(|l| l.to_string()).collect();
        assert_eq!(line_strings(text), theirs, "{text:?}");
    }
}

#[test]
fn decimal_writes_numbers() {
    assert_eq!(from_chars(&decimal(0)), "0");
    assert_eq!(from_chars(&decimal(9)), "9");
    assert_eq!(from_chars(&decimal(10)), "10");
    assert_eq!(from_chars(&decimal(318)), "318");
    assert_eq!(from_chars(&decimal(1234567890)), "1234567890");
}
