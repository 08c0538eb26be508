use hust_network_login::text::{contains, find, lines, split_once, str_eq, trim};

#[test]
fn find_gives_first_character_index() {
    assert_eq!(find("abcabc", "bc"), Some(1));
    assert_eq!(find("abc", "x"), None);
    assert_eq!(find("abc", ""), Some(0));
    assert_eq!(find("", "a"), None);
    assert_eq!(find("héllo wörld", "wö"), Some(6));
}

#[test]
fn contains_matches_std() {
    for (t, p) in [("hello", "ll"), ("hello", "lo!"), ("", ""), ("a", "aa"), ("🙂x", "x")] {
        assert_eq!(contains(t, p), t.contains(p));
    }
}

#[test]
fn trim_matches_std() {
    for s in ["  a b  ", "\t\r\n x\u{3000}", "", "   ", "\u{a0}y\u{2009}", "no-space"] {
        assert_eq!(trim(s), s.trim());
    }
}

#[test]
fn lines_match_std() {
    for s in [
        "",
        "a",
        "a\n",
        "a\nb",
        "a\r\nb\r\n",
        "\n\n",
        "x\r",
        "one\ntwo\r\nthree\n\n",
        "\r\n",
    ] {
        let expected: Vec<&str> = s.lines().collect();
        assert_eq!(lines(s), expected, "input {:?}", s);
    }
}

#[test]
fn split_once_matches_std() {
    for s in ["k=v", "k==v", "=v", "k=", "nothing", "a = b = c"] {
        assert_eq!(split_once(s, '='), s.split_once('='));
    }
}

#[test]
fn str_eq_compares_characters() {
    assert!(str_eq("abc", "abc"));
    assert!(!str_eq("abc", "abd"));
    assert!(!str_eq("abc", "ab"));
}
