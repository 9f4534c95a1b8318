use onvif_proxy::text::{
    begins_with, between_tags, find_in, from_chars, includes, inserted,
    matches_here, parse_integer, replace, rfind_between, rfind_in, same_text, to_chars, trimmed,
    trimmed_start, white_space,
};

fn chars(s: &str) -> Vec<char> {
    s.chars().collect()
}

#[test]
fn conversions_round_trip() {
    for s in ["", "a", "héllo wörld", "日本語", "a\u{0}b"] {
        assert_eq!(to_chars(s), chars(s));
        assert_eq!(from_chars(&chars(s)), s);
    }
}

#[test]
fn find_agrees_with_std() {
    let cases = [("", ""), ("abc", ""), ("abcabc", "bc"), ("abcabc", "cab"), ("aaa", "aa"), ("abc", "abcd"), ("héllo", "llo"), ("abc", "x")];
    for (s, p) in cases {
        let (sc, pc) = (chars(s), chars(p));
        let char_index = |byte: usize| s[..byte].chars().count();
        assert_eq!(find_in(&sc, &pc, 0), s.find(p).map(char_index), "{} {}", s, p);
        assert_eq!(rfind_in(&sc, &pc), s.rfind(p).map(char_index), "{} {}", s, p);
        assert_eq!(includes(&sc, &pc), s.contains(p));
        assert_eq!(begins_with(&sc, &pc), s.starts_with(p));
    }
    assert_eq!(find_in(&chars("abcabc"), &chars("bc"), 2), Some(4));
    assert_eq!(find_in(&chars("abcabc"), &chars("bc"), 5), None);
    assert_eq!(find_in(&chars("abc"), &chars(""), 3), Some(3));
    assert_eq!(find_in(&chars("abc"), &chars(""), 4), None);
    assert!(matches_here(&chars("abc"), &chars("bc"), 1));
    assert!(!matches_here(&chars("abc"), &chars("bc"), 2));
    assert_eq!(rfind_between(&chars("xaxaxa"), &chars("xa"), 1, 5), Some(2));
    assert_eq!(rfind_between(&chars("xaxaxa"), &chars("xa"), 3, 5), None);
}

#[test]
fn replace_agrees_with_std() {
    let cases = [("", "", "x"), ("abc", "", "-"), ("aaaa", "aa", "b"), ("aaa", "aa", "b"), ("abcabc", "bc", ""), ("abc", "abc", "abcabc"), ("ééé", "é", "ee"), ("abc", "d", "x")];
    for (s, p, r) in cases {
        assert_eq!(from_chars(&replace(&chars(s), &chars(p), &chars(r))), s.replace(p, r), "{} {} {}", s, p, r);
    }
}

#[test]
fn trim_agrees_with_std() {
    let cases = ["", " ", "  a  ", "\t\n a b \r\n", "\u{a0}x\u{3000}", "\u{200b}x", "\u{85}\u{1680}\u{2000}\u{200a}\u{2028}\u{2029}\u{202f}\u{205f}y\u{b}\u{c}", "x", "\u{1c}x"];
    for s in cases {
        let c = chars(s);
        assert_eq!(from_chars(&trimmed(&c, 0, c.len())), s.trim(), "{:?}", s);
        assert_eq!(from_chars(&trimmed_start(&c, 0)), s.trim_start(), "{:?}", s);
    }
    assert_eq!(from_chars(&trimmed(&chars("a b c"), 1, 4)), "b");
    for code in 0u32..0x3100 {
        if let Some(c) = char::from_u32(code) {
            assert_eq!(white_space(c), c.is_whitespace(), "{:x}", code);
        }
    }
    assert!(!white_space('\u{feff}'));
}

#[test]
fn parse_integer_agrees_with_std() {
    for s in ["0", "-0", "+0", "12", "-12", "+12", "", "+", "-", "1 ", " 1", "1_0", "0x1", "2147483647", "2147483648", "-2147483648", "-2147483649", "99999999999999999999999", "0000000000000000000000000000001", "1e3"] {
        let c = chars(s);
        assert_eq!(parse_integer(&c, 0, c.len(), i32::MIN as i64, i32::MAX as i64), s.parse::<i32>().ok().map(|v| v as i64), "{:?}", s);
        assert_eq!(parse_integer(&c, 0, c.len(), i64::MIN, i64::MAX), s.parse::<i64>().ok(), "{:?}", s);
    }
    assert_eq!(parse_integer(&chars("ab42cd"), 2, 4, 0, 100), Some(42));
    assert_eq!(parse_integer(&chars("ab42cd"), 2, 4, 0, 41), None);
}

#[test]
fn helpers() {
    assert_eq!(from_chars(&inserted(&chars("abcd"), 2, &chars("XY"))), "abXYcd");
    assert_eq!(from_chars(&inserted(&chars("abcd"), 4, &chars("XY"))), "abcdXY");
    assert_eq!(between_tags(&chars("x<a>yy</a>z"), &chars("<a>"), &chars("</a>")), Some((4, 6)));
    assert_eq!(between_tags(&chars("x<a>yy"), &chars("<a>"), &chars("</a>")), None);
    assert!(same_text("abc", "abc"));
    assert!(!same_text("abc", "abd"));
    assert!(!same_text("abc", "ab"));
}
