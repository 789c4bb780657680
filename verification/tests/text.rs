use schooner::text::{parse_usize, split_chars, str_eq, trim_chars, char_is_whitespace};

fn chars(s: &str) -> Vec<char> {
    s.chars().collect()
}

#[test]
fn parse_like_std() {
    assert_eq!(Some(42), parse_usize("42"));
    assert_eq!(Some(5), parse_usize("+5"));
    assert_eq!(None, parse_usize("+"));
    assert_eq!(None, parse_usize(""));
    assert_eq!(None, parse_usize("-1"));
    assert_eq!(None, parse_usize(" 1"));
    assert_eq!(Some(usize::MAX), parse_usize(&usize::MAX.to_string()));
    assert_eq!(None, parse_usize("18446744073709551616"));
    for s in ["0", "007", "123456", "+0", "1a", "٣"] {
        assert_eq!(s.parse::<usize>().ok(), parse_usize(s));
    }
}

#[test]
fn trim_and_split_like_std() {
    for s in ["  a b \t", "", "   ", "x", "\u{2003}y\u{00a0}"] {
        assert_eq!(chars(s.trim()), trim_chars(&chars(s)));
    }
    for s in ["a.b.c", "", ".", "a..", "abc"] {
        let ours: Vec<String> = split_chars(&chars(s), '.').iter().map(|v| v.iter().collect()).collect();
        let std: Vec<String> = s.split('.').map(|p| p.to_string()).collect();
        assert_eq!(std, ours);
    }
    assert!(str_eq("héllo", "héllo"));
    assert!(!str_eq("hello", "hell"));
}

#[test]
fn white_space_agrees_with_std() {
    for u in 0u32..0x110000 {
        if let Some(c) = char::from_u32(u) {
            assert_eq!(c.is_whitespace(), char_is_whitespace(c), "{:?}", c);
        }
    }
}
