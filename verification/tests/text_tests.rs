use crypto_broker::text::{
    chars_eq, chars_of, decimal_text, is_blank, is_white_space, replace_text, split_text, string_from_chars,
    text_eq,
};

fn v(s: &str) -> Vec<char> {
    s.chars().collect()
}

#[test]
fn chars_round_trip() {
    assert_eq!(chars_of("héllo"), vec!['h', 'é', 'l', 'l', 'o']);
    assert_eq!(string_from_chars(&v("幣種 BTC")), "幣種 BTC");
    assert_eq!(string_from_chars(&Vec::new()), "");
}

#[test]
fn equality_of_texts() {
    assert!(text_eq("abc", "abc"));
    assert!(!text_eq("abc", "abd"));
    assert!(!text_eq("abc", "ab"));
    assert!(text_eq("", ""));
    assert!(chars_eq(&v("x"), &v("x")));
    assert!(!chars_eq(&v("x"), &v("")));
}

#[test]
fn blank_texts() {
    assert!(is_blank(""));
    assert!(is_blank("   \t\n"));
    assert!(is_blank("\u{3000}"));
    assert!(!is_blank(" x "));
    assert!(!is_blank("BTC"));
}

#[test]
fn replace_every_placeholder() {
    let pat = v("{symbol}");
    assert_eq!(replace_text("a{symbol}b{symbol}", &pat, "ETH"), "aETHbETH");
    assert_eq!(replace_text("no placeholder", &pat, "ETH"), "no placeholder");
    assert_eq!(replace_text("{symbol}", &pat, ""), "");
    assert_eq!(replace_text("{sym{symbol}", &pat, "X"), "{symX");
}

#[test]
fn replace_left_to_right_without_overlap() {
    assert_eq!(replace_text("aaa", &v("aa"), "b"), "ba");
    assert_eq!(replace_text("aaaa", &v("aa"), "b"), "bb");
    assert_eq!("aaa".replace("aa", "b"), "ba");
}

#[test]
fn split_like_str_split() {
    for s in ["data.last", "", "a..b", "a.", ".", "price"] {
        let expected: Vec<Vec<char>> = s.split('.').map(|p| p.chars().collect()).collect();
        assert_eq!(split_text(s, '.'), expected);
    }
}

#[test]
fn split_then_join_gives_text_back() {
    for s in ["data.last", "", "a..b", "a.", "."] {
        let parts: Vec<String> = split_text(s, '.').iter().map(|p| p.iter().collect()).collect();
        assert_eq!(parts.join("."), s);
        assert!(parts.iter().all(|p| !p.contains('.')));
    }
}

#[test]
fn decimal_numerals() {
    assert_eq!(decimal_text(0), v("0"));
    assert_eq!(decimal_text(7), v("7"));
    assert_eq!(decimal_text(10), v("10"));
    assert_eq!(decimal_text(1_700_000_000_000), v("1700000000000"));
    assert_eq!(decimal_text(u64::MAX), v("18446744073709551615"));
}

#[test]
fn white_space_agrees_with_std_on_every_char() {
    for u in 0u32..=0x10FFFF {
        if let Some(c) = char::from_u32(u) {
            assert_eq!(is_white_space(c), c.is_whitespace(), "U+{:04X}", u);
        }
    }
}

#[test]
fn blank_agrees_with_trim() {
    for s in ["", " ", "\u{85}\u{A0}", "\u{200B}", "\u{FEFF}", "a", "\u{2028}\t"] {
        assert_eq!(is_blank(s), s.trim().is_empty(), "{:?}", s);
    }
}
