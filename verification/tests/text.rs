use snowflake_id::text::{
    chars_of, cut_after_key, cut_before_key, cut_first_word, cut_value, find_key, is_whitespace,
    parse_decimal, starts_with, write_decimal,
};

fn chars(text: &str) -> Vec<char> {
    text.chars().collect()
}

fn text_of(part: &[char]) -> String {
    part.iter().collect()
}

#[test]
fn chars_of_text() {
    assert_eq!(chars_of(""), Vec::<char>::new());
    assert_eq!(chars_of("id=7"), vec!['i', 'd', '=', '7']);
    assert_eq!(chars_of("a\u{3000}\u{e9}z"), vec!['a', '\u{3000}', '\u{e9}', 'z']);
}

#[test]
fn whitespace_agrees_with_std_on_every_character() {
    let mut count = 0;
    for code in 0..=0x10FFFFu32 {
        if let Some(c) = char::from_u32(code) {
            assert_eq!(is_whitespace(c), c.is_whitespace(), "character {:#x}", code);
            if is_whitespace(c) {
                count += 1;
            }
        }
    }
    assert_eq!(count, 25);
}

#[test]
fn whitespace_samples() {
    assert!(is_whitespace(' '));
    assert!(is_whitespace('\t'));
    assert!(is_whitespace('\r'));
    assert!(is_whitespace('\n'));
    assert!(is_whitespace('\u{a0}'));
    assert!(!is_whitespace('\0'));
    assert!(!is_whitespace('a'));
    assert!(!is_whitespace('\u{200b}'));
}

#[test]
fn starts_with_prefix() {
    assert!(starts_with(&chars("GET /?id=5"), &chars("GET /")));
    assert!(starts_with(&chars("GET /"), &chars("GET /")));
    assert!(starts_with(&chars("GET /"), &chars("")));
    assert!(starts_with(&chars(""), &chars("")));
    assert!(!starts_with(&chars("GET "), &chars("GET /")));
    assert!(!starts_with(&chars("POST /"), &chars("GET /")));
    assert!(!starts_with(&chars(" GET /"), &chars("GET /")));
}

#[test]
fn find_first_occurrence() {
    assert_eq!(find_key(&chars("GET /?id=5"), &chars("id=")), Some(6));
    assert_eq!(find_key(&chars("id=id="), &chars("id=")), Some(0));
    assert_eq!(find_key(&chars("iid="), &chars("id=")), Some(1));
    assert_eq!(find_key(&chars("ididid="), &chars("id=")), Some(4));
    assert_eq!(find_key(&chars("xxid="), &chars("id=")), Some(2));
    assert_eq!(find_key(&chars("id"), &chars("id=")), None);
    assert_eq!(find_key(&chars(""), &chars("id=")), None);
    assert_eq!(find_key(&chars("abc"), &chars("")), Some(0));
    assert_eq!(find_key(&chars(""), &chars("")), Some(0));
}

#[test]
fn find_agrees_with_std() {
    let texts = ["", "a", "aa", "aaa", "ab", "aab", "abab", "baab", "aabaab", "xaaby", "bbbb"];
    let keys = ["a", "aa", "ab", "aab", "b", "ba", "abab"];
    for text in texts {
        for key in keys {
            assert_eq!(find_key(&chars(text), &chars(key)), text.find(key), "{:?} in {:?}", key, text);
        }
    }
}

#[test]
fn cut_around_key() {
    let text = chars("one=1&two=2&one=3");
    let key = chars("one=");
    assert_eq!(text_of(cut_before_key(&text, &key)), "");
    assert_eq!(text_of(cut_after_key(&text, &key).unwrap()), "1&two=2&one=3");
    assert_eq!(text_of(cut_value(&text, &key).unwrap()), "1&two=2&");
    let key = chars("two=");
    assert_eq!(text_of(cut_before_key(&text, &key)), "one=1&");
    assert_eq!(text_of(cut_after_key(&text, &key).unwrap()), "2&one=3");
    assert_eq!(text_of(cut_value(&text, &key).unwrap()), "2&one=3");
    let key = chars("three=");
    assert_eq!(text_of(cut_before_key(&text, &key)), "one=1&two=2&one=3");
    assert_eq!(cut_after_key(&text, &key), None);
    assert_eq!(cut_value(&text, &key), None);
}

#[test]
fn cut_value_agrees_with_std_split() {
    let texts = [
        "",
        "id=",
        "id=5",
        "GET /?id=5 HTTP/1.1",
        "id=1id=2id=3",
        "xid=id=y",
        "iid=7 id=8",
        "no key here",
        "id=id=id=",
        "idid==",
    ];
    for text in texts {
        let expected: Option<String> = text.split("id=").nth(1).map(|part| part.to_string());
        let found = cut_value(&chars(text), &chars("id=")).map(text_of);
        assert_eq!(found, expected, "in {:?}", text);
    }
}

#[test]
fn first_word_samples() {
    assert_eq!(cut_first_word(&chars("")), None);
    assert_eq!(cut_first_word(&chars("   ")), None);
    assert_eq!(cut_first_word(&chars(" \t\r\n")), None);
    assert_eq!(text_of(cut_first_word(&chars("word")).unwrap()), "word");
    assert_eq!(text_of(cut_first_word(&chars("  word")).unwrap()), "word");
    assert_eq!(text_of(cut_first_word(&chars("word  ")).unwrap()), "word");
    assert_eq!(text_of(cut_first_word(&chars("12 HTTP/1.1\r\n")).unwrap()), "12");
    assert_eq!(text_of(cut_first_word(&chars("\u{a0}1\u{2003}2")).unwrap()), "1");
    assert_eq!(text_of(cut_first_word(&chars("12\0\0")).unwrap()), "12\0\0");
}

#[test]
fn first_word_agrees_with_std() {
    let texts = ["", " ", "a", " a", "a ", " a b ", "\t\tab\ncd", "a\u{3000}b", "\u{85}x", "x\u{200b}y z"];
    for text in texts {
        let expected: Option<String> = text.split_whitespace().next().map(|part| part.to_string());
        let found = cut_first_word(&chars(text)).map(text_of);
        assert_eq!(found, expected, "in {:?}", text);
    }
}

#[test]
fn parse_decimal_samples() {
    assert_eq!(parse_decimal(&chars("0")), Some(0));
    assert_eq!(parse_decimal(&chars("7")), Some(7));
    assert_eq!(parse_decimal(&chars("4194324492")), Some(4194324492));
    assert_eq!(parse_decimal(&chars("+12")), Some(12));
    assert_eq!(parse_decimal(&chars("007")), Some(7));
    assert_eq!(parse_decimal(&chars("18446744073709551615")), Some(u64::MAX));
    assert_eq!(parse_decimal(&chars("+18446744073709551615")), Some(u64::MAX));
    assert_eq!(parse_decimal(&chars("000018446744073709551615")), Some(u64::MAX));
}

#[test]
fn parse_decimal_refuses() {
    assert_eq!(parse_decimal(&chars("")), None);
    assert_eq!(parse_decimal(&chars("+")), None);
    assert_eq!(parse_decimal(&chars("-1")), None);
    assert_eq!(parse_decimal(&chars("++1")), None);
    assert_eq!(parse_decimal(&chars("1+")), None);
    assert_eq!(parse_decimal(&chars("12a")), None);
    assert_eq!(parse_decimal(&chars("a12")), None);
    assert_eq!(parse_decimal(&chars(" 12")), None);
    assert_eq!(parse_decimal(&chars("12 ")), None);
    assert_eq!(parse_decimal(&chars("1.5")), None);
    assert_eq!(parse_decimal(&chars("0x10")), None);
    assert_eq!(parse_decimal(&chars("12\0")), None);
    assert_eq!(parse_decimal(&chars("\u{661}\u{662}")), None);
    assert_eq!(parse_decimal(&chars("18446744073709551616")), None);
    assert_eq!(parse_decimal(&chars("18446744073709551620")), None);
    assert_eq!(parse_decimal(&chars("99999999999999999999")), None);
    assert_eq!(parse_decimal(&chars("184467440737095516150")), None);
    assert_eq!(parse_decimal(&chars("99999999999999999999x")), None);
}

#[test]
fn parse_decimal_agrees_with_std() {
    let words = [
        "", "+", "-", "0", "+0", "-0", "1", "10", "0010", "+5", "5+", "/", ":", "09", "1_000",
        "18446744073709551615", "18446744073709551616", "28446744073709551615", "1e3", "\u{ff11}",
    ];
    for word in words {
        assert_eq!(parse_decimal(&chars(word)), word.parse::<u64>().ok(), "reading {:?}", word);
    }
}

#[test]
fn write_decimal_samples() {
    assert_eq!(write_decimal(0), "0");
    assert_eq!(write_decimal(9), "9");
    assert_eq!(write_decimal(10), "10");
    assert_eq!(write_decimal(4194324492), "4194324492");
    assert_eq!(write_decimal(1000000), "1000000");
    assert_eq!(write_decimal(u64::MAX), "18446744073709551615");
}

#[test]
fn write_then_parse_gives_the_number_back() {
    let numbers: [u64; 9] =
        [0, 1, 9, 10, 99, 100, 4194324492, 1672531200000, u64::MAX];
    for number in numbers {
        let text = write_decimal(number);
        assert_eq!(text, number.to_string());
        assert_eq!(parse_decimal(&chars(&text)), Some(number));
    }
}
