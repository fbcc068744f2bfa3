use nixpacks::text::{
    chars_of, contains_chars, occurs_at_index, order_chars, parse_digits, parse_u32, str_contains,
    str_eq,
    string_of, string_of_range, Order,
};

fn chars(s: &str) -> Vec<char> {
    s.chars().collect()
}

#[test]
fn strings_and_characters_convert_both_ways() {
    for s in ["", "a", "h\u{e9}llo w\u{f6}rld", "\u{1f600}x"] {
        assert_eq!(chars_of(s), chars(s));
        assert_eq!(string_of(&chars(s)), s);
    }
    assert_eq!(string_of_range(&chars("h\u{e9}llo"), 1, 3), "\u{e9}l");
    assert_eq!(string_of_range(&chars("hello"), 2, 2), "");
    assert_eq!(string_of_range(&chars("hello"), 0, 5), "hello");
}

#[test]
fn str_eq_compares_contents() {
    assert!(str_eq("", ""));
    assert!(str_eq("npm", "npm"));
    assert!(!str_eq("npm", "pnpm"));
    assert!(!str_eq("npm", "np"));
}

#[test]
fn search_finds_every_occurrence() {
    assert!(str_contains("a \"canvas\" b", "\"canvas\""));
    assert!(!str_contains("a canvas b", "\"canvas\""));
    assert!(str_contains("abc", ""));
    assert!(str_contains("", ""));
    assert!(!str_contains("", "a"));
    assert!(!str_contains("ab", "abc"));
    assert!(str_contains("aab", "ab"));
    assert!(str_contains("xxab", "ab"));
    assert!(contains_chars(&chars("h\u{e9}llo"), &chars("\u{e9}l")));
    assert!(occurs_at_index(&chars("hello"), &chars("ll"), 2));
    assert!(!occurs_at_index(&chars("hello"), &chars("ll"), 3));
    assert!(!occurs_at_index(&chars("hello"), &chars("lo"), 4));
    assert!(occurs_at_index(&chars("hello"), &chars(""), 5));
    assert!(!occurs_at_index(&chars("hello"), &chars(""), 6));
}

#[test]
fn order_is_lexicographic_by_code_point() {
    let cases = [
        ("", "", Order::Equal),
        ("", "a", Order::Less),
        ("a", "", Order::Greater),
        ("a", "b", Order::Less),
        ("ab", "a", Order::Greater),
        ("a/b", "a.b", Order::Greater),
        ("Z", "a", Order::Less),
        ("z", "\u{e9}", Order::Less),
        ("abc", "abc", Order::Equal),
        ("abd", "abc", Order::Greater),
    ];
    for (a, b, expected) in cases {
        assert_eq!(order_chars(&chars(a), &chars(b)), expected, "{:?} {:?}", a, b);
        let std = match a.cmp(b) {
            std::cmp::Ordering::Less => Order::Less,
            std::cmp::Ordering::Equal => Order::Equal,
            std::cmp::Ordering::Greater => Order::Greater,
        };
        assert_eq!(std, expected);
    }
}

#[test]
fn numbers_are_read_in_base_ten() {
    assert_eq!(parse_u32(&chars("0")), Some(0));
    assert_eq!(parse_u32(&chars("14")), Some(14));
    assert_eq!(parse_u32(&chars("0014")), Some(14));
    assert_eq!(parse_u32(&chars("4294967295")), Some(u32::MAX));
    assert_eq!(parse_u32(&chars("4294967296")), None);
    assert_eq!(parse_u32(&chars("00000000004294967295")), Some(u32::MAX));
    assert_eq!(parse_u32(&chars("99999999999999999999999999")), None);
    assert_eq!(parse_u32(&chars("")), None);
    assert_eq!(parse_u32(&chars("+1")), Some(1));
    assert_eq!(parse_u32(&chars("+14")), Some(14));
    assert_eq!(parse_u32(&chars("+0014")), Some(14));
    assert_eq!(parse_u32(&chars("+4294967295")), Some(u32::MAX));
    assert_eq!(parse_u32(&chars("+4294967296")), None);
    assert_eq!(parse_u32(&chars("+")), None);
    assert_eq!(parse_u32(&chars("++1")), None);
    assert_eq!(parse_u32(&chars("+-1")), None);
    assert_eq!(parse_u32(&chars("1+")), None);
    assert_eq!(parse_u32(&chars("+ 1")), None);
    assert_eq!(parse_u32(&chars("-1")), None);
    assert_eq!(parse_u32(&chars("-0")), None);
    assert_eq!(parse_digits(&chars("+1")), None);
    assert_eq!(parse_digits(&chars("14")), Some(14));
    assert_eq!(parse_digits(&chars("")), None);
    for text in ["", "+", "-", "+1", "-1", "++1", "007", "+007", "4294967295", "4294967296",
        "+4294967295", "1_0", " 1", "1 ", "0x10", "\u{0661}", "12a", "+12a"] {
        assert_eq!(parse_u32(&chars(text)), text.parse::<u32>().ok(), "{:?}", text);
    }
    assert_eq!(parse_u32(&chars("1x")), None);
    assert_eq!(parse_u32(&chars("x1")), None);
    assert_eq!(parse_u32(&chars("\u{0661}")), None);
    assert_eq!(parse_u32(&chars("1 ")), None);
}
