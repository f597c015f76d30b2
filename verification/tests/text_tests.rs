use shopify_inventory_manager::models::deserialize_sku;
use shopify_inventory_manager::numbers::{
    decimal_of, parse_integer, parse_natural, signed_decimal_of,
};
use shopify_inventory_manager::text::{
    contains, eq_ignoring_case, find_char, is_before, is_white_space, is_word, join, last_part,
    lines, pad_right, prefix_takes, remove_char, repeat_char, same_text, split, starts_with,
    strip_leading, to_upper, trim,
};

fn owned(list: &[&str]) -> Vec<String> {
    list.iter().map(|s| s.to_string()).collect()
}

#[test]
fn trim_takes_white_space_off_both_ends() {
    assert_eq!(trim("  AMS-1 \t\r\n"), "AMS-1");
    assert_eq!(trim("\u{a0}x y\u{3000}"), "x y");
    assert_eq!(trim(" \n "), "");
    assert_eq!(trim(trim("  a b  ")), trim("  a b  "));
    assert!(is_white_space('\u{85}'));
    assert!(!is_white_space('\u{200b}'));
}

#[test]
fn trim_agrees_with_std_on_every_character() {
    for code in 0u32..0x11_0000 {
        if let Some(c) = char::from_u32(code) {
            assert_eq!(is_white_space(c), c.is_whitespace(), "{:?}", c);
        }
    }
}

#[test]
fn sku_cell_is_trimmed() {
    assert_eq!(deserialize_sku("  ams-001 "), "ams-001");
    assert_eq!(deserialize_sku(""), "");
}

#[test]
fn searching_finds_parts() {
    assert!(contains("grand total", "total"));
    assert!(contains("x", ""));
    assert!(!contains("tota", "total"));
    assert!(starts_with("ACCESS_TOKEN=1", "ACCESS_TOKEN="));
    assert!(!starts_with("XACCESS_TOKEN=1", "ACCESS_TOKEN="));
    assert_eq!(find_char("ab-c-d", '-'), Some(2));
    assert_eq!(find_char("\u{e9}-c", '-'), Some(1));
    assert_eq!(find_char("abc", '-'), None);
}

#[test]
fn splitting_keeps_empty_parts() {
    assert_eq!(split("1,2,,3", ','), owned(&["1", "2", "", "3"]));
    assert_eq!(split("", ','), owned(&[""]));
    assert_eq!(last_part("gid://shopify/ProductVariant/42", '/'), "42");
    assert_eq!(last_part("42", '/'), "42");
    assert_eq!(last_part("a/", '/'), "");
}

#[test]
fn joining_and_padding() {
    assert_eq!(join(&owned(&["a", "b", "c"]), "\n"), "a\nb\nc");
    assert_eq!(join(&Vec::new(), "\n"), "");
    assert_eq!(pad_right("abc", 5), "abc  ");
    assert_eq!(pad_right("abcdef", 5), "abcdef");
    assert_eq!(pad_right("\u{e9}", 3), "\u{e9}  ");
    assert_eq!(repeat_char('=', 4), "====");
}

#[test]
fn removing_characters() {
    assert_eq!(remove_char("$1,234.50", ','), "$1234.50");
    assert_eq!(strip_leading("\u{feff}\u{feff}Item No.", '\u{feff}'), "Item No.");
    assert_eq!(strip_leading("a\u{feff}", '\u{feff}'), "a\u{feff}");
}

#[test]
fn lines_as_std_gives_them() {
    for text in [
        "",
        "a",
        "a\n",
        "a\nb",
        "a\r\nb\r\n",
        "a\r",
        "a\r\r\nb",
        "\n\n",
        "x\n\r",
        "K=1\n\nL=2\r\n",
    ] {
        let expected: Vec<String> = text.lines().map(String::from).collect();
        assert_eq!(lines(text), expected, "{:?}", text);
    }
}

#[test]
fn comparing_texts() {
    assert!(same_text("a\u{e9}", "a\u{e9}"));
    assert!(!same_text("a", "ab"));
    assert!(eq_ignoring_case("iTEM nO.", "Item No."));
    assert!(!eq_ignoring_case("\u{c9}", "\u{e9}"));
    assert!(is_word("TrUe", "true"));
    assert!(!is_word(" true", "true"));
    for (a, b) in [("", "a"), ("a", "b"), ("a", "aa"), ("Z", "a"), ("a\u{ffff}", "a\u{10000}")] {
        assert!(is_before(a, b));
        assert!(!is_before(b, a));
        assert!(!is_before(a, a));
        assert!(a < b);
    }
}

#[test]
fn prefixes_are_measured_in_bytes() {
    assert!(prefix_takes("ABC-1", 3, 3));
    assert!(!prefix_takes("AB-1", 2, 3));
    assert!(prefix_takes("\u{20ac}-1", 1, 3));
    assert!(prefix_takes("A\u{e9}-1", 2, 3));
    assert!(!prefix_takes("\u{1f600}-1", 1, 3));
}

#[test]
fn numbers_are_read_as_std_reads_them() {
    for text in [
        "0",
        "+7",
        "-7",
        "007",
        "",
        "+",
        "-",
        " 1",
        "1 ",
        "1.0",
        "9223372036854775807",
        "9223372036854775808",
        "-9223372036854775808",
        "-9223372036854775809",
        "18446744073709551615",
        "18446744073709551616",
        "--1",
        "+-1",
        "\u{661}",
    ] {
        assert_eq!(parse_integer(text), text.parse::<i64>().ok(), "{:?}", text);
        if text != "-0" {
            assert_eq!(parse_natural(text, u64::MAX), text.parse::<u64>().ok(), "{:?}", text);
        }
        assert_eq!(
            parse_natural(text, 65535),
            text.parse::<u16>().ok().map(u64::from),
            "{:?}",
            text
        );
    }
}

#[test]
fn numbers_are_written_and_read_back() {
    for n in [0, 1, -1, 10, -10, 12345, i64::MAX, i64::MIN] {
        assert_eq!(signed_decimal_of(n), n.to_string());
        assert_eq!(parse_integer(signed_decimal_of(n).as_str()), Some(n));
    }
    assert_eq!(decimal_of(u64::MAX), "18446744073709551615");
}

#[test]
fn upper_case_is_that_of_std() {
    for code in 0u32..0x11_0000 {
        if let Some(c) = char::from_u32(code) {
            let text = c.to_string();
            assert_eq!(to_upper(text.as_str()), text.to_uppercase(), "{:?}", c);
        }
    }
    for text in [
        "",
        "ams-1b",
        "stra\u{df}e",
        "\u{3b1}\u{3c2} \u{3c3}",
        "i\u{307}\u{149}x",
        "\u{1c6}\u{fb03}a",
        "\u{1f80}\u{345}\u{390}",
    ] {
        assert_eq!(to_upper(text), text.to_uppercase(), "{:?}", text);
        for other in ["\u{3c2}x", "\u{307}", "\u{df}", "Z"] {
            let both = format!("{}{}", text, other);
            assert_eq!(to_upper(both.as_str()), both.to_uppercase());
            assert_eq!(to_upper(both.as_str()), format!("{}{}", to_upper(text), to_upper(other)));
        }
    }
}
