use verdant::lexical::{chars_lt, sorted_unique};
use verdant::number::{decimal_chars, pad_start_chars, parse_i32, parse_octal, parse_u64};
use verdant::text::{
    chars_of, contains_chars, expand_chars, find_from, find_last, has_prefix, has_suffix,
    is_space_char, is_text, join2, join_chars, lines_of_chars, replace_chars, same_chars, same_str,
    slice_of, split_chars, string_of, swap_chars, trim_chars, trim_end_chars, trim_start_chars,
    words_of,
};

fn cs(s: &str) -> Vec<char> {
    s.chars().collect()
}

fn ss(v: &[Vec<char>]) -> Vec<String> {
    v.iter().map(|x| x.iter().collect()).collect()
}

#[test]
fn strings_and_characters_convert_both_ways() {
    assert_eq!(chars_of("h\u{e9}llo"), cs("h\u{e9}llo"));
    assert_eq!(string_of(&cs("h\u{e9}llo")), "h\u{e9}llo");
    assert_eq!(string_of(&Vec::new()), "");
    assert_eq!(slice_of(&cs("abcdef"), 2, 4), cs("cd"));
    assert_eq!(join2("ab", "cd"), "abcd");
    assert!(same_str("x", "x") && !same_str("x", "y") && !same_str("x", "xx"));
    assert!(same_chars(&cs("ab"), &cs("ab")) && !same_chars(&cs("ab"), &cs("ba")));
    assert!(is_text(&cs("name"), "name") && !is_text(&cs("name"), "names"));
}

#[test]
fn trimming_follows_white_space() {
    assert_eq!(trim_chars(&cs("  a b \t\r\n")), cs("a b"));
    assert_eq!(trim_chars(&cs(" \u{a0}\u{3000}x\u{2003}")), cs("x"));
    assert_eq!(trim_chars(&cs("   ")), cs(""));
    assert_eq!(trim_start_chars(&cs("  a ")), cs("a "));
    assert_eq!(trim_end_chars(&cs("  a ")), cs("  a"));
    for c in ['\t', '\n', '\u{b}', '\u{c}', '\r', ' ', '\u{85}', '\u{a0}', '\u{1680}', '\u{2000}', '\u{200a}', '\u{2028}', '\u{2029}', '\u{202f}', '\u{205f}', '\u{3000}'] {
        assert!(is_space_char(c));
        assert!(c.is_whitespace());
    }
    for c in ['a', '\u{200b}', '\u{feff}', '\0', '\u{1f}'] {
        assert_eq!(is_space_char(c), c.is_whitespace());
    }
}

#[test]
fn splitting_and_lines() {
    assert_eq!(ss(&split_chars(&cs("a,b,,c"), ',')), vec!["a", "b", "", "c"]);
    assert_eq!(ss(&split_chars(&cs(""), ',')), vec![""]);
    assert_eq!(ss(&split_chars(&cs(","), ',')), vec!["", ""]);
    assert_eq!(ss(&lines_of_chars(&cs("a\nb\n"))), vec!["a", "b"]);
    assert_eq!(ss(&lines_of_chars(&cs("a\n\nb"))), vec!["a", "", "b"]);
    assert!(lines_of_chars(&cs("")).is_empty());
    assert_eq!(ss(&lines_of_chars(&cs("\n"))), vec![""]);
    assert_eq!(ss(&words_of(&cs("  a  bb\tc \n"))), vec!["a", "bb", "c"]);
    assert!(words_of(&cs("   ")).is_empty());
    assert_eq!(find_from(&cs("a:b:c"), 0, ':'), 1);
    assert_eq!(find_from(&cs("a:b:c"), 2, ':'), 3);
    assert_eq!(find_from(&cs("abc"), 0, ':'), 3);
    assert_eq!(find_last(&cs("/a/b"), '/'), Some(2));
    assert_eq!(find_last(&cs("ab"), '/'), None);
    assert_eq!(join_chars(&vec![cs("a"), cs(""), cs("b")], &cs(", ")), cs("a, , b"));
}

#[test]
fn placeholders_and_replacements() {
    assert_eq!(expand_chars(&cs("getty@{} on {}{}"), &cs("tty1")), cs("getty@tty1 on tty1tty1"));
    assert_eq!(expand_chars(&cs("{ } {"), &cs("x")), cs("{ } {"));
    assert_eq!(expand_chars(&cs("{{}}"), &cs("x")), cs("{x}"));
    assert_eq!(expand_chars(&cs("a{}"), &cs("")), cs("a"));
    assert_eq!(replace_chars(&cs("kill $MAINPID $MAINPID"), &cs("$MAINPID"), &cs("7")), cs("kill 7 7"));
    assert_eq!(replace_chars(&cs("aaa"), &cs("aa"), &cs("b")), cs("ba"));
    assert_eq!(replace_chars(&cs("abc"), &cs(""), &cs("x")), cs("abc"));
    assert_eq!(replace_chars(&cs("ab"), &cs("abc"), &cs("x")), cs("ab"));
    assert_eq!(swap_chars(&cs("a.b.c"), '.', '/'), cs("a/b/c"));
}

#[test]
fn prefixes_suffixes_and_search() {
    assert!(has_prefix(&cs("getty@tty1"), &cs("getty@")));
    assert!(!has_prefix(&cs("get"), &cs("getty@")));
    assert!(has_prefix(&cs("x"), &cs("")));
    assert!(has_suffix(&cs("/sbin/mdev"), &cs("mdev")));
    assert!(!has_suffix(&cs("dev"), &cs("mdev")));
    assert!(contains_chars(&cs("/sbin/agetty"), &cs("getty")));
    assert!(!contains_chars(&cs("/sbin/login"), &cs("getty")));
    assert!(contains_chars(&cs(""), &cs("")));
    assert!(!contains_chars(&cs("ab"), &cs("abc")));
}

#[test]
fn numbers_are_read_and_written() {
    assert_eq!(parse_u64(&cs("0")), Some(0));
    assert_eq!(parse_u64(&cs("007")), Some(7));
    assert_eq!(parse_u64(&cs("18446744073709551615")), Some(u64::MAX));
    assert_eq!(parse_u64(&cs("18446744073709551616")), None);
    assert_eq!(parse_u64(&cs("")), None);
    assert_eq!(parse_u64(&cs("+1")), None);
    assert_eq!(parse_u64(&cs("1 ")), None);
    assert_eq!(parse_i32(&cs("-5")), Some(-5));
    assert_eq!(parse_i32(&cs("2147483647")), Some(i32::MAX));
    assert_eq!(parse_i32(&cs("2147483648")), None);
    assert_eq!(parse_i32(&cs("-2147483648")), Some(i32::MIN));
    assert_eq!(parse_i32(&cs("-2147483649")), None);
    assert_eq!(parse_i32(&cs("-")), None);
    assert_eq!(parse_i32(&cs("--1")), None);
    assert_eq!(parse_octal(&cs("022")), Some(18));
    assert_eq!(parse_octal(&cs("7777")), Some(4095));
    assert_eq!(parse_octal(&cs("8")), None);
    assert_eq!(parse_octal(&cs("00000")), None);
    assert_eq!(decimal_chars(0), cs("0"));
    assert_eq!(decimal_chars(9), cs("9"));
    assert_eq!(decimal_chars(1234567890), cs("1234567890"));
    assert_eq!(decimal_chars(u64::MAX), cs("18446744073709551615"));
    assert_eq!(pad_start_chars(&cs("7"), 3, '0'), cs("007"));
    assert_eq!(pad_start_chars(&cs("1234"), 3, '0'), cs("1234"));
}

#[test]
fn dictionary_order_agrees_with_the_standard_library() {
    let words = ["", "a", "A", "ab", "b", "\u{e9}", "z", "aa", "a\u{0}", "\u{10ffff}", "\u{ffff}"];
    for a in words {
        for b in words {
            assert_eq!(chars_lt(&cs(a), &cs(b)), a < b, "{:?} {:?}", a, b);
        }
    }
    let mut expected: Vec<String> = words.iter().map(|w| w.to_string()).collect();
    expected.sort();
    expected.dedup();
    let input: Vec<Vec<char>> = words.iter().chain(words.iter()).map(|w| cs(w)).collect();
    assert_eq!(ss(&sorted_unique(&input)), expected);
}
