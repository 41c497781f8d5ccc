use sorth::arith::{text_compare, whole_arith, whole_compare, Operator, Relation};
use sorth::number::{is_fraction, parse_number, wrap_to_byte, wrap_to_int, write_decimal};
use sorth::text::{
    append_chars, append_str, chars_of, copy_text, is_literal, is_whitespace, same_text, slice_of,
    split_whitespace, starts_with, string_of, trimmed, trimmed_blanks, trimmed_end, trimmed_start,
};
use sorth::types::{pop_value, push_value, Types};

fn text(s: &str) -> Vec<char> {
    s.chars().collect()
}

fn shown(v: &[char]) -> String {
    v.iter().collect()
}

#[test]
fn strings_and_characters_convert() {
    assert_eq!(chars_of("a\u{e9}\u{1f600}z"), vec!['a', '\u{e9}', '\u{1f600}', 'z']);
    assert_eq!(chars_of(""), Vec::<char>::new());
    assert_eq!(string_of(&vec!['a', '\u{e9}', '\u{1f600}', 'z']), "a\u{e9}\u{1f600}z");
    assert_eq!(string_of(&Vec::new()), "");
    assert_eq!(shown(&slice_of(&text("abcdef"), 2, 4)), "cd");
    assert_eq!(shown(&slice_of(&text("abcdef"), 3, 3)), "");
    assert_eq!(shown(&copy_text(&text("abc"))), "abc");
    let mut buffer = text("ab");
    append_chars(&mut buffer, &text("cd"));
    append_str(&mut buffer, "ef");
    assert_eq!(shown(&buffer), "abcdef");
}

#[test]
fn white_space_is_what_unicode_says() {
    for c in [' ', '\t', '\n', '\u{b}', '\u{c}', '\r', '\u{85}', '\u{a0}', '\u{1680}', '\u{2000}',
        '\u{200a}', '\u{2028}', '\u{2029}', '\u{202f}', '\u{205f}', '\u{3000}']
    {
        assert!(is_whitespace(c), "{:?}", c);
    }
    for c in ['a', '0', '\u{8}', '\u{e}', '\u{1f}', '!', '\u{200b}', '\u{feff}', '\u{180e}', '\u{2060}'] {
        assert!(!is_whitespace(c), "{:?}", c);
    }
    for code in 0..0x11_0000u32 {
        if let Some(c) = char::from_u32(code) {
            assert_eq!(is_whitespace(c), c.is_whitespace(), "{:?}", c);
        }
    }
}

#[test]
fn trimming_takes_the_ends_only() {
    assert_eq!(shown(&trimmed(&text("  a b \t\n"))), "a b");
    assert_eq!(shown(&trimmed(&text("\u{3000}a\u{a0}"))), "a");
    assert_eq!(shown(&trimmed(&text(" \n "))), "");
    assert_eq!(shown(&trimmed(&text(""))), "");
    assert_eq!(shown(&trimmed(&text("ab"))), "ab");
    assert_eq!(shown(&trimmed_start(&text("  a b  "))), "a b  ");
    assert_eq!(shown(&trimmed_end(&text("  a b  "))), "  a b");
    assert_eq!(shown(&trimmed_blanks(&text("  \na b\n  "))), "\na b\n");
    assert_eq!(shown(&trimmed_blanks(&text(" \t "))), "\t");
    assert_eq!(shown(&trimmed_blanks(&text("   "))), "");
}

#[test]
fn a_line_splits_into_words() {
    let words = split_whitespace(&text("  one\ttwo \n three  "));
    assert_eq!(words, vec![text("one"), text("two"), text("three")]);
    assert_eq!(split_whitespace(&text("")), Vec::<Vec<char>>::new());
    assert_eq!(split_whitespace(&text(" \t ")), Vec::<Vec<char>>::new());
    assert_eq!(split_whitespace(&text("x")), vec![text("x")]);
    assert_eq!(split_whitespace(&text("a\u{3000}b")), vec![text("a"), text("b")]);
    let line = "  : sq  dup * ;\t2 sq .  ";
    let expected: Vec<Vec<char>> = line.split_whitespace().map(text).collect();
    assert_eq!(split_whitespace(&text(line)), expected);
}

#[test]
fn prefixes_and_literals() {
    assert!(starts_with(&text("square"), &text("sq")));
    assert!(starts_with(&text("sq"), &text("sq")));
    assert!(starts_with(&text("sq"), &text("")));
    assert!(!starts_with(&text("sq"), &text("sqa")));
    assert!(!starts_with(&text("sq"), &text("q")));
    assert!(same_text(&text("ab"), &text("ab")));
    assert!(!same_text(&text("ab"), &text("abc")));
    assert!(!same_text(&text("abc"), &text("ab")));
    assert!(!same_text(&text("ab"), &text("ac")));
    assert!(is_literal(&text("then"), "then"));
    assert!(!is_literal(&text("the"), "then"));
    assert!(!is_literal(&text("thens"), "then"));
    assert!(!is_literal(&text("than"), "then"));
    assert!(is_literal(&text(""), ""));
    assert!(!is_literal(&text("a"), ""));
}

#[test]
fn numbers_are_read() {
    let read = |s: &str, radix: u32, signed: bool, lo: i64, hi: i64| {
        let chars = text(s);
        parse_number(&chars, chars.len(), radix, signed, lo, hi)
    };
    assert_eq!(read("0", 10, true, i64::MIN, i64::MAX), Some(0));
    assert_eq!(read("-0", 10, true, i64::MIN, i64::MAX), Some(0));
    assert_eq!(read("+17", 10, true, i64::MIN, i64::MAX), Some(17));
    assert_eq!(read("-17", 10, true, i64::MIN, i64::MAX), Some(-17));
    assert_eq!(read("0017", 10, true, i64::MIN, i64::MAX), Some(17));
    assert_eq!(read("9223372036854775807", 10, true, i64::MIN, i64::MAX), Some(i64::MAX));
    assert_eq!(read("-9223372036854775808", 10, true, i64::MIN, i64::MAX), Some(i64::MIN));
    assert_eq!(read("9223372036854775808", 10, true, i64::MIN, i64::MAX), None);
    assert_eq!(read("-9223372036854775809", 10, true, i64::MIN, i64::MAX), None);
    assert_eq!(read("99999999999999999999999999999999999999999999", 10, true, i64::MIN, i64::MAX), None);
    assert_eq!(read("2147483647", 10, true, i32::MIN as i64, i32::MAX as i64), Some(2147483647));
    assert_eq!(read("2147483648", 10, true, i32::MIN as i64, i32::MAX as i64), None);
    assert_eq!(read("-2147483648", 10, true, i32::MIN as i64, i32::MAX as i64), Some(-2147483648));
    assert_eq!(read("", 10, true, i64::MIN, i64::MAX), None);
    assert_eq!(read("+", 10, true, i64::MIN, i64::MAX), None);
    assert_eq!(read("-", 10, true, i64::MIN, i64::MAX), None);
    assert_eq!(read("+-1", 10, true, i64::MIN, i64::MAX), None);
    assert_eq!(read("1 ", 10, true, i64::MIN, i64::MAX), None);
    assert_eq!(read(" 1", 10, true, i64::MIN, i64::MAX), None);
    assert_eq!(read("1a", 10, true, i64::MIN, i64::MAX), None);
    assert_eq!(read("\u{661}", 10, true, i64::MIN, i64::MAX), None);
    assert_eq!(read("ff", 16, false, 0, 255), Some(255));
    assert_eq!(read("Ff", 16, false, 0, 255), Some(255));
    assert_eq!(read("+a", 16, false, 0, 255), Some(10));
    assert_eq!(read("-a", 16, false, 0, 255), None);
    assert_eq!(read("-0", 16, false, 0, 255), None);
    assert_eq!(read("100", 16, false, 0, 255), None);
    assert_eq!(read("0g", 16, false, 0, 255), None);
    assert_eq!(read("000000ff", 16, false, 0, 255), Some(255));
    let chars = text("123l");
    assert_eq!(parse_number(&chars, 3, 10, true, i64::MIN, i64::MAX), Some(123));
    assert_eq!(parse_number(&chars, 4, 10, true, i64::MIN, i64::MAX), None);
    assert_eq!(parse_number(&chars, 0, 10, true, i64::MIN, i64::MAX), None);
}

#[test]
fn numbers_are_read_as_the_standard_library_reads_them() {
    let samples = [
        "0", "1", "-1", "+1", "", "+", "-", "007", "2147483647", "2147483648", "-2147483648",
        "-2147483649", "12a", "a", "1-", "--1", "+-1", " 1", "1 ", "0x10", "1_000",
    ];
    for s in samples {
        let chars = text(s);
        let ours = parse_number(&chars, chars.len(), 10, true, i32::MIN as i64, i32::MAX as i64);
        assert_eq!(ours, s.parse::<i32>().ok().map(|n| n as i64), "{:?}", s);
        let ours = parse_number(&chars, chars.len(), 10, true, i64::MIN, i64::MAX);
        assert_eq!(ours, s.parse::<i64>().ok(), "{:?}", s);
        let ours = parse_number(&chars, chars.len(), 16, false, 0, 255);
        assert_eq!(ours, u8::from_str_radix(s, 16).ok().map(|n| n as i64), "{:?}", s);
    }
}

#[test]
fn numbers_are_written() {
    assert_eq!(shown(&write_decimal(0)), "0");
    assert_eq!(shown(&write_decimal(7)), "7");
    assert_eq!(shown(&write_decimal(10)), "10");
    assert_eq!(shown(&write_decimal(-10)), "-10");
    assert_eq!(shown(&write_decimal(1234567890)), "1234567890");
    assert_eq!(shown(&write_decimal(i64::MAX)), "9223372036854775807");
    assert_eq!(shown(&write_decimal(i64::MIN)), "-9223372036854775808");
    for n in [-1000i64, -999, -11, -9, -1, 1, 9, 11, 99, 100, 101, 65025, 4294967296] {
        assert_eq!(shown(&write_decimal(n)), n.to_string());
    }
}

#[test]
fn long_numbers_are_cut_down() {
    assert_eq!(wrap_to_int(0), 0);
    assert_eq!(wrap_to_int(2147483647), 2147483647);
    assert_eq!(wrap_to_int(2147483648), -2147483648);
    assert_eq!(wrap_to_int(4294967296), 0);
    assert_eq!(wrap_to_int(-2147483649), 2147483647);
    assert_eq!(wrap_to_int(i64::MIN), 0);
    assert_eq!(wrap_to_int(i64::MAX), -1);
    assert_eq!(wrap_to_byte(0), 0);
    assert_eq!(wrap_to_byte(255), 255);
    assert_eq!(wrap_to_byte(256), 0);
    assert_eq!(wrap_to_byte(-1), 255);
    assert_eq!(wrap_to_byte(-256), 0);
    assert_eq!(wrap_to_byte(-257), 255);
    assert_eq!(wrap_to_byte(i64::MIN), 0);
    for n in [-70000i64, -65536, -300, -129, -128, 127, 128, 300, 65535, 1 << 40, -(1 << 40) - 5] {
        assert_eq!(wrap_to_int(n), n as i32);
        assert_eq!(wrap_to_byte(n), n as u8);
    }
}

#[test]
fn fractional_numbers_are_recognised() {
    let valid = [
        "0", "1", "-1", "+1", "1.", ".5", "1.5", "-1.5", "+.5", "1e5", "1E5", "1e+5", "1e-5",
        "1.5e10", ".5e1", "5.e1", "inf", "-inf", "+inf", "INF", "Infinity", "-infinity", "nan",
        "NaN", "-nan", "00.00", "123456789012345678901234567890",
    ];
    let invalid = [
        "", "+", "-", ".", "e", "e5", ".e5", "1e", "1e+", "1e5.", "1.5.2", "1 ", " 1", "1f",
        "in", "infinit", "infinityy", "na", "nanx", "++1", "1e++5", "0x10", "1_0", "1,5",
    ];
    for s in valid {
        let chars = text(s);
        assert!(is_fraction(&chars, chars.len()), "{:?}", s);
        assert!(s.parse::<f64>().is_ok(), "{:?}", s);
    }
    for s in invalid {
        let chars = text(s);
        assert!(!is_fraction(&chars, chars.len()), "{:?}", s);
        assert!(s.parse::<f64>().is_err(), "{:?}", s);
    }
    let chars = text("1.5f");
    assert!(is_fraction(&chars, 3));
    assert!(!is_fraction(&chars, 4));
    assert!(!is_fraction(&chars, 0));
}

#[test]
fn whole_values_combine_exactly() {
    let view = |r: Option<Types>| r.map(|v| format!("{:?}", v));
    assert_eq!(view(whole_arith(Operator::Add, &Types::Int(2), &Types::Int(3))), Some("Int(5)".to_string()));
    assert_eq!(view(whole_arith(Operator::Add, &Types::Int(2), &Types::Long(3))), Some("Long(5)".to_string()));
    assert_eq!(view(whole_arith(Operator::Add, &Types::Byte(2), &Types::Long(3))), Some("Long(5)".to_string()));
    assert_eq!(view(whole_arith(Operator::Subtract, &Types::Byte(2), &Types::Int(3))), Some("Int(-1)".to_string()));
    assert_eq!(view(whole_arith(Operator::Subtract, &Types::Byte(2), &Types::Byte(3))), Some("Int(-1)".to_string()));
    assert_eq!(view(whole_arith(Operator::Multiply, &Types::Byte(200), &Types::Byte(200))), Some("Int(40000)".to_string()));
    assert_eq!(view(whole_arith(Operator::Divide, &Types::Byte(200), &Types::Byte(3))), Some("Byte(66)".to_string()));
    assert_eq!(view(whole_arith(Operator::Remainder, &Types::Byte(200), &Types::Byte(3))), Some("Byte(2)".to_string()));
    assert_eq!(view(whole_arith(Operator::Divide, &Types::Byte(200), &Types::Int(-3))), Some("Int(-66)".to_string()));
    assert_eq!(view(whole_arith(Operator::Divide, &Types::Long(i64::MIN), &Types::Int(-1))), None);
    assert_eq!(view(whole_arith(Operator::Remainder, &Types::Long(i64::MIN), &Types::Int(-1))), Some("Long(0)".to_string()));
    assert_eq!(view(whole_arith(Operator::Multiply, &Types::Long(i64::MIN), &Types::Int(-1))), None);
    assert_eq!(view(whole_arith(Operator::Multiply, &Types::Long(i64::MAX), &Types::Long(i64::MAX))), None);
    assert_eq!(view(whole_arith(Operator::Multiply, &Types::Long(3037000499), &Types::Long(3037000499))), Some("Long(9223372030926249001)".to_string()));
    assert_eq!(view(whole_arith(Operator::Subtract, &Types::Long(i64::MIN), &Types::Byte(1))), None);
    assert_eq!(view(whole_arith(Operator::Add, &Types::Int(i32::MAX), &Types::Byte(1))), None);
    assert_eq!(view(whole_arith(Operator::Divide, &Types::Int(1), &Types::Byte(0))), None);
    assert_eq!(view(whole_arith(Operator::Remainder, &Types::Int(1), &Types::Long(0))), None);
    for (a, b) in [(7i64, 2i64), (-7, 2), (7, -2), (-7, -2), (0, 5), (6, 3), (-6, 3), (1, i64::MAX), (i64::MIN, 2)] {
        assert_eq!(
            view(whole_arith(Operator::Divide, &Types::Long(a), &Types::Long(b))),
            Some(format!("Long({})", a / b))
        );
        assert_eq!(
            view(whole_arith(Operator::Remainder, &Types::Long(a), &Types::Long(b))),
            Some(format!("Long({})", a % b))
        );
    }
}

#[test]
fn values_compare() {
    assert!(whole_compare(Relation::Equal, &Types::Int(5), &Types::Long(5)));
    assert!(whole_compare(Relation::Equal, &Types::Byte(5), &Types::Long(5)));
    assert!(!whole_compare(Relation::NotEqual, &Types::Byte(5), &Types::Int(5)));
    assert!(whole_compare(Relation::Greater, &Types::Long(1 << 40), &Types::Int(i32::MAX)));
    assert!(whole_compare(Relation::Greater, &Types::Byte(0), &Types::Int(-1)));
    assert!(!whole_compare(Relation::Greater, &Types::Int(-1), &Types::Byte(0)));
    assert!(!whole_compare(Relation::Greater, &Types::Int(3), &Types::Int(3)));
    let pairs = [("", ""), ("", "a"), ("a", ""), ("a", "a"), ("a", "b"), ("b", "a"), ("ab", "a"),
        ("a", "ab"), ("Z", "a"), ("\u{e9}", "z"), ("z", "\u{1f600}"), ("abc", "abd"), ("abd", "abc")];
    for (a, b) in pairs {
        assert_eq!(text_compare(Relation::Greater, &text(a), &text(b)), a > b, "{:?} {:?}", a, b);
        assert_eq!(text_compare(Relation::Equal, &text(a), &text(b)), a == b, "{:?} {:?}", a, b);
        assert_eq!(text_compare(Relation::NotEqual, &text(a), &text(b)), a != b, "{:?} {:?}", a, b);
    }
}

#[test]
fn a_stack_of_values() {
    let mut stack: Vec<Types> = Vec::new();
    assert!(pop_value(&mut stack).is_none());
    push_value(&mut stack, Types::Int(1));
    push_value(&mut stack, Types::Str("two".to_string()));
    let copy = stack[1].copy();
    assert!(matches!(&copy, Types::Str(s) if s == "two"));
    assert!(matches!(pop_value(&mut stack), Some(Types::Str(s)) if s == "two"));
    assert!(matches!(pop_value(&mut stack), Some(Types::Int(1))));
    assert!(pop_value(&mut stack).is_none());
    for v in [Types::Int(-3), Types::Long(1 << 40), Types::Float(7), Types::Double(9), Types::Byte(255)] {
        assert_eq!(format!("{:?}", v.copy()), format!("{:?}", v));
    }
}
