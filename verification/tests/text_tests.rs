use mocasa::duration_format::format_duration;
use mocasa::joiner::Joiner;
use mocasa::text::{
    chars_of, count_string, decimal_string, find_first_difference, is_whitespace, join, split,
    string_of, three_digits, trim, Delims,
};

fn strings(items: &[&str]) -> Vec<String> {
    items.iter().map(|item| item.to_string()).collect()
}

#[test]
fn numbers_are_written_in_decimal() {
    assert_eq!(decimal_string(0), "0");
    assert_eq!(decimal_string(7), "7");
    assert_eq!(decimal_string(10), "10");
    assert_eq!(decimal_string(1234567890), "1234567890");
    assert_eq!(decimal_string(u128::MAX), u128::MAX.to_string());
    assert_eq!(count_string(usize::MAX), usize::MAX.to_string());
    assert_eq!(count_string(1000), "1000");
    assert_eq!(three_digits(0), "000");
    assert_eq!(three_digits(7), "007");
    assert_eq!(three_digits(42), "042");
    assert_eq!(three_digits(999), "999");
}

#[test]
fn join_puts_the_separator_between() {
    assert_eq!(join(", ", &strings(&["a", "b", "c"])), "a, b, c");
    assert_eq!(join("\t", &strings(&["only"])), "only");
    assert_eq!(join("\t", &strings(&[])), "");
    assert_eq!(join("-", &strings(&["", ""])), "-");
    let list = strings(&["1.5", "NaN", "2"]);
    assert_eq!(Joiner::new("\t", &list).to_text(), "1.5\tNaN\t2");
}

#[test]
fn white_space_is_what_unicode_says() {
    for c in ['\t', '\n', '\u{b}', '\u{c}', '\r', ' ', '\u{85}', '\u{a0}', '\u{1680}',
        '\u{2000}', '\u{200a}', '\u{2028}', '\u{2029}', '\u{202f}', '\u{205f}', '\u{3000}']
    {
        assert!(is_whitespace(c));
    }
    for c in ['a', '0', '_', '\u{200b}', '\u{feff}', '\u{8}', '\u{e}', '\u{1f}'] {
        assert!(!is_whitespace(c));
    }
    for code in 0..0x3100u32 {
        if let Some(c) = char::from_u32(code) {
            assert_eq!(is_whitespace(c), c.is_whitespace());
        }
    }
}

#[test]
fn trim_takes_off_white_space_at_both_ends() {
    assert_eq!(trim("  a b \t\n"), "a b");
    assert_eq!(trim(""), "");
    assert_eq!(trim(" \t "), "");
    assert_eq!(trim("word"), "word");
    assert_eq!(trim("\u{a0}é \u{3000}"), "é");
}

#[test]
fn split_gives_one_part_more_than_separators() {
    assert_eq!(split("a,b,c", Delims::One(',')), strings(&["a", "b", "c"]));
    assert_eq!(split("", Delims::One(',')), strings(&[""]));
    assert_eq!(split("abc", Delims::One(',')), strings(&["abc"]));
    assert_eq!(split(",a,,b,", Delims::One(',')), strings(&["", "a", "", "b", ""]));
    assert_eq!(split("a b\tc", Delims::Whitespace), strings(&["a", "b", "c"]));
    assert_eq!(split("a  b", Delims::Whitespace), strings(&["a", "", "b"]));
    assert_eq!(split("id;w,x y\tz", Delims::Tabular), strings(&["id", "w", "x", "y", "z"]));
    assert_eq!(split("é\tü", Delims::One('\t')), strings(&["é", "ü"]));
}

#[test]
fn characters_and_strings_convert() {
    assert_eq!(chars_of("héllo"), vec!['h', 'é', 'l', 'l', 'o']);
    assert!(chars_of("").is_empty());
    let chars = vec!['a', 'b', 'c', 'd'];
    assert_eq!(string_of(&chars, 1, 3), "bc");
    assert_eq!(string_of(&chars, 0, 4), "abcd");
    assert_eq!(string_of(&chars, 2, 2), "");
}

#[test]
fn first_difference_is_found() {
    assert_eq!(find_first_difference(&strings(&["a", "b"]), &strings(&["a", "b"])), None);
    assert_eq!(find_first_difference(&strings(&["a", "b"]), &strings(&["a", "c"])), Some(1));
    assert_eq!(find_first_difference(&strings(&["x", "b"]), &strings(&["a", "c"])), Some(0));
    assert_eq!(find_first_difference(&strings(&["a"]), &strings(&["a", "c"])), None);
    assert_eq!(find_first_difference(&strings(&[]), &strings(&[])), None);
}

#[test]
fn durations_read_in_their_largest_unit() {
    assert_eq!(format_duration(0), "0s");
    assert_eq!(format_duration(1), "1ns");
    assert_eq!(format_duration(999), "999ns");
    assert_eq!(format_duration(1_000), "1.000µs");
    assert_eq!(format_duration(1_234), "1.234µs");
    assert_eq!(format_duration(999_999), "999.999µs");
    assert_eq!(format_duration(1_000_000), "1.000ms");
    assert_eq!(format_duration(12_345_678), "12.678ms");
    assert_eq!(format_duration(1_000_000_000), "1.000s");
    assert_eq!(format_duration(59_042_000_000), "59.042s");
    assert_eq!(format_duration(60_000_000_000), "1m0s");
    assert_eq!(format_duration(125_000_000_000), "2m5s");
    assert_eq!(format_duration(3_599_000_000_000), "59m59s");
    assert_eq!(format_duration(3_600_000_000_000), "1h0m0s");
    assert_eq!(format_duration(3_725_000_000_000), "1h2m5s");
    assert_eq!(format_duration(86_399_000_000_000), "23h59m59s");
    assert_eq!(format_duration(86_400_000_000_000), "1d0h0m");
    assert_eq!(format_duration(93_784_000_000_000), "1d2h3m");
    assert_eq!(format_duration(604_799_000_000_000), "6d23h59m");
    assert_eq!(format_duration(604_800_000_000_000), "1w0d0h");
    assert_eq!(format_duration(788_400_000_000_000), "1w2d3h");
    let max = std::time::Duration::MAX.as_nanos();
    assert_eq!(format_duration(max), "30500568904943w0d7h");
}
