use kb_emulator_manager::number::{
    decimal_exec, parse_i32_exec, parse_u32_exec, parse_u64_exec, signed_decimal_exec,
};
use kb_emulator_manager::text::{
    chars_of, join_exec, replace_str, split_char_exec, split_lines, split_once_exec, string_of,
    trim_exec,
};

fn cs(s: &str) -> Vec<char> {
    s.chars().collect()
}

fn st(v: &[char]) -> String {
    v.iter().collect()
}

#[test]
fn decimal_text_of_numbers() {
    assert_eq!(st(&decimal_exec(0)), "0");
    assert_eq!(st(&decimal_exec(2048)), "2048");
    assert_eq!(st(&decimal_exec(u64::MAX)), "18446744073709551615");
    assert_eq!(st(&signed_decimal_exec(-42)), "-42");
    assert_eq!(st(&signed_decimal_exec(i64::MIN)), "-9223372036854775808");
}

#[test]
fn parsing_like_std() {
    assert_eq!(parse_u32_exec(&cs("35")), Some(35));
    assert_eq!(parse_u32_exec(&cs("+7")), Some(7));
    assert_eq!(parse_u32_exec(&cs("4294967295")), Some(u32::MAX));
    assert_eq!(parse_u32_exec(&cs("4294967296")), None);
    assert_eq!(parse_u32_exec(&cs("")), None);
    assert_eq!(parse_u32_exec(&cs("+")), None);
    assert_eq!(parse_u32_exec(&cs(" 1")), None);
    assert_eq!(parse_u64_exec(&cs("18446744073709551615")), Some(u64::MAX));
    assert_eq!(parse_i32_exec(&cs("-2147483648")), Some(i32::MIN));
    assert_eq!(parse_i32_exec(&cs("-2147483649")), None);
    assert_eq!(parse_i32_exec(&cs("-")), None);
    assert_eq!(parse_i32_exec(&cs("12a")), None);
}

#[test]
fn decimal_reads_back() {
    for n in [0u64, 1, 9, 10, 4096, 123456789] {
        let t = decimal_exec(n);
        assert_eq!(parse_u64_exec(&t), Some(n));
    }
}

#[test]
fn text_helpers() {
    assert_eq!(string_of(&chars_of("abc")), "abc");
    assert_eq!(st(&trim_exec(&cs(" \t x y \n"))), "x y");
    assert_eq!(st(&replace_str(&cs("a\\b\\c"), "\\", "/")), "a/b/c");
    let parts = split_char_exec(&cs("a=b=c"), '=');
    assert_eq!(parts.iter().map(|p| st(p)).collect::<Vec<_>>(), vec!["a", "b", "c"]);
    let (k, v) = split_once_exec(&cs("key=val=x"), '=').unwrap();
    assert_eq!((st(&k), st(&v)), ("key".to_string(), "val=x".to_string()));
    assert!(split_once_exec(&cs("novalue"), '=').is_none());
    let ls = split_lines(&cs("one\r\ntwo\n\nthree"));
    assert_eq!(ls.iter().map(|p| st(p)).collect::<Vec<_>>(), vec!["one", "two", "", "three"]);
    assert_eq!(st(&join_exec(&vec![cs("a"), cs("b")], &cs(", "))), "a, b");
}
