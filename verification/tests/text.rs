use k4refresh::text::{
    chars_of, fields, is_word, parse_i32, parse_u32, parse_u64, push_decimal, push_decimal_i32,
    read_i32, same_text, strip_ending, trim_end_text, trim_text, trimmed, white_space,
};

fn joined(chars: &[char]) -> String {
    chars.iter().collect()
}

#[test]
fn white_space_is_that_of_unicode() {
    for n in 0..=0x10ffffu32 {
        if let Some(c) = char::from_u32(n) {
            assert_eq!(white_space(c), c.is_whitespace(), "{:x}", n);
        }
    }
}

#[test]
fn trimming_both_ends() {
    for s in ["", " ", "a", " a", "a ", "\t a b \u{3000}\n", "\u{85}x\u{a0}", "  \n"] {
        assert_eq!(joined(&trimmed(&chars_of(s))), s.trim());
        assert_eq!(trim_text(s), s.trim());
        assert_eq!(trim_end_text(s), s.trim_end());
    }
}

#[test]
fn endings_are_taken_off() {
    assert_eq!(strip_ending("größe: 5", ": 5"), "größe");
    assert_eq!(strip_ending("abc", "bd"), "abc");
    assert_eq!(strip_ending("abc", "xabc"), "abc");
    assert_eq!(strip_ending("abc", ""), "abc");
    assert_eq!(strip_ending("abc", "abc"), "");
}

#[test]
fn lists_split_at_commas() {
    for s in ["", ",", "a", "a,b", " a , b,,c ,", "é , ü"] {
        let ours: Vec<String> = fields(s).iter().map(|f| joined(f)).collect();
        let theirs: Vec<String> = s.split(',').map(|f| f.trim().to_string()).collect();
        assert_eq!(ours, theirs);
    }
}

#[test]
fn numbers_are_read_as_the_standard_library_reads_them() {
    let texts = [
        "", "+", "-", "0", "-0", "+0", "7", "007", "+12", "-12", "--1", "+-1", "1 ", " 1", "1a",
        "2147483647", "2147483648", "-2147483648", "-2147483649", "4294967295", "4294967296",
        "18446744073709551615", "18446744073709551616", "99999999999999999999999999", "1_0", "١",
    ];
    for s in texts {
        assert_eq!(parse_i32(s), s.parse::<i32>().ok(), "{:?}", s);
        assert_eq!(parse_u32(s), s.parse::<u32>().ok(), "{:?}", s);
        assert_eq!(parse_u64(s), s.parse::<u64>().ok(), "{:?}", s);
        assert_eq!(read_i32(&chars_of(s)), s.parse::<i32>().ok(), "{:?}", s);
    }
    assert_eq!(parse_i32("-12"), Some(-12));
}

#[test]
fn numbers_are_written_in_decimal() {
    for n in [0u128, 9, 10, 99, 100, 1234567890, u64::MAX as u128, u128::MAX] {
        let mut out = String::from("x");
        push_decimal(&mut out, n);
        assert_eq!(out, format!("x{}", n));
    }
    for n in [0, 7, -1, 42, i32::MAX, i32::MIN] {
        let mut out = String::new();
        push_decimal_i32(&mut out, n);
        assert_eq!(out, n.to_string());
        assert_eq!(parse_i32(&out), Some(n));
    }
}

#[test]
fn texts_are_compared() {
    assert!(is_word(&vec!['f', 'a', 's', 't'], "fast"));
    assert!(!is_word(&vec!['f', 'a', 's'], "fast"));
    assert!(!is_word(&vec!['f', 'a', 's', 'd'], "fast"));
    assert!(same_text("", ""));
    assert!(same_text("überall", "überall"));
    assert!(!same_text("a", "b"));
}
