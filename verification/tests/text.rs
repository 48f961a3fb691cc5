use dsorter::lines::{log_entry, log_head, log_tail, split_lines};
use dsorter::number::{decimal_text, parse_i32, signed_decimal_text};
use dsorter::text::{trim, white_space};

#[test]
fn white_space_is_that_of_char() {
    for n in 0u32..=0x10_ffff {
        if let Some(c) = char::from_u32(n) {
            assert_eq!(white_space(c), c.is_whitespace(), "{n:x}");
        }
    }
}

#[test]
fn trim_is_that_of_str() {
    for s in ["", " ", "a", " a ", "\t\n a b \r\n", "\u{a0}x\u{3000}", "x\u{200b}"] {
        assert_eq!(trim(s), s.trim());
    }
}

#[test]
fn decimal_text_is_display() {
    for n in [0u64, 1, 9, 10, 11, 99, 100, 1234567890, u64::MAX] {
        assert_eq!(decimal_text(n), n.to_string());
    }
    for i in [0i32, 7, -7, 10, -10, i32::MAX, i32::MIN] {
        assert_eq!(signed_decimal_text(i), i.to_string());
    }
    assert_eq!(decimal_text(305), "305");
}

#[test]
fn parse_i32_is_that_of_str() {
    let samples = [
        "", "+", "-", "0", "-0", "+0", "7", "007", "+42", "-42", "2147483647", "2147483648",
        "-2147483648", "-2147483649", "99999999999999999999999999", "12a", "a12", " 1", "1 ",
        "--1", "+-1", "4294967296", "4294967297", "\u{661}", "1\u{661}",
    ];
    for s in samples {
        assert_eq!(parse_i32(s), s.parse::<i32>().ok(), "{s}");
    }
    assert_eq!(parse_i32("-2147483648"), Some(-2147483648));
}

#[test]
fn written_numbers_are_read_back() {
    for i in [0i32, 1, -1, 4711, i32::MAX, i32::MIN] {
        assert_eq!(parse_i32(&signed_decimal_text(i)), Some(i));
    }
}

#[test]
fn lines_are_those_of_str() {
    let samples = [
        "", "\n", "a", "a\n", "a\nb", "a\r\nb\r\n", "a\rb", "a\r", "a\r\r\n", "\r\n\r\n", "\n\na",
        "x\r\n\r", "é\n→",
    ];
    for s in samples {
        let expected: Vec<&str> = s.lines().collect();
        assert_eq!(split_lines(s), expected, "{s:?}");
    }
}

#[test]
fn head_and_tail_of_a_log() {
    let log = "one\ntwo\nthree\n";
    assert_eq!(log_head(log, 0), Vec::<String>::new());
    assert_eq!(log_head(log, 2), vec!["one", "two"]);
    assert_eq!(log_head(log, 20), vec!["one", "two", "three"]);
    assert_eq!(log_tail(log, 0), Vec::<String>::new());
    assert_eq!(log_tail(log, 2), vec!["two", "three"]);
    assert_eq!(log_tail(log, usize::MAX), vec!["one", "two", "three"]);
    assert_eq!(log_tail("", 5), Vec::<String>::new());
    let mut all = log_head(log, 1);
    all.extend(log_tail(log, 2));
    assert_eq!(all, split_lines(log));
}

#[test]
fn appended_entry_is_the_last_line() {
    let mut log = String::new();
    log.push_str(&log_entry("moved a.jpg -> /pictures"));
    log.push_str(&log_entry(""));
    log.push_str(&log_entry("config reloaded"));
    assert_eq!(split_lines(&log), vec!["moved a.jpg -> /pictures", "", "config reloaded"]);
    assert_eq!(log_tail(&log, 1), vec!["config reloaded"]);
}
