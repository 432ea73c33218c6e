use dstest::text::{lines, parse_i64, parse_u64, trim, words};

#[test]
fn lines_as_str_lines_gives_them() {
    for s in ["", "a", "a\n", "a\r\nb", "a\n\nb\n", "\n", "x\r", "x\r\ny\r", " a \n b "] {
        let expected: Vec<String> = s.lines().map(|l| l.to_string()).collect();
        assert_eq!(lines(s), expected, "lines of {:?}", s);
    }
}

#[test]
fn words_as_split_whitespace_gives_them() {
    for s in ["", "  ", "a b", " a\tb\n c ", "x\u{2003}y\u{a0}z", "one"] {
        let expected: Vec<String> = s.split_whitespace().map(|w| w.to_string()).collect();
        assert_eq!(words(s), expected, "words of {:?}", s);
    }
}

#[test]
fn trim_as_str_trim() {
    for s in ["", "  ", " a ", "\u{3000}b\t", "c", "\r\nd e\n"] {
        assert_eq!(trim(s), s.trim());
    }
}

#[test]
fn integers_parse_as_std_parses_them() {
    for s in ["0", "42", "+7", "-7", "", "+", "-", "12x", "18446744073709551615", "18446744073709551616", "9223372036854775807", "9223372036854775808", "-9223372036854775808", "-9223372036854775809", "0042"] {
        assert_eq!(parse_u64(s), s.parse::<u64>().map_err(|e| e.to_string()), "u64 {:?}", s);
        assert_eq!(parse_i64(s), s.parse::<i64>().map_err(|e| e.to_string()), "i64 {:?}", s);
    }
}
