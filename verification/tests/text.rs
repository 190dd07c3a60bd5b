use bashtestmd::number::{parse_decimal, render_decimal};
use bashtestmd::text::{
    chars_of, contains_chars, has_prefix, line_of, lines, matches_at, put_chars, put_line,
    same_chars, skip_chars, split_chars, string_of,
};

fn chars(s: &str) -> Vec<char> {
    s.chars().collect()
}

fn strings(v: Vec<Vec<char>>) -> Vec<String> {
    v.into_iter().map(|l| l.into_iter().collect()).collect()
}

const SAMPLES: [&str; 22] = [
    "",
    "\n",
    "\r",
    "\r\n",
    "a",
    "a\n",
    "a\r",
    "a\r\n",
    "a\n\n",
    "\na",
    "\n\na\n",
    "a\nb",
    "a\r\nb\r\n",
    "a\r\r\nb",
    "a\rb\nc",
    "foo\nbar\n\r\nbaz\r",
    "$ echo hi\nhi\n",
    "one,two,,three",
    ",",
    ",,",
    "héllo\nwörld\n",
    "tab\there\n \n",
];

#[test]
fn chars_round_trip() {
    for s in SAMPLES {
        assert_eq!(chars_of(s), chars(s));
        assert_eq!(string_of(&chars(s)), s);
    }
}

#[test]
fn lines_agree_with_std() {
    for s in SAMPLES {
        let expected: Vec<String> = s.lines().map(|l| l.to_string()).collect();
        assert_eq!(strings(lines(&chars(s))), expected, "lines of {:?}", s);
    }
}

#[test]
fn lines_keep_a_bare_carriage_return_at_the_end() {
    assert_eq!(
        strings(lines(&chars("foo\nbar\n\r\nbaz\r"))),
        vec!["foo", "bar", "", "baz\r"]
    );
}

#[test]
fn lines_of_empty_text_are_none() {
    assert_eq!(lines(&chars("")).len(), 0);
    assert_eq!(strings(lines(&chars("\n"))), vec![""]);
}

#[test]
fn split_agrees_with_std() {
    for s in SAMPLES {
        for sep in [',', '\n', 'a'] {
            let expected: Vec<String> = s.split(sep).map(|l| l.to_string()).collect();
            assert_eq!(strings(split_chars(&chars(s), sep)), expected, "split of {:?}", s);
        }
    }
}

#[test]
fn split_of_empty_text_is_one_empty_piece() {
    assert_eq!(strings(split_chars(&chars(""), ',')), vec![""]);
    assert_eq!(strings(split_chars(&chars("a,,b,"), ',')), vec!["a", "", "b", ""]);
}

#[test]
fn split_pieces_join_back() {
    for s in SAMPLES {
        let pieces = strings(split_chars(&chars(s), ','));
        assert_eq!(pieces.join(","), s);
        assert!(pieces.iter().all(|p| !p.contains(',')));
    }
}

#[test]
fn contains_agrees_with_std() {
    let needles = ["", "a", "\n", "a\n", "test-ci", "ar\n", "three", "xyz", "foo\nbar\n\r\nbaz\r!"];
    for s in SAMPLES {
        for n in needles {
            assert_eq!(contains_chars(&chars(s), &chars(n)), s.contains(n), "{:?} in {:?}", n, s);
            assert_eq!(has_prefix(&chars(s), &chars(n)), s.starts_with(n), "{:?} at {:?}", n, s);
            assert_eq!(same_chars(&chars(s), &chars(n)), s == n);
        }
    }
}

#[test]
fn matches_at_checks_the_position() {
    let hay = chars("bash,test-ci");
    assert!(matches_at(&hay, &chars("test"), 5));
    assert!(!matches_at(&hay, &chars("test"), 4));
    assert!(matches_at(&hay, &chars(""), 12));
    assert!(!matches_at(&hay, &chars(""), 13));
    assert!(!matches_at(&hay, &chars("ci!"), 10));
}

#[test]
fn skip_chars_drops_the_beginning() {
    assert_eq!(skip_chars(&chars("$ echo hi"), 2), chars("echo hi"));
    assert_eq!(skip_chars(&chars("ab"), 2), chars(""));
    assert_eq!(skip_chars(&chars("ab"), 0), chars("ab"));
}

#[test]
fn lines_are_put_with_a_newline() {
    assert_eq!(line_of("abc"), "abc\n");
    assert_eq!(line_of(""), "\n");
    let mut out = String::from("x");
    put_line(&mut out, "y");
    put_line(&mut out, "");
    assert_eq!(out, "xy\n\n");
    let mut v = chars("ab");
    put_chars(&mut v, &chars("cd"));
    assert_eq!(v, chars("abcd"));
}

#[test]
fn parse_decimal_agrees_with_std() {
    let numerals = [
        "", "0", "7", "42", "-1", "+1", "-0", "+0", "007", "-007", "2147483647", "2147483648",
        "-2147483648", "-2147483649", "99999999999999999999", "-99999999999999999999", "+", "-",
        "--1", "+-1", "1-", "1 ", " 1", "1_000", "0x10", "1.0", "a", "12a", "٣", "1e3",
        "4294967296", "+2147483647", "+2147483648", "00000000000000000000001",
    ];
    for n in numerals {
        assert_eq!(parse_decimal(&chars(n)), n.parse::<i32>().ok(), "numeral {:?}", n);
    }
}

#[test]
fn parse_decimal_reads_the_limits() {
    assert_eq!(parse_decimal(&chars("2147483647")), Some(i32::MAX));
    assert_eq!(parse_decimal(&chars("-2147483648")), Some(i32::MIN));
    assert_eq!(parse_decimal(&chars("2147483648")), None);
    assert_eq!(parse_decimal(&chars("-2147483649")), None);
    assert_eq!(parse_decimal(&chars("2")), Some(2));
}

#[test]
fn render_decimal_agrees_with_std() {
    for n in [0, 1, 2, 9, 10, 11, 99, 100, 101, 255, 1000, 65536, i32::MAX, -1, -9, -10, -128, i32::MIN, i32::MIN + 1] {
        assert_eq!(string_of(&render_decimal(n)), n.to_string());
    }
}

#[test]
fn decimal_round_trips() {
    for n in [0, 5, -5, 120, -120, 2147483647, -2147483648] {
        assert_eq!(parse_decimal(&render_decimal(n)), Some(n));
    }
}
