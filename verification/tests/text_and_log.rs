use codexbar::text::{
    capitalize, frame_record, is_blank, is_white_space, parse_i64, split_lines,
};

#[test]
fn white_space_is_that_of_unicode() {
    for n in 0..=0x10FFFFu32 {
        if let Some(c) = char::from_u32(n) {
            assert_eq!(is_white_space(c), c.is_whitespace(), "{}", n);
        }
    }
}

#[test]
fn blank_text_is_what_trimming_leaves_nothing_of() {
    for s in ["", " ", "\t\n\u{3000}", "a", " a ", "\u{200B}"] {
        assert_eq!(is_blank(s), s.trim().is_empty(), "{:?}", s);
    }
}

#[test]
fn numbers_are_read_as_the_standard_library_reads_them() {
    let samples = [
        "", "+", "-", "0", "-0", "+7", "007", "12a", " 1", "1 ", "--1", "+-1", "1_000",
        "9223372036854775807", "9223372036854775808", "-9223372036854775808",
        "-9223372036854775809", "00000000000000000000000000000000042",
        "99999999999999999999999999999999999999999999", "\u{0661}",
    ];
    for s in samples {
        assert_eq!(parse_i64(s), s.parse::<i64>().ok(), "{:?}", s);
    }
}

#[test]
fn first_letters_are_capitalized() {
    assert_eq!(capitalize(""), "");
    assert_eq!(capitalize("team"), "Team");
    assert_eq!(capitalize("Team"), "Team");
    assert_eq!(capitalize("\u{DF}a"), "SSa");
    assert_eq!(capitalize("1st"), "1st");
    for s in ["team", "\u{DF}a", "1st", ""] {
        let once = capitalize(s);
        assert_eq!(capitalize(&once), once);
    }
}

#[test]
fn lines_are_those_of_the_standard_library() {
    let samples = [
        "", "\n", "a", "a\n", "a\nb", "a\r\nb\r\n", "a\r", "\r\n", "\n\n", "a\n\n\nb\n", "\r",
        "a\r\r\nb", "{\"x\":1}\n{\"x\":2}",
    ];
    for s in samples {
        let expected: Vec<String> = s.lines().map(|l| l.to_string()).collect();
        assert_eq!(split_lines(s), expected, "{:?}", s);
    }
}

#[test]
fn appended_records_are_read_back_in_their_order() {
    let records = ["{\"a\":1}", "{\"b\":\"x y\"}", "{}"];
    let mut log = String::new();
    for r in records {
        let framed = frame_record(r);
        assert_eq!(framed, format!("{}\n", r));
        log.push_str(&framed);
    }
    assert_eq!(split_lines(&log), records);
}
