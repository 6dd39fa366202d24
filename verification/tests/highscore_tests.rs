use better_snake::highscore::{entry, load, parse_score};

#[test]
fn persistence_round_trip() {
    let mut record: Vec<u8> = b"10\n25".to_vec();
    assert_eq!(load(&record), Some(25));
    record.extend_from_slice(&entry(42));
    assert_eq!(record, b"10\n25\n42".to_vec());
    assert_eq!(load(&record), Some(42));
    // The last line wins, also where it is lower than the ones before.
    record.extend_from_slice(&entry(7));
    assert_eq!(load(&record), Some(7));
}

#[test]
fn entry_is_a_line_feed_and_the_score() {
    assert_eq!(entry(42), b"\n42".to_vec());
    assert_eq!(entry(0), b"\n0".to_vec());
    assert_eq!(entry(9), b"\n9".to_vec());
    assert_eq!(entry(10), b"\n10".to_vec());
    assert_eq!(entry(440), b"\n440".to_vec());
    assert_eq!(entry(-15), b"\n-15".to_vec());
    assert_eq!(entry(i32::MAX), b"\n2147483647".to_vec());
    assert_eq!(entry(i32::MIN), b"\n-2147483648".to_vec());
}

#[test]
fn entry_is_what_the_formatter_writes() {
    for score in [0, 1, -1, 5, 99, 100, 101, 440, 65535, -40000, 1_000_000_000, i32::MAX, i32::MIN]
    {
        assert_eq!(entry(score), format!("\n{}", score).into_bytes());
    }
}

#[test]
fn appended_score_loads_from_any_record() {
    let records: [&[u8]; 6] = [b"", b"0", b"12\n", b"rubbish", b"1\n2\n3", b"\n\n\n"];
    for record in records {
        for score in [0, 42, -1, 440, i32::MAX, i32::MIN] {
            let mut text = record.to_vec();
            text.extend_from_slice(&entry(score));
            assert_eq!(load(&text), Some(score));
        }
    }
}

#[test]
fn load_reads_the_last_line() {
    assert_eq!(load(b"7"), Some(7));
    assert_eq!(load(b"0"), Some(0));
    assert_eq!(load(b"1\n2\n3"), Some(3));
    assert_eq!(load(b"junk\n12"), Some(12));
    assert_eq!(load(b"\n5"), Some(5));
    assert_eq!(load(b"34\n-2"), Some(-2));
}

#[test]
fn load_rejects_a_last_line_that_is_no_score() {
    assert_eq!(load(b""), None);
    assert_eq!(load(b"10\n"), None);
    assert_eq!(load(b"\n"), None);
    assert_eq!(load(b"10\nabc"), None);
    assert_eq!(load(b"10\n1 2"), None);
    assert_eq!(load(b"10\r\n11\r"), None);
    assert_eq!(load(b"10\n 11"), None);
    assert_eq!(load(b"10\n11 "), None);
}

#[test]
fn parse_score_reads_signs_and_digits() {
    assert_eq!(parse_score(b"0"), Some(0));
    assert_eq!(parse_score(b"42"), Some(42));
    assert_eq!(parse_score(b"+42"), Some(42));
    assert_eq!(parse_score(b"-42"), Some(-42));
    assert_eq!(parse_score(b"-0"), Some(0));
    assert_eq!(parse_score(b"007"), Some(7));
    assert_eq!(parse_score(b"0000000000000000000000012"), Some(12));
    assert_eq!(parse_score(b"2147483647"), Some(i32::MAX));
    assert_eq!(parse_score(b"-2147483648"), Some(i32::MIN));
    assert_eq!(parse_score(b"+2147483647"), Some(i32::MAX));
}

#[test]
fn parse_score_rejects_what_is_no_score() {
    assert_eq!(parse_score(b""), None);
    assert_eq!(parse_score(b"+"), None);
    assert_eq!(parse_score(b"-"), None);
    assert_eq!(parse_score(b"+-1"), None);
    assert_eq!(parse_score(b"--1"), None);
    assert_eq!(parse_score(b"1-"), None);
    assert_eq!(parse_score(b"1+1"), None);
    assert_eq!(parse_score(b"12a"), None);
    assert_eq!(parse_score(b"a12"), None);
    assert_eq!(parse_score(b" 12"), None);
    assert_eq!(parse_score(b"12\n"), None);
    assert_eq!(parse_score(b"1.5"), None);
    assert_eq!(parse_score(b"/"), None);
    assert_eq!(parse_score(b":"), None);
    assert_eq!(parse_score(b"2147483648"), None);
    assert_eq!(parse_score(b"-2147483649"), None);
    assert_eq!(parse_score(b"+2147483648"), None);
    assert_eq!(parse_score(b"99999999999999999999999999999999"), None);
    assert_eq!(parse_score(b"-99999999999999999999999999999999"), None);
    assert_eq!(parse_score(b"21474836470"), None);
    assert_eq!(parse_score(&[0xff, 0x31]), None);
}

#[test]
fn parse_score_agrees_with_the_standard_parser() {
    let lines = [
        "", "0", "-0", "+0", "1", "-1", "+1", "12", "0012", "-0012", "+", "-", "++1", "1_000",
        "2147483647", "2147483648", "-2147483648", "-2147483649", "4294967296", "x", "1x", "x1",
        " 1", "1 ", "9223372036854775807", "-9223372036854775808", "00000000002147483647",
        "00000000002147483648", "440", "٣", "1e3", "0x10",
    ];
    for line in lines {
        assert_eq!(parse_score(line.as_bytes()), line.parse::<i32>().ok(), "{:?}", line);
    }
    for value in (-3000..3000).chain([i32::MAX - 1, i32::MIN + 1]) {
        let line = value.to_string();
        assert_eq!(parse_score(line.as_bytes()), Some(value));
        let mut record = b"1\n2".to_vec();
        record.extend_from_slice(&entry(value));
        assert_eq!(load(&record), Some(value));
    }
}
