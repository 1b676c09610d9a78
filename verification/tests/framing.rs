use cgi_extension::framing::{parse_length_line, read_frame};
use cgi_extension::FatalError;

#[test]
fn length_line_is_a_decimal_number() {
    assert_eq!(parse_length_line("41\n"), Ok(41));
    assert_eq!(parse_length_line("0\n"), Ok(0));
    assert_eq!(parse_length_line("37"), Ok(37));
    assert_eq!(parse_length_line("1234567890\n"), Ok(1234567890));
    assert_eq!(parse_length_line("007\n"), Ok(7));
}

#[test]
fn length_line_is_trimmed_of_white_space() {
    assert_eq!(parse_length_line("  12\t\r\n"), Ok(12));
    assert_eq!(parse_length_line("\n5\n\n"), Ok(5));
    assert_eq!(parse_length_line("\u{2003}7\u{a0}\u{3000}"), Ok(7));
    assert_eq!(parse_length_line("\u{85}8\u{1680}\u{2028}\u{2029}\u{202f}\u{205f}"), Ok(8));
    assert_eq!(parse_length_line("\u{b}\u{c}9"), Ok(9));
}

#[test]
fn length_line_may_carry_a_plus_sign() {
    assert_eq!(parse_length_line("+42\n"), Ok(42));
    assert_eq!(parse_length_line(" +0 "), Ok(0));
    assert_eq!(parse_length_line("+"), Err(FatalError::InvalidLength));
    assert_eq!(parse_length_line("++1"), Err(FatalError::InvalidLength));
    assert_eq!(parse_length_line("+ 1"), Err(FatalError::InvalidLength));
}

#[test]
fn malformed_length_lines_are_refused() {
    for line in [
        "", "\n", "   ", "-1", "-0", "12a", "a12", "1 2", "1.0", "1e3", "0x10", "١٢", "1_000",
        "\u{200b}1", "1\u{feff}",
    ] {
        assert_eq!(parse_length_line(line), Err(FatalError::InvalidLength), "{:?}", line);
    }
}

#[test]
fn length_line_agrees_with_the_standard_parser() {
    for line in [
        "41\n", " 7 ", "+3", "", "-", "+", "00", "18446744073709551615", "18446744073709551616",
        "4294967295", "4294967296", "99999999999999999999999999", "\u{2000}1\u{200a}", "1\u{200b}",
        "٣", "1\n2", "\r10\r",
    ] {
        let expected = line.trim().parse::<usize>().map_err(|_| FatalError::InvalidLength);
        assert_eq!(parse_length_line(line), expected, "{:?}", line);
    }
}

#[test]
fn length_beyond_the_machine_is_refused() {
    let largest = usize::MAX.to_string();
    assert_eq!(parse_length_line(&largest), Ok(usize::MAX));
    let mut beyond = largest.clone();
    beyond.push('0');
    assert_eq!(parse_length_line(&beyond), Err(FatalError::InvalidLength));
    assert_eq!(
        parse_length_line("340282366920938463463374607431768211456"),
        Err(FatalError::InvalidLength)
    );
}

#[test]
fn frame_is_a_length_line_and_that_many_bytes() {
    assert_eq!(read_frame(b"5\nhello"), Ok(b"hello".to_vec()));
    assert_eq!(read_frame(b"5\nhello world"), Ok(b"hello".to_vec()));
    assert_eq!(read_frame(b" 3 \r\na\nb\nc"), Ok(b"a\nb".to_vec()));
    assert_eq!(read_frame(b"2\n\xff\x00"), Ok(vec![0xff, 0x00]));
}

#[test]
fn frame_of_length_zero_holds_the_empty_payload() {
    assert_eq!(read_frame(b"0\n"), Ok(Vec::new()));
    assert_eq!(read_frame(b"0"), Ok(Vec::new()));
    assert_eq!(read_frame(b"0\nrest"), Ok(Vec::new()));
}

#[test]
fn frame_that_ends_early_is_truncated() {
    assert_eq!(read_frame(b"6\nhello"), Err(FatalError::TruncatedPayload));
    assert_eq!(read_frame(b"1\n"), Err(FatalError::TruncatedPayload));
    assert_eq!(read_frame(b"1"), Err(FatalError::TruncatedPayload));
}

#[test]
fn frame_without_a_length_is_refused() {
    assert_eq!(read_frame(b""), Err(FatalError::InvalidLength));
    assert_eq!(read_frame(b"\nhello"), Err(FatalError::InvalidLength));
    assert_eq!(read_frame(b"hello"), Err(FatalError::InvalidLength));
    assert_eq!(read_frame(b"5 hello\n"), Err(FatalError::InvalidLength));
}

#[test]
fn length_line_that_is_not_text_is_refused() {
    assert_eq!(read_frame(b"\xff5\nhello"), Err(FatalError::InvalidLength));
    assert_eq!(read_frame(b"5\xc3\nhello"), Err(FatalError::InvalidLength));
}

#[test]
fn frame_reads_the_length_in_white_space_of_several_bytes() {
    let mut input = "\u{2003}4\u{a0}\n".as_bytes().to_vec();
    input.extend_from_slice(b"data and more");
    assert_eq!(read_frame(&input), Ok(b"data".to_vec()));
}

#[test]
fn every_character_is_trimmed_as_the_standard_library_trims_it() {
    for code in 0..=0x10FFFFu32 {
        if let Some(c) = char::from_u32(code) {
            let line = format!("{}7{}", c, c);
            let expected = line.trim().parse::<usize>().map_err(|_| FatalError::InvalidLength);
            assert_eq!(parse_length_line(&line), expected, "U+{:04X}", code);
        }
    }
}
