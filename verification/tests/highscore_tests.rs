use typemaster::highscore::decode_highscore;
use typemaster::highscore::encode_highscore;
use typemaster::highscore::format_highscore_file;
use typemaster::highscore::parse_u32;
use typemaster::highscore::u32_to_decimal;
use typemaster::read_highscore_file;

#[test]
fn encode_splits_in_base_255() {
    assert_eq!(encode_highscore(300, 0), vec![1, 45, 0, 0]);
    assert_eq!(encode_highscore(0, 254), vec![0, 0, 0, 254]);
    assert_eq!(encode_highscore(255, 256), vec![1, 0, 1, 1]);
}

#[test]
fn decode_reads_base_255_pairs() {
    assert_eq!(decode_highscore(&vec![1, 45, 0, 0]), (300, 0));
    assert_eq!(decode_highscore(&vec![255, 254, 0, 1]), (255 * 255 + 254, 1));
}

#[test]
fn decode_of_corrupt_or_missing_record_is_zero() {
    assert_eq!(decode_highscore(&vec![]), (0, 0));
    assert_eq!(decode_highscore(&vec![1, 2, 3]), (0, 0));
    assert_eq!(decode_highscore(&vec![1, 2, 3, 4, 5]), (0, 0));
}

#[test]
fn save_of_load_reproduces_a_valid_record() {
    let records = [
        vec![0u8, 0, 0, 0],
        vec![4, 210, 2, 57],
        vec![255, 254, 255, 0],
    ];
    for record in records {
        let (typed, cpm) = decode_highscore(&record);
        assert_eq!(encode_highscore(typed, cpm), record);
    }
}

#[test]
fn value_round_trip_within_the_representable_range() {
    for value in [0u32, 1, 254, 255, 256, 300, 12345, 65279] {
        let bytes = encode_highscore(value, value);
        assert_eq!(decode_highscore(&bytes), (value, value));
    }
}

#[test]
fn parse_reads_decimal_strings() {
    assert_eq!(parse_u32("0"), Some(0));
    assert_eq!(parse_u32("123"), Some(123));
    assert_eq!(parse_u32("007"), Some(7));
    assert_eq!(parse_u32("4294967295"), Some(u32::MAX));
}

#[test]
fn parse_rejects_bad_input() {
    assert_eq!(parse_u32(""), None);
    assert_eq!(parse_u32("12a"), None);
    assert_eq!(parse_u32("-1"), None);
    assert_eq!(parse_u32(" 1"), None);
    assert_eq!(parse_u32("4294967296"), None);
    assert_eq!(parse_u32("999999999999999999999999"), None);
}

#[test]
fn text_record_reads_two_decimal_lines() {
    let lines = vec![String::from("123"), String::from("45")];
    assert_eq!(read_highscore_file(&lines), (123, 45));
}

#[test]
fn values_render_as_plain_decimal() {
    assert_eq!(u32_to_decimal(0), "0");
    assert_eq!(u32_to_decimal(7), "7");
    assert_eq!(u32_to_decimal(10), "10");
    assert_eq!(u32_to_decimal(1234), "1234");
    assert_eq!(u32_to_decimal(u32::MAX), "4294967295");
}

#[test]
fn text_record_writes_two_decimal_lines() {
    assert_eq!(format_highscore_file((123, 45)), "123\n45");
    assert_eq!(format_highscore_file((0, 0)), "0\n0");
}

#[test]
fn text_record_written_then_read_is_unchanged() {
    for pair in [(0u32, 0u32), (123, 45), (u32::MAX, 300)] {
        let text = format_highscore_file(pair);
        let lines: Vec<String> = text.split('\n').map(String::from).collect();
        assert_eq!(read_highscore_file(&lines), pair);
    }
}

#[test]
fn malformed_text_record_is_zero() {
    assert_eq!(read_highscore_file(&vec![]), (0, 0));
    assert_eq!(read_highscore_file(&vec![String::from("123")]), (0, 0));
    assert_eq!(
        read_highscore_file(&vec![String::from("abc"), String::from("1")]),
        (0, 0)
    );
    assert_eq!(
        read_highscore_file(&vec![
            String::from("1"),
            String::from("2"),
            String::from("3")
        ]),
        (0, 0)
    );
}
