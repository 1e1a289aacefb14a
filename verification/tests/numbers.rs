use libexodus::numbers::{parse_i16, parse_u16, IntErrorKind};

#[test]
fn decimal_text_reads_back() {
    for n in [0u16, 9, 10, 99, 100, 12345, 65535] {
        assert_eq!(parse_u16(&n.to_string()), Ok(n));
    }
    for n in [i16::MIN, -10, -9, -1, 0, 1, 10, i16::MAX] {
        assert_eq!(parse_i16(&n.to_string()), Ok(n));
    }
}

#[test]
fn integer_reading_follows_str_parse() {
    for text in ["", "+", "-", "+7", "-7", "007", "65536", "-32769", "32768", "1 2", "x", "-0"] {
        let ours = parse_u16(text).map_err(|e| e.kind);
        let std_result = text.parse::<u16>().map_err(|e| e.kind().clone());
        match (ours, std_result) {
            (Ok(a), Ok(b)) => assert_eq!(a, b),
            (Err(a), Err(b)) => assert_eq!(format!("{:?}", a), format!("{:?}", b)),
            (a, b) => panic!("{:?} against {:?} for {:?}", a, b, text),
        }
        let ours = parse_i16(text).map_err(|e| e.kind);
        let std_result = text.parse::<i16>().map_err(|e| e.kind().clone());
        match (ours, std_result) {
            (Ok(a), Ok(b)) => assert_eq!(a, b),
            (Err(a), Err(b)) => assert_eq!(format!("{:?}", a), format!("{:?}", b)),
            (a, b) => panic!("{:?} against {:?} for {:?}", a, b, text),
        }
    }
    assert_eq!(parse_u16("").unwrap_err().kind, IntErrorKind::Empty);
}
