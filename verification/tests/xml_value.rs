use rustical::error::{IntErrorKind, ParseValueError, XmlDeError};
use rustical::xml::integer::{format_integer, parse_integer};
use rustical::xml::value::Value;

fn int_error(kind: IntErrorKind) -> XmlDeError {
    XmlDeError::ParseValue(ParseValueError::ParseIntError(kind))
}

#[test]
fn string_value_is_kept_as_it_is() {
    assert_eq!(<String as Value>::deserialize("  a < b ").unwrap(), "  a < b ");
    assert_eq!("x y".to_owned().serialize(), "x y");
    assert_eq!(<String as Value>::deserialize("").unwrap(), "");
}

#[test]
fn integers_are_read_in_decimal() {
    assert_eq!(<u8 as Value>::deserialize("0").unwrap(), 0);
    assert_eq!(<u8 as Value>::deserialize("255").unwrap(), 255);
    assert_eq!(<u8 as Value>::deserialize("+7").unwrap(), 7);
    assert_eq!(<u8 as Value>::deserialize("007").unwrap(), 7);
    assert_eq!(<i8 as Value>::deserialize("-128").unwrap(), -128);
    assert_eq!(<i8 as Value>::deserialize("127").unwrap(), 127);
    assert_eq!(<i16 as Value>::deserialize("-32768").unwrap(), i16::MIN);
    assert_eq!(<u16 as Value>::deserialize("65535").unwrap(), u16::MAX);
    assert_eq!(<i32 as Value>::deserialize("-2147483648").unwrap(), i32::MIN);
    assert_eq!(<u32 as Value>::deserialize("4294967295").unwrap(), u32::MAX);
    assert_eq!(<i64 as Value>::deserialize("-9223372036854775808").unwrap(), i64::MIN);
    assert_eq!(<u64 as Value>::deserialize("18446744073709551615").unwrap(), u64::MAX);
    assert_eq!(<isize as Value>::deserialize("-42").unwrap(), -42);
    assert_eq!(<usize as Value>::deserialize("42").unwrap(), 42);
}

#[test]
fn integers_agree_with_the_standard_library() {
    let samples = [
        "", "+", "-", "0", "-0", "+0", "00", "1", "-1", "+1", "12a", "a12", " 1", "1 ", "1_000",
        "255", "256", "-129", "128", "127", "-128", "999999999999999999999999", "-99999999999999999999",
        "9999x", "--1", "+-1", "１２", "0x10", "65536", "4294967296", "18446744073709551616",
    ];
    for s in samples {
        assert_eq!(<u8 as Value>::deserialize(s).ok(), s.parse::<u8>().ok(), "u8 {:?}", s);
        assert_eq!(<i8 as Value>::deserialize(s).ok(), s.parse::<i8>().ok(), "i8 {:?}", s);
        assert_eq!(<u16 as Value>::deserialize(s).ok(), s.parse::<u16>().ok(), "u16 {:?}", s);
        assert_eq!(<i32 as Value>::deserialize(s).ok(), s.parse::<i32>().ok(), "i32 {:?}", s);
        assert_eq!(<u32 as Value>::deserialize(s).ok(), s.parse::<u32>().ok(), "u32 {:?}", s);
        assert_eq!(<i64 as Value>::deserialize(s).ok(), s.parse::<i64>().ok(), "i64 {:?}", s);
        assert_eq!(<u64 as Value>::deserialize(s).ok(), s.parse::<u64>().ok(), "u64 {:?}", s);
        assert_eq!(<usize as Value>::deserialize(s).ok(), s.parse::<usize>().ok(), "usize {:?}", s);
        assert_eq!(<isize as Value>::deserialize(s).ok(), s.parse::<isize>().ok(), "isize {:?}", s);
        assert_eq!(<i16 as Value>::deserialize(s).ok(), s.parse::<i16>().ok(), "i16 {:?}", s);
    }
}

#[test]
fn integer_failures_agree_with_the_standard_library() {
    let samples = ["", "+", "-", "12a", "256", "-129", "-1", "9999x", "x9999", "999x", "-", "-x", "+999"];
    for s in samples {
        let ours = <u8 as Value>::deserialize(s);
        let theirs = s.parse::<u8>();
        match (ours, theirs) {
            (Ok(a), Ok(b)) => assert_eq!(a, b),
            (Err(XmlDeError::ParseValue(ParseValueError::ParseIntError(kind))), Err(e)) => {
                let expected = match e.kind() {
                    std::num::IntErrorKind::Empty => IntErrorKind::Empty,
                    std::num::IntErrorKind::InvalidDigit => IntErrorKind::InvalidDigit,
                    std::num::IntErrorKind::PosOverflow => IntErrorKind::PosOverflow,
                    std::num::IntErrorKind::NegOverflow => IntErrorKind::NegOverflow,
                    other => panic!("unexpected kind {:?}", other),
                };
                assert_eq!(kind, expected, "u8 {:?}", s);
            }
            (a, b) => panic!("{:?}: {:?} against {:?}", s, a, b),
        }
        let ours = <i8 as Value>::deserialize(s);
        let theirs = s.parse::<i8>();
        match (ours, theirs) {
            (Ok(a), Ok(b)) => assert_eq!(a, b),
            (Err(XmlDeError::ParseValue(ParseValueError::ParseIntError(kind))), Err(e)) => {
                let expected = match e.kind() {
                    std::num::IntErrorKind::Empty => IntErrorKind::Empty,
                    std::num::IntErrorKind::InvalidDigit => IntErrorKind::InvalidDigit,
                    std::num::IntErrorKind::PosOverflow => IntErrorKind::PosOverflow,
                    std::num::IntErrorKind::NegOverflow => IntErrorKind::NegOverflow,
                    other => panic!("unexpected kind {:?}", other),
                };
                assert_eq!(kind, expected, "i8 {:?}", s);
            }
            (a, b) => panic!("{:?}: {:?} against {:?}", s, a, b),
        }
    }
}

#[test]
fn each_integer_failure_has_an_input() {
    assert_eq!(<u8 as Value>::deserialize("").unwrap_err(), int_error(IntErrorKind::Empty));
    assert_eq!(<u8 as Value>::deserialize("1x").unwrap_err(), int_error(IntErrorKind::InvalidDigit));
    assert_eq!(<u8 as Value>::deserialize("-1").unwrap_err(), int_error(IntErrorKind::InvalidDigit));
    assert_eq!(<u8 as Value>::deserialize("256").unwrap_err(), int_error(IntErrorKind::PosOverflow));
    assert_eq!(<i8 as Value>::deserialize("-129").unwrap_err(), int_error(IntErrorKind::NegOverflow));
    assert_eq!(parse_integer("300", 0, 255), Err(IntErrorKind::PosOverflow));
    assert_eq!(parse_integer("-300", -128, 127), Err(IntErrorKind::NegOverflow));
}

#[test]
fn integers_are_written_in_decimal() {
    assert_eq!(0u8.serialize(), "0");
    assert_eq!(255u8.serialize(), "255");
    assert_eq!((-128i8).serialize(), "-128");
    assert_eq!(i64::MIN.serialize(), "-9223372036854775808");
    assert_eq!(u64::MAX.serialize(), "18446744073709551615");
    assert_eq!(format_integer(1000), "1000");
    assert_eq!(format_integer(-7), "-7");
}

#[test]
fn written_values_are_read_back() {
    for v in [i64::MIN, -1, 0, 1, 10, 99, 100, i64::MAX] {
        assert_eq!(<i64 as Value>::deserialize(&v.serialize()).unwrap(), v);
    }
    for v in [0u16, 9, 10, 65535] {
        assert_eq!(<u16 as Value>::deserialize(&v.serialize()).unwrap(), v);
    }
    let text = "any text at all".to_owned();
    assert_eq!(<String as Value>::deserialize(&text.serialize()).unwrap(), text);
}

#[test]
fn a_primitive_is_decoded_from_the_text_of_its_element() {
    use_deserialize_value();
}

fn use_deserialize_value() {
    let events = rustical::xml::reader::read_events("<n>42</n><m/><o><p/></o><q>x");
    let (n, next) = rustical::xml::de::deserialize_value::<u8>(&events, 0).unwrap();
    assert_eq!((n, next), (42, 3));
    let (s, next) = rustical::xml::de::deserialize_value::<String>(&events, 0).unwrap();
    assert_eq!((s.as_str(), next), ("42", 3));
    // An empty element holds the empty text.
    let (s, next) = rustical::xml::de::deserialize_value::<String>(&events, 3).unwrap();
    assert_eq!((s.as_str(), next), ("", 4));
    assert_eq!(
        rustical::xml::de::deserialize_value::<i32>(&events, 3).unwrap_err(),
        int_error(IntErrorKind::Empty)
    );
    // An element inside is no text,
    assert_eq!(
        rustical::xml::de::deserialize_value::<String>(&events, 4).unwrap_err(),
        XmlDeError::UnsupportedEvent
    );
    // the input may end too early,
    assert_eq!(
        rustical::xml::de::deserialize_value::<String>(&events, 7).unwrap_err(),
        XmlDeError::Eof
    );
    // and decoding starts at an element.
    assert_eq!(
        rustical::xml::de::deserialize_value::<String>(&events, 1).unwrap_err(),
        XmlDeError::UnsupportedEvent
    );
    assert_eq!(
        rustical::xml::de::deserialize_value::<String>(&events, 99).unwrap_err(),
        XmlDeError::UnsupportedEvent
    );
}
