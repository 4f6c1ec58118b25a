use chrono::format::ParseErrorKind;
use collaborate::common::{AnyUri, DateTime, Decimal, Technique, Unit, UpAxis, UriFragment};
use collaborate::element::{ColladaElement, DefaultElement};
use collaborate::error::{
    FloatErrorKind, IntErrorKind, ParseFloatError, ParseIntError, StringListDisplay, TimeError,
    TimeErrorKind, UriFragmentParseError,
};
use collaborate::number::{
    check_decimal_in, parse_decimal_words, parse_unsigned_in, parse_unsigned_words,
};
use collaborate::source::tokenize;
use collaborate::text::str_eq;
use collaborate::token::TokenKind;
use collaborate::value::{decode, DecimalList, Value, ValueKind};
use collaborate::{Error, ErrorKind, TextPosition, XmlError};

fn unsigned(text: &str) -> Result<usize, IntErrorKind> {
    parse_unsigned_in(text.as_bytes(), 0, text.len())
}

fn decimal(text: &str) -> Result<(), FloatErrorKind> {
    check_decimal_in(text.as_bytes(), 0, text.len())
}

#[test]
fn unsigned_numbers() {
    assert_eq!(Ok(0), unsigned("0"));
    assert_eq!(Ok(42), unsigned("42"));
    assert_eq!(Ok(42), unsigned("+42"));
    assert_eq!(Ok(7), unsigned("007"));
    assert_eq!(Ok(usize::MAX), unsigned(&usize::MAX.to_string()));
    assert_eq!(Err(IntErrorKind::Empty), unsigned(""));
    assert_eq!(Err(IntErrorKind::InvalidDigit), unsigned("+"));
    assert_eq!(Err(IntErrorKind::InvalidDigit), unsigned("-"));
    assert_eq!(Err(IntErrorKind::InvalidDigit), unsigned("-1"));
    assert_eq!(Err(IntErrorKind::InvalidDigit), unsigned("1 "));
    assert_eq!(Err(IntErrorKind::InvalidDigit), unsigned("1.5"));
    assert_eq!(Err(IntErrorKind::PosOverflow), unsigned("99999999999999999999999999"));
    assert_eq!(Err(IntErrorKind::PosOverflow), unsigned("99999999999999999999999999x"));
    assert_eq!(Err(IntErrorKind::InvalidDigit), unsigned("9x9999999999999999999999999"));
}

#[test]
fn unsigned_numbers_as_the_standard_library_reads_them() {
    let samples = [
        "", "0", "1", "+1", "-1", "+", "-", "++1", "12a", "a12", " 12", "12 ", "0012",
        "18446744073709551615", "18446744073709551616", "4294967295", "4294967296",
        "99999999999999999999", "1e3", "٣",
    ];
    for sample in samples.iter() {
        assert_eq!(sample.parse::<usize>().is_ok(), unsigned(sample).is_ok(), "{:?}", sample);
        if let Ok(n) = sample.parse::<usize>() {
            assert_eq!(Ok(n), unsigned(sample));
        }
    }
}

#[test]
fn decimal_numbers_as_the_standard_library_reads_them() {
    let samples = [
        "", "0", "1", "-1", "+1", "1.", ".5", ".", "1.5", "-1.5e10", "1e5", "1E5", "1e", "1e+",
        "1e+5", "1e-5", "e5", "1.5.5", "inf", "-inf", "+infinity", "INF", "Infinity", "nan", "NaN",
        "-nan", "infinit", "nana", "1 ", " 1", "1f", "0x10", "1_000", "--1", "+-1", "5.e3",
        ".e3", "-.5", "1e5.5", "-0.9999998", "3.27825e-7", "١",
    ];
    for sample in samples.iter() {
        assert_eq!(sample.parse::<f64>().is_ok(), decimal(sample).is_ok(), "{:?}", sample);
    }
    assert_eq!(Err(FloatErrorKind::Empty), decimal(""));
    assert_eq!(Err(FloatErrorKind::Invalid), decimal("."));
}

#[test]
fn lists_of_numbers() {
    assert_eq!(Ok(vec![1, 2, 3]), parse_unsigned_words(b" 1\t2\r\n3 "));
    assert_eq!(Ok(vec![]), parse_unsigned_words(b""));
    assert_eq!(Ok(vec![]), parse_unsigned_words(b"  \n "));
    assert_eq!(Err(IntErrorKind::InvalidDigit), parse_unsigned_words(b"1 x 99999999999999999999999"));
    assert_eq!(Err(IntErrorKind::PosOverflow), parse_unsigned_words(b"1 99999999999999999999999 x"));
    assert_eq!(Ok(vec![(1, 2), (3, 7)]), parse_decimal_words(b" 1 -2.5 "));
    assert_eq!(Err(FloatErrorKind::Invalid), parse_decimal_words(b"1 2,5"));
}

#[test]
fn values_of_every_kind() {
    assert_eq!(Ok(Value::Text(" as is ".into())), decode(&ValueKind::Text, " as is ", "e"));
    assert_eq!(Ok(Value::Integer(12)), decode(&ValueKind::Integer, "12", "e"));
    assert_eq!(
        Err(ErrorKind::ParseIntError(ParseIntError { kind: IntErrorKind::Empty })),
        decode(&ValueKind::Integer, "", "e")
    );
    assert_eq!(Ok(Value::Decimal("-1.5e3".into())), decode(&ValueKind::Decimal, "-1.5e3", "e"));
    assert_eq!(
        Err(ErrorKind::ParseFloatError(ParseFloatError { kind: FloatErrorKind::Invalid })),
        decode(&ValueKind::Decimal, "1,5", "e")
    );
    assert_eq!(Ok(Value::Text("id".into())), decode(&ValueKind::Fragment, "#id", "e"));
    assert_eq!(Ok(Value::Text("".into())), decode(&ValueKind::Fragment, "#", "e"));
    assert_eq!(
        Err(ErrorKind::UriFragmentParseError(UriFragmentParseError)),
        decode(&ValueKind::Fragment, "id", "e")
    );
    assert_eq!(
        Err(ErrorKind::UriFragmentParseError(UriFragmentParseError)),
        decode(&ValueKind::Fragment, "", "e")
    );
    assert_eq!(Ok(Value::Integers(vec![3, 4])), decode(&ValueKind::Integers, "3 4", "e"));
    assert_eq!(
        Ok(Value::Decimals(DecimalList { text: "3 4.5".into(), spans: vec![(0, 1), (2, 5)] })),
        decode(&ValueKind::Decimals, "3 4.5", "e")
    );
    let words = ValueKind::Enumerated(vec!["X_UP", "Y_UP", "Z_UP"]);
    assert_eq!(Ok(Value::Choice(2)), decode(&words, "Z_UP", "up_axis"));
    assert_eq!(
        Err(ErrorKind::InvalidValue { element: "up_axis", value: "z_up".into() }),
        decode(&words, "z_up", "up_axis")
    );
    assert_eq!(
        Ok(Value::Time(DateTime::Utc { seconds: 1486500270, nanos: 0, offset: 0 })),
        decode(&ValueKind::Time, "2017-02-07T20:44:30Z", "e")
    );
}

#[test]
fn dates_with_and_without_timezone() {
    assert_eq!(
        Ok(DateTime::Utc { seconds: 1486500270, nanos: 0, offset: 0 }),
        DateTime::from_str("2017-02-07T20:44:30Z")
    );
    assert_eq!(
        Ok(DateTime::Utc { seconds: 1486500270 - 3600, nanos: 500_000_000, offset: 3600 }),
        DateTime::from_str("2017-02-07T20:44:30.5+01:00")
    );
    assert_eq!(
        Ok(DateTime::Naive { seconds: 1485941394, nanos: 0 }),
        DateTime::from_str("2017-02-01T09:29:54")
    );
    assert!(matches!(DateTime::from_str("yesterday"), Err(TimeError { .. })));
    assert_eq!(
        Err(TimeError { kind: TimeErrorKind::OutOfRange }),
        DateTime::from_str("2017-13-01T09:29:54")
    );
}

#[test]
fn readings_decide_the_date() {
    let zoned = Ok((10, 20, 30));
    let naive = Ok((40, 50));
    let bad = Err(TimeErrorKind::TooShort);
    assert_eq!(
        Ok(DateTime::Utc { seconds: 10, nanos: 20, offset: 30 }),
        DateTime::from_readings(zoned, naive)
    );
    assert_eq!(
        Ok(DateTime::Naive { seconds: 40, nanos: 50 }),
        DateTime::from_readings(Err(TimeErrorKind::Invalid), naive)
    );
    assert_eq!(
        Err(TimeError { kind: TimeErrorKind::TooShort }),
        DateTime::from_readings(Err(TimeErrorKind::Invalid), bad)
    );
}

#[test]
fn text_comparison() {
    assert!(str_eq("", ""));
    assert!(str_eq("COLLADA", "COLLADA"));
    assert!(!str_eq("COLLADA", "collada"));
    assert!(!str_eq("a", "ab"));
    assert!(str_eq("é", "é"));
}

#[test]
fn messages() {
    let position = TextPosition { row: 2, column: 4 };
    let error = Error {
        position,
        kind: ErrorKind::MissingAttribute { element: "COLLADA", attribute: "version" },
    };
    assert_eq!(
        "Error at 3:5: <COLLADA> is missing the required attribute \"version\"",
        error.message()
    );
    assert_eq!(
        "<asset> is missing a required child element: created",
        ErrorKind::MissingElement { parent: "asset", expected: vec!["created"] }.message()
    );
    assert_eq!(
        "<geometry> is missing a required child element (may be one of convex_mesh, mesh, spline)",
        ErrorKind::MissingElement {
            parent: "geometry",
            expected: vec!["convex_mesh", "mesh", "spline"]
        }
        .message()
    );
    assert_eq!(
        "<created> is missing required text data",
        ErrorKind::MissingValue { element: "created" }.message()
    );
    assert_eq!(
        "invalid float literal",
        ErrorKind::ParseFloatError(ParseFloatError { kind: FloatErrorKind::Invalid }).message()
    );
    assert_eq!(
        "cannot parse float from empty string",
        ErrorKind::ParseFloatError(ParseFloatError { kind: FloatErrorKind::Empty }).message()
    );
    assert_eq!(
        "invalid digit found in string",
        ErrorKind::ParseIntError(ParseIntError { kind: IntErrorKind::InvalidDigit }).message()
    );
    assert_eq!(
        "number too large to fit in target type",
        ErrorKind::ParseIntError(ParseIntError { kind: IntErrorKind::PosOverflow }).message()
    );
    assert_eq!(
        "cannot parse integer from empty string",
        ErrorKind::ParseIntError(ParseIntError { kind: IntErrorKind::Empty }).message()
    );
    assert_eq!(
        "premature end of input",
        ErrorKind::TimeError(TimeError { kind: TimeErrorKind::TooShort }).message()
    );
    assert_eq!(
        "<contributor> had an an attribute \"foo\" that is not allowed, only the following attributes are allowed for <contributor>: a, b",
        ErrorKind::UnexpectedAttribute {
            element: "contributor",
            attribute: "foo".into(),
            expected: vec!["a", "b"]
        }
        .message()
    );
    assert_eq!(
        "<asset> contained non-markup text data which isn't allowed",
        ErrorKind::UnexpectedCharacterData { element: "asset", data: "x".into() }.message()
    );
    assert_eq!(
        "<asset> had a child <foo> which is not allowed, <asset> may only have the following children: created, modified",
        ErrorKind::UnexpectedElement {
            parent: "asset",
            element: "foo".into(),
            expected: vec!["created", "modified"]
        }
        .message()
    );
    assert_eq!(
        "Document began with <html> instead of <COLLADA>",
        ErrorKind::UnexpectedRootElement { element: "html".into() }.message()
    );
    assert_eq!(
        "<up_axis> contained an unexpected value \"W\\\"UP\"",
        ErrorKind::InvalidValue { element: "up_axis", value: "W\"UP".into() }.message()
    );
    assert_eq!(
        "Unsupported COLLADA version \"2.0\", supported versions are \"1.4.0\", \"1.4.1\", \"1.5.0\"",
        ErrorKind::UnsupportedVersion { version: "2.0".into() }.message()
    );
    assert_eq!("broken", ErrorKind::XmlError(XmlError { message: "broken".into() }).message());
    assert_eq!(
        "URI fragment does not begin with '#'",
        ErrorKind::UriFragmentParseError(UriFragmentParseError).message()
    );
    assert_eq!("a, b, c", StringListDisplay(&["a", "b", "c"]).text());
    assert_eq!("", StringListDisplay(&[]).text());
    let far = Error {
        position: TextPosition { row: u64::MAX, column: 9 },
        kind: ErrorKind::MissingValue { element: "e" },
    };
    assert_eq!("Error at 18446744073709551616:10: <e> is missing required text data", far.message());
}

#[test]
fn tokens_of_a_document() {
    let tokens = tokenize(b"<a k=\"v\"><!-- note --><b>  text <![CDATA[more]]> </b><?pi x?></a>");
    let kinds: Vec<String> = tokens
        .iter()
        .map(|t| match &t.kind {
            TokenKind::DocumentStart => "start".to_string(),
            TokenKind::ElementStart { name, attributes } => {
                format!("<{} {}>", name, attributes.len())
            }
            TokenKind::ElementEnd { name } => format!("</{}>", name),
            TokenKind::Text { data } => format!("[{}]", data),
            TokenKind::DocumentEnd => "end".to_string(),
            TokenKind::Malformed { .. } => "malformed".to_string(),
        })
        .collect();
    assert_eq!(vec!["start", "<a 1>", "<b 0>", "[text more]", "</b>", "</a>", "end"], kinds);
    assert_eq!(TextPosition { row: 0, column: 0 }, tokens[1].position);
    assert_eq!(TextPosition { row: 0, column: 22 }, tokens[2].position);
}

#[test]
fn tokens_of_malformed_markup() {
    let tokens = tokenize(b"<a>\n  <b></a>");
    assert_eq!(4, tokens.len());
    assert!(matches!(tokens[3].kind, TokenKind::Malformed { .. }));
    assert!(matches!(tokens[2].kind, TokenKind::ElementStart { .. }));
    let tokens = tokenize(b"");
    assert_eq!(1, tokens.len());
    assert!(matches!(tokens[0].kind, TokenKind::Malformed { .. }));
}

#[test]
fn defaults_of_common_types() {
    assert_eq!(UpAxis::Y, UpAxis::default());
    assert_eq!(UpAxis::Y, UpAxis::default_value());
    let unit = Unit::default();
    assert_eq!("meter", unit.name);
    assert_eq!(1.0, unit.meter.0.parse::<f64>().unwrap());
    assert_eq!(unit, Unit::default_value());
    assert_eq!(AnyUri("x".into()), AnyUri::from("x".to_string()));
    assert_eq!(AnyUri("x".into()), AnyUri::from_str("x"));
    assert_eq!("id", UriFragment("id".into()).id());
    assert_eq!(Decimal("1".into()), Decimal("1".into()));
    let blank = Technique::from_node(&collaborate::node::Node::blank());
    assert_eq!("", blank.profile);
    assert!(blank.data.is_empty());
}

#[test]
fn number_errors_are_those_of_the_standard_library() {
    let samples = [
        "", "+", "-", "-1", "x", "1x", "x1", " 1", "1 ", "1.5", "99999999999999999999999999",
        "99999999999999999999999999x", "9x9999999999999999999999999", "18446744073709551616",
        "+18446744073709551616", "++1",
    ];
    for sample in samples.iter() {
        let theirs = sample.parse::<usize>().unwrap_err();
        let ours = unsigned(sample).unwrap_err();
        let kind = match theirs.kind() {
            std::num::IntErrorKind::Empty => IntErrorKind::Empty,
            std::num::IntErrorKind::InvalidDigit => IntErrorKind::InvalidDigit,
            std::num::IntErrorKind::PosOverflow => IntErrorKind::PosOverflow,
            other => panic!("{:?} gives {:?}", sample, other),
        };
        assert_eq!(kind, ours, "{:?}", sample);
        assert_eq!(theirs.to_string(), ours.as_str(), "{:?}", sample);
    }
    for sample in ["", " ", ".", "e5", "1e", "--1", "1,5", "0x10"].iter() {
        let theirs = sample.parse::<f64>().unwrap_err();
        let ours = decimal(sample).unwrap_err();
        assert_eq!(theirs.to_string(), ours.as_str(), "{:?}", sample);
    }
}

#[test]
fn time_errors_are_those_of_the_time_library() {
    let samples = [
        "", "2017", "now", "2017-02-07T20:44:30Zx", "2017-13-07T20:44:30", "2017-02-30T20:44:30",
        "2017-02-07T25:00:00", "2017-02-07", "2017-02-07T20:44:30 and more",
    ];
    for sample in samples.iter() {
        let theirs = sample.parse::<chrono::NaiveDateTime>().unwrap_err();
        let ours = DateTime::from_str(sample).unwrap_err();
        assert_eq!(theirs.to_string(), ours.kind.as_str(), "{:?}", sample);
    }
    let sentence = |kind: ParseErrorKind, error: chrono::ParseError| {
        assert_eq!(kind, error.kind());
        error.to_string()
    };
    let date = |text: &str, format: &str| chrono::NaiveDate::parse_from_str(text, format).unwrap_err();
    assert_eq!(
        sentence(ParseErrorKind::OutOfRange, date("2017-13-07", "%Y-%m-%d")),
        TimeErrorKind::OutOfRange.as_str()
    );
    assert_eq!(
        sentence(ParseErrorKind::Impossible, date("2017-02-07 Mon", "%Y-%m-%d %a")),
        TimeErrorKind::Impossible.as_str()
    );
    assert_eq!(
        sentence(ParseErrorKind::NotEnough, date("2017-02", "%Y-%m")),
        TimeErrorKind::NotEnough.as_str()
    );
    assert_eq!(
        sentence(ParseErrorKind::Invalid, date("2017-xx-07", "%Y-%m-%d")),
        TimeErrorKind::Invalid.as_str()
    );
    assert_eq!(
        sentence(ParseErrorKind::TooShort, date("2017-02", "%Y-%m-%d")),
        TimeErrorKind::TooShort.as_str()
    );
    assert_eq!(
        sentence(ParseErrorKind::TooLong, date("2017-02-07 x", "%Y-%m-%d")),
        TimeErrorKind::TooLong.as_str()
    );
    assert_eq!(
        sentence(ParseErrorKind::BadFormat, date("2017", "%Q")),
        TimeErrorKind::BadFormat.as_str()
    );
}
