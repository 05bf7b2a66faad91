use ridl::literal::Literal;
use ridl::LexError;

/// The value of a floating-point literal, read as a binary float.
fn float_value(r: Result<Literal, LexError>) -> Option<f64> {
    match r {
        Ok(Literal::FloatingPoint(text)) => text.parse::<f64>().ok(),
        _ => None,
    }
}

#[test]
fn literal_parse_true() {
    let in_str = "TRUE";
    let result = Literal::true_parser().parse(in_str);
    assert_eq!(result, Ok(Literal::Bool(true)));
}

#[test]
fn literal_parse_false() {
    let in_str = "FALSE";
    let result = Literal::false_parser().parse(in_str);
    assert_eq!(result, Ok(Literal::Bool(false)));
}

#[test]
fn literal_parse_bool() {
    let true_str = "TRUE";
    let false_str = "FALSE";

    assert_eq!(Ok(Literal::Bool(true)), Literal::bool_parser().parse(true_str));
    assert_eq!(Ok(Literal::Bool(false)), Literal::bool_parser().parse(false_str));
}

#[test]
fn literal_parse_dec_int() {
    assert_eq!(Literal::dec_int_parser().parse("1234"), Ok(Literal::Integer(1234)));
    assert_eq!(
        Literal::dec_int_parser().parse("9876543210"),
        Ok(Literal::Integer(9876543210))
    );
}

#[test]
fn literal_parse_hex_int() {
    assert_eq!(Literal::hex_int_parser().parse("0x1234"), Ok(Literal::Integer(0x1234)));
    assert_eq!(
        Literal::hex_int_parser().parse("0xDEADBEEF"),
        Ok(Literal::Integer(0xDEADBEEF))
    );
    assert_eq!(
        Literal::hex_int_parser().parse("0xdeadbeef"),
        Ok(Literal::Integer(0xDEADBEEF))
    );
    assert_eq!(
        Literal::hex_int_parser().parse("0Xdeadbeef"),
        Ok(Literal::Integer(0xDEADBEEF))
    );
}

#[test]
fn literal_parse_oct_int() {
    assert_eq!(Literal::oct_int_parser().parse("01234"), Ok(Literal::Integer(668)));
    assert_eq!(Literal::oct_int_parser().parse("0527"), Ok(Literal::Integer(343)));
}

#[test]
fn literal_parse_int() {
    // Decimal
    assert_eq!(Literal::int_parser().parse("1234"), Ok(Literal::Integer(1234)));
    assert_eq!(
        Literal::int_parser().parse("9876543210"),
        Ok(Literal::Integer(9876543210))
    );

    // Hex
    assert_eq!(Literal::int_parser().parse("0x1234"), Ok(Literal::Integer(0x1234)));
    assert_eq!(
        Literal::int_parser().parse("0xDEADBEEF"),
        Ok(Literal::Integer(0xDEADBEEF))
    );
    assert_eq!(
        Literal::int_parser().parse("0xdeadbeef"),
        Ok(Literal::Integer(0xDEADBEEF))
    );
    assert_eq!(
        Literal::int_parser().parse("0Xdeadbeef"),
        Ok(Literal::Integer(0xDEADBEEF))
    );

    // Octal
    assert_eq!(Literal::oct_int_parser().parse("01234"), Ok(Literal::Integer(668)));
    assert_eq!(Literal::oct_int_parser().parse("0527"), Ok(Literal::Integer(343)));
}

#[test]
fn literal_parse_float() {
    assert_eq!(float_value(Literal::float_parser().parse("1.1")), Some(1.1));
    assert_eq!(
        float_value(Literal::float_parser().parse("19234.12534")),
        Some(19234.12534)
    );
    assert_eq!(float_value(Literal::float_parser().parse("0.")), Some(0.0));
    assert_eq!(float_value(Literal::float_parser().parse(".0")), Some(0.0));
    assert_eq!(float_value(Literal::float_parser().parse("0.0")), Some(0.0));
    assert!(Literal::float_parser().parse(".").is_err());
}

#[test]
fn literal_parse_char() {
    assert_eq!(Literal::char_parser().parse("'3'"), Ok(Literal::Character('3')));
    assert_eq!(Literal::char_parser().parse("'A'"), Ok(Literal::Character('A')));
    assert_eq!(Literal::char_parser().parse("'a'"), Ok(Literal::Character('a')));
}

#[test]
fn literal_parse_string() {
    // Test normal strings
    let validate_string = |s: &str| {
        assert_eq!(
            Literal::string_parser().parse(("\"".to_string() + s + "\"").as_str()),
            Ok(Literal::Str(s.to_string()))
        );
    };
    validate_string("Hello World!");
    validate_string("");
    validate_string("I ate a beef sandwich");

    // Test implicit concatenation
    assert_eq!(
        Literal::string_parser().parse("\"Hello\" \"World\""),
        Ok(Literal::Str("HelloWorld".to_string()))
    );
}

#[test]
fn literal_parse_fixed() {
    assert_eq!(Literal::fixed_parser().parse("3.6D"), Ok(Literal::FixedPoint(3, 6)));
    assert_eq!(Literal::fixed_parser().parse("1.2d"), Ok(Literal::FixedPoint(1, 2)));
    assert_eq!(Literal::fixed_parser().parse(".3d"), Ok(Literal::FixedPoint(0, 3)));
    assert_eq!(Literal::fixed_parser().parse("3d"), Ok(Literal::FixedPoint(3, 0)));
}

#[test]
fn literal_parse_literal() {
    let p = Literal::parser();

    assert_eq!(p.parse("\"String\""), Ok(Literal::Str("String".to_string())));
    assert_eq!(p.parse("'c'"), Ok(Literal::Character('c')));
    assert_eq!(float_value(p.parse("2.1")), Some(2.1));
    assert_eq!(p.parse("2.1d"), Ok(Literal::FixedPoint(2, 1)));
    assert_eq!(p.parse("TRUE"), Ok(Literal::Bool(true)));
    assert_eq!(p.parse("3"), Ok(Literal::Integer(3)));
}
