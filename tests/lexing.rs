use ridl::{LexError, Literal};

fn chars(s: &str) -> Vec<char> {
    s.chars().collect()
}

#[test]
fn hex_value_and_precedence() {
    assert_eq!(Literal::hex_int_parser().parse("0x0010"), Ok(Literal::Integer(16)));
    assert_eq!(Literal::int_parser().parse("0x10"), Ok(Literal::Integer(16)));
    assert_eq!(Literal::int_parser().parse_at(&chars("0xffz"), 0), Ok((Literal::Integer(255), 4)));
    assert_eq!(
        Literal::hex_int_parser().parse("0xFFFFFFFFFFFFFFFF"),
        Ok(Literal::Integer(u64::MAX))
    );
}

#[test]
fn bare_hex_prefix_is_no_match() {
    assert_eq!(Literal::hex_int_parser().parse("0x"), Err(LexError::NoMatch));
    assert_eq!(Literal::hex_int_parser().parse("0xg"), Err(LexError::NoMatch));
    assert_eq!(Literal::hex_int_parser().parse("1x1"), Err(LexError::NoMatch));
}

#[test]
fn octal_value_and_precedence() {
    assert_eq!(Literal::oct_int_parser().parse("0777"), Ok(Literal::Integer(511)));
    assert_eq!(Literal::int_parser().parse("0777"), Ok(Literal::Integer(511)));
    assert_eq!(Literal::int_parser().parse("0123"), Ok(Literal::Integer(83)));
}

#[test]
fn octal_rejects_eight_and_nine() {
    assert_eq!(Literal::oct_int_parser().parse("018"), Err(LexError::NoMatch));
    assert_eq!(Literal::oct_int_parser().parse("09"), Err(LexError::NoMatch));
    assert_eq!(Literal::oct_int_parser().parse("0"), Err(LexError::NoMatch));
    assert_eq!(Literal::dec_int_parser().parse("018"), Ok(Literal::Integer(18)));
    assert_eq!(Literal::int_parser().parse("018"), Ok(Literal::Integer(18)));
    assert_eq!(Literal::int_parser().parse("0"), Ok(Literal::Integer(0)));
}

#[test]
fn integer_overflow_is_reported() {
    assert_eq!(
        Literal::dec_int_parser().parse("18446744073709551615"),
        Ok(Literal::Integer(u64::MAX))
    );
    assert_eq!(
        Literal::dec_int_parser().parse("18446744073709551616"),
        Err(LexError::NumericOverflow { start: 0, end: 20 })
    );
    assert_eq!(
        Literal::int_parser().parse_at(&chars("x=0x10000000000000000;"), 2),
        Err(LexError::NumericOverflow { start: 2, end: 21 })
    );
    assert_eq!(
        Literal::parser().parse("99999999999999999999"),
        Err(LexError::NumericOverflow { start: 0, end: 20 })
    );
}

#[test]
fn booleans_are_upper_case_whole_words() {
    assert_eq!(Literal::parser().parse("TRUE"), Ok(Literal::Bool(true)));
    assert_eq!(Literal::parser().parse("FALSE"), Ok(Literal::Bool(false)));
    assert_eq!(Literal::bool_parser().parse("true"), Err(LexError::NoMatch));
    assert!(!matches!(Literal::parser().parse("true"), Ok(Literal::Bool(_))));
    assert_eq!(Literal::bool_parser().parse("TRUEX"), Err(LexError::NoMatch));
    assert_eq!(Literal::true_parser().parse_at(&chars("TRUE;"), 0), Ok((Literal::Bool(true), 4)));
}

#[test]
fn fixed_point_wins_over_float() {
    let p = Literal::parser();
    assert_eq!(p.parse_at(&chars("3.6D"), 0), Ok((Literal::FixedPoint(3, 6), 4)));
    assert_eq!(p.parse_at(&chars("3d"), 0), Ok((Literal::FixedPoint(3, 0), 2)));
    assert_eq!(p.parse_at(&chars(".3d"), 0), Ok((Literal::FixedPoint(0, 3), 3)));
    assert_eq!(p.parse_at(&chars("3.d"), 0), Ok((Literal::FixedPoint(3, 0), 3)));
    assert_eq!(p.parse(".30d"), Ok(Literal::FixedPoint(0, 30)));
    assert_eq!(Literal::fixed_parser().parse(".d"), Err(LexError::NoMatch));
    assert_eq!(Literal::fixed_parser().parse("3.6"), Err(LexError::NoMatch));
}

#[test]
fn float_keeps_its_text() {
    assert_eq!(
        Literal::float_parser().parse_at(&chars("2.1;"), 0),
        Ok((Literal::FloatingPoint("2.1".to_string()), 3))
    );
    assert_eq!(
        Literal::parser().parse("2.1"),
        Ok(Literal::FloatingPoint("2.1".to_string()))
    );
    assert_eq!(Literal::float_parser().parse("."), Err(LexError::NoMatch));
    assert_eq!(Literal::fixed_parser().parse("."), Err(LexError::NoMatch));
    assert_eq!(Literal::float_parser().parse("12"), Err(LexError::NoMatch));
}

#[test]
fn strings_join_without_separator() {
    assert_eq!(
        Literal::string_parser().parse_at(&chars("\"Hello\" \"World\""), 0),
        Ok((Literal::Str("HelloWorld".to_string()), 15))
    );
    assert_eq!(Literal::string_parser().parse("\"\""), Ok(Literal::Str(String::new())));
    assert_eq!(
        Literal::string_parser().parse_at(&chars("\"a\"\n\t\"\" \"b\"  ;"), 0),
        Ok((Literal::Str("ab".to_string()), 13))
    );
    assert_eq!(Literal::string_parser().parse("abc"), Err(LexError::NoMatch));
}

#[test]
fn unterminated_string_is_reported() {
    assert_eq!(
        Literal::string_parser().parse("\"abc"),
        Err(LexError::UnterminatedString { start: 0 })
    );
    assert_eq!(
        Literal::string_parser().parse("\"a\" \"b"),
        Err(LexError::UnterminatedString { start: 4 })
    );
}

#[test]
fn character_literals() {
    assert_eq!(Literal::char_parser().parse("'A'"), Ok(Literal::Character('A')));
    assert_eq!(Literal::char_parser().parse("'\u{e9}'"), Ok(Literal::Character('\u{e9}')));
    assert_eq!(
        Literal::char_parser().parse("'AB'"),
        Err(LexError::MalformedCharacter { start: 0 })
    );
    assert_eq!(
        Literal::char_parser().parse("''"),
        Err(LexError::MalformedCharacter { start: 0 })
    );
    assert_eq!(
        Literal::char_parser().parse("'\u{3b1}'"),
        Err(LexError::MalformedCharacter { start: 0 })
    );
    assert_eq!(Literal::char_parser().parse("A"), Err(LexError::NoMatch));
}

#[test]
fn literal_order_and_positions() {
    let p = Literal::parser();
    assert_eq!(p.parse_at(&chars("x = 42;"), 4), Ok((Literal::Integer(42), 6)));
    assert_eq!(p.parse_at(&chars("0x1F"), 0), Ok((Literal::Integer(31), 4)));
    assert_eq!(p.parse_at(&chars("010"), 0), Ok((Literal::Integer(8), 3)));
    assert_eq!(p.parse("name"), Err(LexError::NoMatch));
    assert_eq!(p.parse(""), Err(LexError::NoMatch));
    assert_eq!(p.parse_at(&chars("1"), 5), Err(LexError::NoMatch));
}

#[test]
fn positions_count_characters() {
    assert_eq!(
        Literal::string_parser().parse("\"h\u{e9}llo \u{263a}\""),
        Ok(Literal::Str("h\u{e9}llo \u{263a}".to_string()))
    );
    assert_eq!(
        Literal::parser().parse_at(&chars("\u{263a}\u{263a} 12"), 3),
        Ok((Literal::Integer(12), 5))
    );
}

#[test]
fn strings_join_across_vertical_tab() {
    assert_eq!(
        Literal::string_parser().parse_at(&chars("\"a\"\u{0B}\"b\""), 0),
        Ok((Literal::Str("ab".to_string()), 7))
    );
    assert_eq!(
        Literal::string_parser().parse_at(&chars("\"a\"\u{A0}\u{2003}\u{3000}\"b\" "), 0),
        Ok((Literal::Str("ab".to_string()), 10))
    );
}

#[test]
fn strings_join_across_exactly_the_unicode_white_space() {
    for code in 0u32..=0x3100 {
        let c = match char::from_u32(code) {
            Some(c) if c != '"' => c,
            _ => continue,
        };
        let text = format!("\"a\"{}\"b\"", c);
        let r = Literal::string_parser().parse_at(&chars(&text), 0);
        if c.is_whitespace() {
            assert_eq!(r, Ok((Literal::Str("ab".to_string()), 7)), "U+{:04X}", code);
        } else {
            assert_eq!(r, Ok((Literal::Str("a".to_string()), 3)), "U+{:04X}", code);
        }
    }
}
