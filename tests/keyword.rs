use ridl::keyword::{Keyword, KEYWORD_COUNT};
use ridl::LexError;

fn chars(s: &str) -> Vec<char> {
    s.chars().collect()
}

#[test]
fn display() {
    assert_eq!(Keyword::Struct.spelling(), "struct");
    assert_eq!(Keyword::Struct.spelling().to_string(), "struct".to_string());
    assert_eq!(Keyword::True.spelling().to_string(), "TRUE".to_string());
}

#[test]
fn iter() {
    assert!(Keyword::all().into_iter().find(|k| k == &Keyword::Boolean).is_some());
    assert!(Keyword::all().into_iter().find(|k| k == &Keyword::Struct).is_some());
}

#[test]
fn make_parser() {
    assert_eq!(Keyword::False.make_parser().parse("FALSE"), Ok(Keyword::False));
    assert!(Keyword::False.make_parser().parse("fAlse").is_err());
    assert_eq!(Keyword::Struct.make_parser().parse("struct"), Ok(Keyword::Struct));
    assert!(Keyword::Struct.make_parser().parse("Struct").is_err());
}

#[test]
fn keyword_needs_word_boundary() {
    let p = Keyword::Struct.make_parser();
    assert_eq!(p.parse_at(&chars("structx"), 0), Err(LexError::NoMatch));
    assert_eq!(p.parse_at(&chars("struct_"), 0), Err(LexError::NoMatch));
    assert_eq!(p.parse_at(&chars("struct1"), 0), Err(LexError::NoMatch));
    assert_eq!(p.parse_at(&chars("struct "), 0), Ok((Keyword::Struct, 6)));
    assert_eq!(p.parse_at(&chars("struct{"), 0), Ok((Keyword::Struct, 6)));
    assert_eq!(p.parse_at(&chars("  struct x"), 2), Ok((Keyword::Struct, 8)));
}

#[test]
fn keyword_spellings_keep_case() {
    assert_eq!(Keyword::Object.spelling(), "Object");
    assert_eq!(Keyword::ValueBase.spelling(), "ValueBase");
    assert_eq!(Keyword::False.spelling(), "FALSE");
    assert_eq!(Keyword::EventType.spelling(), "eventtype");
    assert_eq!(Keyword::UInt64.spelling(), "uint64");
    assert_eq!(Keyword::MapKeyword.spelling(), "map");
}

#[test]
fn lookup_round_trips_every_keyword() {
    let all = Keyword::all();
    assert_eq!(all.len(), KEYWORD_COUNT);
    for k in all {
        let w = k.spelling();
        assert_eq!(Keyword::lookup(&chars(w), 0), Some((k, w.chars().count())));
    }
}

#[test]
fn lookup_finds_whole_words_only() {
    assert_eq!(Keyword::lookup(&chars("module M {"), 0), Some((Keyword::Module, 6)));
    assert_eq!(Keyword::lookup(&chars("modules"), 0), None);
    assert_eq!(Keyword::lookup(&chars("Module"), 0), None);
    assert_eq!(Keyword::lookup(&chars("interface"), 0), Some((Keyword::Interface, 9)));
    assert_eq!(Keyword::lookup(&chars("x in"), 2), Some((Keyword::In, 4)));
    assert_eq!(Keyword::lookup(&chars("inout"), 0), Some((Keyword::InOut, 5)));
    assert_eq!(Keyword::lookup(&chars(""), 0), None);
    assert_eq!(Keyword::lookup(&chars("long"), 9), None);
}

#[test]
fn keyword_positions_count_characters() {
    assert_eq!(Keyword::lookup(&chars("\u{e9} in"), 2), Some((Keyword::In, 4)));
    assert_eq!(Keyword::Struct.make_parser().parse("struct S"), Ok(Keyword::Struct));
    assert_eq!(Keyword::Struct.make_parser().parse("structs"), Err(LexError::NoMatch));
}
