//! The reserved words of the language, their exact spellings, and whole-word
//! matching against them.
use vstd::prelude::*;
use vstd::string::StrSliceExecFns;
use crate::literal::LexError;
use crate::scan::{
    chars_of, ident_end, ident_rest_end, is_ident_continue, is_ident_start,
    lemma_ident_rest_end_bounds, range_is, scan_ident, word_at, word_is,
};

verus! {

/// How many reserved words there are.
pub const KEYWORD_COUNT: usize = 83;

/// A reserved word of the language.
#[derive(Debug, Clone, Copy, PartialEq, Eq, Hash)]
pub enum Keyword {
    Abstract,
    Any,
    Alias,
    Attribute,
    Bitfield,
    Bitmask,
    Bitset,
    Boolean,
    Case,
    Char,
    Component,
    Connector,
    Const,
    Consumes,
    Context,
    Custom,
    Default,
    Double,
    Exception,
    Emits,
    Enum,
    EventType,
    Factory,
    False,
    Finder,
    Fixed,
    Float,
    GetRaises,
    Home,
    Import,
    In,
    InOut,
    Interface,
    Local,
    Long,
    Manages,
    MapKeyword,
    MirrorPort,
    Module,
    Multiple,
    Native,
    Object,
    Octet,
    OneWay,
    Out,
    PrimaryKey,
    Private,
    Port,
    PortType,
    Provides,
    Public,
    Publishes,
    Raises,
    ReadOnly,
    SetRaises,
    Sequence,
    Short,
    String,
    Struct,
    Supports,
    Switch,
    True,
    Truncatable,
    Typedef,
    TypeId,
    TypeName,
    TypePrefix,
    Unsigned,
    Union,
    Uses,
    ValueBase,
    ValueType,
    Void,
    WChar,
    WString,
    Int8,
    Int16,
    Int32,
    Int64,
    UInt8,
    UInt16,
    UInt32,
    UInt64,
}

/// The exact spelling of a keyword: lower case, but for `FALSE`, `Object`, `TRUE`
/// and `ValueBase`.
pub open spec fn spelling_of(k: Keyword) -> Seq<char> {
    match k {
        Keyword::Abstract => seq!['a', 'b', 's', 't', 'r', 'a', 'c', 't'],
        Keyword::Any => seq!['a', 'n', 'y'],
        Keyword::Alias => seq!['a', 'l', 'i', 'a', 's'],
        Keyword::Attribute => seq!['a', 't', 't', 'r', 'i', 'b', 'u', 't', 'e'],
        Keyword::Bitfield => seq!['b', 'i', 't', 'f', 'i', 'e', 'l', 'd'],
        Keyword::Bitmask => seq!['b', 'i', 't', 'm', 'a', 's', 'k'],
        Keyword::Bitset => seq!['b', 'i', 't', 's', 'e', 't'],
        Keyword::Boolean => seq!['b', 'o', 'o', 'l', 'e', 'a', 'n'],
        Keyword::Case => seq!['c', 'a', 's', 'e'],
        Keyword::Char => seq!['c', 'h', 'a', 'r'],
        Keyword::Component => seq!['c', 'o', 'm', 'p', 'o', 'n', 'e', 'n', 't'],
        Keyword::Connector => seq!['c', 'o', 'n', 'n', 'e', 'c', 't', 'o', 'r'],
        Keyword::Const => seq!['c', 'o', 'n', 's', 't'],
        Keyword::Consumes => seq!['c', 'o', 'n', 's', 'u', 'm', 'e', 's'],
        Keyword::Context => seq!['c', 'o', 'n', 't', 'e', 'x', 't'],
        Keyword::Custom => seq!['c', 'u', 's', 't', 'o', 'm'],
        Keyword::Default => seq!['d', 'e', 'f', 'a', 'u', 'l', 't'],
        Keyword::Double => seq!['d', 'o', 'u', 'b', 'l', 'e'],
        Keyword::Exception => seq!['e', 'x', 'c', 'e', 'p', 't', 'i', 'o', 'n'],
        Keyword::Emits => seq!['e', 'm', 'i', 't', 's'],
        Keyword::Enum => seq!['e', 'n', 'u', 'm'],
        Keyword::EventType => seq!['e', 'v', 'e', 'n', 't', 't', 'y', 'p', 'e'],
        Keyword::Factory => seq!['f', 'a', 'c', 't', 'o', 'r', 'y'],
        Keyword::False => seq!['F', 'A', 'L', 'S', 'E'],
        Keyword::Finder => seq!['f', 'i', 'n', 'd', 'e', 'r'],
        Keyword::Fixed => seq!['f', 'i', 'x', 'e', 'd'],
        Keyword::Float => seq!['f', 'l', 'o', 'a', 't'],
        Keyword::GetRaises => seq!['g', 'e', 't', 'r', 'a', 'i', 's', 'e', 's'],
        Keyword::Home => seq!['h', 'o', 'm', 'e'],
        Keyword::Import => seq!['i', 'm', 'p', 'o', 'r', 't'],
        Keyword::In => seq!['i', 'n'],
        Keyword::InOut => seq!['i', 'n', 'o', 'u', 't'],
        Keyword::Interface => seq!['i', 'n', 't', 'e', 'r', 'f', 'a', 'c', 'e'],
        Keyword::Local => seq!['l', 'o', 'c', 'a', 'l'],
        Keyword::Long => seq!['l', 'o', 'n', 'g'],
        Keyword::Manages => seq!['m', 'a', 'n', 'a', 'g', 'e', 's'],
        Keyword::MapKeyword => seq!['m', 'a', 'p'],
        Keyword::MirrorPort => seq!['m', 'i', 'r', 'r', 'o', 'r', 'p', 'o', 'r', 't'],
        Keyword::Module => seq!['m', 'o', 'd', 'u', 'l', 'e'],
        Keyword::Multiple => seq!['m', 'u', 'l', 't', 'i', 'p', 'l', 'e'],
        Keyword::Native => seq!['n', 'a', 't', 'i', 'v', 'e'],
        Keyword::Object => seq!['O', 'b', 'j', 'e', 'c', 't'],
        Keyword::Octet => seq!['o', 'c', 't', 'e', 't'],
        Keyword::OneWay => seq!['o', 'n', 'e', 'w', 'a', 'y'],
        Keyword::Out => seq!['o', 'u', 't'],
        Keyword::PrimaryKey => seq!['p', 'r', 'i', 'm', 'a', 'r', 'y', 'k', 'e', 'y'],
        Keyword::Private => seq!['p', 'r', 'i', 'v', 'a', 't', 'e'],
        Keyword::Port => seq!['p', 'o', 'r', 't'],
        Keyword::PortType => seq!['p', 'o', 'r', 't', 't', 'y', 'p', 'e'],
        Keyword::Provides => seq!['p', 'r', 'o', 'v', 'i', 'd', 'e', 's'],
        Keyword::Public => seq!['p', 'u', 'b', 'l', 'i', 'c'],
        Keyword::Publishes => seq!['p', 'u', 'b', 'l', 'i', 's', 'h', 'e', 's'],
        Keyword::Raises => seq!['r', 'a', 'i', 's', 'e', 's'],
        Keyword::ReadOnly => seq!['r', 'e', 'a', 'd', 'o', 'n', 'l', 'y'],
        Keyword::SetRaises => seq!['s', 'e', 't', 'r', 'a', 'i', 's', 'e', 's'],
        Keyword::Sequence => seq!['s', 'e', 'q', 'u', 'e', 'n', 'c', 'e'],
        Keyword::Short => seq!['s', 'h', 'o', 'r', 't'],
        Keyword::String => seq!['s', 't', 'r', 'i', 'n', 'g'],
        Keyword::Struct => seq!['s', 't', 'r', 'u', 'c', 't'],
        Keyword::Supports => seq!['s', 'u', 'p', 'p', 'o', 'r', 't', 's'],
        Keyword::Switch => seq!['s', 'w', 'i', 't', 'c', 'h'],
        Keyword::True => seq!['T', 'R', 'U', 'E'],
        Keyword::Truncatable => seq!['t', 'r', 'u', 'n', 'c', 'a', 't', 'a', 'b', 'l', 'e'],
        Keyword::Typedef => seq!['t', 'y', 'p', 'e', 'd', 'e', 'f'],
        Keyword::TypeId => seq!['t', 'y', 'p', 'e', 'i', 'd'],
        Keyword::TypeName => seq!['t', 'y', 'p', 'e', 'n', 'a', 'm', 'e'],
        Keyword::TypePrefix => seq!['t', 'y', 'p', 'e', 'p', 'r', 'e', 'f', 'i', 'x'],
        Keyword::Unsigned => seq!['u', 'n', 's', 'i', 'g', 'n', 'e', 'd'],
        Keyword::Union => seq!['u', 'n', 'i', 'o', 'n'],
        Keyword::Uses => seq!['u', 's', 'e', 's'],
        Keyword::ValueBase => seq!['V', 'a', 'l', 'u', 'e', 'B', 'a', 's', 'e'],
        Keyword::ValueType => seq!['v', 'a', 'l', 'u', 'e', 't', 'y', 'p', 'e'],
        Keyword::Void => seq!['v', 'o', 'i', 'd'],
        Keyword::WChar => seq!['w', 'c', 'h', 'a', 'r'],
        Keyword::WString => seq!['w', 's', 't', 'r', 'i', 'n', 'g'],
        Keyword::Int8 => seq!['i', 'n', 't', '8'],
        Keyword::Int16 => seq!['i', 'n', 't', '1', '6'],
        Keyword::Int32 => seq!['i', 'n', 't', '3', '2'],
        Keyword::Int64 => seq!['i', 'n', 't', '6', '4'],
        Keyword::UInt8 => seq!['u', 'i', 'n', 't', '8'],
        Keyword::UInt16 => seq!['u', 'i', 'n', 't', '1', '6'],
        Keyword::UInt32 => seq!['u', 'i', 'n', 't', '3', '2'],
        Keyword::UInt64 => seq!['u', 'i', 'n', 't', '6', '4'],
    }
}

/// The keyword at position `i` of the table of all keywords, in declaration order.
pub open spec fn keyword_at(i: usize) -> Keyword {
    match i {
        0 => Keyword::Abstract,
        1 => Keyword::Any,
        2 => Keyword::Alias,
        3 => Keyword::Attribute,
        4 => Keyword::Bitfield,
        5 => Keyword::Bitmask,
        6 => Keyword::Bitset,
        7 => Keyword::Boolean,
        8 => Keyword::Case,
        9 => Keyword::Char,
        10 => Keyword::Component,
        11 => Keyword::Connector,
        12 => Keyword::Const,
        13 => Keyword::Consumes,
        14 => Keyword::Context,
        15 => Keyword::Custom,
        16 => Keyword::Default,
        17 => Keyword::Double,
        18 => Keyword::Exception,
        19 => Keyword::Emits,
        20 => Keyword::Enum,
        21 => Keyword::EventType,
        22 => Keyword::Factory,
        23 => Keyword::False,
        24 => Keyword::Finder,
        25 => Keyword::Fixed,
        26 => Keyword::Float,
        27 => Keyword::GetRaises,
        28 => Keyword::Home,
        29 => Keyword::Import,
        30 => Keyword::In,
        31 => Keyword::InOut,
        32 => Keyword::Interface,
        33 => Keyword::Local,
        34 => Keyword::Long,
        35 => Keyword::Manages,
        36 => Keyword::MapKeyword,
        37 => Keyword::MirrorPort,
        38 => Keyword::Module,
        39 => Keyword::Multiple,
        40 => Keyword::Native,
        41 => Keyword::Object,
        42 => Keyword::Octet,
        43 => Keyword::OneWay,
        44 => Keyword::Out,
        45 => Keyword::PrimaryKey,
        46 => Keyword::Private,
        47 => Keyword::Port,
        48 => Keyword::PortType,
        49 => Keyword::Provides,
        50 => Keyword::Public,
        51 => Keyword::Publishes,
        52 => Keyword::Raises,
        53 => Keyword::ReadOnly,
        54 => Keyword::SetRaises,
        55 => Keyword::Sequence,
        56 => Keyword::Short,
        57 => Keyword::String,
        58 => Keyword::Struct,
        59 => Keyword::Supports,
        60 => Keyword::Switch,
        61 => Keyword::True,
        62 => Keyword::Truncatable,
        63 => Keyword::Typedef,
        64 => Keyword::TypeId,
        65 => Keyword::TypeName,
        66 => Keyword::TypePrefix,
        67 => Keyword::Unsigned,
        68 => Keyword::Union,
        69 => Keyword::Uses,
        70 => Keyword::ValueBase,
        71 => Keyword::ValueType,
        72 => Keyword::Void,
        73 => Keyword::WChar,
        74 => Keyword::WString,
        75 => Keyword::Int8,
        76 => Keyword::Int16,
        77 => Keyword::Int32,
        78 => Keyword::Int64,
        79 => Keyword::UInt8,
        80 => Keyword::UInt16,
        81 => Keyword::UInt32,
        _ => Keyword::UInt64,
    }
}

/// The position of a keyword in the table of all keywords.
pub open spec fn index_of(k: Keyword) -> usize {
    match k {
        Keyword::Abstract => 0,
        Keyword::Any => 1,
        Keyword::Alias => 2,
        Keyword::Attribute => 3,
        Keyword::Bitfield => 4,
        Keyword::Bitmask => 5,
        Keyword::Bitset => 6,
        Keyword::Boolean => 7,
        Keyword::Case => 8,
        Keyword::Char => 9,
        Keyword::Component => 10,
        Keyword::Connector => 11,
        Keyword::Const => 12,
        Keyword::Consumes => 13,
        Keyword::Context => 14,
        Keyword::Custom => 15,
        Keyword::Default => 16,
        Keyword::Double => 17,
        Keyword::Exception => 18,
        Keyword::Emits => 19,
        Keyword::Enum => 20,
        Keyword::EventType => 21,
        Keyword::Factory => 22,
        Keyword::False => 23,
        Keyword::Finder => 24,
        Keyword::Fixed => 25,
        Keyword::Float => 26,
        Keyword::GetRaises => 27,
        Keyword::Home => 28,
        Keyword::Import => 29,
        Keyword::In => 30,
        Keyword::InOut => 31,
        Keyword::Interface => 32,
        Keyword::Local => 33,
        Keyword::Long => 34,
        Keyword::Manages => 35,
        Keyword::MapKeyword => 36,
        Keyword::MirrorPort => 37,
        Keyword::Module => 38,
        Keyword::Multiple => 39,
        Keyword::Native => 40,
        Keyword::Object => 41,
        Keyword::Octet => 42,
        Keyword::OneWay => 43,
        Keyword::Out => 44,
        Keyword::PrimaryKey => 45,
        Keyword::Private => 46,
        Keyword::Port => 47,
        Keyword::PortType => 48,
        Keyword::Provides => 49,
        Keyword::Public => 50,
        Keyword::Publishes => 51,
        Keyword::Raises => 52,
        Keyword::ReadOnly => 53,
        Keyword::SetRaises => 54,
        Keyword::Sequence => 55,
        Keyword::Short => 56,
        Keyword::String => 57,
        Keyword::Struct => 58,
        Keyword::Supports => 59,
        Keyword::Switch => 60,
        Keyword::True => 61,
        Keyword::Truncatable => 62,
        Keyword::Typedef => 63,
        Keyword::TypeId => 64,
        Keyword::TypeName => 65,
        Keyword::TypePrefix => 66,
        Keyword::Unsigned => 67,
        Keyword::Union => 68,
        Keyword::Uses => 69,
        Keyword::ValueBase => 70,
        Keyword::ValueType => 71,
        Keyword::Void => 72,
        Keyword::WChar => 73,
        Keyword::WString => 74,
        Keyword::Int8 => 75,
        Keyword::Int16 => 76,
        Keyword::Int32 => 77,
        Keyword::Int64 => 78,
        Keyword::UInt8 => 79,
        Keyword::UInt16 => 80,
        Keyword::UInt32 => 81,
        Keyword::UInt64 => 82,
    }
}

/// The only keyword that `w` can be, told apart by its length and a few of its
/// characters; `None` for a length that no keyword has. The candidate is not checked
/// against `w` in full: see [`keyword_of`].
pub open spec fn candidate(w: Seq<char>) -> Option<Keyword> {
    if w.len() == 2 {
        Some(Keyword::In)
    } else if w.len() == 3 {
        if w[0] == 'a' {
            Some(Keyword::Any)
        } else if w[0] == 'm' {
            Some(Keyword::MapKeyword)
        } else {
            Some(Keyword::Out)
        }
    } else if w.len() == 4 {
        if w[0] == 'T' {
            Some(Keyword::True)
        } else if w[0] == 'c' {
            if w[1] == 'a' {
                Some(Keyword::Case)
            } else {
                Some(Keyword::Char)
            }
        } else if w[0] == 'e' {
            Some(Keyword::Enum)
        } else if w[0] == 'h' {
            Some(Keyword::Home)
        } else if w[0] == 'i' {
            Some(Keyword::Int8)
        } else if w[0] == 'l' {
            Some(Keyword::Long)
        } else if w[0] == 'p' {
            Some(Keyword::Port)
        } else if w[0] == 'u' {
            Some(Keyword::Uses)
        } else {
            Some(Keyword::Void)
        }
    } else if w.len() == 5 {
        if w[0] == 'F' {
            Some(Keyword::False)
        } else if w[0] == 'a' {
            Some(Keyword::Alias)
        } else if w[0] == 'c' {
            Some(Keyword::Const)
        } else if w[0] == 'e' {
            Some(Keyword::Emits)
        } else if w[0] == 'f' {
            if w[1] == 'i' {
                Some(Keyword::Fixed)
            } else {
                Some(Keyword::Float)
            }
        } else if w[0] == 'i' {
            if w[2] == 'o' {
                Some(Keyword::InOut)
            } else {
                if w[3] == '1' {
                    Some(Keyword::Int16)
                } else if w[3] == '3' {
                    Some(Keyword::Int32)
                } else {
                    Some(Keyword::Int64)
                }
            }
        } else if w[0] == 'l' {
            Some(Keyword::Local)
        } else if w[0] == 'o' {
            Some(Keyword::Octet)
        } else if w[0] == 's' {
            Some(Keyword::Short)
        } else if w[0] == 'u' {
            if w[1] == 'i' {
                Some(Keyword::UInt8)
            } else {
                Some(Keyword::Union)
            }
        } else {
            Some(Keyword::WChar)
        }
    } else if w.len() == 6 {
        if w[0] == 'O' {
            Some(Keyword::Object)
        } else if w[0] == 'b' {
            Some(Keyword::Bitset)
        } else if w[0] == 'c' {
            Some(Keyword::Custom)
        } else if w[0] == 'd' {
            Some(Keyword::Double)
        } else if w[0] == 'f' {
            Some(Keyword::Finder)
        } else if w[0] == 'i' {
            Some(Keyword::Import)
        } else if w[0] == 'm' {
            Some(Keyword::Module)
        } else if w[0] == 'n' {
            Some(Keyword::Native)
        } else if w[0] == 'o' {
            Some(Keyword::OneWay)
        } else if w[0] == 'p' {
            Some(Keyword::Public)
        } else if w[0] == 'r' {
            Some(Keyword::Raises)
        } else if w[0] == 's' {
            if w[1] == 't' {
                if w[3] == 'i' {
                    Some(Keyword::String)
                } else {
                    Some(Keyword::Struct)
                }
            } else {
                Some(Keyword::Switch)
            }
        } else if w[0] == 't' {
            Some(Keyword::TypeId)
        } else {
            if w[4] == '1' {
                Some(Keyword::UInt16)
            } else if w[4] == '3' {
                Some(Keyword::UInt32)
            } else {
                Some(Keyword::UInt64)
            }
        }
    } else if w.len() == 7 {
        if w[0] == 'b' {
            if w[1] == 'i' {
                Some(Keyword::Bitmask)
            } else {
                Some(Keyword::Boolean)
            }
        } else if w[0] == 'c' {
            Some(Keyword::Context)
        } else if w[0] == 'd' {
            Some(Keyword::Default)
        } else if w[0] == 'f' {
            Some(Keyword::Factory)
        } else if w[0] == 'm' {
            Some(Keyword::Manages)
        } else if w[0] == 'p' {
            Some(Keyword::Private)
        } else if w[0] == 't' {
            Some(Keyword::Typedef)
        } else {
            Some(Keyword::WString)
        }
    } else if w.len() == 8 {
        if w[0] == 'a' {
            Some(Keyword::Abstract)
        } else if w[0] == 'b' {
            Some(Keyword::Bitfield)
        } else if w[0] == 'c' {
            Some(Keyword::Consumes)
        } else if w[0] == 'm' {
            Some(Keyword::Multiple)
        } else if w[0] == 'p' {
            if w[1] == 'o' {
                Some(Keyword::PortType)
            } else {
                Some(Keyword::Provides)
            }
        } else if w[0] == 'r' {
            Some(Keyword::ReadOnly)
        } else if w[0] == 's' {
            if w[1] == 'e' {
                Some(Keyword::Sequence)
            } else {
                Some(Keyword::Supports)
            }
        } else if w[0] == 't' {
            Some(Keyword::TypeName)
        } else {
            Some(Keyword::Unsigned)
        }
    } else if w.len() == 9 {
        if w[0] == 'V' {
            Some(Keyword::ValueBase)
        } else if w[0] == 'a' {
            Some(Keyword::Attribute)
        } else if w[0] == 'c' {
            if w[2] == 'm' {
                Some(Keyword::Component)
            } else {
                Some(Keyword::Connector)
            }
        } else if w[0] == 'e' {
            if w[1] == 'v' {
                Some(Keyword::EventType)
            } else {
                Some(Keyword::Exception)
            }
        } else if w[0] == 'g' {
            Some(Keyword::GetRaises)
        } else if w[0] == 'i' {
            Some(Keyword::Interface)
        } else if w[0] == 'p' {
            Some(Keyword::Publishes)
        } else if w[0] == 's' {
            Some(Keyword::SetRaises)
        } else {
            Some(Keyword::ValueType)
        }
    } else if w.len() == 10 {
        if w[0] == 'm' {
            Some(Keyword::MirrorPort)
        } else if w[0] == 'p' {
            Some(Keyword::PrimaryKey)
        } else {
            Some(Keyword::TypePrefix)
        }
    } else if w.len() == 11 {
        Some(Keyword::Truncatable)
    } else {
        None
    }
}

/// The keyword spelled exactly `w`, if there is one.
pub open spec fn keyword_of(w: Seq<char>) -> Option<Keyword> {
    match candidate(w) {
        Some(k) => if spelling_of(k) == w {
            Some(k)
        } else {
            None
        },
        None => None,
    }
}

/// The keyword that stands as a whole word at `p`, and the position after it.
pub open spec fn spec_lookup(s: Seq<char>, p: int) -> Option<(Keyword, int)> {
    let e = ident_end(s, p);
    if 0 <= p <= s.len() {
        match keyword_of(s.subrange(p, e)) {
            Some(k) => Some((k, e)),
            None => None,
        }
    } else {
        None
    }
}

/// Each keyword is the candidate for its own spelling.
pub proof fn lemma_candidate_of_spelling(k: Keyword)
    ensures
        candidate(spelling_of(k)) == Some(k),
{
}

/// The table of all keywords holds every keyword, at its index.
pub proof fn lemma_index_of(k: Keyword)
    ensures
        0 <= index_of(k) < KEYWORD_COUNT,
        keyword_at(index_of(k)) == k,
{
}

/// Every spelling is one whole identifier.
pub proof fn lemma_spelling_is_word(k: Keyword)
    ensures
        spelling_of(k).len() > 0,
        is_ident_start(spelling_of(k)[0]),
        forall|i: int| 0 <= i < spelling_of(k).len() ==> is_ident_continue(#[trigger] spelling_of(k)[i]),
{
}

/// A text made of identifier characters alone, led by one that may start an
/// identifier, is one identifier from its first position to its end.
pub proof fn lemma_ident_end_of_word(w: Seq<char>)
    requires
        w.len() > 0,
        is_ident_start(w[0]),
        forall|i: int| 0 <= i < w.len() ==> is_ident_continue(#[trigger] w[i]),
    ensures
        ident_end(w, 0) == w.len(),
{
    lemma_ident_rest_end_skip(w, 1, w.len() as int);
}

/// An identifier runs on over identifier characters.
proof fn lemma_ident_rest_end_skip(s: Seq<char>, p: int, q: int)
    requires
        0 <= p <= q <= s.len(),
        forall|i: int| p <= i < q ==> is_ident_continue(#[trigger] s[i]),
    ensures
        ident_rest_end(s, p) == ident_rest_end(s, q),
    decreases q - p,
{
    if p < q {
        lemma_ident_rest_end_skip(s, p + 1, q);
    }
}

/// A keyword's spelling stands as a whole word where nothing follows it, and where
/// the character after it is one that cannot continue an identifier; not where it
/// is a letter, a digit or an underscore.
pub proof fn lemma_keyword_boundary(k: Keyword, c: char, rest: Seq<char>)
    ensures
        word_at(spelling_of(k), 0, spelling_of(k)),
        word_at(spelling_of(k) + seq![c] + rest, 0, spelling_of(k)) == !is_ident_continue(c),
{
    let w = spelling_of(k);
    let s = w + seq![c] + rest;
    lemma_spelling_is_word(k);
    lemma_ident_end_of_word(w);
    assert(w.subrange(0, w.len() as int) =~= w);
    assert forall|i: int| 1 <= i < w.len() implies is_ident_continue(#[trigger] s[i]) by {
        assert(s[i] == w[i]);
    }
    assert(s[0] == w[0]);
    assert(s[w.len() as int] == c);
    lemma_ident_rest_end_skip(s, 1, w.len() as int);
    assert(s.subrange(0, w.len() as int) =~= w);
    if is_ident_continue(c) {
        lemma_ident_rest_end_bounds(s, w.len() as int + 1);
    }
}

/// Looking up the spelling of any keyword finds that keyword, and takes the whole
/// spelling.
pub proof fn lemma_lookup_of_spelling(k: Keyword)
    ensures
        spec_lookup(spelling_of(k), 0) == Some((k, spelling_of(k).len() as int)),
{
    let w = spelling_of(k);
    lemma_spelling_is_word(k);
    lemma_ident_end_of_word(w);
    lemma_candidate_of_spelling(k);
    assert(w.subrange(0, w.len() as int) =~= w);
}

/// Two keywords with the same spelling are the same keyword.
pub proof fn lemma_spelling_injective(k1: Keyword, k2: Keyword)
    ensures
        spelling_of(k1) == spelling_of(k2) ==> k1 == k2,
{
    lemma_candidate_of_spelling(k1);
    lemma_candidate_of_spelling(k2);
}

impl Keyword {
    /// The exact spelling of this keyword.
    pub fn spelling(&self) -> (r: &'static str)
        ensures
            r@ == spelling_of(*self),
    {
        match self {
            Keyword::Abstract => {
                proof { reveal_strlit("abstract"); }
                "abstract"
            },
            Keyword::Any => {
                proof { reveal_strlit("any"); }
                "any"
            },
            Keyword::Alias => {
                proof { reveal_strlit("alias"); }
                "alias"
            },
            Keyword::Attribute => {
                proof { reveal_strlit("attribute"); }
                "attribute"
            },
            Keyword::Bitfield => {
                proof { reveal_strlit("bitfield"); }
                "bitfield"
            },
            Keyword::Bitmask => {
                proof { reveal_strlit("bitmask"); }
                "bitmask"
            },
            Keyword::Bitset => {
                proof { reveal_strlit("bitset"); }
                "bitset"
            },
            Keyword::Boolean => {
                proof { reveal_strlit("boolean"); }
                "boolean"
            },
            Keyword::Case => {
                proof { reveal_strlit("case"); }
                "case"
            },
            Keyword::Char => {
                proof { reveal_strlit("char"); }
                "char"
            },
            Keyword::Component => {
                proof { reveal_strlit("component"); }
                "component"
            },
            Keyword::Connector => {
                proof { reveal_strlit("connector"); }
                "connector"
            },
            Keyword::Const => {
                proof { reveal_strlit("const"); }
                "const"
            },
            Keyword::Consumes => {
                proof { reveal_strlit("consumes"); }
                "consumes"
            },
            Keyword::Context => {
                proof { reveal_strlit("context"); }
                "context"
            },
            Keyword::Custom => {
                proof { reveal_strlit("custom"); }
                "custom"
            },
            Keyword::Default => {
                proof { reveal_strlit("default"); }
                "default"
            },
            Keyword::Double => {
                proof { reveal_strlit("double"); }
                "double"
            },
            Keyword::Exception => {
                proof { reveal_strlit("exception"); }
                "exception"
            },
            Keyword::Emits => {
                proof { reveal_strlit("emits"); }
                "emits"
            },
            Keyword::Enum => {
                proof { reveal_strlit("enum"); }
                "enum"
            },
            Keyword::EventType => {
                proof { reveal_strlit("eventtype"); }
                "eventtype"
            },
            Keyword::Factory => {
                proof { reveal_strlit("factory"); }
                "factory"
            },
            Keyword::False => {
                proof { reveal_strlit("FALSE"); }
                "FALSE"
            },
            Keyword::Finder => {
                proof { reveal_strlit("finder"); }
                "finder"
            },
            Keyword::Fixed => {
                proof { reveal_strlit("fixed"); }
                "fixed"
            },
            Keyword::Float => {
                proof { reveal_strlit("float"); }
                "float"
            },
            Keyword::GetRaises => {
                proof { reveal_strlit("getraises"); }
                "getraises"
            },
            Keyword::Home => {
                proof { reveal_strlit("home"); }
                "home"
            },
            Keyword::Import => {
                proof { reveal_strlit("import"); }
                "import"
            },
            Keyword::In => {
                proof { reveal_strlit("in"); }
                "in"
            },
            Keyword::InOut => {
                proof { reveal_strlit("inout"); }
                "inout"
            },
            Keyword::Interface => {
                proof { reveal_strlit("interface"); }
                "interface"
            },
            Keyword::Local => {
                proof { reveal_strlit("local"); }
                "local"
            },
            Keyword::Long => {
                proof { reveal_strlit("long"); }
                "long"
            },
            Keyword::Manages => {
                proof { reveal_strlit("manages"); }
                "manages"
            },
            Keyword::MapKeyword => {
                proof { reveal_strlit("map"); }
                "map"
            },
            Keyword::MirrorPort => {
                proof { reveal_strlit("mirrorport"); }
                "mirrorport"
            },
            Keyword::Module => {
                proof { reveal_strlit("module"); }
                "module"
            },
            Keyword::Multiple => {
                proof { reveal_strlit("multiple"); }
                "multiple"
            },
            Keyword::Native => {
                proof { reveal_strlit("native"); }
                "native"
            },
            Keyword::Object => {
                proof { reveal_strlit("Object"); }
                "Object"
            },
            Keyword::Octet => {
                proof { reveal_strlit("octet"); }
                "octet"
            },
            Keyword::OneWay => {
                proof { reveal_strlit("oneway"); }
                "oneway"
            },
            Keyword::Out => {
                proof { reveal_strlit("out"); }
                "out"
            },
            Keyword::PrimaryKey => {
                proof { reveal_strlit("primarykey"); }
                "primarykey"
            },
            Keyword::Private => {
                proof { reveal_strlit("private"); }
                "private"
            },
            Keyword::Port => {
                proof { reveal_strlit("port"); }
                "port"
            },
            Keyword::PortType => {
                proof { reveal_strlit("porttype"); }
                "porttype"
            },
            Keyword::Provides => {
                proof { reveal_strlit("provides"); }
                "provides"
            },
            Keyword::Public => {
                proof { reveal_strlit("public"); }
                "public"
            },
            Keyword::Publishes => {
                proof { reveal_strlit("publishes"); }
                "publishes"
            },
            Keyword::Raises => {
                proof { reveal_strlit("raises"); }
                "raises"
            },
            Keyword::ReadOnly => {
                proof { reveal_strlit("readonly"); }
                "readonly"
            },
            Keyword::SetRaises => {
                proof { reveal_strlit("setraises"); }
                "setraises"
            },
            Keyword::Sequence => {
                proof { reveal_strlit("sequence"); }
                "sequence"
            },
            Keyword::Short => {
                proof { reveal_strlit("short"); }
                "short"
            },
            Keyword::String => {
                proof { reveal_strlit("string"); }
                "string"
            },
            Keyword::Struct => {
                proof { reveal_strlit("struct"); }
                "struct"
            },
            Keyword::Supports => {
                proof { reveal_strlit("supports"); }
                "supports"
            },
            Keyword::Switch => {
                proof { reveal_strlit("switch"); }
                "switch"
            },
            Keyword::True => {
                proof { reveal_strlit("TRUE"); }
                "TRUE"
            },
            Keyword::Truncatable => {
                proof { reveal_strlit("truncatable"); }
                "truncatable"
            },
            Keyword::Typedef => {
                proof { reveal_strlit("typedef"); }
                "typedef"
            },
            Keyword::TypeId => {
                proof { reveal_strlit("typeid"); }
                "typeid"
            },
            Keyword::TypeName => {
                proof { reveal_strlit("typename"); }
                "typename"
            },
            Keyword::TypePrefix => {
                proof { reveal_strlit("typeprefix"); }
                "typeprefix"
            },
            Keyword::Unsigned => {
                proof { reveal_strlit("unsigned"); }
                "unsigned"
            },
            Keyword::Union => {
                proof { reveal_strlit("union"); }
                "union"
            },
            Keyword::Uses => {
                proof { reveal_strlit("uses"); }
                "uses"
            },
            Keyword::ValueBase => {
                proof { reveal_strlit("ValueBase"); }
                "ValueBase"
            },
            Keyword::ValueType => {
                proof { reveal_strlit("valuetype"); }
                "valuetype"
            },
            Keyword::Void => {
                proof { reveal_strlit("void"); }
                "void"
            },
            Keyword::WChar => {
                proof { reveal_strlit("wchar"); }
                "wchar"
            },
            Keyword::WString => {
                proof { reveal_strlit("wstring"); }
                "wstring"
            },
            Keyword::Int8 => {
                proof { reveal_strlit("int8"); }
                "int8"
            },
            Keyword::Int16 => {
                proof { reveal_strlit("int16"); }
                "int16"
            },
            Keyword::Int32 => {
                proof { reveal_strlit("int32"); }
                "int32"
            },
            Keyword::Int64 => {
                proof { reveal_strlit("int64"); }
                "int64"
            },
            Keyword::UInt8 => {
                proof { reveal_strlit("uint8"); }
                "uint8"
            },
            Keyword::UInt16 => {
                proof { reveal_strlit("uint16"); }
                "uint16"
            },
            Keyword::UInt32 => {
                proof { reveal_strlit("uint32"); }
                "uint32"
            },
            Keyword::UInt64 => {
                proof { reveal_strlit("uint64"); }
                "uint64"
            },
        }
    }

    /// The keyword at position `i` of the table of all keywords.
    pub fn nth(i: usize) -> (r: Keyword)
        requires
            i < KEYWORD_COUNT,
        ensures
            r == keyword_at(i),
    {
        match i {
            0 => Keyword::Abstract,
            1 => Keyword::Any,
            2 => Keyword::Alias,
            3 => Keyword::Attribute,
            4 => Keyword::Bitfield,
            5 => Keyword::Bitmask,
            6 => Keyword::Bitset,
            7 => Keyword::Boolean,
            8 => Keyword::Case,
            9 => Keyword::Char,
            10 => Keyword::Component,
            11 => Keyword::Connector,
            12 => Keyword::Const,
            13 => Keyword::Consumes,
            14 => Keyword::Context,
            15 => Keyword::Custom,
            16 => Keyword::Default,
            17 => Keyword::Double,
            18 => Keyword::Exception,
            19 => Keyword::Emits,
            20 => Keyword::Enum,
            21 => Keyword::EventType,
            22 => Keyword::Factory,
            23 => Keyword::False,
            24 => Keyword::Finder,
            25 => Keyword::Fixed,
            26 => Keyword::Float,
            27 => Keyword::GetRaises,
            28 => Keyword::Home,
            29 => Keyword::Import,
            30 => Keyword::In,
            31 => Keyword::InOut,
            32 => Keyword::Interface,
            33 => Keyword::Local,
            34 => Keyword::Long,
            35 => Keyword::Manages,
            36 => Keyword::MapKeyword,
            37 => Keyword::MirrorPort,
            38 => Keyword::Module,
            39 => Keyword::Multiple,
            40 => Keyword::Native,
            41 => Keyword::Object,
            42 => Keyword::Octet,
            43 => Keyword::OneWay,
            44 => Keyword::Out,
            45 => Keyword::PrimaryKey,
            46 => Keyword::Private,
            47 => Keyword::Port,
            48 => Keyword::PortType,
            49 => Keyword::Provides,
            50 => Keyword::Public,
            51 => Keyword::Publishes,
            52 => Keyword::Raises,
            53 => Keyword::ReadOnly,
            54 => Keyword::SetRaises,
            55 => Keyword::Sequence,
            56 => Keyword::Short,
            57 => Keyword::String,
            58 => Keyword::Struct,
            59 => Keyword::Supports,
            60 => Keyword::Switch,
            61 => Keyword::True,
            62 => Keyword::Truncatable,
            63 => Keyword::Typedef,
            64 => Keyword::TypeId,
            65 => Keyword::TypeName,
            66 => Keyword::TypePrefix,
            67 => Keyword::Unsigned,
            68 => Keyword::Union,
            69 => Keyword::Uses,
            70 => Keyword::ValueBase,
            71 => Keyword::ValueType,
            72 => Keyword::Void,
            73 => Keyword::WChar,
            74 => Keyword::WString,
            75 => Keyword::Int8,
            76 => Keyword::Int16,
            77 => Keyword::Int32,
            78 => Keyword::Int64,
            79 => Keyword::UInt8,
            80 => Keyword::UInt16,
            81 => Keyword::UInt32,
            _ => Keyword::UInt64,
        }
    }

    /// Every keyword, in declaration order.
    pub fn all() -> (r: Vec<Keyword>)
        ensures
            r@.len() == KEYWORD_COUNT,
            forall|i: int| 0 <= i < KEYWORD_COUNT ==> r@[i] == keyword_at(i as usize),
    {
        let mut r: Vec<Keyword> = Vec::new();
        let mut i: usize = 0;
        while i < KEYWORD_COUNT
            invariant
                i <= KEYWORD_COUNT,
                r@.len() == i,
                forall|j: int| 0 <= j < i ==> r@[j] == keyword_at(j as usize),
            decreases KEYWORD_COUNT - i,
        {
            r.push(Keyword::nth(i));
            i = i + 1;
        }
        r
    }

    /// The keyword that stands as a whole word at `pos`, with the position after it.
    /// The longest identifier at `pos` is taken and compared with every spelling, so
    /// a keyword followed by a letter, digit or underscore is not found.
    pub fn lookup(input: &[char], pos: usize) -> (r: Option<(Keyword, usize)>)
        ensures
            r matches Some((k, e)) ==> spec_lookup(input@, pos as int) == Some((k, e as int)),
            r is None ==> spec_lookup(input@, pos as int) is None,
    {
        let n = input.len();
        if pos > n {
            return None;
        }
        let e = scan_ident(input, pos);
        let ghost w = input@.subrange(pos as int, e as int);
        let mut i: usize = 0;
        while i < KEYWORD_COUNT
            invariant
                n == input@.len(),
                pos <= e <= n,
                e as int == ident_end(input@, pos as int),
                w == input@.subrange(pos as int, e as int),
                i <= KEYWORD_COUNT,
                forall|j: usize| j < i ==> spelling_of(#[trigger] keyword_at(j)) != w,
            decreases KEYWORD_COUNT - i,
        {
            let k = Keyword::nth(i);
            if range_is(input, pos, e, k.spelling()) {
                proof { lemma_candidate_of_spelling(k); }
                return Some((k, e));
            }
            i = i + 1;
        }
        proof {
            if let Some(k) = keyword_of(w) {
                lemma_index_of(k);
                assert(spelling_of(keyword_at(index_of(k))) != w);
            }
        }
        None
    }

    /// A recognizer for this keyword alone.
    pub fn make_parser(&self) -> (r: KeywordParser)
        ensures
            r.keyword == *self,
    {
        KeywordParser { keyword: *self }
    }
}

/// Recognizes one keyword as a whole word.
#[derive(Debug, Clone, Copy, PartialEq, Eq)]
pub struct KeywordParser {
    pub keyword: Keyword,
}

impl KeywordParser {
    /// The keyword, and the position after it, where its exact spelling stands as a
    /// whole word at `pos`; `NoMatch` otherwise.
    pub fn parse_at(&self, input: &[char], pos: usize) -> (r: Result<(Keyword, usize), LexError>)
        ensures
            word_at(input@, pos as int, spelling_of(self.keyword)) ==> r == Ok::<
                (Keyword, usize),
                LexError,
            >((self.keyword, (pos + spelling_of(self.keyword).len()) as usize)),
            !word_at(input@, pos as int, spelling_of(self.keyword)) ==> r == Err::<
                (Keyword, usize),
                LexError,
            >(LexError::NoMatch),
    {
        let n = input.len();
        if pos <= n && word_is(input, pos, self.keyword.spelling()) {
            Ok((self.keyword, pos + self.keyword.spelling().unicode_len()))
        } else {
            Err(LexError::NoMatch)
        }
    }

    /// The keyword, where it stands as a whole word at the start of `input`.
    pub fn parse(&self, input: &str) -> (r: Result<Keyword, LexError>)
        ensures
            word_at(input@, 0, spelling_of(self.keyword)) ==> r == Ok::<Keyword, LexError>(
                self.keyword,
            ),
            !word_at(input@, 0, spelling_of(self.keyword)) ==> r == Err::<Keyword, LexError>(
                LexError::NoMatch,
            ),
    {
        let chars = chars_of(input);
        match self.parse_at(chars.as_slice(), 0) {
            Ok((k, _)) => Ok(k),
            Err(x) => Err(x),
        }
    }
}

} // verus!
