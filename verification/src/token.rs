//! Lexical tokens: the closed set of variants the lexer produces, a ghost
//! view for contracts, and the table of token names, patterns and payloads.

use vstd::prelude::*;
use vstd::string::*;
use crate::text::{all_digits, dec_value, dec_value_i64, str_eq, parse_decimal};

verus! {

/// An atomic lexical unit. Tokens are immutable, produced once by the lexer
/// and consumed strictly left to right by the parser.
#[derive(Debug, Clone, PartialEq)]
pub enum Token {
    // keywords
    Print,
    If,
    Else,
    Int,
    Maybe,
    Paywall,
    // identifiers & literals
    Identifier(String),
    IntegerLiteral(i64),
    StringLiteral(String),
    // operators
    Plus,
    Minus,
    Assign,
    GreaterThan,
    LessThan,
    // punctuation
    SemiColon,
    LeftParen,
    RightParen,
    LeftBrace,
    RightBrace,
}

/// The ghost counterpart of `Token`: string payloads are character sequences.
pub enum SpecToken {
    Print,
    If,
    Else,
    Int,
    Maybe,
    Paywall,
    Identifier(Seq<char>),
    IntegerLiteral(i64),
    StringLiteral(Seq<char>),
    Plus,
    Minus,
    Assign,
    GreaterThan,
    LessThan,
    SemiColon,
    LeftParen,
    RightParen,
    LeftBrace,
    RightBrace,
}

/// The model of a token.
pub open spec fn token_view(t: Token) -> SpecToken {
    match t {
        Token::Print => SpecToken::Print,
        Token::If => SpecToken::If,
        Token::Else => SpecToken::Else,
        Token::Int => SpecToken::Int,
        Token::Maybe => SpecToken::Maybe,
        Token::Paywall => SpecToken::Paywall,
        Token::Identifier(s) => SpecToken::Identifier(s@),
        Token::IntegerLiteral(n) => SpecToken::IntegerLiteral(n),
        Token::StringLiteral(s) => SpecToken::StringLiteral(s@),
        Token::Plus => SpecToken::Plus,
        Token::Minus => SpecToken::Minus,
        Token::Assign => SpecToken::Assign,
        Token::GreaterThan => SpecToken::GreaterThan,
        Token::LessThan => SpecToken::LessThan,
        Token::SemiColon => SpecToken::SemiColon,
        Token::LeftParen => SpecToken::LeftParen,
        Token::RightParen => SpecToken::RightParen,
        Token::LeftBrace => SpecToken::LeftBrace,
        Token::RightBrace => SpecToken::RightBrace,
    }
}

/// The model of a token list.
pub open spec fn tokens_view(ts: Seq<Token>) -> Seq<SpecToken> {
    Seq::new(ts.len(), |i: int| token_view(ts[i]))
}

/// The token-type names that `get_token` and `get_token_regex` accept.
pub open spec fn valid_token_name(name: Seq<char>) -> bool {
    ||| name == "Print"@
    ||| name == "If"@
    ||| name == "Else"@
    ||| name == "Int"@
    ||| name == "Maybe"@
    ||| name == "Paywall"@
    ||| name == "Identifier"@
    ||| name == "IntegerLiteral"@
    ||| name == "StringLiteral"@
    ||| name == "Plus"@
    ||| name == "Minus"@
    ||| name == "Assign"@
    ||| name == "GreaterThan"@
    ||| name == "LessThan"@
    ||| name == "SemiColon"@
    ||| name == "LeftParen"@
    ||| name == "RightParen"@
    ||| name == "LeftBrace"@
    ||| name == "RightBrace"@
}

/// The token denoted by a token-type name and an optional payload.
pub open spec fn spec_get_token(name: Seq<char>, value: Option<Seq<char>>) -> SpecToken {
    if name == "Print"@ {
        SpecToken::Print
    } else if name == "If"@ {
        SpecToken::If
    } else if name == "Else"@ {
        SpecToken::Else
    } else if name == "Int"@ {
        SpecToken::Int
    } else if name == "Maybe"@ {
        SpecToken::Maybe
    } else if name == "Paywall"@ {
        SpecToken::Paywall
    } else if name == "Identifier"@ {
        SpecToken::Identifier(value->0)
    } else if name == "IntegerLiteral"@ {
        SpecToken::IntegerLiteral(dec_value_i64(value->0))
    } else if name == "StringLiteral"@ {
        SpecToken::StringLiteral(value->0)
    } else if name == "Plus"@ {
        SpecToken::Plus
    } else if name == "Minus"@ {
        SpecToken::Minus
    } else if name == "Assign"@ {
        SpecToken::Assign
    } else if name == "GreaterThan"@ {
        SpecToken::GreaterThan
    } else if name == "LessThan"@ {
        SpecToken::LessThan
    } else if name == "SemiColon"@ {
        SpecToken::SemiColon
    } else if name == "LeftParen"@ {
        SpecToken::LeftParen
    } else if name == "RightParen"@ {
        SpecToken::RightParen
    } else if name == "LeftBrace"@ {
        SpecToken::LeftBrace
    } else {
        SpecToken::RightBrace
    }
}

/// The lexer pattern for a token-type name.
pub open spec fn spec_token_regex(name: Seq<char>) -> Seq<char> {
    if name == "Print"@ {
        r"\bprint\b"@
    } else if name == "If"@ {
        r"\bif\b"@
    } else if name == "Else"@ {
        r"\belse\b"@
    } else if name == "Int"@ {
        r"\bint\b"@
    } else if name == "Maybe"@ {
        r"\bmaybe\b"@
    } else if name == "Paywall"@ {
        r"\bpaywall\b"@
    } else if name == "Identifier"@ {
        r"[a-zA-Z_][a-zA-Z0-9_]*"@
    } else if name == "IntegerLiteral"@ {
        r"\d+"@
    } else if name == "StringLiteral"@ {
        "\"[^\"]*\""@
    } else if name == "Plus"@ {
        r"\+"@
    } else if name == "Minus"@ {
        "-"@
    } else if name == "Assign"@ {
        "="@
    } else if name == "GreaterThan"@ {
        ">"@
    } else if name == "LessThan"@ {
        "<"@
    } else if name == "SemiColon"@ {
        ";"@
    } else if name == "LeftParen"@ {
        r"\("@
    } else if name == "RightParen"@ {
        r"\)"@
    } else if name == "LeftBrace"@ {
        r"\{"@
    } else {
        r"\}"@
    }
}

impl Token {
    /// Builds the token for a token-type name, taking the payload for
    /// identifier and literal types from `value`.
    pub fn get_token(token_type: &str, value: Option<&str>) -> (r: Token)
        requires
            valid_token_name(token_type@),
            token_type@ == "Identifier"@ || token_type@ == "StringLiteral"@
                || token_type@ == "IntegerLiteral"@ ==> value is Some,
            token_type@ == "IntegerLiteral"@ ==> all_digits(value->0@) && dec_value(value->0@)
                <= i64::MAX,
        ensures
            token_view(r) == spec_get_token(
                token_type@,
                match value {
                    Some(v) => Some(v@),
                    None => None,
                },
            ),
    {
        if str_eq(token_type, "Print") {
            Token::Print
        } else if str_eq(token_type, "If") {
            Token::If
        } else if str_eq(token_type, "Else") {
            Token::Else
        } else if str_eq(token_type, "Int") {
            Token::Int
        } else if str_eq(token_type, "Maybe") {
            Token::Maybe
        } else if str_eq(token_type, "Paywall") {
            Token::Paywall
        } else if str_eq(token_type, "Identifier") {
            match value {
                Some(v) => Token::Identifier(String::from_str(v)),
                None => vstd::pervasive::unreached(),
            }
        } else if str_eq(token_type, "IntegerLiteral") {
            match value {
                Some(v) => Token::IntegerLiteral(parse_decimal(v)),
                None => vstd::pervasive::unreached(),
            }
        } else if str_eq(token_type, "StringLiteral") {
            match value {
                Some(v) => Token::StringLiteral(String::from_str(v)),
                None => vstd::pervasive::unreached(),
            }
        } else if str_eq(token_type, "Plus") {
            Token::Plus
        } else if str_eq(token_type, "Minus") {
            Token::Minus
        } else if str_eq(token_type, "Assign") {
            Token::Assign
        } else if str_eq(token_type, "GreaterThan") {
            Token::GreaterThan
        } else if str_eq(token_type, "LessThan") {
            Token::LessThan
        } else if str_eq(token_type, "SemiColon") {
            Token::SemiColon
        } else if str_eq(token_type, "LeftParen") {
            Token::LeftParen
        } else if str_eq(token_type, "RightParen") {
            Token::RightParen
        } else if str_eq(token_type, "LeftBrace") {
            Token::LeftBrace
        } else if str_eq(token_type, "RightBrace") {
            Token::RightBrace
        } else {
            vstd::pervasive::unreached()
        }
    }

    /// The pattern the lexer uses for a token-type name. Keyword patterns are
    /// whole-word matches, so a keyword prefix of a longer identifier does not
    /// lex as the keyword.
    pub fn get_token_regex(token_type: &str) -> (r: String)
        requires
            valid_token_name(token_type@),
        ensures
            r@ == spec_token_regex(token_type@),
    {
        if str_eq(token_type, "Print") {
            String::from_str(r"\bprint\b")
        } else if str_eq(token_type, "If") {
            String::from_str(r"\bif\b")
        } else if str_eq(token_type, "Else") {
            String::from_str(r"\belse\b")
        } else if str_eq(token_type, "Int") {
            String::from_str(r"\bint\b")
        } else if str_eq(token_type, "Maybe") {
            String::from_str(r"\bmaybe\b")
        } else if str_eq(token_type, "Paywall") {
            String::from_str(r"\bpaywall\b")
        } else if str_eq(token_type, "Identifier") {
            String::from_str(r"[a-zA-Z_][a-zA-Z0-9_]*")
        } else if str_eq(token_type, "IntegerLiteral") {
            String::from_str(r"\d+")
        } else if str_eq(token_type, "StringLiteral") {
            String::from_str("\"[^\"]*\"")
        } else if str_eq(token_type, "Plus") {
            String::from_str(r"\+")
        } else if str_eq(token_type, "Minus") {
            String::from_str("-")
        } else if str_eq(token_type, "Assign") {
            String::from_str("=")
        } else if str_eq(token_type, "GreaterThan") {
            String::from_str(">")
        } else if str_eq(token_type, "LessThan") {
            String::from_str("<")
        } else if str_eq(token_type, "SemiColon") {
            String::from_str(";")
        } else if str_eq(token_type, "LeftParen") {
            String::from_str(r"\(")
        } else if str_eq(token_type, "RightParen") {
            String::from_str(r"\)")
        } else if str_eq(token_type, "LeftBrace") {
            String::from_str(r"\{")
        } else {
            String::from_str(r"\}")
        }
    }
}

} // verus!
