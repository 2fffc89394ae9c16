//! Lexical tokens. The scanner produces one `Token` at a time; the parser
//! consumes them and they are not retained afterwards.

use vstd::prelude::*;
use vstd::string::StringExecFns;

verus! {

/// One lexical unit of the source text.
#[derive(Debug)]
pub enum Token {
    /// A line break, which separates statements.
    Newline,
    /// End of the input; returned again on every call past the end.
    EOF,
    /// An identifier: a variable, function or type name.
    Ident(String),
    /// Keyword `var`.
    Kwvar,
    /// Keyword `func`.
    KwFunc,
    /// Keyword `return`.
    KwReturn,
    /// Keyword `if`.
    KwIf,
    /// Keyword `elif`.
    KwElseIf,
    /// Keyword `else`.
    KwElse,
    /// Keyword `for`.
    KwFor,
    /// Keyword `in`.
    KwIn,
    /// Keyword `true`.
    KwTrue,
    /// Keyword `false`.
    KwFalse,
    /// Keyword `while`.
    KwWhile,
    /// An integer literal.
    IntLiteral(i64),
    /// A string literal, quotes stripped.
    StrLiteral(String),
    /// `+`
    Plus,
    /// `-`
    Minus,
    /// `*`
    Star,
    /// `/`
    Slash,
    /// `%`
    Percent,
    /// `=`
    Eq,
    /// `==`
    EqEq,
    /// `!=`
    NotEq,
    /// `<`
    Lt,
    /// `<=`
    LtEq,
    /// `>`
    Gt,
    /// `>=`
    GtEq,
    /// `(`
    LParen,
    /// `)`
    RParen,
    /// `[`
    LBracket,
    /// `]`
    RBracket,
    /// `{`
    LBrace,
    /// `}`
    RBrace,
    /// `:`
    Colon,
    /// `;`
    Semi,
    /// `,`
    Comma,
}

/// Spec mirror of `Token`.
#[verifier::ext_equal]
pub enum TokenS {
    Newline,
    EOF,
    Ident(Seq<char>),
    Kwvar,
    KwFunc,
    KwReturn,
    KwIf,
    KwElseIf,
    KwElse,
    KwFor,
    KwIn,
    KwTrue,
    KwFalse,
    KwWhile,
    IntLiteral(i64),
    StrLiteral(Seq<char>),
    Plus,
    Minus,
    Star,
    Slash,
    Percent,
    Eq,
    EqEq,
    NotEq,
    Lt,
    LtEq,
    Gt,
    GtEq,
    LParen,
    RParen,
    LBracket,
    RBracket,
    LBrace,
    RBrace,
    Colon,
    Semi,
    Comma,
}

impl View for Token {
    type V = TokenS;

    open spec fn view(&self) -> TokenS {
        match self {
            Token::Newline => TokenS::Newline,
            Token::EOF => TokenS::EOF,
            Token::Ident(s) => TokenS::Ident(s@),
            Token::Kwvar => TokenS::Kwvar,
            Token::KwFunc => TokenS::KwFunc,
            Token::KwReturn => TokenS::KwReturn,
            Token::KwIf => TokenS::KwIf,
            Token::KwElseIf => TokenS::KwElseIf,
            Token::KwElse => TokenS::KwElse,
            Token::KwFor => TokenS::KwFor,
            Token::KwIn => TokenS::KwIn,
            Token::KwTrue => TokenS::KwTrue,
            Token::KwFalse => TokenS::KwFalse,
            Token::KwWhile => TokenS::KwWhile,
            Token::IntLiteral(n) => TokenS::IntLiteral(*n),
            Token::StrLiteral(s) => TokenS::StrLiteral(s@),
            Token::Plus => TokenS::Plus,
            Token::Minus => TokenS::Minus,
            Token::Star => TokenS::Star,
            Token::Slash => TokenS::Slash,
            Token::Percent => TokenS::Percent,
            Token::Eq => TokenS::Eq,
            Token::EqEq => TokenS::EqEq,
            Token::NotEq => TokenS::NotEq,
            Token::Lt => TokenS::Lt,
            Token::LtEq => TokenS::LtEq,
            Token::Gt => TokenS::Gt,
            Token::GtEq => TokenS::GtEq,
            Token::LParen => TokenS::LParen,
            Token::RParen => TokenS::RParen,
            Token::LBracket => TokenS::LBracket,
            Token::RBracket => TokenS::RBracket,
            Token::LBrace => TokenS::LBrace,
            Token::RBrace => TokenS::RBrace,
            Token::Colon => TokenS::Colon,
            Token::Semi => TokenS::Semi,
            Token::Comma => TokenS::Comma,
        }
    }
}

/// A number naming a token's lexical shape, ignoring its content. Two token
/// mirrors with different numbers are different tokens.
pub open spec fn token_tag_s(t: TokenS) -> int {
    match t {
        TokenS::Newline => 0,
        TokenS::EOF => 1,
        TokenS::Ident(_) => 2,
        TokenS::Kwvar => 3,
        TokenS::KwFunc => 4,
        TokenS::KwReturn => 5,
        TokenS::KwIf => 6,
        TokenS::KwElseIf => 7,
        TokenS::KwElse => 8,
        TokenS::KwFor => 9,
        TokenS::KwIn => 10,
        TokenS::KwTrue => 11,
        TokenS::KwFalse => 12,
        TokenS::KwWhile => 13,
        TokenS::IntLiteral(_) => 14,
        TokenS::StrLiteral(_) => 15,
        TokenS::Plus => 16,
        TokenS::Minus => 17,
        TokenS::Star => 18,
        TokenS::Slash => 19,
        TokenS::Percent => 20,
        TokenS::Eq => 21,
        TokenS::EqEq => 22,
        TokenS::NotEq => 23,
        TokenS::Lt => 24,
        TokenS::LtEq => 25,
        TokenS::Gt => 26,
        TokenS::GtEq => 27,
        TokenS::LParen => 28,
        TokenS::RParen => 29,
        TokenS::LBracket => 30,
        TokenS::RBracket => 31,
        TokenS::LBrace => 32,
        TokenS::RBrace => 33,
        TokenS::Colon => 34,
        TokenS::Semi => 35,
        TokenS::Comma => 36,
    }
}

/// The tag of a token's lexical shape.
fn token_tag(t: &Token) -> (r: u64)
    ensures
        r as int == token_tag_s(t@),
{
    match t {
        Token::Newline => 0,
        Token::EOF => 1,
        Token::Ident(_) => 2,
        Token::Kwvar => 3,
        Token::KwFunc => 4,
        Token::KwReturn => 5,
        Token::KwIf => 6,
        Token::KwElseIf => 7,
        Token::KwElse => 8,
        Token::KwFor => 9,
        Token::KwIn => 10,
        Token::KwTrue => 11,
        Token::KwFalse => 12,
        Token::KwWhile => 13,
        Token::IntLiteral(_) => 14,
        Token::StrLiteral(_) => 15,
        Token::Plus => 16,
        Token::Minus => 17,
        Token::Star => 18,
        Token::Slash => 19,
        Token::Percent => 20,
        Token::Eq => 21,
        Token::EqEq => 22,
        Token::NotEq => 23,
        Token::Lt => 24,
        Token::LtEq => 25,
        Token::Gt => 26,
        Token::GtEq => 27,
        Token::LParen => 28,
        Token::RParen => 29,
        Token::LBracket => 30,
        Token::RBracket => 31,
        Token::LBrace => 32,
        Token::RBrace => 33,
        Token::Colon => 34,
        Token::Semi => 35,
        Token::Comma => 36,
    }
}

impl Token {
    /// How the token reads in a diagnostic message.
    pub fn describe(&self) -> String {
        match self {
            Token::Newline => String::from_str("end of line"),
            Token::EOF => String::from_str("end of input"),
            Token::Ident(s) => {
                let mut m = String::from_str("identifier '");
                m.append(s.as_str());
                m.append("'");
                m
            },
            Token::Kwvar => String::from_str("keyword 'var'"),
            Token::KwFunc => String::from_str("keyword 'func'"),
            Token::KwReturn => String::from_str("keyword 'return'"),
            Token::KwIf => String::from_str("keyword 'if'"),
            Token::KwElseIf => String::from_str("keyword 'elif'"),
            Token::KwElse => String::from_str("keyword 'else'"),
            Token::KwFor => String::from_str("keyword 'for'"),
            Token::KwIn => String::from_str("keyword 'in'"),
            Token::KwTrue => String::from_str("keyword 'true'"),
            Token::KwFalse => String::from_str("keyword 'false'"),
            Token::KwWhile => String::from_str("keyword 'while'"),
            Token::IntLiteral(n) => {
                let mut m = String::from_str("integer literal ");
                m.append(crate::render::int_to_string(*n).as_str());
                m
            },
            Token::StrLiteral(s) => {
                let mut m = String::from_str("string literal \"");
                m.append(s.as_str());
                m.append("\"");
                m
            },
            Token::Plus => String::from_str("'+'"),
            Token::Minus => String::from_str("'-'"),
            Token::Star => String::from_str("'*'"),
            Token::Slash => String::from_str("'/'"),
            Token::Percent => String::from_str("'%'"),
            Token::Eq => String::from_str("'='"),
            Token::EqEq => String::from_str("'=='"),
            Token::NotEq => String::from_str("'!='"),
            Token::Lt => String::from_str("'<'"),
            Token::LtEq => String::from_str("'<='"),
            Token::Gt => String::from_str("'>'"),
            Token::GtEq => String::from_str("'>='"),
            Token::LParen => String::from_str("'('"),
            Token::RParen => String::from_str("')'"),
            Token::LBracket => String::from_str("'['"),
            Token::RBracket => String::from_str("']'"),
            Token::LBrace => String::from_str("'{'"),
            Token::RBrace => String::from_str("'}'"),
            Token::Colon => String::from_str("':'"),
            Token::Semi => String::from_str("';'"),
            Token::Comma => String::from_str("','"),
        }
    }

    /// Whether two tokens are the same lexical unit with the same content.
    pub fn same_as(&self, other: &Token) -> (r: bool)
        ensures
            r == (self@ == other@),
    {
        let ta = token_tag(self);
        let tb = token_tag(other);
        if ta != tb {
            return false;
        }
        match (self, other) {
            (Token::Ident(a), Token::Ident(b)) => *a == *b,
            (Token::IntLiteral(a), Token::IntLiteral(b)) => *a == *b,
            (Token::StrLiteral(a), Token::StrLiteral(b)) => *a == *b,
            _ => true,
        }
    }
}

} // verus!
