//! The scanner. `next_token` returns the next token and advances the position
//! by exactly the characters consumed; past the end of the input it returns
//! the end-of-input token again on every call.
//!
//! What it returns is fixed, character for character, by `scan_token_s`: the
//! executable scanner is proved to compute exactly that function of the input
//! and the current position.

use vstd::prelude::*;
use vstd::string::{StrSliceExecFns, StringExecFns};
use crate::error::{Error, ErrorKind};
use crate::token::{Token, TokenS};

verus! {

/// Space or tab: skipped silently between tokens (newline is not).
pub open spec fn is_space_char(c: char) -> bool {
    c == ' ' || c == '\t'
}

/// An ASCII decimal digit.
pub open spec fn is_digit_char(c: char) -> bool {
    48 <= c as u32 && c as u32 <= 57
}

/// A character that may start an identifier: an ASCII letter or `_`.
pub open spec fn is_ident_start_char(c: char) -> bool {
    (97 <= c as u32 && c as u32 <= 122) || (65 <= c as u32 && c as u32 <= 90) || c == '_'
}

/// A character that may continue an identifier: a letter, digit or `_`.
pub open spec fn is_ident_char(c: char) -> bool {
    is_ident_start_char(c) || is_digit_char(c)
}

/// The numeric value of a digit character.
pub open spec fn digit_val(c: char) -> int {
    c as u32 - 48
}

/// The first position at or after `pos` that does not hold a space or tab.
pub open spec fn skip_spaces_s(input: Seq<char>, pos: int) -> int
    decreases input.len() - pos,
{
    if 0 <= pos && pos < input.len() && is_space_char(input[pos]) {
        skip_spaces_s(input, pos + 1)
    } else {
        pos
    }
}

/// The end of the maximal digit run starting at `pos`.
pub open spec fn digits_end_s(input: Seq<char>, pos: int) -> int
    decreases input.len() - pos,
{
    if 0 <= pos && pos < input.len() && is_digit_char(input[pos]) {
        digits_end_s(input, pos + 1)
    } else {
        pos
    }
}

/// The end of the maximal identifier run starting at `pos`.
pub open spec fn ident_end_s(input: Seq<char>, pos: int) -> int
    decreases input.len() - pos,
{
    if 0 <= pos && pos < input.len() && is_ident_char(input[pos]) {
        ident_end_s(input, pos + 1)
    } else {
        pos
    }
}

/// The first position at or after `pos` holding a closing quote or a raw
/// newline (or the end of the input).
pub open spec fn str_end_s(input: Seq<char>, pos: int) -> int
    decreases input.len() - pos,
{
    if 0 <= pos && pos < input.len() && input[pos] != '"' && input[pos] != '\n' {
        str_end_s(input, pos + 1)
    } else {
        pos
    }
}

/// The value of a run of digit characters, most significant first.
pub open spec fn digits_val_s(s: Seq<char>) -> int
    decreases s,
{
    if s.len() == 0 {
        0
    } else {
        digits_val_s(s.drop_last()) * 10 + digit_val(s.last())
    }
}

/// The token an identifier run classifies as: one of the fixed keywords, or
/// a generic identifier.
pub open spec fn ident_token_s(text: Seq<char>) -> TokenS {
    if text == "var"@ {
        TokenS::Kwvar
    } else if text == "func"@ {
        TokenS::KwFunc
    } else if text == "return"@ {
        TokenS::KwReturn
    } else if text == "if"@ {
        TokenS::KwIf
    } else if text == "elif"@ {
        TokenS::KwElseIf
    } else if text == "else"@ {
        TokenS::KwElse
    } else if text == "while"@ {
        TokenS::KwWhile
    } else if text == "for"@ {
        TokenS::KwFor
    } else if text == "in"@ {
        TokenS::KwIn
    } else if text == "true"@ {
        TokenS::KwTrue
    } else if text == "false"@ {
        TokenS::KwFalse
    } else {
        TokenS::Ident(text)
    }
}

/// Scanning a number whose first digit stands at `p` (`p` must hold a
/// digit): the maximal digit run, as a 64-bit integer; a run too large for
/// 64 bits is a lexical error.
pub open spec fn scan_number_s(input: Seq<char>, p: int) -> Option<(TokenS, int)> {
    let e = digits_end_s(input, p);
    let v = digits_val_s(input.subrange(p, e));
    if v <= i64::MAX {
        Some((TokenS::IntLiteral(v as i64), e))
    } else {
        None
    }
}

/// Scanning an identifier or keyword whose first character stands at `p`.
pub open spec fn scan_ident_s(input: Seq<char>, p: int) -> Option<(TokenS, int)> {
    let e = ident_end_s(input, p);
    Some((ident_token_s(input.subrange(p, e)), e))
}

/// Scanning a string literal whose opening quote stood at `q - 1`: the text
/// runs to the next quote; a raw newline first is a lexical error; the end
/// of the input closes the literal.
pub open spec fn scan_string_s(input: Seq<char>, q: int) -> Option<(TokenS, int)> {
    let e = str_end_s(input, q);
    if e < input.len() && input[e] == '\n' {
        None
    } else if e < input.len() {
        Some((TokenS::StrLiteral(input.subrange(q, e)), e + 1))
    } else {
        Some((TokenS::StrLiteral(input.subrange(q, e)), e))
    }
}

/// The next token of `input` when scanning starts at `pos`, together with
/// the position just past it; `None` is a fatal lexical error. Spaces and
/// tabs are skipped first; at or past the end of the input the token is
/// end-of-input and the position does not move.
pub open spec fn scan_token_s(input: Seq<char>, pos: int) -> Option<(TokenS, int)> {
    let p = skip_spaces_s(input, pos);
    if !(0 <= p && p < input.len()) {
        Some((TokenS::EOF, p))
    } else {
        let c = input[p];
        if c == '\n' {
            Some((TokenS::Newline, p + 1))
        } else if is_digit_char(c) {
            scan_number_s(input, p)
        } else if is_ident_start_char(c) {
            scan_ident_s(input, p)
        } else if c == '"' {
            scan_string_s(input, p + 1)
        } else if c == '+' {
            Some((TokenS::Plus, p + 1))
        } else if c == '-' {
            Some((TokenS::Minus, p + 1))
        } else if c == '*' {
            Some((TokenS::Star, p + 1))
        } else if c == '/' {
            Some((TokenS::Slash, p + 1))
        } else if c == '%' {
            Some((TokenS::Percent, p + 1))
        } else if c == '{' {
            Some((TokenS::LBrace, p + 1))
        } else if c == '}' {
            Some((TokenS::RBrace, p + 1))
        } else if c == '(' {
            Some((TokenS::LParen, p + 1))
        } else if c == ')' {
            Some((TokenS::RParen, p + 1))
        } else if c == '[' {
            Some((TokenS::LBracket, p + 1))
        } else if c == ']' {
            Some((TokenS::RBracket, p + 1))
        } else if c == ':' {
            Some((TokenS::Colon, p + 1))
        } else if c == ';' {
            Some((TokenS::Semi, p + 1))
        } else if c == ',' {
            Some((TokenS::Comma, p + 1))
        } else if c == '=' {
            if p + 1 < input.len() && input[p + 1] == '=' {
                Some((TokenS::EqEq, p + 2))
            } else {
                Some((TokenS::Eq, p + 1))
            }
        } else if c == '!' {
            if p + 1 < input.len() && input[p + 1] == '=' {
                Some((TokenS::NotEq, p + 2))
            } else {
                None
            }
        } else if c == '<' {
            if p + 1 < input.len() && input[p + 1] == '=' {
                Some((TokenS::LtEq, p + 2))
            } else {
                Some((TokenS::Lt, p + 1))
            }
        } else if c == '>' {
            if p + 1 < input.len() && input[p + 1] == '=' {
                Some((TokenS::GtEq, p + 2))
            } else {
                Some((TokenS::Gt, p + 1))
            }
        } else {
            None
        }
    }
}

/// Skipping spaces never moves backwards.
pub proof fn lemma_skip_spaces_ge(input: Seq<char>, pos: int)
    ensures
        skip_spaces_s(input, pos) >= pos,
    decreases input.len() - pos,
{
    if 0 <= pos && pos < input.len() && is_space_char(input[pos]) {
        lemma_skip_spaces_ge(input, pos + 1);
    }
}

/// A digit run's end never lies before its start.
pub proof fn lemma_digits_end_ge(input: Seq<char>, pos: int)
    ensures
        digits_end_s(input, pos) >= pos,
    decreases input.len() - pos,
{
    if 0 <= pos && pos < input.len() && is_digit_char(input[pos]) {
        lemma_digits_end_ge(input, pos + 1);
    }
}

/// An identifier run's end never lies before its start.
pub proof fn lemma_ident_end_ge(input: Seq<char>, pos: int)
    ensures
        ident_end_s(input, pos) >= pos,
    decreases input.len() - pos,
{
    if 0 <= pos && pos < input.len() && is_ident_char(input[pos]) {
        lemma_ident_end_ge(input, pos + 1);
    }
}

/// A string literal's end never lies before its start.
pub proof fn lemma_str_end_ge(input: Seq<char>, pos: int)
    ensures
        str_end_s(input, pos) >= pos,
    decreases input.len() - pos,
{
    if 0 <= pos && pos < input.len() && input[pos] != '"' && input[pos] != '\n' {
        lemma_str_end_ge(input, pos + 1);
    }
}

/// Scanning makes progress: the position never moves backwards, and every
/// token but end-of-input consumes at least one character. The position
/// advances by exactly the characters the token (and the spaces before it)
/// covered, since `scan_token_s` names the new position outright.
pub proof fn lemma_scan_progress(input: Seq<char>, pos: int)
    requires
        0 <= pos,
    ensures
        match scan_token_s(input, pos) {
            Some(tp) => tp.1 >= pos && (!(tp.0 is EOF) ==> tp.1 > pos),
            None => true,
        },
{
    lemma_skip_spaces_ge(input, pos);
    let p = skip_spaces_s(input, pos);
    if 0 <= p && p < input.len() {
        let c = input[p];
        if is_digit_char(c) {
            lemma_digits_end_ge(input, p + 1);
        } else if is_ident_start_char(c) {
            lemma_ident_end_ge(input, p + 1);
        } else if c == '"' {
            lemma_str_end_ge(input, p + 1);
        }
    }
}

/// Scanning is idempotent at end-of-input: from any position at or past the
/// last character, every call returns the end-of-input token and stays put.
pub proof fn lemma_scan_eof_idempotent(input: Seq<char>, pos: int)
    requires
        pos >= input.len(),
    ensures
        scan_token_s(input, pos) == Some((TokenS::EOF, pos)),
{
}

/// The scanner's state: the whole program text, and the index of the next
/// character to read.
pub struct LexerS {
    /// The program text as a character sequence.
    pub input: Seq<char>,
    /// The next character to read.
    pub pos: int,
}

/// The scanner. It walks the program text one character at a time and hands
/// out tokens on demand.
pub struct Lexer {
    text: String,
    pos: usize,
}

impl View for Lexer {
    type V = LexerS;

    closed spec fn view(&self) -> LexerS {
        LexerS { input: self.text@, pos: self.pos as int }
    }
}

impl Clone for Lexer {
    /// A copy scans the same text from the same position. The parser peeks
    /// one token ahead by scanning on a copy.
    fn clone(&self) -> (r: Lexer)
        ensures
            r@ == self@,
    {
        Lexer { text: self.text.clone(), pos: self.pos }
    }
}

/// Executable test for `is_space_char`.
fn is_space(c: char) -> (b: bool)
    ensures
        b == is_space_char(c),
{
    c == ' ' || c == '\t'
}

/// Executable test for `is_digit_char`.
fn is_digit(c: char) -> (b: bool)
    ensures
        b == is_digit_char(c),
{
    let u = c as u32;
    48 <= u && u <= 57
}

/// Executable test for `is_ident_start_char`.
fn is_ident_start(c: char) -> (b: bool)
    ensures
        b == is_ident_start_char(c),
{
    let u = c as u32;
    (97 <= u && u <= 122) || (65 <= u && u <= 90) || c == '_'
}

/// Executable test for `is_ident_char`.
fn is_ident_c(c: char) -> (b: bool)
    ensures
        b == is_ident_char(c),
{
    let u = c as u32;
    (97 <= u && u <= 122) || (65 <= u && u <= 90) || c == '_' || (48 <= u && u <= 57)
}

/// Whether a character may stand inside a string literal's body.
fn is_str_body(c: char) -> (b: bool)
    ensures
        b == (c != '"' && c != '\n'),
{
    c != '"' && c != '\n'
}

/// Whether two string slices hold the same characters.
pub(crate) fn str_eq(a: &str, b: &str) -> (r: bool)
    ensures
        r == (a@ == b@),
{
    let la = a.unicode_len();
    let lb = b.unicode_len();
    if la != lb {
        proof {
            assert(a@.len() != b@.len());
        }
        return false;
    }
    let mut i: usize = 0;
    while i < la
        invariant
            la == a@.len(),
            la == b@.len(),
            i <= la,
            forall|k: int| 0 <= k < i ==> a@[k] == b@[k],
        decreases la - i,
    {
        if a.get_char(i) != b.get_char(i) {
            return false;
        }
        i = i + 1;
    }
    proof {
        assert(a@ =~= b@);
    }
    true
}

impl Lexer {
    /// A scanner over `src`, positioned at its first character.
    pub fn new(src: &str) -> (r: Lexer)
        ensures
            r@.input == src@,
            r@.pos == 0,
    {
        Lexer { text: String::from_str(src), pos: 0 }
    }

    /// The current character, if any; the position does not move.
    fn peek(&self) -> (r: Option<char>)
        ensures
            r == if self@.pos < self@.input.len() {
                Some(self@.input[self@.pos])
            } else {
                Option::<char>::None
            },
    {
        let len = self.text.as_str().unicode_len();
        if self.pos < len {
            Some(self.text.as_str().get_char(self.pos))
        } else {
            None
        }
    }

    /// The current character, moving the position one past it; `None` at or
    /// past the end of the input, where the position stays.
    fn advance(&mut self) -> (r: Option<char>)
        ensures
            final(self)@.input == old(self)@.input,
            if old(self)@.pos < old(self)@.input.len() {
                r == Some(old(self)@.input[old(self)@.pos]) && final(self)@.pos == old(self)@.pos
                    + 1
            } else {
                r is None && final(self)@.pos == old(self)@.pos
            },
    {
        let len = self.text.as_str().unicode_len();
        if self.pos < len {
            let c = self.text.as_str().get_char(self.pos);
            self.pos = self.pos + 1;
            Some(c)
        } else {
            None
        }
    }

    /// Whether the current character is `=` (for the two-character
    /// operators).
    fn follows_equals(&self) -> (r: bool)
        ensures
            r == (self@.pos < self@.input.len() && self@.input[self@.pos] == '='),
    {
        match self.peek() {
            Some(c) => c == '=',
            None => false,
        }
    }

    /// Skips spaces and tabs (but not newlines).
    #[verifier::loop_isolation(false)]
    fn skip_spaces(&mut self)
        ensures
            final(self)@.input == old(self)@.input,
            final(self)@.pos == skip_spaces_s(old(self)@.input, old(self)@.pos),
    {
        let len = self.text.as_str().unicode_len();
        while self.pos < len && is_space(self.text.as_str().get_char(self.pos))
            invariant
                self@.input == old(self)@.input,
                skip_spaces_s(self@.input, old(self)@.pos) == skip_spaces_s(
                    self@.input,
                    self@.pos,
                ),
                self@.pos >= old(self)@.pos,
            decreases len - self.pos,
        {
            self.pos = self.pos + 1;
        }
    }

    /// Reads the next token and advances past it. Once the input is
    /// exhausted it returns the end-of-input token on every call. The
    /// result, and exactly how far the position moves, is `scan_token_s`
    /// of the state before the call; a `None` there is returned as a fatal
    /// lexical error.
    pub fn next_token(&mut self) -> (r: Result<Token, Error>)
        ensures
            final(self)@.input == old(self)@.input,
            match scan_token_s(old(self)@.input, old(self)@.pos) {
                Some(tp) => r matches Ok(t) && t@ == tp.0 && final(self)@.pos == tp.1,
                None => r matches Err(e) && e.kind == ErrorKind::Lexical,
            },
    {
        self.skip_spaces();
        let c = match self.peek() {
            Some(c) => c,
            None => {
                return Ok(Token::EOF);
            },
        };
        if c == '\n' {
            let _ = self.advance();
            return Ok(Token::Newline);
        }
        if is_digit(c) {
            return self.lex_number();
        }
        if is_ident_start(c) {
            return self.lex_ident_or_keyword();
        }
        if c == '"' {
            let _ = self.advance();
            return self.lex_string();
        }
        if c == '+' {
            let _ = self.advance();
            return Ok(Token::Plus);
        }
        if c == '-' {
            let _ = self.advance();
            return Ok(Token::Minus);
        }
        if c == '*' {
            let _ = self.advance();
            return Ok(Token::Star);
        }
        if c == '/' {
            let _ = self.advance();
            return Ok(Token::Slash);
        }
        if c == '%' {
            let _ = self.advance();
            return Ok(Token::Percent);
        }
        if c == '{' {
            let _ = self.advance();
            return Ok(Token::LBrace);
        }
        if c == '}' {
            let _ = self.advance();
            return Ok(Token::RBrace);
        }
        if c == '(' {
            let _ = self.advance();
            return Ok(Token::LParen);
        }
        if c == ')' {
            let _ = self.advance();
            return Ok(Token::RParen);
        }
        if c == '[' {
            let _ = self.advance();
            return Ok(Token::LBracket);
        }
        if c == ']' {
            let _ = self.advance();
            return Ok(Token::RBracket);
        }
        if c == ':' {
            let _ = self.advance();
            return Ok(Token::Colon);
        }
        if c == ';' {
            let _ = self.advance();
            return Ok(Token::Semi);
        }
        if c == ',' {
            let _ = self.advance();
            return Ok(Token::Comma);
        }
        if c == '=' {
            let _ = self.advance();
            if self.follows_equals() {
                let _ = self.advance();
                return Ok(Token::EqEq);
            }
            return Ok(Token::Eq);
        }
        if c == '!' {
            let _ = self.advance();
            if self.follows_equals() {
                let _ = self.advance();
                return Ok(Token::NotEq);
            }
            return Err(Error::new(ErrorKind::Lexical, "a '!' must be followed by '='"));
        }
        if c == '<' {
            let _ = self.advance();
            if self.follows_equals() {
                let _ = self.advance();
                return Ok(Token::LtEq);
            }
            return Ok(Token::Lt);
        }
        if c == '>' {
            let _ = self.advance();
            if self.follows_equals() {
                let _ = self.advance();
                return Ok(Token::GtEq);
            }
            return Ok(Token::Gt);
        }
        let len = self.text.as_str().unicode_len();
        let mut m = String::from_str("unexpected character '");
        m.append(self.text.as_str().substring_char(self.pos, self.pos + 1));
        m.append("'");
        Err(Error { kind: ErrorKind::Lexical, msg: m })
    }

    /// Reads a maximal digit run as a 64-bit integer; a run whose value does
    /// not fit is a fatal lexical error.
    #[verifier::loop_isolation(false)]
    fn lex_number(&mut self) -> (r: Result<Token, Error>)
        requires
            0 <= old(self)@.pos < old(self)@.input.len(),
            is_digit_char(old(self)@.input[old(self)@.pos]),
        ensures
            final(self)@.input == old(self)@.input,
            match scan_number_s(old(self)@.input, old(self)@.pos) {
                Some(tp) => r matches Ok(t) && t@ == tp.0 && final(self)@.pos == tp.1,
                None => r matches Err(e) && e.kind == ErrorKind::Lexical,
            },
    {
        let ghost input = self@.input;
        let start = self.pos;
        let len = self.text.as_str().unicode_len();
        // First find the end of the digit run.
        while self.pos < len && is_digit(self.text.as_str().get_char(self.pos))
            invariant
                self@.input == input,
                start <= self@.pos <= len,
                digits_end_s(input, start as int) == digits_end_s(input, self@.pos),
                forall|k: int| start <= k < self@.pos ==> is_digit_char(input[k]),
            decreases len - self.pos,
        {
            self.pos = self.pos + 1;
        }
        let end = self.pos;
        proof {
            assert(digits_end_s(input, end as int) == end as int);
        }
        let ghost run = input.subrange(start as int, end as int);
        proof {
            assert(forall|k: int| 0 <= k < run.len() ==> is_digit_char(#[trigger] run[k]));
        }
        // Then accumulate its value, watching for overflow.
        let mut val: i64 = 0;
        let mut i: usize = start;
        while i < end
            invariant
                self@.input == input,
                start <= i <= end,
                0 <= val,
                val == digits_val_s(run.take(i - start)),
            decreases end - i,
        {
            let c = self.text.as_str().get_char(i);
            let d = (c as u32) - 48;
            proof {
                let t1 = run.take(i + 1 - start);
                assert(t1.drop_last() =~= run.take(i - start));
                assert(t1.last() == input[i as int]);
                assert(run[i - start] == input[i as int]);
                assert(digits_val_s(t1) == val * 10 + digit_val(input[i as int]));
                assert(digit_val(input[i as int]) == d as int);
            }
            let step = match val.checked_mul(10) {
                Some(v) => v.checked_add(d as i64),
                None => None,
            };
            val = match step {
                Some(v) => v,
                None => {
                    proof {
                        assert(digits_val_s(run.take(i + 1 - start)) > i64::MAX);
                        lemma_digits_val_mono(run, i + 1 - start, run.len() as int);
                        assert(run.take(run.len() as int) =~= run);
                        assert(digits_val_s(run) > i64::MAX);
                    }
                    return Err(
                        Error::with_subject(
                            ErrorKind::Lexical,
                            "integer literal is too large",
                            self.text.as_str().substring_char(start, end),
                        ),
                    );
                },
            };
            i = i + 1;
        }
        proof {
            assert(run.take(run.len() as int) =~= run);
        }
        Ok(Token::IntLiteral(val))
    }

    /// Reads a maximal identifier run and classifies it against the keyword
    /// table.
    #[verifier::loop_isolation(false)]
    fn lex_ident_or_keyword(&mut self) -> (r: Result<Token, Error>)
        requires
            0 <= old(self)@.pos < old(self)@.input.len(),
            is_ident_start_char(old(self)@.input[old(self)@.pos]),
        ensures
            final(self)@.input == old(self)@.input,
            match scan_ident_s(old(self)@.input, old(self)@.pos) {
                Some(tp) => r matches Ok(t) && t@ == tp.0 && final(self)@.pos == tp.1,
                None => false,
            },
    {
        let ghost input = self@.input;
        let start = self.pos;
        let len = self.text.as_str().unicode_len();
        while self.pos < len && is_ident_c(self.text.as_str().get_char(self.pos))
            invariant
                self@.input == input,
                start <= self@.pos <= len,
                ident_end_s(input, start as int) == ident_end_s(input, self@.pos),
            decreases len - self.pos,
        {
            self.pos = self.pos + 1;
        }
        let end = self.pos;
        proof {
            assert(ident_end_s(input, end as int) == end as int);
        }
        let text = self.text.as_str().substring_char(start, end);
        let tok = if str_eq(text, "var") {
            Token::Kwvar
        } else if str_eq(text, "func") {
            Token::KwFunc
        } else if str_eq(text, "return") {
            Token::KwReturn
        } else if str_eq(text, "if") {
            Token::KwIf
        } else if str_eq(text, "elif") {
            Token::KwElseIf
        } else if str_eq(text, "else") {
            Token::KwElse
        } else if str_eq(text, "while") {
            Token::KwWhile
        } else if str_eq(text, "for") {
            Token::KwFor
        } else if str_eq(text, "in") {
            Token::KwIn
        } else if str_eq(text, "true") {
            Token::KwTrue
        } else if str_eq(text, "false") {
            Token::KwFalse
        } else {
            Token::Ident(String::from_str(text))
        };
        Ok(tok)
    }

    /// Reads the rest of a string literal, the opening quote already
    /// consumed: to the next quote, or to the end of the input; a raw
    /// newline first is a fatal lexical error.
    #[verifier::loop_isolation(false)]
    fn lex_string(&mut self) -> (r: Result<Token, Error>)
        requires
            0 <= old(self)@.pos <= old(self)@.input.len(),
        ensures
            final(self)@.input == old(self)@.input,
            match scan_string_s(old(self)@.input, old(self)@.pos) {
                Some(tp) => r matches Ok(t) && t@ == tp.0 && final(self)@.pos == tp.1,
                None => r matches Err(e) && e.kind == ErrorKind::Lexical,
            },
    {
        let ghost input = self@.input;
        let start = self.pos;
        let len = self.text.as_str().unicode_len();
        while self.pos < len && is_str_body(self.text.as_str().get_char(self.pos))
            invariant
                self@.input == input,
                start <= self@.pos <= len,
                str_end_s(input, start as int) == str_end_s(input, self@.pos),
            decreases len - self.pos,
        {
            self.pos = self.pos + 1;
        }
        let end = self.pos;
        proof {
            assert(str_end_s(input, end as int) == end as int);
        }
        if end < len && self.text.as_str().get_char(end) == '\n' {
            return Err(Error::new(ErrorKind::Lexical, "string literal not closed before newline"));
        }
        let text = String::from_str(self.text.as_str().substring_char(start, end));
        if end < len {
            // Step past the closing quote.
            self.pos = self.pos + 1;
        }
        Ok(Token::StrLiteral(text))
    }
}

/// The value of a digit run is never negative.
pub proof fn lemma_digits_val_bounds(s: Seq<char>)
    requires
        forall|k: int| 0 <= k < s.len() ==> is_digit_char(s[k]),
    ensures
        digits_val_s(s) >= 0,
    decreases s,
{
    if s.len() > 0 {
        assert(forall|k: int| 0 <= k < s.drop_last().len() ==> s.drop_last()[k] == s[k]);
        lemma_digits_val_bounds(s.drop_last());
    }
}

/// Appending digits never makes the value smaller: the value of a prefix is
/// a lower bound for the value of any longer prefix.
pub proof fn lemma_digits_val_mono(s: Seq<char>, i: int, j: int)
    requires
        forall|k: int| 0 <= k < s.len() ==> is_digit_char(s[k]),
        0 <= i <= j <= s.len(),
    ensures
        digits_val_s(s.take(i)) <= digits_val_s(s.take(j)),
    decreases j - i,
{
    if i < j {
        lemma_digits_val_mono(s, i, j - 1);
        let t = s.take(j);
        assert(t.drop_last() =~= s.take(j - 1));
        assert(forall|k: int| 0 <= k < s.take(j - 1).len() ==> s.take(j - 1)[k] == s[k]);
        lemma_digits_val_bounds(s.take(j - 1));
        assert(digits_val_s(s.take(j)) == digits_val_s(s.take(j - 1)) * 10 + digit_val(t.last()));
        assert(is_digit_char(s[j - 1]));
        assert(digit_val(t.last()) >= 0);
        assert(digits_val_s(s.take(j - 1)) * 10 >= digits_val_s(s.take(j - 1)));
    }
}

} // verus!
