//! Lexer for the surface syntax.
//!
//! Turns source text into tokens, skipping whitespace, line comments
//! and block comments.  Keywords win over identifiers, two-character
//! operators over their one-character prefixes, and a character that
//! starts no token is reported as a lexing error of one character.
use vstd::prelude::*;

use crate::text::str_eq;

verus! {

/// Tokens of the surface syntax.
#[derive(Debug, Clone, PartialEq)]
pub enum Token {
    // Keywords
    Type,
    Rel,
    // Literals
    Int(i64),
    String(String),
    // Identifiers
    LowerId(String),
    UpperId(String),
    // Operators
    ColonDash,
    QuestionDash,
    Eq,
    EqEq,
    Ne,
    Lt,
    Le,
    Gt,
    Ge,
    Plus,
    Minus,
    Star,
    Slash,
    Percent,
    Times,
    // Delimiters
    LParen,
    RParen,
    LBracket,
    RBracket,
    LBrace,
    RBrace,
    Comma,
    Dot,
    Colon,
    Pipe,
}

/// A piece of input that forms no token.
#[derive(Debug, Clone, Copy, PartialEq, Eq, Structural)]
pub struct LexError;

/// Cursor over the characters of one source text.
#[derive(Debug)]
pub struct Lexer {
    src: String,
    len: usize,
    pos: usize,
}

impl Token {
    /// A lexer positioned at the start of `source`.
    pub fn lexer(source: &str) -> (r: Lexer)
        ensures
            r.wf(),
            r.spec_pos() == 0,
    {
        let len = source.unicode_len();
        Lexer { src: source.to_owned(), len, pos: 0 }
    }
}

impl Lexer {
    /// The cursor stays within the source.
    pub closed spec fn wf(&self) -> bool {
        self.len == self.src@.len() && self.pos <= self.len
    }

    /// The cursor position, in characters.
    pub closed spec fn spec_pos(&self) -> int {
        self.pos as int
    }

    /// Characters not yet consumed.
    pub closed spec fn spec_remaining(&self) -> int {
        self.len - self.pos
    }

    /// The character at an offset, by position.
    fn at(&self, i: usize) -> (c: char)
        requires
            self.wf(),
            i < self.len,
        ensures
            c == self.src@[i as int],
    {
        self.src.as_str().get_char(i)
    }

    /// Is this character skipped between tokens?
    fn is_space(c: char) -> (r: bool)
        ensures
            r == (c == ' ' || c == '\t' || c == '\n' || c == '\u{c}'),
    {
        c == ' ' || c == '\t' || c == '\n' || c == '\u{c}'
    }

    fn is_digit(c: char) -> (r: bool)
        ensures
            r == ('0' <= c && c <= '9'),
    {
        c >= '0' && c <= '9'
    }

    fn is_lower(c: char) -> (r: bool)
        ensures
            r == ('a' <= c && c <= 'z'),
    {
        c >= 'a' && c <= 'z'
    }

    fn is_upper(c: char) -> (r: bool)
        ensures
            r == ('A' <= c && c <= 'Z'),
    {
        c >= 'A' && c <= 'Z'
    }

    fn is_ident_char(c: char) -> (r: bool)
        ensures
            r == (('a' <= c && c <= 'z') || ('A' <= c && c <= 'Z') || ('0' <= c && c <= '9') || c
                == '_'),
    {
        (c >= 'a' && c <= 'z') || (c >= 'A' && c <= 'Z') || (c >= '0' && c <= '9') || c == '_'
    }

    /// Skip whitespace, `//` line comments and `/* */` block comments.
    /// Stops at the first character of the next token candidate; a
    /// `/` that starts no comment is left in place.
    #[verifier::loop_isolation(false)]
    fn skip_trivia(&mut self)
        requires
            old(self).wf(),
        ensures
            final(self).wf(),
            final(self).pos >= old(self).pos,
            final(self).src == old(self).src,
            final(self).len == old(self).len,
    {
        loop
            invariant
                self.wf(),
                self.pos >= old(self).pos,
                self.src == old(self).src,
                self.len == old(self).len,
            decreases self.len - self.pos,
        {
            if self.pos >= self.len {
                return;
            }
            let ghost p0 = self.pos as int;
            let c = self.at(self.pos);
            if Self::is_space(c) {
                self.pos = self.pos + 1;
            } else if c == '/' && self.pos + 1 < self.len && self.at(self.pos + 1) == '/' {
                // line comment: up to, not including, the newline
                self.pos = self.pos + 2;
                while self.pos < self.len && self.at(self.pos) != '\n'
                    invariant
                        self.wf(),
                        self.src == old(self).src,
                        self.len == old(self).len,
                        self.pos > p0,
                    decreases self.len - self.pos,
                {
                    self.pos = self.pos + 1;
                }
            } else if c == '/' && self.pos + 1 < self.len && self.at(self.pos + 1) == '*' {
                // block comment: up to and including the first `*/`
                let mut i = self.pos + 2;
                let mut closed = false;
                while i < self.len && !closed
                    invariant
                        self.wf(),
                        self.src == old(self).src,
                        self.len == old(self).len,
                        self.pos + 2 <= i <= self.len,
                    decreases self.len - i,
                {
                    if self.at(i) == '*' && i + 1 < self.len && self.at(i + 1) == '/' {
                        i = i + 2;
                        closed = true;
                    } else {
                        i = i + 1;
                    }
                }
                if closed {
                    self.pos = i;
                } else {
                    // unterminated: leave the `/` for `next` to report
                    return;
                }
            } else {
                return;
            }
        }
    }

    /// The next token, or `None` at the end of the input.  A character
    /// that starts no token yields one error and is skipped.
    pub fn next(&mut self) -> (r: Option<Result<Token, LexError>>)
        requires
            old(self).wf(),
        ensures
            final(self).wf(),
            r is Some ==> final(self).spec_pos() > old(self).spec_pos(),
            final(self).spec_pos() >= old(self).spec_pos(),
            final(self).spec_remaining() <= old(self).spec_remaining(),
            r is Some ==> final(self).spec_remaining() < old(self).spec_remaining(),
    {
        self.skip_trivia();
        if self.pos >= self.len {
            return None;
        }
        let start = self.pos;
        let c = self.at(start);
        if Self::is_digit(c) {
            return Some(self.lex_number());
        }
        if Self::is_lower(c) || Self::is_upper(c) {
            return Some(self.lex_ident());
        }
        if c == '"' {
            return Some(self.lex_string());
        }
        // operators and delimiters
        let two = if start + 1 < self.len {
            Some(self.at(start + 1))
        } else {
            None
        };
        let (tok, width): (Option<Token>, usize) = match c {
            ':' => {
                if two == Some('-') {
                    (Some(Token::ColonDash), 2)
                } else {
                    (Some(Token::Colon), 1)
                }
            },
            '?' => {
                if two == Some('-') {
                    (Some(Token::QuestionDash), 2)
                } else {
                    (None, 1)
                }
            },
            '=' => {
                if two == Some('=') {
                    (Some(Token::EqEq), 2)
                } else {
                    (Some(Token::Eq), 1)
                }
            },
            '!' => {
                if two == Some('=') {
                    (Some(Token::Ne), 2)
                } else {
                    (None, 1)
                }
            },
            '<' => {
                if two == Some('=') {
                    (Some(Token::Le), 2)
                } else {
                    (Some(Token::Lt), 1)
                }
            },
            '>' => {
                if two == Some('=') {
                    (Some(Token::Ge), 2)
                } else {
                    (Some(Token::Gt), 1)
                }
            },
            '+' => (Some(Token::Plus), 1),
            '-' => (Some(Token::Minus), 1),
            '*' => (Some(Token::Star), 1),
            '/' => (Some(Token::Slash), 1),
            '%' => (Some(Token::Percent), 1),
            '\u{d7}' => (Some(Token::Times), 1),
            '(' => (Some(Token::LParen), 1),
            ')' => (Some(Token::RParen), 1),
            '[' => (Some(Token::LBracket), 1),
            ']' => (Some(Token::RBracket), 1),
            '{' => (Some(Token::LBrace), 1),
            '}' => (Some(Token::RBrace), 1),
            ',' => (Some(Token::Comma), 1),
            '.' => (Some(Token::Dot), 1),
            '|' => (Some(Token::Pipe), 1),
            _ => (None, 1),
        };
        self.pos = start + width;
        match tok {
            Some(t) => Some(Ok(t)),
            None => Some(Err(LexError)),
        }
    }

    /// A run of decimal digits; overflow of `i64` is a lexing error.
    #[verifier::loop_isolation(false)]
    fn lex_number(&mut self) -> (r: Result<Token, LexError>)
        requires
            old(self).wf(),
            old(self).pos < old(self).len,
        ensures
            final(self).wf(),
            final(self).len == old(self).len,
            final(self).pos > old(self).pos,
    {
        let mut val: Option<i64> = Some(0);
        let mut moved = false;
        loop
            invariant
                self.wf(),
                self.src == old(self).src,
                self.len == old(self).len,
                old(self).pos <= self.pos,
                moved ==> self.pos > old(self).pos,
                !moved ==> self.pos == old(self).pos,
            decreases self.len - self.pos,
        {
            if self.pos >= self.len {
                break;
            }
            let c = self.at(self.pos);
            if !Self::is_digit(c) {
                break;
            }
            proof {
                assert(c as u32 >= 48 && c as u32 <= 57);
            }
            let d = (c as u32 - 48) as i64;
            val = match val {
                Some(v) => match v.checked_mul(10) {
                    Some(v10) => v10.checked_add(d),
                    None => None,
                },
                None => None,
            };
            self.pos = self.pos + 1;
            moved = true;
        }
        if !moved {
            self.pos = self.pos + 1;
            return Err(LexError);
        }
        match val {
            Some(v) => Ok(Token::Int(v)),
            None => Err(LexError),
        }
    }

    /// An identifier or keyword; the first character decides the case.
    #[verifier::loop_isolation(false)]
    fn lex_ident(&mut self) -> (r: Result<Token, LexError>)
        requires
            old(self).wf(),
            old(self).pos < old(self).len,
        ensures
            final(self).wf(),
            final(self).len == old(self).len,
            final(self).pos > old(self).pos,
    {
        let start = self.pos;
        let first = self.at(start);
        self.pos = self.pos + 1;
        while self.pos < self.len && Self::is_ident_char(self.at(self.pos))
            invariant
                self.wf(),
                self.src == old(self).src,
                self.len == old(self).len,
                start < self.pos,
            decreases self.len - self.pos,
        {
            self.pos = self.pos + 1;
        }
        let text = self.src.as_str().substring_char(start, self.pos).to_owned();
        if Self::is_lower(first) {
            if str_eq(text.as_str(), "type") {
                Ok(Token::Type)
            } else if str_eq(text.as_str(), "rel") {
                Ok(Token::Rel)
            } else {
                Ok(Token::LowerId(text))
            }
        } else {
            Ok(Token::UpperId(text))
        }
    }

    /// A string literal: any characters but `"` and `\`, or a
    /// backslash escape from `\" \\ \b \n \f \r \t`; the token keeps
    /// the text between the quotes as written.  A malformed literal is
    /// a lexing error of one character.
    #[verifier::loop_isolation(false)]
    fn lex_string(&mut self) -> (r: Result<Token, LexError>)
        requires
            old(self).wf(),
            old(self).pos < old(self).len,
        ensures
            final(self).wf(),
            final(self).len == old(self).len,
            final(self).pos > old(self).pos,
    {
        let start = self.pos;
        let mut i = start + 1;
        loop
            invariant
                self.wf(),
                self.src == old(self).src,
                self.len == old(self).len,
                start < i,
                i <= self.len + 2,
            decreases self.len + 2 - i,
        {
            if i >= self.len {
                // unterminated: the quote alone is the error
                self.pos = start + 1;
                return Err(LexError);
            }
            let c = self.at(i);
            if c == '"' {
                let inner = self.src.as_str().substring_char(start + 1, i).to_owned();
                self.pos = i + 1;
                return Ok(Token::String(inner));
            }
            if c == '\\' {
                if i + 1 >= self.len {
                    self.pos = start + 1;
                    return Err(LexError);
                }
                let e = self.at(i + 1);
                if e == '"' || e == '\\' || e == 'b' || e == 'n' || e == 'f' || e == 'r' || e
                    == 't' {
                    i = i + 2;
                } else {
                    self.pos = start + 1;
                    return Err(LexError);
                }
            } else {
                i = i + 1;
            }
        }
    }
}

/// All well-formed tokens of a source text, in order, with pieces
/// that form no token dropped.
pub fn tokenize(source: &str) -> (r: Vec<Token>) {
    let mut lexer = Token::lexer(source);
    let mut tokens: Vec<Token> = Vec::new();
    loop
        invariant
            lexer.wf(),
        decreases lexer.spec_remaining(),
    {
        match lexer.next() {
            None => {
                break;
            },
            Some(Ok(t)) => {
                tokens.push(t);
            },
            Some(Err(e)) => {},
        }
    }
    tokens
}

} // verus!
