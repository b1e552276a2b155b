//! Tokens produced by the lexical analyzer.

use vstd::prelude::*;
use crate::text::string_from_chars;

verus! {

#[derive(Debug, Clone, Copy, PartialEq, Eq, Structural)]
pub enum TokenType {
    Word,
    Number,
    String,
    Label,
    Line,
    Equals,
    Operator,
    OpenParenthesis,
    CloseParenthesis,
    Eof,
}

/// The mathematical content of a token: its characters and its kind.
pub ghost struct LexToken {
    pub text: Seq<char>,
    pub t_type: TokenType,
}

pub open spec fn tok(text: Seq<char>, t_type: TokenType) -> LexToken {
    LexToken { text, t_type }
}

#[derive(Debug)]
pub struct Token {
    pub text: String,
    pub t_type: TokenType,
}

impl View for Token {
    type V = LexToken;

    open spec fn view(&self) -> LexToken {
        LexToken { text: self.text@, t_type: self.t_type }
    }
}

impl Token {
    pub fn new(text: &str, t_type: TokenType) -> (t: Token)
        ensures
            t@ == tok(text@, t_type),
    {
        Token { text: String::from_str(text), t_type }
    }

    pub fn with_char(ch: char, t_type: TokenType) -> (t: Token)
        ensures
            t@ == tok(seq![ch], t_type),
    {
        let mut cs: Vec<char> = Vec::new();
        cs.push(ch);
        let text = string_from_chars(&cs);
        proof {
            assert(text@ =~= seq![ch]);
        }
        Token { text, t_type }
    }

    pub fn eof() -> (t: Token)
        ensures
            t@ == tok(Seq::<char>::empty(), TokenType::Eof),
    {
        Token { text: String::new(), t_type: TokenType::Eof }
    }
}

} // verus!
