//! The lexical analyzer: a character-by-character state machine that turns
//! source text into a token stream.
//!
//! The machine is written twice: once as the spec functions `lex_step`,
//! `lex_flush` and `lex_from`, which define the token stream of a text, and
//! once as the executable `Tokenizer`, proved to produce exactly that stream.

use vstd::prelude::*;
use vstd::string::StrSliceExecFns;
use crate::text::{is_digit, is_letter, is_word_char, digit_char, letter_char, word_char,
    string_from_chars};
use crate::token::{LexToken, Token, TokenType, tok};

verus! {

#[derive(Debug, Clone, Copy, PartialEq, Eq, Structural)]
pub enum State {
    Default,
    Word,
    Number,
    String,
    Comment,
}

/// The full lexer state between two characters: the machine state and the
/// accumulator holding the characters of the token being built.
#[verifier::ext_equal]
pub ghost struct LexState {
    pub state: State,
    pub acc: Seq<char>,
}

pub open spec fn init_state() -> LexState {
    LexState { state: State::Default, acc: Seq::empty() }
}

/// In the default state and inside a comment the accumulator is empty.
pub open spec fn acc_ok(st: LexState) -> bool {
    (st.state == State::Default || st.state == State::Comment) ==> st.acc.len() == 0
}

/// The kind of the tokens that are a single character long, recognized
/// immediately from the default state.
pub open spec fn single_char_kind(c: char) -> Option<TokenType> {
    if c == '\n' {
        Some(TokenType::Line)
    } else if c == '=' {
        Some(TokenType::Equals)
    } else if c == '+' || c == '-' || c == '*' || c == '/' || c == '<' || c == '>' {
        Some(TokenType::Operator)
    } else if c == '(' {
        Some(TokenType::OpenParenthesis)
    } else if c == ')' {
        Some(TokenType::CloseParenthesis)
    } else {
        None
    }
}

/// One character seen from the default state: a single-character token, the
/// opening of a word, number, string or comment, or nothing (dropped).
pub open spec fn step_default(c: char) -> (LexState, Seq<LexToken>) {
    match single_char_kind(c) {
        Some(k) => (init_state(), seq![tok(seq![c], k)]),
        None => {
            if is_letter(c) {
                (LexState { state: State::Word, acc: seq![c] }, Seq::empty())
            } else if is_digit(c) {
                (LexState { state: State::Number, acc: seq![c] }, Seq::empty())
            } else if c == '"' {
                (LexState { state: State::String, acc: Seq::empty() }, Seq::empty())
            } else if c == '\'' {
                (LexState { state: State::Comment, acc: Seq::empty() }, Seq::empty())
            } else {
                (init_state(), Seq::empty())
            }
        },
    }
}

/// One character seen in any state: the next state and the tokens emitted.
/// A character that closes a word or a number without being consumed is
/// re-dispatched through `step_default`, the "redo" of the machine.
pub open spec fn lex_step(st: LexState, c: char) -> (LexState, Seq<LexToken>) {
    match st.state {
        State::Default => step_default(c),
        State::Word => {
            if is_word_char(c) {
                (LexState { state: State::Word, acc: st.acc.push(c) }, Seq::empty())
            } else if c == ':' {
                (init_state(), seq![tok(st.acc, TokenType::Label)])
            } else {
                (step_default(c).0, seq![tok(st.acc, TokenType::Word)] + step_default(c).1)
            }
        },
        State::Number => {
            if is_digit(c) {
                (LexState { state: State::Number, acc: st.acc.push(c) }, Seq::empty())
            } else {
                (step_default(c).0, seq![tok(st.acc, TokenType::Number)] + step_default(c).1)
            }
        },
        State::String => {
            if c == '"' {
                (init_state(), seq![tok(st.acc, TokenType::String)])
            } else {
                (LexState { state: State::String, acc: st.acc.push(c) }, Seq::empty())
            }
        },
        State::Comment => {
            if c == '\n' {
                (init_state(), Seq::empty())
            } else {
                (st, Seq::empty())
            }
        },
    }
}

/// End of input: a non-empty accumulator is flushed as the token the current
/// state was building; an unfinished comment emits nothing.
pub open spec fn lex_flush(st: LexState) -> Seq<LexToken> {
    if st.acc.len() == 0 {
        Seq::empty()
    } else {
        match st.state {
            State::Number => seq![tok(st.acc, TokenType::Number)],
            State::Word => seq![tok(st.acc, TokenType::Word)],
            State::String => seq![tok(st.acc, TokenType::String)],
            _ => Seq::empty(),
        }
    }
}

/// The tokens emitted from position `i` on, starting in state `st`.
pub open spec fn lex_from(s: Seq<char>, i: nat, st: LexState) -> Seq<LexToken>
    decreases s.len() - i,
{
    if i < s.len() {
        lex_step(st, s[i as int]).1 + lex_from(s, (i + 1) as nat, lex_step(st, s[i as int]).0)
    } else {
        lex_flush(st)
    }
}

/// The token stream of a source text: what `Tokenizer::tokenize` returns.
pub open spec fn spec_tokenize(s: Seq<char>) -> Seq<LexToken> {
    lex_from(s, 0, init_state())
}

pub open spec fn tokens_view(ts: Seq<Token>) -> Seq<LexToken> {
    ts.map_values(|t: Token| t@)
}

pub struct Tokenizer {
    accumulator: Vec<char>,
    tokens: Vec<Token>,
    state: State,
}

impl Tokenizer {
    /// The spec-level lexer state this tokenizer currently holds.
    pub closed spec fn lex_state(&self) -> LexState {
        LexState { state: self.state, acc: self.accumulator@ }
    }

    pub fn new() -> (t: Tokenizer)
        ensures
            t.lex_state() == init_state(),
    {
        Tokenizer { accumulator: Vec::new(), tokens: Vec::new(), state: State::Default }
    }

    /// Closes the accumulated characters as one token of the given kind and
    /// returns to the default state.
    fn push_accumulator(&mut self, t_type: TokenType)
        ensures
            tokens_view(final(self).tokens@) == tokens_view(old(self).tokens@).push(
                tok(old(self).lex_state().acc, t_type)),
            final(self).lex_state() == init_state(),
    {
        let text = string_from_chars(&self.accumulator);
        self.tokens.push(Token { text, t_type });
        self.accumulator.clear();
        self.state = State::Default;
        proof {
            assert(tokens_view(self.tokens@) =~= tokens_view(old(self).tokens@).push(
                tok(old(self).lex_state().acc, t_type)));
        }
    }

    /// The kind of a single-character token, if `c` forms one.
    fn char_token(c: char) -> (r: Option<TokenType>)
        ensures
            r == single_char_kind(c),
    {
        if c == '\n' {
            Some(TokenType::Line)
        } else if c == '=' {
            Some(TokenType::Equals)
        } else if c == '+' || c == '-' || c == '*' || c == '/' || c == '<' || c == '>' {
            Some(TokenType::Operator)
        } else if c == '(' {
            Some(TokenType::OpenParenthesis)
        } else if c == ')' {
            Some(TokenType::CloseParenthesis)
        } else {
            None
        }
    }

    /// Handles one character in the default state.
    fn default_char(&mut self, c: char)
        requires
            old(self).state == State::Default,
            old(self).accumulator@.len() == 0,
        ensures
            final(self).lex_state() == lex_step(old(self).lex_state(), c).0,
            tokens_view(final(self).tokens@) == tokens_view(old(self).tokens@) + lex_step(
                old(self).lex_state(), c).1,
            final(self).accumulator@ == lex_step(old(self).lex_state(), c).0.acc,
    {
        let single = Self::char_token(c);
        match single {
            Some(k) => {
                self.tokens.push(Token::with_char(c, k));
                proof {
                    assert(tokens_view(self.tokens@) =~= tokens_view(old(self).tokens@) + lex_step(
                        old(self).lex_state(), c).1);
                    assert(self.lex_state() =~= lex_step(old(self).lex_state(), c).0);
                }
            },
            None => {
                if letter_char(c) {
                    self.accumulator.push(c);
                    self.state = State::Word;
                } else if digit_char(c) {
                    self.accumulator.push(c);
                    self.state = State::Number;
                } else if c == '"' {
                    self.state = State::String;
                } else if c == '\'' {
                    self.state = State::Comment;
                }
                proof {
                    assert(tokens_view(self.tokens@) =~= tokens_view(old(self).tokens@) + lex_step(
                        old(self).lex_state(), c).1);
                    assert(self.lex_state() =~= lex_step(old(self).lex_state(), c).0);
                }
            },
        }
    }

    /// Handles one character: the spec transition `lex_step`, with the redo
    /// of a closing character expressed as a second dispatch through
    /// `default_char`.
    fn step_char(&mut self, c: char)
        requires
            acc_ok(old(self).lex_state()),
        ensures
            final(self).lex_state() == lex_step(old(self).lex_state(), c).0,
            tokens_view(final(self).tokens@) == tokens_view(old(self).tokens@) + lex_step(
                old(self).lex_state(), c).1,
    {
        match self.state {
            State::Default => {
                self.default_char(c);
            },
            State::Word => {
                if word_char(c) {
                    self.accumulator.push(c);
                } else if c == ':' {
                    self.push_accumulator(TokenType::Label);
                } else {
                    self.push_accumulator(TokenType::Word);
                    self.default_char(c);
                }
            },
            State::Number => {
                if digit_char(c) {
                    self.accumulator.push(c);
                } else {
                    self.push_accumulator(TokenType::Number);
                    self.default_char(c);
                }
            },
            State::String => {
                if c == '"' {
                    self.push_accumulator(TokenType::String);
                } else {
                    self.accumulator.push(c);
                }
            },
            State::Comment => {
                if c == '\n' {
                    self.state = State::Default;
                }
            },
        }
        proof {
            assert(tokens_view(self.tokens@) =~= tokens_view(old(self).tokens@) + lex_step(
                old(self).lex_state(), c).1);
            assert(self.lex_state() =~= lex_step(old(self).lex_state(), c).0);
        }
    }

    /// Flushes whatever token the end of input left half-built.
    fn flush(&mut self)
        ensures
            tokens_view(final(self).tokens@) == tokens_view(old(self).tokens@) + lex_flush(
                old(self).lex_state()),
            final(self).lex_state() == init_state(),
    {
        if self.accumulator.len() > 0 {
            match self.state {
                State::Number => self.push_accumulator(TokenType::Number),
                State::Word => self.push_accumulator(TokenType::Word),
                State::String => self.push_accumulator(TokenType::String),
                _ => {},
            }
        }
        self.state = State::Default;
        self.accumulator.clear();
        proof {
            assert(tokens_view(self.tokens@) =~= tokens_view(old(self).tokens@) + lex_flush(
                old(self).lex_state()));
            assert(self.lex_state().acc =~= init_state().acc);
        }
    }

    /// Turns source text into its token stream. The internal state is reset
    /// first, so the result is a function of the source alone: tokenizing
    /// the same text twice yields the same tokens, whatever ran in between.
    pub fn tokenize(&mut self, source: &str) -> (r: Vec<Token>)
        ensures
            tokens_view(r@) == spec_tokenize(source@),
            final(self).lex_state() == init_state(),
    {
        self.state = State::Default;
        self.accumulator.clear();
        self.tokens.clear();
        let n = source.unicode_len();
        let mut i: usize = 0;
        proof {
            assert(self.lex_state().acc =~= init_state().acc);
            assert(tokens_view(self.tokens@) =~= Seq::<LexToken>::empty());
            assert(tokens_view(self.tokens@) + lex_from(source@, 0, self.lex_state()) =~=
                spec_tokenize(source@));
        }
        while i < n
            invariant
                i <= n,
                n == source@.len(),
                acc_ok(self.lex_state()),
                tokens_view(self.tokens@) + lex_from(source@, i as nat, self.lex_state()) ==
                    spec_tokenize(source@),
            decreases n - i,
        {
            let c = source.get_char(i);
            let ghost st_before = self.lex_state();
            let ghost toks_before = tokens_view(self.tokens@);
            self.step_char(c);
            proof {
                assert(lex_from(source@, i as nat, st_before) == lex_step(st_before, c).1
                    + lex_from(source@, (i + 1) as nat, lex_step(st_before, c).0));
                assert(tokens_view(self.tokens@) + lex_from(source@, (i + 1) as nat,
                    self.lex_state()) =~= toks_before + lex_from(source@, i as nat, st_before));
                assert(acc_ok(lex_step(st_before, c).0));
            }
            i = i + 1;
        }
        self.flush();
        let mut result: Vec<Token> = Vec::new();
        core::mem::swap(&mut result, &mut self.tokens);
        proof {
            assert(tokens_view(result@) =~= spec_tokenize(source@));
        }
        result
    }
}

} // verus!
