//! The parser: a single-pass recursive-descent builder that turns the
//! token stream into a statement list and a label table, resolving label
//! positions in the same pass so that forward references work.
//!
//! The grammar is written once as the spec functions `spec_atomic`,
//! `spec_chain`, `spec_expression` and `spec_parse_from`, and once as the
//! executable `Parser`, proved to produce exactly what they describe.

use vstd::prelude::*;
use crate::ast::{Expression, OperatorExpression, SpecExpr, SpecStmt, Statement,
    VariableExpression};
use crate::interpreter::InterpreterContext;
use crate::numbers::{spec_parse_num, parse_num};
use crate::text::str_eq;
use crate::token::{LexToken, Token, TokenType};
use crate::tokenizer::tokens_view;
use crate::value::{SpecValue, Value};

verus! {

/// A fatal parse error: the statement list is not built.
#[derive(Debug, Clone, Copy, PartialEq, Eq, Structural)]
pub enum ParseError {
    /// No atomic expression starts at the cursor.
    UnexpectedToken,
    /// A token of this kind was demanded and not found.
    Expected(TokenType),
    /// The keyword closing an `if` condition was demanded and not found.
    ExpectedThen,
    /// A numeric literal that does not denote a number in range.
    NumberTooLarge,
}

/// The token at position `p`, with the end of the stream read as an
/// endless supply of end-of-input tokens.
pub open spec fn tok_at(toks: Seq<LexToken>, p: int) -> LexToken {
    if 0 <= p < toks.len() {
        toks[p]
    } else {
        LexToken { text: Seq::empty(), t_type: TokenType::Eof }
    }
}

/// The cursor after a sub-parse that began past `p`: the position `q` the
/// sub-parse reached, clamped so that the pass always moves forward and
/// never leaves the stream. A successful sub-parse in fact moves the
/// cursor forward within bounds (`lemma_expression_progress`), so the
/// clamp never alters a result; it only carries termination.
pub open spec fn advance(toks: Seq<LexToken>, p: int, q: int) -> int {
    let a = if q > p {
        q
    } else {
        p + 1
    };
    if a > toks.len() {
        toks.len() as int
    } else {
        a
    }
}

/// An atomic expression: a variable reference, a numeric or string
/// literal, or a parenthesized expression.
pub open spec fn spec_atomic(toks: Seq<LexToken>, p: int) -> Result<(SpecExpr, int), ParseError>
    decreases toks.len() - p, 0int,
{
    let t = tok_at(toks, p);
    if t.t_type == TokenType::Word {
        Ok((SpecExpr::Variable(t.text), p + 1))
    } else if t.t_type == TokenType::Number {
        match spec_parse_num(t.text) {
            Some(n) => Ok((SpecExpr::Literal(SpecValue::Num(n)), p + 1)),
            None => Err(ParseError::NumberTooLarge),
        }
    } else if t.t_type == TokenType::String {
        Ok((SpecExpr::Literal(SpecValue::Text(t.text)), p + 1))
    } else if t.t_type == TokenType::OpenParenthesis {
        // The group's content is a whole expression: an atomic and its
        // operator chain, written out here so that the three grammar
        // functions need not all recur into one another.
        let inner = match spec_atomic(toks, p + 1) {
            Ok((e, q)) => spec_chain(toks, advance(toks, p + 1, q), e),
            Err(er) => Err(er),
        };
        match inner {
            Ok((e, q)) => if tok_at(toks, q).t_type == TokenType::CloseParenthesis {
                Ok((e, q + 1))
            } else {
                Err(ParseError::Expected(TokenType::CloseParenthesis))
            },
            Err(er) => Err(er),
        }
    } else {
        Err(ParseError::UnexpectedToken)
    }
}

/// A token that continues an operator chain: an operator or the equals
/// sign, which doubles as the equality operator inside expressions.
pub open spec fn is_op_token(t: LexToken) -> bool {
    t.t_type == TokenType::Operator || t.t_type == TokenType::Equals
}

/// The operator character of a token: its first character. The lexer only
/// makes one-character operator tokens; a hand-built token with no text
/// reads as '?', which no evaluation rule covers.
pub open spec fn op_of(t: LexToken) -> char {
    if t.text.len() > 0 {
        t.text[0]
    } else {
        '?'
    }
}

/// The rest of an operator chain after `left`: zero or more operator and
/// atomic pairs, folded strictly left to right.
pub open spec fn spec_chain(toks: Seq<LexToken>, p: int, left: SpecExpr) -> Result<
    (SpecExpr, int),
    ParseError,
>
    decreases toks.len() - p, 1int,
{
    let t = tok_at(toks, p);
    if is_op_token(t) {
        match spec_atomic(toks, p + 1) {
            Ok((right, q)) => spec_chain(
                toks,
                advance(toks, p, q),
                SpecExpr::Operator(Box::new(left), op_of(t), Box::new(right)),
            ),
            Err(er) => Err(er),
        }
    } else {
        Ok((left, p))
    }
}

/// An expression: an atomic followed by an operator chain. There is a
/// single precedence level; parentheses only group.
pub open spec fn spec_expression(toks: Seq<LexToken>, p: int) -> Result<
    (SpecExpr, int),
    ParseError,
> {
    match spec_atomic(toks, p) {
        Ok((e, q)) => spec_chain(toks, advance(toks, p, q), e),
        Err(er) => Err(er),
    }
}

pub proof fn lemma_atomic_progress(toks: Seq<LexToken>, p: int)
    ensures
        spec_atomic(toks, p) matches Ok(pr) ==> p < pr.1 <= toks.len(),
    decreases toks.len() - p, 0int,
{
    let t = tok_at(toks, p);
    if t.t_type == TokenType::OpenParenthesis {
        lemma_atomic_progress(toks, p + 1);
        match spec_atomic(toks, p + 1) {
            Ok((e, q)) => {
                lemma_chain_progress(toks, advance(toks, p + 1, q), e);
            },
            Err(_) => {},
        }
    }
}

pub proof fn lemma_chain_progress(toks: Seq<LexToken>, p: int, left: SpecExpr)
    requires
        p <= toks.len(),
    ensures
        spec_chain(toks, p, left) matches Ok(pr) ==> p <= pr.1 <= toks.len(),
    decreases toks.len() - p, 1int,
{
    let t = tok_at(toks, p);
    if is_op_token(t) {
        lemma_atomic_progress(toks, p + 1);
        match spec_atomic(toks, p + 1) {
            Ok((right, q)) => {
                let p2 = advance(toks, p, q);
                let left2 = SpecExpr::Operator(Box::new(left), op_of(t), Box::new(right));
                assert(spec_chain(toks, p, left) == spec_chain(toks, p2, left2));
                assert(p <= p2 <= toks.len());
                lemma_chain_progress(toks, p2, left2);
            },
            Err(_) => {},
        }
    }
}

pub proof fn lemma_expression_progress(toks: Seq<LexToken>, p: int)
    ensures
        spec_expression(toks, p) matches Ok(pr) ==> p < pr.1 <= toks.len(),
{
    lemma_atomic_progress(toks, p);
    match spec_atomic(toks, p) {
        Ok((e, q)) => {
            lemma_chain_progress(toks, advance(toks, p, q), e);
        },
        Err(_) => {},
    }
}

/// A parsed program: the statement list and the label table.
pub ghost struct SpecProgram {
    pub stmts: Seq<SpecStmt>,
    pub labels: Map<Seq<char>, int>,
}

/// The top-level pass from position `p`, having already built `stmts` and
/// `labels`. Line breaks are skipped; a label records the index of the
/// statement that will follow it (a later definition overwrites an
/// earlier one); the five statement forms are recognized in order, the
/// assignment's two-token lookahead first; any other token ends the
/// program, and what follows is ignored.
pub open spec fn spec_parse_from(
    toks: Seq<LexToken>,
    p: int,
    stmts: Seq<SpecStmt>,
    labels: Map<Seq<char>, int>,
) -> Result<SpecProgram, ParseError>
    decreases toks.len() - p,
{
    let t = tok_at(toks, p);
    if t.t_type == TokenType::Line {
        spec_parse_from(toks, p + 1, stmts, labels)
    } else if t.t_type == TokenType::Label {
        spec_parse_from(toks, p + 1, stmts, labels.insert(t.text, stmts.len() as int))
    } else if t.t_type == TokenType::Word && tok_at(toks, p + 1).t_type == TokenType::Equals {
        match spec_expression(toks, p + 2) {
            Ok((e, q)) => spec_parse_from(
                toks,
                advance(toks, p, q),
                stmts.push(SpecStmt::Assign { name: t.text, value: e }),
                labels,
            ),
            Err(er) => Err(er),
        }
    } else if t.t_type == TokenType::Word && t.text == "print"@ {
        match spec_expression(toks, p + 1) {
            Ok((e, q)) => spec_parse_from(
                toks,
                advance(toks, p, q),
                stmts.push(SpecStmt::Print { expression: e }),
                labels,
            ),
            Err(er) => Err(er),
        }
    } else if t.t_type == TokenType::Word && t.text == "input"@ {
        if tok_at(toks, p + 1).t_type == TokenType::Word {
            spec_parse_from(
                toks,
                p + 2,
                stmts.push(SpecStmt::Input { name: tok_at(toks, p + 1).text }),
                labels,
            )
        } else {
            Err(ParseError::Expected(TokenType::Word))
        }
    } else if t.t_type == TokenType::Word && t.text == "goto"@ {
        if tok_at(toks, p + 1).t_type == TokenType::Word {
            spec_parse_from(
                toks,
                p + 2,
                stmts.push(SpecStmt::Goto { label: tok_at(toks, p + 1).text }),
                labels,
            )
        } else {
            Err(ParseError::Expected(TokenType::Word))
        }
    } else if t.t_type == TokenType::Word && t.text == "if"@ {
        match spec_expression(toks, p + 1) {
            Ok((cond, q)) => {
                if tok_at(toks, q).t_type == TokenType::Word && tok_at(toks, q).text == "then"@ {
                    if tok_at(toks, q + 1).t_type == TokenType::Word {
                        spec_parse_from(
                            toks,
                            advance(toks, p, q + 2),
                            stmts.push(
                                SpecStmt::IfThen {
                                    condition: cond,
                                    label: tok_at(toks, q + 1).text,
                                },
                            ),
                            labels,
                        )
                    } else {
                        Err(ParseError::Expected(TokenType::Word))
                    }
                } else {
                    Err(ParseError::ExpectedThen)
                }
            },
            Err(er) => Err(er),
        }
    } else {
        Ok(SpecProgram { stmts, labels })
    }
}

/// What parsing a whole token stream yields.
pub open spec fn spec_parse(toks: Seq<LexToken>) -> Result<SpecProgram, ParseError> {
    spec_parse_from(toks, 0, Seq::empty(), Map::empty())
}

/// The recursive-descent parser over a token stream, with a cursor.
pub struct Parser {
    tokens: Vec<Token>,
    position: usize,
}

impl Parser {
    pub closed spec fn toks(&self) -> Seq<LexToken> {
        tokens_view(self.tokens@)
    }

    pub closed spec fn spec_pos(&self) -> int {
        self.position as int
    }

    pub closed spec fn wf(&self) -> bool {
        self.position <= self.tokens@.len()
    }

    pub fn new(tokens: Vec<Token>) -> (p: Parser)
        ensures
            p.toks() == tokens_view(tokens@),
            p.spec_pos() == 0,
            p.wf(),
    {
        Parser { tokens, position: 0 }
    }

    /// The kind of the token `offset` past the cursor; end of input reads
    /// as end-of-input tokens.
    fn peek_type(&self, offset: usize) -> (t: TokenType)
        requires
            self.wf(),
        ensures
            t == tok_at(self.toks(), self.spec_pos() + offset).t_type,
    {
        let remaining = self.tokens.len() - self.position;
        if offset < remaining {
            self.tokens[self.position + offset].t_type
        } else {
            TokenType::Eof
        }
    }

    /// The text of the token consumed `k` tokens ago.
    fn last_text(&self, k: usize) -> (s: String)
        requires
            self.wf(),
            1 <= k <= self.spec_pos(),
        ensures
            s@ == tok_at(self.toks(), self.spec_pos() - k).text,
    {
        self.tokens[self.position - k].text.clone()
    }

    /// Consumes the next token if it is of the given kind.
    fn match_type(&mut self, t_type: TokenType) -> (r: bool)
        requires
            old(self).wf(),
            t_type != TokenType::Eof,
        ensures
            final(self).wf(),
            final(self).toks() == old(self).toks(),
            r == (tok_at(old(self).toks(), old(self).spec_pos()).t_type == t_type),
            final(self).spec_pos() == if r {
                old(self).spec_pos() + 1
            } else {
                old(self).spec_pos()
            },
    {
        let total = self.tokens.len();
        proof {
            assert(self.toks().len() == total);
        }
        if self.peek_type(0) == t_type {
            self.position = self.position + 1;
            true
        } else {
            false
        }
    }

    /// Consumes the next two tokens if they are of the given kinds, in
    /// order; consumes nothing if either check fails.
    fn match_types(&mut self, type1: TokenType, type2: TokenType) -> (r: bool)
        requires
            old(self).wf(),
            type1 != TokenType::Eof,
            type2 != TokenType::Eof,
        ensures
            final(self).wf(),
            final(self).toks() == old(self).toks(),
            r == (tok_at(old(self).toks(), old(self).spec_pos()).t_type == type1
                && tok_at(old(self).toks(), old(self).spec_pos() + 1).t_type == type2),
            final(self).spec_pos() == if r {
                old(self).spec_pos() + 2
            } else {
                old(self).spec_pos()
            },
    {
        let total = self.tokens.len();
        proof {
            assert(self.toks().len() == total);
        }
        if self.peek_type(0) == type1 && self.peek_type(1) == type2 {
            self.position = self.position + 2;
            true
        } else {
            false
        }
    }

    /// Consumes the next token if it is a word with the given text.
    fn match_name(&mut self, name: &str) -> (r: bool)
        requires
            old(self).wf(),
        ensures
            final(self).wf(),
            final(self).toks() == old(self).toks(),
            r == (tok_at(old(self).toks(), old(self).spec_pos()).t_type == TokenType::Word
                && tok_at(old(self).toks(), old(self).spec_pos()).text == name@),
            final(self).spec_pos() == if r {
                old(self).spec_pos() + 1
            } else {
                old(self).spec_pos()
            },
    {
        let total = self.tokens.len();
        proof {
            assert(self.toks().len() == total);
        }
        if self.peek_type(0) != TokenType::Word {
            return false;
        }
        if !str_eq(self.tokens[self.position].text.as_str(), name) {
            return false;
        }
        self.position = self.position + 1;
        true
    }

    /// Demands the next token to be of the given kind and hands back its
    /// text; failing that is a fatal parse error.
    fn consume_type(&mut self, t_type: TokenType) -> (r: Result<String, ParseError>)
        requires
            old(self).wf(),
            t_type != TokenType::Eof,
        ensures
            final(self).wf(),
            final(self).toks() == old(self).toks(),
            match r {
                Ok(s) => tok_at(old(self).toks(), old(self).spec_pos()).t_type == t_type
                    && s@ == tok_at(old(self).toks(), old(self).spec_pos()).text
                    && final(self).spec_pos() == old(self).spec_pos() + 1,
                Err(er) => tok_at(old(self).toks(), old(self).spec_pos()).t_type != t_type
                    && er == ParseError::Expected(t_type)
                    && final(self).spec_pos() == old(self).spec_pos(),
            },
    {
        let total = self.tokens.len();
        proof {
            assert(self.toks().len() == total);
        }
        if self.peek_type(0) == t_type {
            let s = self.tokens[self.position].text.clone();
            self.position = self.position + 1;
            Ok(s)
        } else {
            Err(ParseError::Expected(t_type))
        }
    }

    /// An atomic expression, as `spec_atomic` reads it.
    fn atomic(&mut self) -> (r: Result<Expression, ParseError>)
        requires
            old(self).wf(),
        ensures
            final(self).wf(),
            final(self).toks() == old(self).toks(),
            match r {
                Ok(e) => spec_atomic(old(self).toks(), old(self).spec_pos()) == Ok::<_, ParseError>(
                    (e@, final(self).spec_pos()),
                ) && old(self).spec_pos() < final(self).spec_pos(),
                Err(er) => spec_atomic(old(self).toks(), old(self).spec_pos())
                    == Err::<(SpecExpr, int), _>(er),
            },
        decreases old(self).toks().len() - old(self).spec_pos(), 0int,
    {
        if self.match_type(TokenType::Word) {
            let name = self.last_text(1);
            return Ok(Expression::Variable(VariableExpression::new(name)));
        }
        if self.match_type(TokenType::Number) {
            let text = self.last_text(1);
            return match parse_num(text.as_str()) {
                Some(n) => Ok(Expression::Literal(Value::Number(n))),
                None => Err(ParseError::NumberTooLarge),
            };
        }
        if self.match_type(TokenType::String) {
            let text = self.last_text(1);
            return Ok(Expression::Literal(Value::Str(text)));
        }
        if self.match_type(TokenType::OpenParenthesis) {
            let e = match self.expression() {
                Ok(e) => e,
                Err(er) => return Err(er),
            };
            if self.match_type(TokenType::CloseParenthesis) {
                return Ok(e);
            }
            return Err(ParseError::Expected(TokenType::CloseParenthesis));
        }
        Err(ParseError::UnexpectedToken)
    }

    /// An expression: an atomic, then the operator chain folded onto it
    /// left to right, as `spec_expression` reads it.
    fn expression(&mut self) -> (r: Result<Expression, ParseError>)
        requires
            old(self).wf(),
        ensures
            final(self).wf(),
            final(self).toks() == old(self).toks(),
            match r {
                Ok(e) => spec_expression(old(self).toks(), old(self).spec_pos()) == Ok::<
                    _,
                    ParseError,
                >((e@, final(self).spec_pos())) && old(self).spec_pos() < final(self).spec_pos(),
                Err(er) => spec_expression(old(self).toks(), old(self).spec_pos()) == Err::<
                    (SpecExpr, int),
                    _,
                >(er),
            },
        decreases old(self).toks().len() - old(self).spec_pos(), 1int,
    {
        let ghost toks0 = self.toks();
        let ghost p0 = self.spec_pos();
        let mut left = match self.atomic() {
            Ok(e) => e,
            Err(er) => return Err(er),
        };
        proof {
            lemma_atomic_progress(toks0, p0);
        }
        loop
            invariant
                self.wf(),
                self.toks() == toks0,
                toks0 == old(self).toks(),
                p0 == old(self).spec_pos(),
                p0 < self.spec_pos() <= toks0.len(),
                spec_expression(toks0, p0) == spec_chain(toks0, self.spec_pos(), left@),
            decreases toks0.len() - self.spec_pos(), 0int,
        {
            let t = self.peek_type(0);
            if !(t == TokenType::Operator || t == TokenType::Equals) {
                return Ok(left);
            }
            proof {
                if self.spec_pos() >= toks0.len() {
                    assert(tok_at(toks0, self.spec_pos()).t_type == TokenType::Eof);
                }
            }
            let ghost p = self.spec_pos();
            let total = self.tokens.len();
            proof {
                assert(self.toks().len() == total);
                assert(self.spec_pos() < toks0.len());
            }
            let op_string = self.tokens[self.position].text.clone();
            self.position = self.position + 1;
            proof {
                assert(op_string@ == tok_at(toks0, p).text);
            }
            let op: char = if op_string.as_str().unicode_len() == 0 {
                '?'
            } else {
                op_string.as_str().get_char(0)
            };
            proof {
                assert(op == op_of(tok_at(toks0, p)));
            }
            let right = match self.atomic() {
                Ok(e) => e,
                Err(er) => return Err(er),
            };
            proof {
                lemma_atomic_progress(toks0, p + 1);
            }
            left = Expression::Operator(OperatorExpression::new(left, op, right));
        }
    }

    /// Parses the whole token stream into a fresh interpreter context:
    /// the statement list and the label table filled, the variables empty
    /// and the counter at the start, exactly as `spec_parse` reads it.
    #[verifier::rlimit(100)]
    pub fn parse(&mut self) -> (r: Result<InterpreterContext, ParseError>)
        requires
            old(self).wf(),
        ensures
            final(self).wf(),
            final(self).toks() == old(self).toks(),
            match r {
                Ok(ctx) => ctx.wf() && ctx.spec_pc() == 0 && ctx.spec_vars() == Map::<
                    Seq<char>,
                    SpecValue,
                >::empty() && spec_parse_from(
                    old(self).toks(),
                    old(self).spec_pos(),
                    Seq::empty(),
                    Map::empty(),
                ) == Ok::<_, ParseError>(
                    SpecProgram { stmts: ctx.spec_stmts(), labels: ctx.spec_labels() },
                ),
                Err(er) => spec_parse_from(
                    old(self).toks(),
                    old(self).spec_pos(),
                    Seq::empty(),
                    Map::empty(),
                ) == Err::<SpecProgram, _>(er),
            },
    {
        let ghost toks0 = self.toks();
        let ghost p0 = self.spec_pos();
        let mut ctx = InterpreterContext::new();
        loop
            invariant
                self.wf(),
                self.toks() == toks0,
                toks0 == old(self).toks(),
                p0 == old(self).spec_pos(),
                ctx.wf(),
                ctx.spec_pc() == 0,
                ctx.spec_vars() == Map::<Seq<char>, SpecValue>::empty(),
                spec_parse_from(toks0, p0, Seq::empty(), Map::empty()) == spec_parse_from(
                    toks0,
                    self.spec_pos(),
                    ctx.spec_stmts(),
                    ctx.spec_labels(),
                ),
            decreases toks0.len() - self.spec_pos() + 1,
        {
            proof {
                if self.spec_pos() >= toks0.len() {
                    assert(tok_at(toks0, self.spec_pos()).t_type == TokenType::Eof);
                }
            }
            if self.match_type(TokenType::Line) {
                // A statement separator: skipped.
            } else if self.match_type(TokenType::Label) {
                let text = self.last_text(1);
                let count = ctx.statements_count();
                ctx.put_label(text, count);
            } else if self.match_types(TokenType::Word, TokenType::Equals) {
                let name = self.last_text(2);
                let ghost q0 = self.spec_pos();
                let value = match self.expression() {
                    Ok(e) => e,
                    Err(er) => return Err(er),
                };
                proof {
                    lemma_expression_progress(toks0, q0);
                }
                ctx.put_statement(Statement::assign(name, value));
            } else if self.match_name("print") {
                let ghost q0 = self.spec_pos();
                let e = match self.expression() {
                    Ok(e) => e,
                    Err(er) => return Err(er),
                };
                proof {
                    lemma_expression_progress(toks0, q0);
                }
                ctx.put_statement(Statement::print(e));
            } else if self.match_name("input") {
                let name = match self.consume_type(TokenType::Word) {
                    Ok(s) => s,
                    Err(er) => return Err(er),
                };
                ctx.put_statement(Statement::input(name));
            } else if self.match_name("goto") {
                let name = match self.consume_type(TokenType::Word) {
                    Ok(s) => s,
                    Err(er) => return Err(er),
                };
                ctx.put_statement(Statement::goto(name));
            } else if self.match_name("if") {
                let ghost q0 = self.spec_pos();
                let condition = match self.expression() {
                    Ok(e) => e,
                    Err(er) => return Err(er),
                };
                proof {
                    lemma_expression_progress(toks0, q0);
                }
                if !self.match_name("then") {
                    return Err(ParseError::ExpectedThen);
                }
                let label = match self.consume_type(TokenType::Word) {
                    Ok(s) => s,
                    Err(er) => return Err(er),
                };
                ctx.put_statement(Statement::if_then(condition, label));
            } else {
                return Ok(ctx);
            }
        }
    }
}

} // verus!



