//! Properties of the pipeline that hold for every input, each proved once
//! and for all: the lexing of a printed number and the value it reads
//! back as, comment consumption, the default of an unassigned variable,
//! the silence of an unresolved jump, and the step count of a program
//! without jumps.

use vstd::prelude::*;
use crate::ast::{SpecExpr, SpecStmt, spec_eval};
use crate::interpreter::{SpecStepResult, spec_run, spec_step};
use crate::numbers::{all_digits, digits_value, spec_nat_text, spec_num_text, spec_parse_num,
    lemma_digits_value_push};
use crate::text::is_digit;
use crate::token::{LexToken, TokenType, tok};
use crate::tokenizer::{LexState, State, init_state, lex_from, lex_step, spec_tokenize};
use crate::value::{SpecRunError, SpecValue};

verus! {

proof fn lemma_nat_text_digits(n: int)
    requires
        n >= 0,
    ensures
        spec_nat_text(n).len() >= 1,
        all_digits(spec_nat_text(n)),
    decreases n,
{
    if n >= 10 {
        lemma_nat_text_digits(n / 10);
        let s = spec_nat_text(n);
        assert(forall|i: int| 0 <= i < s.len() - 1 ==> s[i] == spec_nat_text(n / 10)[i]);
        assert(is_digit(s[s.len() - 1]));
    }
}

proof fn lemma_digit_char_value(d: int)
    requires
        0 <= d < 10,
    ensures
        crate::numbers::char_to_digit(crate::numbers::digit_to_char(d)) == d,
{
    assert('0' as u32 == 48);
    assert('1' as u32 == 49);
    assert('2' as u32 == 50);
    assert('3' as u32 == 51);
    assert('4' as u32 == 52);
    assert('5' as u32 == 53);
    assert('6' as u32 == 54);
    assert('7' as u32 == 55);
    assert('8' as u32 == 56);
    assert('9' as u32 == 57);
}

proof fn lemma_digits_value_of_text(n: int)
    requires
        n >= 0,
    ensures
        digits_value(spec_nat_text(n)) == n,
    decreases n,
{
    lemma_digit_char_value(n % 10);
    if n < 10 {
        lemma_digit_char_value(n);
        assert(digits_value(Seq::<char>::empty()) == 0);
        assert(spec_nat_text(n).drop_last() =~= Seq::<char>::empty());
        assert(spec_nat_text(n).last() == crate::numbers::digit_to_char(n));
        assert(digits_value(spec_nat_text(n)) == digits_value(Seq::<char>::empty()) * 10
            + crate::numbers::char_to_digit(crate::numbers::digit_to_char(n)));
    } else {
        lemma_digits_value_of_text(n / 10);
        let s = spec_nat_text(n / 10);
        let c = crate::numbers::digit_to_char(n % 10);
        lemma_digits_value_push(s, c);
        assert(spec_nat_text(n) =~= s.push(c));
        vstd::arithmetic::div_mod::lemma_fundamental_div_mod(n, 10);
        assert(digits_value(spec_nat_text(n)) == (n / 10) * 10 + (n % 10));
    }
}

/// Lexing from inside a number: while digits keep coming, they join the
/// accumulator, and the token closes at the end of the input.
proof fn lemma_lex_all_digits(s: Seq<char>, i: int, acc: Seq<char>)
    requires
        0 <= i <= s.len(),
        acc.len() >= 1,
        forall|j: int| i <= j < s.len() ==> is_digit(#[trigger] s[j]),
    ensures
        lex_from(s, i as nat, LexState { state: State::Number, acc }) == seq![
            tok(acc + s.skip(i), TokenType::Number),
        ],
    decreases s.len() - i,
{
    if i == s.len() {
        assert(acc + s.skip(i) =~= acc);
    } else {
        let c = s[i];
        assert(is_digit(c));
        lemma_lex_all_digits(s, i + 1, acc.push(c));
        assert(acc.push(c) + s.skip(i + 1) =~= acc + s.skip(i));
    }
}

/// The digits of a non-negative number lex as one number token holding
/// exactly those digits, and that token's text reads back as the same
/// number: printing and re-reading a number is the identity.
pub proof fn lemma_number_text_round_trip(n: int)
    requires
        0 <= n <= i64::MAX,
    ensures
        spec_tokenize(spec_num_text(n)) == seq![tok(spec_num_text(n), TokenType::Number)],
        spec_parse_num(spec_num_text(n)) == Some(n),
{
    let s = spec_num_text(n);
    lemma_nat_text_digits(n);
    let c0 = s[0];
    assert(is_digit(c0));
    assert(lex_step(init_state(), c0) == (
        LexState { state: State::Number, acc: seq![c0] },
        Seq::<LexToken>::empty(),
    ));
    lemma_lex_all_digits(s, 1, seq![c0]);
    assert(seq![c0] + s.skip(1) =~= s);
    assert(spec_tokenize(s) =~= seq![tok(s, TokenType::Number)]);
    lemma_digits_value_of_text(n);
    assert(!(s[0] == '-' || s[0] == '+'));
    assert(spec_parse_num(s) == Some(n));
}

/// Everything between a comment quote and the end of its line is
/// discarded: a source that begins with a comment line lexes exactly as
/// the text after that line does.
proof fn lemma_comment_scan(s: Seq<char>, i: int, k: int)
    requires
        0 <= i <= k < s.len(),
        forall|j: int| i <= j < k ==> s[j] != '\n',
        s[k] == '\n',
    ensures
        lex_from(s, i as nat, LexState { state: State::Comment, acc: Seq::empty() }) == lex_from(
            s,
            (k + 1) as nat,
            init_state(),
        ),
    decreases k - i,
{
    if i < k {
        lemma_comment_scan(s, i + 1, k);
    }
}

/// Lexing from position `i` onward sees only the suffix of the text.
proof fn lemma_lex_from_skip(s: Seq<char>, i: int, st: LexState)
    requires
        0 <= i <= s.len(),
    ensures
        lex_from(s, i as nat, st) == lex_from(s.skip(i), 0, st),
    decreases s.len() - i,
{
    if i == s.len() {
        assert(s.skip(i).len() == 0);
    } else {
        let c = s[i];
        assert(s.skip(i)[0] == c);
        let st2 = lex_step(st, c).0;
        lemma_lex_from_skip(s, i + 1, st2);
        lemma_lex_from_skip(s.skip(i), 1, st2);
        assert(s.skip(i).skip(1) =~= s.skip(i + 1));
    }
}

/// A line comment is consumed whole: a source made of a comment line
/// followed by anything lexes to exactly the tokens of what follows; in
/// particular the newline that ends the comment is not emitted.
pub proof fn lemma_comment_consumed(comment: Seq<char>, rest: Seq<char>)
    requires
        forall|j: int| 0 <= j < comment.len() ==> comment[j] != '\n',
    ensures
        spec_tokenize(seq!['\''] + comment + seq!['\n'] + rest) == spec_tokenize(rest),
{
    let full = seq!['\''] + comment + seq!['\n'] + rest;
    let k: int = 1 + comment.len() as int;
    assert(full[0] == '\'');
    assert(full[k] == '\n');
    assert(forall|j: int| 1 <= j < k ==> full[j] == comment[j - 1]);
    assert(lex_step(init_state(), '\'') == (
        LexState { state: State::Comment, acc: Seq::<char>::empty() },
        Seq::<LexToken>::empty(),
    ));
    lemma_comment_scan(full, 1, k);
    lemma_lex_from_skip(full, k + 1, init_state());
    assert(full.skip(k + 1) =~= rest);
    assert(spec_tokenize(full) =~= spec_tokenize(rest));
}

/// Reading a variable that was never assigned yields the number zero,
/// whatever else the variable store holds.
pub proof fn lemma_uninitialized_variable_default(
    name: Seq<char>,
    vars: Map<Seq<char>, SpecValue>,
)
    requires
        !vars.contains_key(name),
    ensures
        spec_eval(SpecExpr::Variable(name), vars) == Ok::<SpecValue, SpecRunError>(SpecValue::Num(0)),
{
}

/// A `goto` whose label was never defined is a silent no-op: the counter
/// advances by one and nothing else changes.
pub proof fn lemma_unresolved_goto_advances(
    stmts: Seq<SpecStmt>,
    labels: Map<Seq<char>, int>,
    vars: Map<Seq<char>, SpecValue>,
    pc: int,
    next_input: Option<Seq<char>>,
    label: Seq<char>,
)
    requires
        0 <= pc < stmts.len(),
        stmts[pc] == (SpecStmt::Goto { label }),
        !labels.contains_key(label),
    ensures
        spec_step(stmts, labels, vars, pc, next_input) == (SpecStepResult::Ran {
            vars,
            pc: pc + 1,
            consumed: false,
            printed: None,
        }),
{
}

/// No statement of the program jumps.
pub open spec fn no_jumps(stmts: Seq<SpecStmt>) -> bool {
    forall|i: int|
        0 <= i < stmts.len() ==> !(#[trigger] stmts[i] is Goto) && !(stmts[i] is IfThen)
}

proof fn lemma_straight_line_from(
    stmts: Seq<SpecStmt>,
    labels: Map<Seq<char>, int>,
    vars: Map<Seq<char>, SpecValue>,
    pc: int,
    inputs: Seq<Seq<char>>,
    fuel: nat,
)
    requires
        no_jumps(stmts),
        0 <= pc <= stmts.len(),
        fuel >= stmts.len() - pc,
    ensures
        ({
            let sr = spec_run(stmts, labels, vars, pc, inputs, fuel);
            &&& !(sr.status is OutOfSteps)
            &&& sr.status is Finished ==> sr.steps == stmts.len() - pc && sr.pc == stmts.len()
        }),
    decreases fuel,
{
    if pc < stmts.len() {
        let next_input = if inputs.len() > 0 {
            Some(inputs[0])
        } else {
            None
        };
        match spec_step(stmts, labels, vars, pc, next_input) {
            SpecStepResult::Ran { vars: vars2, pc: pc2, consumed, printed } => {
                assert(pc2 == pc + 1);
                lemma_straight_line_from(
                    stmts,
                    labels,
                    vars2,
                    pc2,
                    if consumed {
                        inputs.drop_first()
                    } else {
                        inputs
                    },
                    (fuel - 1) as nat,
                );
            },
            _ => {},
        }
    }
}

/// A program with no `goto` and no `if` cannot loop: driven from the
/// start with at least as much fuel as it has statements, it never runs
/// out of steps, and when it runs to completion it executes exactly one
/// step per statement and leaves the counter just past the end.
pub proof fn lemma_straight_line_terminates(
    stmts: Seq<SpecStmt>,
    labels: Map<Seq<char>, int>,
    vars: Map<Seq<char>, SpecValue>,
    inputs: Seq<Seq<char>>,
    fuel: nat,
)
    requires
        no_jumps(stmts),
        fuel >= stmts.len(),
    ensures
        ({
            let sr = spec_run(stmts, labels, vars, 0, inputs, fuel);
            &&& !(sr.status is OutOfSteps)
            &&& sr.status is Finished ==> sr.steps == stmts.len() && sr.pc == stmts.len()
        }),
{
    lemma_straight_line_from(stmts, labels, vars, 0, inputs, fuel);
}

} // verus!

