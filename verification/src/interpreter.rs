//! The execution engine: an interpreter context owning variable storage,
//! the label table, the statement list and the program counter, driven
//! one statement at a time.
//!
//! The engine never blocks: `step` is handed the next input line, if one
//! is available, and reports a printed line to the caller. `run` drives
//! `step` over a list of input lines with a step bound, so that the whole
//! run is a function of program and inputs alone.

use vstd::prelude::*;
use crate::ast::{SpecStmt, Statement, spec_eval, stmt_view};
use crate::parser::{ParseError, Parser, spec_parse};
use crate::tokenizer::{Tokenizer, spec_tokenize};
use crate::numbers::{spec_parse_num, parse_num};
use crate::tables::{LabelTable, VarTable};
use crate::text::trim_line_end;
use crate::text::trim_newlines;
use crate::value::{RunError, SpecRunError, SpecValue, Value, spec_to_num, spec_to_text};

verus! {

/// The value an input line stores: the line read as a number, with the
/// trailing line terminators trimmed, or the raw line as text.
pub open spec fn input_value(line: Seq<char>) -> SpecValue {
    match spec_parse_num(trim_newlines(line)) {
        Some(n) => SpecValue::Num(n),
        None => SpecValue::Text(line),
    }
}

/// What one statement does: nothing left to do, a missing input line, a
/// runtime error, or a completed step with the new variables, the new
/// program counter, whether the input line was consumed, and the printed
/// line if any.
pub ghost enum SpecStepResult {
    Done,
    NeedsInput,
    Failed(SpecRunError),
    Ran {
        vars: Map<Seq<char>, SpecValue>,
        pc: int,
        consumed: bool,
        printed: Option<Seq<char>>,
    },
}

/// One statement of the program, executed at `pc` under `vars`, with
/// `next_input` the input line that would be read.
///
/// An unresolved `goto` or `if` label is a silent no-op that advances the
/// counter; an `if` whose label resolves coerces its condition to a number
/// and jumps when it is non-zero.
pub open spec fn spec_step(
    stmts: Seq<SpecStmt>,
    labels: Map<Seq<char>, int>,
    vars: Map<Seq<char>, SpecValue>,
    pc: int,
    next_input: Option<Seq<char>>,
) -> SpecStepResult {
    if !(0 <= pc < stmts.len()) {
        SpecStepResult::Done
    } else {
        match stmts[pc] {
            SpecStmt::Assign { name, value } => match spec_eval(value, vars) {
                Ok(v) => SpecStepResult::Ran {
                    vars: vars.insert(name, v),
                    pc: pc + 1,
                    consumed: false,
                    printed: None,
                },
                Err(e) => SpecStepResult::Failed(e),
            },
            SpecStmt::Goto { label } => SpecStepResult::Ran {
                vars,
                pc: if labels.contains_key(label) {
                    labels[label]
                } else {
                    pc + 1
                },
                consumed: false,
                printed: None,
            },
            SpecStmt::IfThen { condition, label } => {
                if !labels.contains_key(label) {
                    SpecStepResult::Ran { vars, pc: pc + 1, consumed: false, printed: None }
                } else {
                    match spec_eval(condition, vars) {
                        Ok(v) => match spec_to_num(v) {
                            Ok(n) => SpecStepResult::Ran {
                                vars,
                                pc: if n != 0 {
                                    labels[label]
                                } else {
                                    pc + 1
                                },
                                consumed: false,
                                printed: None,
                            },
                            Err(e) => SpecStepResult::Failed(e),
                        },
                        Err(e) => SpecStepResult::Failed(e),
                    }
                }
            },
            SpecStmt::Print { expression } => match spec_eval(expression, vars) {
                Ok(v) => SpecStepResult::Ran {
                    vars,
                    pc: pc + 1,
                    consumed: false,
                    printed: Some(spec_to_text(v)),
                },
                Err(e) => SpecStepResult::Failed(e),
            },
            SpecStmt::Input { name } => match next_input {
                Some(line) => SpecStepResult::Ran {
                    vars: vars.insert(name, input_value(line)),
                    pc: pc + 1,
                    consumed: true,
                    printed: None,
                },
                None => SpecStepResult::NeedsInput,
            },
        }
    }
}

/// How a driven run ended.
pub ghost enum SpecRunStatus {
    Finished,
    OutOfSteps,
    AwaitingInput,
    Failed(SpecRunError),
}

/// The outcome of a driven run: the final variables and counter, the lines
/// printed, how it ended, and how many statements were executed.
pub ghost struct SpecRun {
    pub vars: Map<Seq<char>, SpecValue>,
    pub pc: int,
    pub outputs: Seq<Seq<char>>,
    pub status: SpecRunStatus,
    pub steps: int,
}

/// Runs from `pc` until the counter leaves the statement list, an input
/// line is missing, an error stops the run, or `fuel` statements have been
/// executed.
pub open spec fn spec_run(
    stmts: Seq<SpecStmt>,
    labels: Map<Seq<char>, int>,
    vars: Map<Seq<char>, SpecValue>,
    pc: int,
    inputs: Seq<Seq<char>>,
    fuel: nat,
) -> SpecRun
    decreases fuel,
{
    if !(0 <= pc < stmts.len()) {
        SpecRun { vars, pc, outputs: Seq::empty(), status: SpecRunStatus::Finished, steps: 0 }
    } else if fuel == 0 {
        SpecRun { vars, pc, outputs: Seq::empty(), status: SpecRunStatus::OutOfSteps, steps: 0 }
    } else {
        let next_input = if inputs.len() > 0 {
            Some(inputs[0])
        } else {
            None
        };
        match spec_step(stmts, labels, vars, pc, next_input) {
            SpecStepResult::Done => SpecRun {
                vars,
                pc,
                outputs: Seq::empty(),
                status: SpecRunStatus::Finished,
                steps: 0,
            },
            SpecStepResult::NeedsInput => SpecRun {
                vars,
                pc,
                outputs: Seq::empty(),
                status: SpecRunStatus::AwaitingInput,
                steps: 0,
            },
            SpecStepResult::Failed(e) => SpecRun {
                vars,
                pc,
                outputs: Seq::empty(),
                status: SpecRunStatus::Failed(e),
                steps: 0,
            },
            SpecStepResult::Ran { vars: vars2, pc: pc2, consumed, printed } => {
                let rest = spec_run(
                    stmts,
                    labels,
                    vars2,
                    pc2,
                    if consumed {
                        inputs.drop_first()
                    } else {
                        inputs
                    },
                    (fuel - 1) as nat,
                );
                SpecRun {
                    vars: rest.vars,
                    pc: rest.pc,
                    outputs: (match printed {
                        Some(t) => seq![t],
                        None => Seq::empty(),
                    }) + rest.outputs,
                    status: rest.status,
                    steps: rest.steps + 1,
                }
            },
        }
    }
}

pub open spec fn opt_line_view(input: Option<String>) -> Option<Seq<char>> {
    match input {
        Some(s) => Some(s@),
        None => None,
    }
}

/// What one call of `step` reports.
#[derive(Debug)]
pub enum StepOutcome {
    /// A statement was executed without observable output.
    Ran,
    /// A print statement was executed; this is its line.
    Printed(String),
    /// The current statement reads input, and no line was supplied.
    NeedsInput,
    /// The counter is past the last statement.
    Done,
}

/// How a run of `run` ended.
#[derive(Debug)]
pub enum RunStatus {
    Finished,
    OutOfSteps,
    AwaitingInput,
    Failed(RunError),
}

impl View for RunStatus {
    type V = SpecRunStatus;

    open spec fn view(&self) -> SpecRunStatus {
        match self {
            RunStatus::Finished => SpecRunStatus::Finished,
            RunStatus::OutOfSteps => SpecRunStatus::OutOfSteps,
            RunStatus::AwaitingInput => SpecRunStatus::AwaitingInput,
            RunStatus::Failed(e) => SpecRunStatus::Failed(e@),
        }
    }
}

/// What a run produced: the printed lines, how it ended, and how many
/// statements were executed.
#[derive(Debug)]
pub struct RunResult {
    pub outputs: Vec<String>,
    pub status: RunStatus,
    pub steps: u64,
}

/// The aggregate the whole pipeline works against: variables, labels,
/// statements and the program counter.
pub struct InterpreterContext {
    labels: LabelTable,
    variables: VarTable,
    statements: Vec<Statement>,
    statement_index: usize,
}

impl InterpreterContext {
    pub closed spec fn spec_stmts(&self) -> Seq<SpecStmt> {
        self.statements@.map_values(|s: Statement| stmt_view(s))
    }

    pub closed spec fn spec_labels(&self) -> Map<Seq<char>, int> {
        self.labels@
    }

    pub closed spec fn spec_vars(&self) -> Map<Seq<char>, SpecValue> {
        self.variables@
    }

    pub closed spec fn spec_pc(&self) -> int {
        self.statement_index as int
    }

    pub closed spec fn wf(&self) -> bool {
        self.labels.wf() && self.variables.wf()
    }

    pub fn new() -> (c: Self)
        ensures
            c.wf(),
            c.spec_stmts() == Seq::<SpecStmt>::empty(),
            c.spec_labels() == Map::<Seq<char>, int>::empty(),
            c.spec_vars() == Map::<Seq<char>, SpecValue>::empty(),
            c.spec_pc() == 0,
    {
        let c = InterpreterContext {
            labels: LabelTable::new(),
            variables: VarTable::new(),
            statements: Vec::new(),
            statement_index: 0,
        };
        proof {
            assert(c.spec_stmts() =~= Seq::<SpecStmt>::empty());
        }
        c
    }

    /// The value last assigned to the variable, if any.
    pub fn variable(&self, name: &str) -> (r: Option<&Value>)
        requires
            self.wf(),
        ensures
            match r {
                Some(v) => self.spec_vars().contains_key(name@) && v@ == self.spec_vars()[name@],
                None => !self.spec_vars().contains_key(name@),
            },
    {
        self.variables.get(name)
    }

    /// The statement index the label is bound to, if it was defined.
    pub fn label(&self, name: &str) -> (r: Option<usize>)
        requires
            self.wf(),
        ensures
            match r {
                Some(ix) => self.spec_labels().contains_key(name@) && ix as int == self.spec_labels()[name@],
                None => !self.spec_labels().contains_key(name@),
            },
    {
        self.labels.get(name)
    }

    pub fn put_variable(&mut self, name: String, value: Value)
        requires
            old(self).wf(),
        ensures
            final(self).wf(),
            final(self).spec_vars() == old(self).spec_vars().insert(name@, value@),
            final(self).spec_labels() == old(self).spec_labels(),
            final(self).spec_stmts() == old(self).spec_stmts(),
            final(self).spec_pc() == old(self).spec_pc(),
    {
        self.variables.put(name, value);
    }

    pub fn put_label(&mut self, label: String, position: usize)
        requires
            old(self).wf(),
        ensures
            final(self).wf(),
            final(self).spec_labels() == old(self).spec_labels().insert(label@, position as int),
            final(self).spec_vars() == old(self).spec_vars(),
            final(self).spec_stmts() == old(self).spec_stmts(),
            final(self).spec_pc() == old(self).spec_pc(),
    {
        self.labels.put(label, position);
    }

    pub fn put_statement(&mut self, statement: Statement)
        requires
            old(self).wf(),
        ensures
            final(self).wf(),
            final(self).spec_stmts() == old(self).spec_stmts().push(statement@),
            final(self).spec_labels() == old(self).spec_labels(),
            final(self).spec_vars() == old(self).spec_vars(),
            final(self).spec_pc() == old(self).spec_pc(),
    {
        let ghost before = self.statements@;
        self.statements.push(statement);
        proof {
            assert(self.spec_stmts() =~= before.map_values(|s: Statement| stmt_view(s)).push(
                stmt_view(statement)));
        }
    }

    pub fn statements_count(&self) -> (r: usize)
        ensures
            r as int == self.spec_stmts().len(),
    {
        self.statements.len()
    }

    /// Whether the statement the counter stands on reads input.
    pub fn needs_input(&self) -> (r: bool)
        ensures
            r == (0 <= self.spec_pc() < self.spec_stmts().len()
                && self.spec_stmts()[self.spec_pc()] is Input),
    {
        if self.statement_index >= self.statements.len() {
            return false;
        }
        matches!(&self.statements[self.statement_index], Statement::Input { .. })
    }

    /// Executes the statement the counter stands on, exactly as `spec_step`
    /// reads it. `input` is the input line handed to a read statement; a
    /// statement that does not read leaves it untouched. On an error the
    /// context is left as it was, the counter still on the failing
    /// statement.
    pub fn step(&mut self, input: Option<String>) -> (r: Result<StepOutcome, RunError>)
        requires
            old(self).wf(),
        ensures
            final(self).wf(),
            final(self).spec_stmts() == old(self).spec_stmts(),
            final(self).spec_labels() == old(self).spec_labels(),
            ({
                let post = spec_step(
                    old(self).spec_stmts(),
                    old(self).spec_labels(),
                    old(self).spec_vars(),
                    old(self).spec_pc(),
                    opt_line_view(input),
                );
                match post {
                    SpecStepResult::Done => r matches Ok(StepOutcome::Done)
                        && final(self).spec_vars() == old(self).spec_vars()
                        && final(self).spec_pc() == old(self).spec_pc(),
                    SpecStepResult::NeedsInput => r matches Ok(StepOutcome::NeedsInput)
                        && final(self).spec_vars() == old(self).spec_vars()
                        && final(self).spec_pc() == old(self).spec_pc(),
                    SpecStepResult::Failed(e) => (r matches Err(er) && er@ == e)
                        && final(self).spec_vars() == old(self).spec_vars()
                        && final(self).spec_pc() == old(self).spec_pc(),
                    SpecStepResult::Ran { vars, pc, consumed, printed } => {
                        &&& final(self).spec_vars() == vars
                        &&& final(self).spec_pc() == pc
                        &&& match printed {
                            Some(t) => r matches Ok(StepOutcome::Printed(s)) && s@ == t,
                            None => r matches Ok(StepOutcome::Ran),
                        }
                    },
                }
            }),
    {
        if self.statement_index >= self.statements.len() {
            return Ok(StepOutcome::Done);
        }
        let idx = self.statement_index;
        match &self.statements[idx] {
            Statement::Assign { name, value } => {
                let v = match value.evaluate(&self.variables) {
                    Ok(v) => v,
                    Err(e) => return Err(e),
                };
                let n = name.clone();
                self.variables.put(n, v);
                self.statement_index = idx + 1;
                Ok(StepOutcome::Ran)
            },
            Statement::Goto { label } => {
                match self.labels.get(label.as_str()) {
                    Some(pos) => {
                        self.statement_index = pos;
                    },
                    None => {
                        self.statement_index = idx + 1;
                    },
                }
                Ok(StepOutcome::Ran)
            },
            Statement::IfThen { condition, label } => {
                match self.labels.get(label.as_str()) {
                    None => {
                        self.statement_index = idx + 1;
                        Ok(StepOutcome::Ran)
                    },
                    Some(pos) => {
                        let cv = match condition.evaluate(&self.variables) {
                            Ok(v) => v,
                            Err(e) => return Err(e),
                        };
                        let n = match cv.to_number() {
                            Ok(n) => n,
                            Err(e) => return Err(e),
                        };
                        if n != 0 {
                            self.statement_index = pos;
                        } else {
                            self.statement_index = idx + 1;
                        }
                        Ok(StepOutcome::Ran)
                    },
                }
            },
            Statement::Print { expression } => {
                let v = match expression.evaluate(&self.variables) {
                    Ok(v) => v,
                    Err(e) => return Err(e),
                };
                let text = v.to_text();
                self.statement_index = idx + 1;
                Ok(StepOutcome::Printed(text))
            },
            Statement::Input { name } => match input {
                None => Ok(StepOutcome::NeedsInput),
                Some(line) => {
                    let parsed = {
                        let trimmed = trim_line_end(line.as_str());
                        parse_num(trimmed)
                    };
                    let value = match parsed {
                        Some(n) => Value::Number(n),
                        None => Value::Str(line),
                    };
                    let n = name.clone();
                    self.variables.put(n, value);
                    self.statement_index = idx + 1;
                    Ok(StepOutcome::Ran)
                },
            },
        }
    }

    /// Drives the program from the start: the counter is reset, then
    /// statements execute until the program falls off the end, an input
    /// line is missing, an error stops the run, or `max_steps` statements
    /// have been executed. The printed lines are collected in order, and
    /// the whole run is exactly `spec_run` on the program and the inputs.
    #[verifier::rlimit(100)]
    pub fn run(&mut self, inputs: Vec<String>, max_steps: u64) -> (r: RunResult)
        requires
            old(self).wf(),
        ensures
            final(self).wf(),
            final(self).spec_stmts() == old(self).spec_stmts(),
            final(self).spec_labels() == old(self).spec_labels(),
            ({
                let sr = spec_run(
                    old(self).spec_stmts(),
                    old(self).spec_labels(),
                    old(self).spec_vars(),
                    0,
                    inputs.deep_view(),
                    max_steps as nat,
                );
                &&& final(self).spec_vars() == sr.vars
                &&& final(self).spec_pc() == sr.pc
                &&& r.outputs.deep_view() == sr.outputs
                &&& r.status@ == sr.status
                &&& r.steps as int == sr.steps
            }),
    {
        self.statement_index = 0;
        let mut outputs: Vec<String> = Vec::new();
        let mut steps: u64 = 0;
        let mut idx: usize = 0;
        let ghost stmts0 = self.spec_stmts();
        let ghost labels0 = self.spec_labels();
        let ghost sr = spec_run(
            stmts0,
            labels0,
            self.spec_vars(),
            0,
            inputs.deep_view(),
            max_steps as nat,
        );
        proof {
            assert(inputs.deep_view().skip(0) =~= inputs.deep_view());
            assert(outputs.deep_view() =~= Seq::<Seq<char>>::empty());
        }
        loop
            invariant
                self.wf(),
                self.spec_stmts() == stmts0,
                self.spec_labels() == labels0,
                stmts0 == old(self).spec_stmts(),
                labels0 == old(self).spec_labels(),
                sr == spec_run(
                    stmts0,
                    labels0,
                    old(self).spec_vars(),
                    0,
                    inputs.deep_view(),
                    max_steps as nat,
                ),
                steps <= max_steps,
                idx <= inputs@.len(),
                ({
                    let rest = spec_run(
                        stmts0,
                        labels0,
                        self.spec_vars(),
                        self.spec_pc(),
                        inputs.deep_view().skip(idx as int),
                        (max_steps - steps) as nat,
                    );
                    &&& sr.vars == rest.vars
                    &&& sr.pc == rest.pc
                    &&& sr.outputs == outputs.deep_view() + rest.outputs
                    &&& sr.status == rest.status
                    &&& sr.steps == steps + rest.steps
                }),
            decreases max_steps - steps,
        {
            if self.statement_index >= self.statements.len() {
                proof {
                    assert(outputs.deep_view() + Seq::<Seq<char>>::empty() =~= outputs.deep_view());
                }
                return RunResult { outputs, status: RunStatus::Finished, steps };
            }
            if steps == max_steps {
                proof {
                    assert(outputs.deep_view() + Seq::<Seq<char>>::empty() =~= outputs.deep_view());
                }
                return RunResult { outputs, status: RunStatus::OutOfSteps, steps };
            }
            let want = self.needs_input();
            let have = idx < inputs.len();
            let supply: Option<String> = if want && have {
                Some(inputs[idx].clone())
            } else {
                None
            };
            let ghost pre_vars = self.spec_vars();
            let ghost pre_pc = self.spec_pc();
            let ghost rem = inputs.deep_view().skip(idx as int);
            let ghost ni: Option<Seq<char>> = if rem.len() > 0 {
                Some(rem[0])
            } else {
                None
            };
            proof {
                if want && have {
                    assert(inputs.deep_view()[idx as int] == inputs@[idx as int]@);
                    assert(opt_line_view(supply) == ni);
                } else {
                    assert(opt_line_view(supply) is None);
                    if !want {
                        assert(spec_step(stmts0, labels0, pre_vars, pre_pc, ni) == spec_step(
                            stmts0, labels0, pre_vars, pre_pc, opt_line_view(supply)));
                    }
                }
            }
            let res = self.step(supply);
            match res {
                Err(e) => {
                    proof {
                        assert(outputs.deep_view() + Seq::<Seq<char>>::empty()
                            =~= outputs.deep_view());
                    }
                    return RunResult { outputs, status: RunStatus::Failed(e), steps };
                },
                Ok(StepOutcome::NeedsInput) => {
                    proof {
                        assert(outputs.deep_view() + Seq::<Seq<char>>::empty()
                            =~= outputs.deep_view());
                    }
                    return RunResult { outputs, status: RunStatus::AwaitingInput, steps };
                },
                Ok(StepOutcome::Done) => {
                    proof {
                        assert(false);
                    }
                    unreached()
                },
                Ok(StepOutcome::Ran) => {
                    proof {
                        match spec_step(stmts0, labels0, pre_vars, pre_pc, ni) {
                            SpecStepResult::Ran { consumed, .. } => {
                                assert(consumed == (want && have));
                                if consumed {
                                    assert(rem.drop_first() =~= inputs.deep_view().skip(idx + 1));
                                }
                                let rest = spec_run(
                                    stmts0,
                                    labels0,
                                    self.spec_vars(),
                                    self.spec_pc(),
                                    if consumed {
                                        rem.drop_first()
                                    } else {
                                        rem
                                    },
                                    (max_steps - steps - 1) as nat,
                                );
                                assert(Seq::<Seq<char>>::empty() + rest.outputs =~= rest.outputs);
                            },
                            _ => {},
                        }
                    }
                    if want {
                        idx = idx + 1;
                    }
                    steps = steps + 1;
                },
                Ok(StepOutcome::Printed(line)) => {
                    let ghost out_before = outputs.deep_view();
                    outputs.push(line);
                    proof {
                        let rest = spec_run(
                            stmts0,
                            labels0,
                            self.spec_vars(),
                            self.spec_pc(),
                            rem,
                            (max_steps - steps - 1) as nat,
                        );
                        assert(outputs.deep_view() =~= out_before.push(outputs@.last()@));
                        assert(out_before + (seq![outputs@.last()@] + rest.outputs)
                            =~= outputs.deep_view() + rest.outputs);
                    }
                    steps = steps + 1;
                },
            }
        }
    }
}

/// The whole pipeline: the source text is tokenized and parsed; on
/// success the program runs from the start against the given input lines,
/// executing at most `max_steps` statements.
pub fn interpret(source: &str, inputs: Vec<String>, max_steps: u64) -> (r: Result<
    RunResult,
    ParseError,
>)
    ensures
        ({
            let toks = spec_tokenize(source@);
            match spec_parse(toks) {
                Err(e) => r matches Err(e2) && e2 == e,
                Ok(prog) => r matches Ok(res) && ({
                    let sr = spec_run(
                        prog.stmts,
                        prog.labels,
                        Map::empty(),
                        0,
                        inputs.deep_view(),
                        max_steps as nat,
                    );
                    &&& res.outputs.deep_view() == sr.outputs
                    &&& res.status@ == sr.status
                    &&& res.steps as int == sr.steps
                }),
            }
        }),
{
    let mut tokenizer = Tokenizer::new();
    let tokens = tokenizer.tokenize(source);
    let mut parser = Parser::new(tokens);
    let mut context = match parser.parse() {
        Ok(c) => c,
        Err(e) => return Err(e),
    };
    Ok(context.run(inputs, max_steps))
}

} // verus!
