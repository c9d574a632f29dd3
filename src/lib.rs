pub mod calculator;
pub mod num;
pub mod token;

use crate::calculator::{fails_with, performs, step, Calculator, CalcView, OpResult, StackValue};
use crate::num::Num;
use crate::token::{lex, tokenize, Op, OpView};
use vstd::prelude::*;
use vstd::string::StringExecFns;

verus! {

/// Something to show the user: a value on a line of its own, a value with no
/// line break after it, or the message of an error.
#[derive(Debug, PartialEq)]
pub enum Output {
    Line(Num),
    Inline(Num),
    Error(String),
}

pub enum OutputView {
    Line(int),
    Inline(int),
    Error(Seq<char>),
}

impl View for Output {
    type V = OutputView;

    open spec fn view(&self) -> OutputView {
        match self {
            Output::Line(n) => OutputView::Line(n@),
            Output::Inline(n) => OutputView::Inline(n@),
            Output::Error(e) => OutputView::Error(e@),
        }
    }
}

/// What `op` shows when it succeeds on a calculator in state `v`: `p` the
/// top value, `n` the top value with no line break, `f` the whole stack from
/// the bottom up. All three fail on an empty stack.
pub open spec fn printed(v: CalcView, op: OpView) -> Seq<OutputView> {
    match op {
        OpView::PrintPeek => seq![OutputView::Line(v.nth(0))],
        OpView::PrintPop => seq![OutputView::Inline(v.nth(0))],
        OpView::PrintAll => v.stack.map_values(|x: int| OutputView::Line(x)),
        _ => Seq::empty(),
    }
}

/// The end state, the signal and everything shown by a run of operations.
pub struct RunView {
    pub state: CalcView,
    pub result: OpResult,
    pub output: Seq<OutputView>,
}

/// Runs `ops` in order from state `v`. A failing operation shows its error
/// and leaves the state alone; the run goes on. `Exit` ends the run at once.
pub open spec fn run(v: CalcView, ops: Seq<OpView>) -> RunView
    decreases ops.len(),
{
    if ops.len() == 0 {
        RunView { state: v, result: OpResult::Continue, output: Seq::empty() }
    } else {
        let op = ops[0];
        match step(v, op) {
            Ok(next) => if op is Exit {
                RunView { state: next, result: OpResult::Exit, output: Seq::empty() }
            } else {
                let rest = run(next, ops.drop_first());
                RunView { output: printed(v, op) + rest.output, ..rest }
            },
            Err(msg) => {
                let rest = run(v, ops.drop_first());
                RunView { output: seq![OutputView::Error(msg)] + rest.output, ..rest }
            },
        }
    }
}

pub open spec fn outputs(out: Seq<Output>) -> Seq<OutputView> {
    out.map_values(|o: Output| o@)
}

/// The signal and what was shown by one call of `process_input`.
#[derive(Debug)]
pub struct Outcome {
    pub result: OpResult,
    pub output: Vec<Output>,
}

/// Runs one operation on `calculator`; what it shows is appended to `out`.
pub fn process_op(calculator: &mut Calculator, op: &Op, out: &mut Vec<Output>) -> (r: Result<
    OpResult,
    String,
>)
    ensures
        performs(old(calculator)@, final(calculator)@, r, op@),
        r is Ok ==> outputs(final(out)@) == outputs(old(out)@) + printed(old(calculator)@, op@),
        r is Err ==> final(out)@ == old(out)@,
{
    let ghost before = outputs(out@);
    let r = match op {
        Op::GetInputRadix => calculator.get_input_radix(),
        Op::GetOutputRadix => calculator.get_output_radix(),
        Op::GetPrecision => calculator.get_precision(),
        Op::SetInputRadix => calculator.set_input_radix(),
        Op::SetOutputRadix => calculator.set_output_radix(),
        Op::SetPrecision => calculator.set_precision(),
        Op::Exit => Ok(OpResult::Exit),
        Op::PrintPeek => match calculator.peek() {
            Some(StackValue::Number(n)) => {
                out.push(Output::Line(n.clone()));
                assert(outputs(out@) =~= before + printed(calculator@, op@));
                Ok(OpResult::Continue)
            },
            None => Err(String::from_str("stack empty!")),
        },
        Op::PrintPop => match calculator.pop() {
            Some(StackValue::Number(n)) => {
                out.push(Output::Inline(n));
                assert(outputs(out@) =~= before + printed(old(calculator)@, op@));
                Ok(OpResult::Continue)
            },
            None => Err(String::from_str("stack empty!")),
        },
        Op::PrintAll => {
            if calculator.iter().len() == 0 {
                return Err(String::from_str("stack empty!"));
            }
            let values = calculator.iter();
            let mut i: usize = 0;
            while i < values.len()
                invariant
                    i <= values@.len(),
                    values@.map_values(|x: StackValue| x@) == calculator@.stack,
                    outputs(out@) == before + calculator@.stack.take(i as int).map_values(
                        |x: int| OutputView::Line(x),
                    ),
                decreases values@.len() - i,
            {
                let ghost prev = out@;
                let StackValue::Number(n) = &values[i];
                out.push(Output::Line(n.clone()));
                proof {
                    assert(outputs(out@) =~= outputs(prev).push(OutputView::Line(n@)));
                    assert(calculator@.stack[i as int] == values@[i as int]@);
                    assert(calculator@.stack.take(i + 1).map_values(|x: int| OutputView::Line(x))
                        =~= calculator@.stack.take(i as int).map_values(
                        |x: int| OutputView::Line(x),
                    ).push(OutputView::Line(calculator@.stack[i as int])));
                    assert(outputs(out@) =~= before + calculator@.stack.take(i + 1).map_values(
                        |x: int| OutputView::Line(x),
                    ));
                }
                i += 1;
            }
            assert(calculator@.stack.take(i as int) =~= calculator@.stack);
            Ok(OpResult::Continue)
        },
        Op::Clear => calculator.clear(),
        Op::Duplicate => calculator.duplicate(),
        Op::Reverse => calculator.reverse(),
        Op::Add => calculator.add(),
        Op::Sub => calculator.sub(),
        Op::Mul => calculator.mul(),
        Op::Div => calculator.div(),
        Op::Mod => calculator.modulo(),
        Op::DivRem => calculator.div_rem(),
        Op::Exp => calculator.exp(),
        Op::Sqrt => calculator.sqrt(),
        Op::ModExp => calculator.mod_exp(),
        Op::Push(n) => calculator.push(StackValue::Number(n.clone())),
    };
    proof {
        if r is Ok && !(op@ is PrintPeek || op@ is PrintPop || op@ is PrintAll) {
            assert(outputs(out@) =~= before + printed(old(calculator)@, op@));
        }
    }
    r
}

/// Reads `input` and runs its operations on `calculator`, in order. An input
/// that does not tokenize is refused whole, before anything runs. Otherwise
/// errors of single operations are shown and the run goes on, and `Exit`
/// stops it.
pub fn process_input(calculator: &mut Calculator, input: &str) -> (r: Result<Outcome, String>)
    ensures
        match lex(input@) {
            Err(msg) => fails_with(r, msg) && final(calculator)@ == old(calculator)@,
            Ok(ops) => match r {
                Ok(outcome) => {
                    let expected = run(old(calculator)@, ops);
                    &&& final(calculator)@ == expected.state
                    &&& outcome.result == expected.result
                    &&& outputs(outcome.output@) == expected.output
                },
                Err(_) => false,
            },
        },
{
    let ops = match tokenize(input) {
        Ok(ops) => ops,
        Err(e) => {
            return Err(e);
        },
    };
    let ghost all = ops@.map_values(|o: Op| o@);
    let ghost start = calculator@;
    let mut output: Vec<Output> = Vec::new();
    let mut i: usize = 0;
    assert(all.skip(0) =~= all);
    assert(outputs(output@) =~= Seq::<OutputView>::empty());
    while i < ops.len()
        invariant
            i <= ops@.len(),
            all == ops@.map_values(|o: Op| o@),
            lex(input@) == Ok::<Seq<OpView>, Seq<char>>(all),
            start == old(calculator)@,
            run(start, all).state == run(calculator@, all.skip(i as int)).state,
            run(start, all).result == run(calculator@, all.skip(i as int)).result,
            run(start, all).output == outputs(output@) + run(calculator@, all.skip(i as int)).output,
        decreases ops@.len() - i,
    {
        let ghost v = calculator@;
        let ghost shown = outputs(output@);
        assert(all.skip(i as int).drop_first() =~= all.skip(i + 1));
        assert(all.skip(i as int)[0] == ops@[i as int]@);
        let r = process_op(calculator, &ops[i], &mut output);
        match r {
            Ok(OpResult::Exit) => {
                assert(ops@[i as int]@ is Exit);
                assert(outputs(output@) =~= shown + printed(v, ops@[i as int]@));
                assert(outputs(output@) =~= shown);
                assert(calculator@ == v);
                assert(run(v, all.skip(i as int)).result == OpResult::Exit);
                assert(run(v, all.skip(i as int)).state == v);
                assert(run(v, all.skip(i as int)).output == Seq::<OutputView>::empty());
                assert(outputs(output@) + Seq::<OutputView>::empty() =~= outputs(output@));
                return Ok(Outcome { result: OpResult::Exit, output });
            },
            Ok(OpResult::Continue) => {
                assert(run(start, all).output =~= outputs(output@) + run(
                    calculator@,
                    all.skip(i + 1),
                ).output);
            },
            Err(e) => {
                let ghost msg = e@;
                output.push(Output::Error(e));
                assert(outputs(output@) =~= shown.push(OutputView::Error(msg)));
                assert(run(start, all).output =~= outputs(output@) + run(
                    calculator@,
                    all.skip(i + 1),
                ).output);
            },
        }
        i += 1;
    }
    assert(all.skip(i as int) =~= Seq::<OpView>::empty());
    assert(outputs(output@) + Seq::<OutputView>::empty() =~= outputs(output@));
    Ok(Outcome { result: OpResult::Continue, output })
}

} // verus!
