use crate::num::{
    abs, big_add, big_div, big_from_i64, big_mul, big_pow, big_rem, big_sub, big_to_u128, big_to_u8,
    big_eq, isqrt, lemma_pow_of_negation, trunc_div, trunc_rem, Num,
};
use crate::token::OpView;
use vstd::arithmetic::div_mod::{lemma_fundamental_div_mod, lemma_mod_bound};
use vstd::arithmetic::power::{lemma0_pow, lemma1_pow, pow};
use vstd::prelude::*;
use vstd::string::StringExecFns;

verus! {

/// What the caller should do after an operation: go on, or stop.
#[derive(Debug, Clone, Copy, PartialEq, Eq, Structural)]
pub enum OpResult {
    Continue,
    Exit,
}

/// One entry of the calculator's stack.
#[derive(Debug)]
pub enum StackValue {
    Number(Num),
}

impl View for StackValue {
    type V = int;

    open spec fn view(&self) -> int {
        match self {
            StackValue::Number(n) => n@,
        }
    }
}

impl Clone for StackValue {
    fn clone(&self) -> (r: StackValue)
        ensures
            r@ == self@,
    {
        match self {
            StackValue::Number(n) => StackValue::Number(n.clone()),
        }
    }
}

impl PartialEq for StackValue {
    fn eq(&self, other: &StackValue) -> (r: bool) {
        match (self, other) {
            (StackValue::Number(a), StackValue::Number(b)) => a == b,
        }
    }
}

impl vstd::std_specs::cmp::PartialEqSpecImpl for StackValue {
    open spec fn obeys_eq_spec() -> bool {
        true
    }

    open spec fn eq_spec(&self, other: &StackValue) -> bool {
        self@ == other@
    }
}

/// The state of a calculator: the stack, bottom first, and the registers.
#[verifier::ext_equal]
pub struct CalcView {
    pub stack: Seq<int>,
    pub input_radix: u8,
    pub output_radix: u8,
    pub precision: u8,
}

impl CalcView {
    pub open spec fn depth(self) -> int {
        self.stack.len() as int
    }

    /// The value `k` places below the top; `nth(0)` is the top.
    pub open spec fn nth(self, k: int) -> int {
        self.stack[self.stack.len() - 1 - k]
    }

    /// The state with the top `n` values removed.
    pub open spec fn drop(self, n: int) -> CalcView {
        CalcView { stack: self.stack.subrange(0, self.stack.len() - n), ..self }
    }

    pub open spec fn push(self, x: int) -> CalcView {
        CalcView { stack: self.stack.push(x), ..self }
    }
}

pub open spec fn msg_stack_empty() -> Seq<char> {
    "stack empty!"@
}

pub open spec fn msg_division_by_zero() -> Seq<char> {
    "division by zero"@
}

pub open spec fn msg_negative_exponent() -> Seq<char> {
    "exponent must be non-negative"@
}

pub open spec fn msg_exponent_too_large() -> Seq<char> {
    "exponent too large"@
}

pub open spec fn msg_negative_root() -> Seq<char> {
    "square root of a negative number"@
}

pub open spec fn msg_modulus_not_positive() -> Seq<char> {
    "modulus must be positive"@
}

pub open spec fn msg_register_range() -> Seq<char> {
    "value out of range for a register"@
}

/// A register may take the value `x`.
pub open spec fn fits_register(x: int) -> bool {
    0 <= x <= u8::MAX
}

/// What `op` does to a calculator in state `v`: the next state, or the
/// message of the error, in which case the state stays as it was.
pub open spec fn step(v: CalcView, op: OpView) -> Result<CalcView, Seq<char>> {
    match op {
        OpView::Add => if v.depth() < 2 {
            Err(msg_stack_empty())
        } else {
            Ok(v.drop(2).push(v.nth(1) + v.nth(0)))
        },
        OpView::Sub => if v.depth() < 2 {
            Err(msg_stack_empty())
        } else {
            Ok(v.drop(2).push(v.nth(1) - v.nth(0)))
        },
        OpView::Mul => if v.depth() < 2 {
            Err(msg_stack_empty())
        } else {
            Ok(v.drop(2).push(v.nth(1) * v.nth(0)))
        },
        OpView::Div => if v.depth() < 2 {
            Err(msg_stack_empty())
        } else if v.nth(0) == 0 {
            Err(msg_division_by_zero())
        } else {
            Ok(v.drop(2).push(trunc_div(v.nth(1), v.nth(0))))
        },
        OpView::Mod => if v.depth() < 2 {
            Err(msg_stack_empty())
        } else if v.nth(0) == 0 {
            Err(msg_division_by_zero())
        } else {
            Ok(v.drop(2).push(trunc_rem(v.nth(1), v.nth(0))))
        },
        OpView::DivRem => if v.depth() < 2 {
            Err(msg_stack_empty())
        } else if v.nth(0) == 0 {
            Err(msg_division_by_zero())
        } else {
            Ok(
                v.drop(2).push(trunc_rem(v.nth(1), v.nth(0))).push(
                    trunc_div(v.nth(1), v.nth(0)),
                ),
            )
        },
        OpView::Exp => if v.depth() < 2 {
            Err(msg_stack_empty())
        } else if v.nth(0) < 0 {
            Err(msg_negative_exponent())
        } else if v.nth(0) > u128::MAX && abs(v.nth(1)) > 1 {
            Err(msg_exponent_too_large())
        } else {
            Ok(v.drop(2).push(pow(v.nth(1), v.nth(0) as nat)))
        },
        OpView::Sqrt => if v.depth() < 1 {
            Err(msg_stack_empty())
        } else if v.nth(0) < 0 {
            Err(msg_negative_root())
        } else {
            Ok(v.drop(1).push(isqrt(v.nth(0))))
        },
        OpView::ModExp => if v.depth() < 3 {
            Err(msg_stack_empty())
        } else if v.nth(0) <= 0 {
            Err(msg_modulus_not_positive())
        } else if v.nth(1) < 0 {
            Err(msg_negative_exponent())
        } else {
            Ok(v.drop(3).push(trunc_rem(pow(v.nth(2), v.nth(1) as nat), v.nth(0))))
        },
        OpView::PrintPop => if v.depth() < 1 {
            Err(msg_stack_empty())
        } else {
            Ok(v.drop(1))
        },
        OpView::PrintPeek => if v.depth() < 1 {
            Err(msg_stack_empty())
        } else {
            Ok(v)
        },
        OpView::PrintAll => if v.depth() < 1 {
            Err(msg_stack_empty())
        } else {
            Ok(v)
        },
        OpView::Push(x) => Ok(v.push(x)),
        OpView::Exit => Ok(v),
        OpView::Clear => Ok(CalcView { stack: Seq::empty(), ..v }),
        OpView::Duplicate => if v.depth() < 1 {
            Ok(v)
        } else {
            Ok(v.push(v.nth(0)))
        },
        OpView::Reverse => if v.depth() < 2 {
            Ok(v)
        } else {
            Ok(v.drop(2).push(v.nth(0)).push(v.nth(1)))
        },
        OpView::SetInputRadix => if v.depth() < 1 {
            Err(msg_stack_empty())
        } else if !fits_register(v.nth(0)) {
            Err(msg_register_range())
        } else {
            Ok(CalcView { input_radix: v.nth(0) as u8, ..v.drop(1) })
        },
        OpView::SetOutputRadix => if v.depth() < 1 {
            Err(msg_stack_empty())
        } else if !fits_register(v.nth(0)) {
            Err(msg_register_range())
        } else {
            Ok(CalcView { output_radix: v.nth(0) as u8, ..v.drop(1) })
        },
        OpView::SetPrecision => if v.depth() < 1 {
            Err(msg_stack_empty())
        } else if !fits_register(v.nth(0)) {
            Err(msg_register_range())
        } else {
            Ok(CalcView { precision: v.nth(0) as u8, ..v.drop(1) })
        },
        OpView::GetInputRadix => Ok(v.push(v.input_radix as int)),
        OpView::GetOutputRadix => Ok(v.push(v.output_radix as int)),
        OpView::GetPrecision => Ok(v.push(v.precision as int)),
    }
}

/// The signal that a successful `op` gives: only `Exit` stops.
pub open spec fn signal(op: OpView) -> OpResult {
    if op is Exit {
        OpResult::Exit
    } else {
        OpResult::Continue
    }
}

/// `r` is an error whose message is `msg`.
pub open spec fn fails_with<T>(r: Result<T, String>, msg: Seq<char>) -> bool {
    match r {
        Ok(_) => false,
        Err(e) => e@ == msg,
    }
}

/// Running `op` took the calculator from `before` to `after` and returned `r`,
/// as `step` and `signal` prescribe.
pub open spec fn performs(
    before: CalcView,
    after: CalcView,
    r: Result<OpResult, String>,
    op: OpView,
) -> bool {
    match step(before, op) {
        Ok(next) => r == Ok::<OpResult, String>(signal(op)) && after == next,
        Err(msg) => after == before && fails_with(r, msg),
    }
}

/// Division rounds toward zero and the remainder matches it: with `a` and
/// then a non-zero `b` pushed, `Div` leaves `q` and `Mod` leaves `r` where
/// `a == b * q + r`, `|r| < |b|` and `r` is zero or has the sign of `a`;
/// `DivRem` leaves `r` and then `q` on top of it.
pub proof fn law_div_mod(v: CalcView, a: int, b: int)
    requires
        b != 0,
    ensures
        step(v.push(a).push(b), OpView::Div) == Ok::<CalcView, Seq<char>>(
            v.push(trunc_div(a, b)),
        ),
        step(v.push(a).push(b), OpView::Mod) == Ok::<CalcView, Seq<char>>(
            v.push(trunc_rem(a, b)),
        ),
        step(v.push(a).push(b), OpView::DivRem) == Ok::<CalcView, Seq<char>>(
            v.push(trunc_rem(a, b)).push(trunc_div(a, b)),
        ),
        a == b * trunc_div(a, b) + trunc_rem(a, b),
        abs(trunc_rem(a, b)) < abs(b),
        trunc_rem(a, b) == 0 || (trunc_rem(a, b) < 0) == (a < 0),
{
    let s = v.push(a).push(b);
    assert(s.drop(2) =~= v);
    assert(s.nth(0) == b);
    assert(s.nth(1) == a);
    let q = abs(a) / abs(b);
    let m = abs(a) % abs(b);
    lemma_fundamental_div_mod(abs(a), abs(b));
    lemma_mod_bound(abs(a), abs(b));
    if a >= 0 && b > 0 {
        assert(a == b * q + m);
    } else if a >= 0 && b < 0 {
        assert(a == (-b) * q + m);
        assert(a == b * (-q) + m) by (nonlinear_arith)
            requires
                a == (-b) * q + m,
        ;
    } else if a < 0 && b > 0 {
        assert(-a == b * q + m);
        assert(a == b * (-q) + (-m)) by (nonlinear_arith)
            requires
                -a == b * q + m,
        ;
    } else {
        assert(-a == (-b) * q + m);
        assert(a == b * q + (-m)) by (nonlinear_arith)
            requires
                -a == (-b) * q + m,
        ;
    }
}

/// `Duplicate` copies the top value; on an empty stack it does nothing and
/// does not fail.
pub proof fn law_duplicate(v: CalcView, x: int)
    ensures
        step(v.push(x), OpView::Duplicate) == Ok::<CalcView, Seq<char>>(v.push(x).push(x)),
        v.depth() == 0 ==> step(v, OpView::Duplicate) == Ok::<CalcView, Seq<char>>(v),
{
}

/// `Reverse` swaps the two top values; with fewer than two it does nothing
/// and does not fail.
pub proof fn law_reverse(v: CalcView, a: int, b: int)
    ensures
        step(v.push(a).push(b), OpView::Reverse) == Ok::<CalcView, Seq<char>>(
            v.push(b).push(a),
        ),
        v.depth() < 2 ==> step(v, OpView::Reverse) == Ok::<CalcView, Seq<char>>(v),
{
    let s = v.push(a).push(b);
    assert(s.drop(2) =~= v);
}

/// Modular exponentiation with modulus 1 gives 0, whatever the base and the
/// non-negative exponent.
pub proof fn law_mod_exp_modulus_one(v: CalcView, base: int, exponent: int)
    requires
        exponent >= 0,
    ensures
        step(v.push(base).push(exponent).push(1), OpView::ModExp) == Ok::<CalcView, Seq<char>>(
            v.push(0),
        ),
{
    let s = v.push(base).push(exponent).push(1);
    assert(s.drop(3) =~= v);
    assert(s.nth(0) == 1);
    assert(s.nth(1) == exponent);
    assert(s.nth(2) == base);
    let p = pow(base, exponent as nat);
    assert(abs(p) % 1 == 0);
    assert(p % 1 == 0);
}

/// A stack of arbitrary-precision integers with three byte-sized registers.
pub struct Calculator {
    stack: Vec<StackValue>,
    input_radix: u8,
    output_radix: u8,
    precision: u8,
}

impl View for Calculator {
    type V = CalcView;

    closed spec fn view(&self) -> CalcView {
        CalcView {
            stack: self.stack@.map_values(|x: StackValue| x@),
            input_radix: self.input_radix,
            output_radix: self.output_radix,
            precision: self.precision,
        }
    }
}

fn error(msg: &str) -> (r: Result<OpResult, String>)
    ensures
        fails_with(r, msg@),
{
    Err(String::from_str(msg))
}

impl Calculator {
    /// An empty stack, both radixes 10 and precision 0.
    pub fn new() -> (r: Calculator)
        ensures
            r@ == (CalcView { stack: Seq::empty(), input_radix: 10, output_radix: 10, precision: 0 }),
    {
        let r = Calculator { stack: Vec::new(), input_radix: 10, output_radix: 10, precision: 0 };
        assert(r@.stack =~= Seq::<int>::empty());
        r
    }

    pub fn input_radix(&self) -> (r: u8)
        ensures
            r == self@.input_radix,
    {
        self.input_radix
    }

    pub fn output_radix(&self) -> (r: u8)
        ensures
            r == self@.output_radix,
    {
        self.output_radix
    }

    pub fn precision(&self) -> (r: u8)
        ensures
            r == self@.precision,
    {
        self.precision
    }

    /// The values on the stack, bottom first.
    pub fn iter(&self) -> (r: &[StackValue])
        ensures
            r@.map_values(|x: StackValue| x@) == self@.stack,
    {
        self.stack.as_slice()
    }

    /// The value `k` places below the top.
    fn nth(&self, k: usize) -> (r: &Num)
        requires
            k < self@.depth(),
        ensures
            r@ == self@.nth(k as int),
    {
        match &self.stack[self.stack.len() - 1 - k] {
            StackValue::Number(n) => n,
        }
    }

    fn push_num(&mut self, n: Num)
        ensures
            final(self)@ == old(self)@.push(n@),
    {
        self.stack.push(StackValue::Number(n));
        assert(self@.stack =~= old(self)@.stack.push(n@));
    }

    fn pop_num(&mut self) -> (r: Num)
        requires
            old(self)@.depth() > 0,
        ensures
            r@ == old(self)@.nth(0),
            final(self)@ == old(self)@.drop(1),
    {
        let v = self.stack.pop().unwrap();
        assert(self@.stack =~= old(self)@.drop(1).stack);
        match v {
            StackValue::Number(n) => n,
        }
    }

    pub fn push(&mut self, value: StackValue) -> (r: Result<OpResult, String>)
        ensures
            performs(old(self)@, final(self)@, r, OpView::Push(value@)),
    {
        match value {
            StackValue::Number(n) => self.push_num(n),
        }
        Ok(OpResult::Continue)
    }

    /// Removes and returns the top value; `None` on an empty stack.
    pub fn pop(&mut self) -> (r: Option<StackValue>)
        ensures
            old(self)@.depth() == 0 ==> r is None && final(self)@ == old(self)@,
            old(self)@.depth() > 0 ==> r is Some && r->0@ == old(self)@.nth(0) && final(self)@
                == old(self)@.drop(1),
    {
        let r = self.stack.pop();
        proof {
            if old(self)@.depth() > 0 {
                assert(self@.stack =~= old(self)@.drop(1).stack);
            } else {
                assert(self@.stack =~= old(self)@.stack);
            }
        }
        r
    }

    /// The top value, if any.
    pub fn peek(&self) -> (r: Option<&StackValue>)
        ensures
            self@.depth() == 0 ==> r is None,
            self@.depth() > 0 ==> r is Some && r->0@ == self@.nth(0),
    {
        let n = self.stack.len();
        if n == 0 {
            None
        } else {
            Some(&self.stack[n - 1])
        }
    }

    pub fn clear(&mut self) -> (r: Result<OpResult, String>)
        ensures
            performs(old(self)@, final(self)@, r, OpView::Clear),
    {
        self.stack.clear();
        assert(self@.stack =~= Seq::<int>::empty());
        Ok(OpResult::Continue)
    }
    fn pop_two(&mut self) -> (r: (Num, Num))
        requires
            old(self)@.depth() >= 2,
        ensures
            r.0@ == old(self)@.nth(1),
            r.1@ == old(self)@.nth(0),
            final(self)@ == old(self)@.drop(2),
    {
        let y = self.pop_num();
        let x = self.pop_num();
        assert(self@ =~= old(self)@.drop(2));
        (x, y)
    }

    fn pop_three(&mut self) -> (r: (Num, Num, Num))
        requires
            old(self)@.depth() >= 3,
        ensures
            r.0@ == old(self)@.nth(2),
            r.1@ == old(self)@.nth(1),
            r.2@ == old(self)@.nth(0),
            final(self)@ == old(self)@.drop(3),
    {
        let z = self.pop_num();
        let (x, y) = self.pop_two();
        assert(self@ =~= old(self)@.drop(3));
        (x, y, z)
    }

    /// Pushes a copy of the top value; does nothing on an empty stack.
    pub fn duplicate(&mut self) -> (r: Result<OpResult, String>)
        ensures
            performs(old(self)@, final(self)@, r, OpView::Duplicate),
    {
        if self.stack.len() > 0 {
            let top = self.nth(0).clone();
            self.push_num(top);
        }
        Ok(OpResult::Continue)
    }

    /// Swaps the two top values; does nothing with fewer than two.
    pub fn reverse(&mut self) -> (r: Result<OpResult, String>)
        ensures
            performs(old(self)@, final(self)@, r, OpView::Reverse),
    {
        if self.stack.len() >= 2 {
            let (second, first) = self.pop_two();
            self.push_num(first);
            self.push_num(second);
        }
        Ok(OpResult::Continue)
    }

    pub fn add(&mut self) -> (r: Result<OpResult, String>)
        ensures
            performs(old(self)@, final(self)@, r, OpView::Add),
    {
        if self.stack.len() < 2 {
            return error("stack empty!");
        }
        let (x, y) = self.pop_two();
        self.push_num(big_add(&x, &y));
        Ok(OpResult::Continue)
    }

    pub fn sub(&mut self) -> (r: Result<OpResult, String>)
        ensures
            performs(old(self)@, final(self)@, r, OpView::Sub),
    {
        if self.stack.len() < 2 {
            return error("stack empty!");
        }
        let (x, y) = self.pop_two();
        self.push_num(big_sub(&x, &y));
        Ok(OpResult::Continue)
    }

    pub fn mul(&mut self) -> (r: Result<OpResult, String>)
        ensures
            performs(old(self)@, final(self)@, r, OpView::Mul),
    {
        if self.stack.len() < 2 {
            return error("stack empty!");
        }
        let (x, y) = self.pop_two();
        self.push_num(big_mul(&x, &y));
        Ok(OpResult::Continue)
    }

    /// Quotient rounded toward zero. A zero divisor is refused and both
    /// operands stay on the stack.
    pub fn div(&mut self) -> (r: Result<OpResult, String>)
        ensures
            performs(old(self)@, final(self)@, r, OpView::Div),
    {
        if self.stack.len() < 2 {
            return error("stack empty!");
        }
        if self.nth(0).is_zero() {
            return error("division by zero");
        }
        let (x, y) = self.pop_two();
        self.push_num(big_div(&x, &y));
        Ok(OpResult::Continue)
    }

    /// Remainder whose sign follows the dividend.
    pub fn modulo(&mut self) -> (r: Result<OpResult, String>)
        ensures
            performs(old(self)@, final(self)@, r, OpView::Mod),
    {
        if self.stack.len() < 2 {
            return error("stack empty!");
        }
        if self.nth(0).is_zero() {
            return error("division by zero");
        }
        let (x, y) = self.pop_two();
        self.push_num(big_rem(&x, &y));
        Ok(OpResult::Continue)
    }

    /// Pushes the remainder, then the quotient on top of it.
    pub fn div_rem(&mut self) -> (r: Result<OpResult, String>)
        ensures
            performs(old(self)@, final(self)@, r, OpView::DivRem),
    {
        if self.stack.len() < 2 {
            return error("stack empty!");
        }
        if self.nth(0).is_zero() {
            return error("division by zero");
        }
        let (x, y) = self.pop_two();
        let quotient = big_div(&x, &y);
        let remainder = big_rem(&x, &y);
        self.push_num(remainder);
        self.push_num(quotient);
        Ok(OpResult::Continue)
    }

    /// The second value raised to the top one. The exponent must not be
    /// negative, and above `u128::MAX` it is taken only for the bases 0, 1
    /// and -1.
    pub fn exp(&mut self) -> (r: Result<OpResult, String>)
        ensures
            performs(old(self)@, final(self)@, r, OpView::Exp),
    {
        if self.stack.len() < 2 {
            return error("stack empty!");
        }
        if self.nth(0).is_negative() {
            return error("exponent must be non-negative");
        }
        let e = match big_to_u128(self.nth(0)) {
            Some(e) => e,
            None => {
                // Only 0, 1 and -1 have powers of such an exponent that fit.
                let one = big_from_i64(1);
                let minus_one = big_from_i64(-1);
                let result = if self.nth(1).is_zero() {
                    big_from_i64(0)
                } else if big_eq(self.nth(1), &one) {
                    one
                } else if big_eq(self.nth(1), &minus_one) {
                    if self.nth(0).is_odd() {
                        minus_one
                    } else {
                        one
                    }
                } else {
                    return error("exponent too large");
                };
                proof {
                    let n = self@.nth(0) as nat;
                    lemma0_pow(n);
                    lemma1_pow(n);
                    lemma_pow_of_negation(1, n);
                }
                let _ = self.pop_two();
                self.push_num(result);
                return Ok(OpResult::Continue);
            },
        };
        let (x, _) = self.pop_two();
        self.push_num(big_pow(&x, e));
        Ok(OpResult::Continue)
    }

    /// Integer square root; a negative value is refused.
    pub fn sqrt(&mut self) -> (r: Result<OpResult, String>)
        ensures
            performs(old(self)@, final(self)@, r, OpView::Sqrt),
    {
        if self.stack.len() < 1 {
            return error("stack empty!");
        }
        if self.nth(0).is_negative() {
            return error("square root of a negative number");
        }
        let x = self.pop_num();
        self.push_num(x.sqrt());
        Ok(OpResult::Continue)
    }

    /// With `base`, `exponent`, `modulus` pushed in that order, replaces the
    /// three by `base^exponent` reduced modulo `modulus`.
    pub fn mod_exp(&mut self) -> (r: Result<OpResult, String>)
        ensures
            performs(old(self)@, final(self)@, r, OpView::ModExp),
    {
        if self.stack.len() < 3 {
            return error("stack empty!");
        }
        if self.nth(0).is_negative() || self.nth(0).is_zero() {
            return error("modulus must be positive");
        }
        if self.nth(1).is_negative() {
            return error("exponent must be non-negative");
        }
        let (base, exponent, modulus) = self.pop_three();
        self.push_num(Num::mod_pow(&base, &exponent, &modulus));
        Ok(OpResult::Continue)
    }

    /// Pops the top value for a register, or returns the error to report when
    /// there is none or it does not fit in a byte.
    fn pop_register(&mut self) -> (r: Result<u8, String>)
        ensures
            old(self)@.depth() < 1 ==> final(self)@ == old(self)@ && fails_with(r, msg_stack_empty()),
            old(self)@.depth() >= 1 && !fits_register(old(self)@.nth(0)) ==> final(self)@ == old(
                self,
            )@ && fails_with(r, msg_register_range()),
            old(self)@.depth() >= 1 && fits_register(old(self)@.nth(0)) ==> final(self)@ == old(
                self,
            )@.drop(1) && r == Ok::<u8, String>(old(self)@.nth(0) as u8),
    {
        if self.stack.len() < 1 {
            return Err(String::from_str("stack empty!"));
        }
        match big_to_u8(self.nth(0)) {
            Some(b) => {
                let _ = self.pop_num();
                Ok(b)
            },
            None => Err(String::from_str("value out of range for a register")),
        }
    }

    pub fn set_input_radix(&mut self) -> (r: Result<OpResult, String>)
        ensures
            performs(old(self)@, final(self)@, r, OpView::SetInputRadix),
    {
        match self.pop_register() {
            Ok(b) => {
                self.input_radix = b;
                Ok(OpResult::Continue)
            },
            Err(e) => Err(e),
        }
    }

    pub fn set_output_radix(&mut self) -> (r: Result<OpResult, String>)
        ensures
            performs(old(self)@, final(self)@, r, OpView::SetOutputRadix),
    {
        match self.pop_register() {
            Ok(b) => {
                self.output_radix = b;
                Ok(OpResult::Continue)
            },
            Err(e) => Err(e),
        }
    }

    pub fn set_precision(&mut self) -> (r: Result<OpResult, String>)
        ensures
            performs(old(self)@, final(self)@, r, OpView::SetPrecision),
    {
        match self.pop_register() {
            Ok(b) => {
                self.precision = b;
                Ok(OpResult::Continue)
            },
            Err(e) => Err(e),
        }
    }

    /// Pushes the input radix.
    pub fn get_input_radix(&mut self) -> (r: Result<OpResult, String>)
        ensures
            performs(old(self)@, final(self)@, r, OpView::GetInputRadix),
    {
        let v = big_from_i64(self.input_radix as i64);
        self.push_num(v);
        Ok(OpResult::Continue)
    }

    /// Pushes the output radix.
    pub fn get_output_radix(&mut self) -> (r: Result<OpResult, String>)
        ensures
            performs(old(self)@, final(self)@, r, OpView::GetOutputRadix),
    {
        let v = big_from_i64(self.output_radix as i64);
        self.push_num(v);
        Ok(OpResult::Continue)
    }

    /// Pushes the precision.
    pub fn get_precision(&mut self) -> (r: Result<OpResult, String>)
        ensures
            performs(old(self)@, final(self)@, r, OpView::GetPrecision),
    {
        let v = big_from_i64(self.precision as i64);
        self.push_num(v);
        Ok(OpResult::Continue)
    }
}

} // verus!
