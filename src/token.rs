use crate::num::{big_parse_decimal, signed_decimal_value, Num};
use vstd::prelude::*;
use vstd::string::{StrSliceExecFns, StringExecFns};

verus! {

/// One command of the calculator language, or a literal to push.
#[derive(Debug, PartialEq)]
pub enum Op {
    Add,
    Sub,
    Mul,
    Div,
    Mod,
    DivRem,
    Exp,
    Sqrt,
    ModExp,
    PrintPop,
    PrintPeek,
    PrintAll,
    Push(Num),
    Exit,
    Clear,
    Duplicate,
    Reverse,
    SetInputRadix,
    SetOutputRadix,
    SetPrecision,
    GetInputRadix,
    GetOutputRadix,
    GetPrecision,
}

/// `Op` with the pushed literal seen as a mathematical integer.
pub enum OpView {
    Add,
    Sub,
    Mul,
    Div,
    Mod,
    DivRem,
    Exp,
    Sqrt,
    ModExp,
    PrintPop,
    PrintPeek,
    PrintAll,
    Push(int),
    Exit,
    Clear,
    Duplicate,
    Reverse,
    SetInputRadix,
    SetOutputRadix,
    SetPrecision,
    GetInputRadix,
    GetOutputRadix,
    GetPrecision,
}

impl View for Op {
    type V = OpView;

    open spec fn view(&self) -> OpView {
        match self {
            Op::Add => OpView::Add,
            Op::Sub => OpView::Sub,
            Op::Mul => OpView::Mul,
            Op::Div => OpView::Div,
            Op::Mod => OpView::Mod,
            Op::DivRem => OpView::DivRem,
            Op::Exp => OpView::Exp,
            Op::Sqrt => OpView::Sqrt,
            Op::ModExp => OpView::ModExp,
            Op::PrintPop => OpView::PrintPop,
            Op::PrintPeek => OpView::PrintPeek,
            Op::PrintAll => OpView::PrintAll,
            Op::Push(n) => OpView::Push(n@),
            Op::Exit => OpView::Exit,
            Op::Clear => OpView::Clear,
            Op::Duplicate => OpView::Duplicate,
            Op::Reverse => OpView::Reverse,
            Op::SetInputRadix => OpView::SetInputRadix,
            Op::SetOutputRadix => OpView::SetOutputRadix,
            Op::SetPrecision => OpView::SetPrecision,
            Op::GetInputRadix => OpView::GetInputRadix,
            Op::GetOutputRadix => OpView::GetOutputRadix,
            Op::GetPrecision => OpView::GetPrecision,
        }
    }
}

/// The characters with the Unicode `White_Space` property: they separate
/// tokens and are otherwise ignored.
pub open spec fn is_blank(c: char) -> bool {
    let u = c as u32;
    (0x09 <= u <= 0x0d) || u == 0x20 || u == 0x85 || u == 0xa0 || u == 0x1680 || (0x2000 <= u
        <= 0x200a) || u == 0x2028 || u == 0x2029 || u == 0x202f || u == 0x205f || u == 0x3000
}

pub open spec fn is_digit_char(c: char) -> bool {
    '0' <= c <= '9'
}

/// A numeric literal starts with a digit or with `_`, the minus sign.
pub open spec fn starts_literal(c: char) -> bool {
    c == '_' || is_digit_char(c)
}

/// After its first character a literal runs on over digits and `.`.
pub open spec fn continues_literal(c: char) -> bool {
    c == '.' || is_digit_char(c)
}

/// The operation that a single character stands for, if any.
pub open spec fn command(c: char) -> Option<OpView> {
    if c == '+' {
        Some(OpView::Add)
    } else if c == '-' {
        Some(OpView::Sub)
    } else if c == '*' {
        Some(OpView::Mul)
    } else if c == '/' {
        Some(OpView::Div)
    } else if c == '%' {
        Some(OpView::Mod)
    } else if c == '~' {
        Some(OpView::DivRem)
    } else if c == '^' {
        Some(OpView::Exp)
    } else if c == 'v' {
        Some(OpView::Sqrt)
    } else if c == '|' {
        Some(OpView::ModExp)
    } else if c == 'q' {
        Some(OpView::Exit)
    } else if c == 'p' {
        Some(OpView::PrintPeek)
    } else if c == 'n' {
        Some(OpView::PrintPop)
    } else if c == 'f' {
        Some(OpView::PrintAll)
    } else if c == 'c' {
        Some(OpView::Clear)
    } else if c == 'd' {
        Some(OpView::Duplicate)
    } else if c == 'r' {
        Some(OpView::Reverse)
    } else if c == 'i' {
        Some(OpView::SetInputRadix)
    } else if c == 'o' {
        Some(OpView::SetOutputRadix)
    } else if c == 'k' {
        Some(OpView::SetPrecision)
    } else if c == 'I' {
        Some(OpView::GetInputRadix)
    } else if c == 'O' {
        Some(OpView::GetOutputRadix)
    } else if c == 'K' {
        Some(OpView::GetPrecision)
    } else {
        None
    }
}

/// How many characters from the start of `s` continue a literal.
pub open spec fn literal_run(s: Seq<char>) -> nat
    decreases s.len(),
{
    if s.len() > 0 && continues_literal(s[0]) {
        1 + literal_run(s.drop_first())
    } else {
        0
    }
}

/// The length of the literal at the start of `s`.
pub open spec fn literal_len(s: Seq<char>) -> nat {
    1 + literal_run(s.drop_first())
}

/// A literal is a number when it is `_` or a digit followed by digits only,
/// with at least one digit in all.
pub open spec fn literal_is_number(lit: Seq<char>) -> bool {
    &&& lit.len() > 0
    &&& is_digit_char(lit[0]) || (lit[0] == '_' && lit.len() > 1)
    &&& forall|k: int| 1 <= k < lit.len() ==> is_digit_char(#[trigger] lit[k])
}

/// The ASCII text of a literal, with `_` written as `-`.
pub open spec fn literal_text(lit: Seq<char>) -> Seq<u8> {
    lit.map_values(|c: char| if c == '_' { 45u8 } else { c as u8 })
}

pub open spec fn msg_unknown(c: char) -> Seq<char> {
    "Unknown operation: "@ + seq![c]
}

pub open spec fn msg_bad_number(lit: Seq<char>) -> Seq<char> {
    "Unable to parse number: "@ + lit
}

/// Puts `op` in front of a successful result; an error passes through.
pub open spec fn prepend(ops: Seq<OpView>, r: Result<Seq<OpView>, Seq<char>>) -> Result<
    Seq<OpView>,
    Seq<char>,
> {
    match r {
        Ok(rest) => Ok(ops + rest),
        Err(e) => Err(e),
    }
}

pub proof fn lemma_literal_run_bound(s: Seq<char>)
    ensures
        literal_run(s) <= s.len(),
    decreases s.len(),
{
    if s.len() > 0 && continues_literal(s[0]) {
        lemma_literal_run_bound(s.drop_first());
    }
}

/// The operations that `s` spells, read left to right, or the error at the
/// first character that is neither a command, a literal nor a blank.
pub open spec fn lex(s: Seq<char>) -> Result<Seq<OpView>, Seq<char>>
    decreases s.len(),
{
    if s.len() == 0 {
        Ok(Seq::empty())
    } else {
        let c = s[0];
        if command(c) is Some {
            prepend(seq![command(c)->0], lex(s.drop_first()))
        } else if starts_literal(c) {
            let n = literal_len(s);
            let lit = s.take(n as int);
            proof {
                lemma_literal_run_bound(s.drop_first());
            }
            if literal_is_number(lit) {
                prepend(
                    seq![OpView::Push(signed_decimal_value(literal_text(lit)))],
                    lex(s.skip(n as int)),
                )
            } else {
                Err(msg_bad_number(lit))
            }
        } else if is_blank(c) {
            lex(s.drop_first())
        } else {
            Err(msg_unknown(c))
        }
    }
}

proof fn lemma_prepend_twice(a: Seq<OpView>, b: Seq<OpView>, r: Result<Seq<OpView>, Seq<char>>)
    ensures
        prepend(a, prepend(b, r)) == prepend(a + b, r),
{
    match r {
        Ok(rest) => {
            assert(a + (b + rest) =~= (a + b) + rest);
        },
        Err(_) => {},
    }
}

/// The result of `tokenize` seen as operations on integers.
pub open spec fn lexed(r: Result<Vec<Op>, String>) -> Result<Seq<OpView>, Seq<char>> {
    match r {
        Ok(ops) => Ok(ops@.map_values(|o: Op| o@)),
        Err(e) => Err(e@),
    }
}

fn command_op(c: char) -> (r: Option<Op>)
    ensures
        match r {
            Some(op) => command(c) == Some(op@),
            None => command(c) is None,
        },
{
    if c == '+' {
        Some(Op::Add)
    } else if c == '-' {
        Some(Op::Sub)
    } else if c == '*' {
        Some(Op::Mul)
    } else if c == '/' {
        Some(Op::Div)
    } else if c == '%' {
        Some(Op::Mod)
    } else if c == '~' {
        Some(Op::DivRem)
    } else if c == '^' {
        Some(Op::Exp)
    } else if c == 'v' {
        Some(Op::Sqrt)
    } else if c == '|' {
        Some(Op::ModExp)
    } else if c == 'q' {
        Some(Op::Exit)
    } else if c == 'p' {
        Some(Op::PrintPeek)
    } else if c == 'n' {
        Some(Op::PrintPop)
    } else if c == 'f' {
        Some(Op::PrintAll)
    } else if c == 'c' {
        Some(Op::Clear)
    } else if c == 'd' {
        Some(Op::Duplicate)
    } else if c == 'r' {
        Some(Op::Reverse)
    } else if c == 'i' {
        Some(Op::SetInputRadix)
    } else if c == 'o' {
        Some(Op::SetOutputRadix)
    } else if c == 'k' {
        Some(Op::SetPrecision)
    } else if c == 'I' {
        Some(Op::GetInputRadix)
    } else if c == 'O' {
        Some(Op::GetOutputRadix)
    } else if c == 'K' {
        Some(Op::GetPrecision)
    } else {
        None
    }
}

fn is_blank_char(c: char) -> (r: bool)
    ensures
        r == is_blank(c),
{
    let u = c as u32;
    (0x09 <= u && u <= 0x0d) || u == 0x20 || u == 0x85 || u == 0xa0 || u == 0x1680 || (0x2000
        <= u && u <= 0x200a) || u == 0x2028 || u == 0x2029 || u == 0x202f || u == 0x205f || u
        == 0x3000
}

fn is_digit(c: char) -> (r: bool)
    ensures
        r == is_digit_char(c),
{
    '0' <= c && c <= '9'
}

/// Splits `input` into operations. Commands are single characters; a
/// literal is `_` or a digit followed by digits, and ends at the first other
/// character. Blanks only separate. The whole input is refused, naming the
/// culprit, at the first unknown character or malformed literal.
pub fn tokenize(input: &str) -> (r: Result<Vec<Op>, String>)
    ensures
        lexed(r) == lex(input@),
{
    let n = input.unicode_len();
    let mut tokens: Vec<Op> = Vec::new();
    let mut i: usize = 0;
    assert(input@.skip(0) =~= input@);
    assert(tokens@.map_values(|o: Op| o@) =~= Seq::<OpView>::empty());
    while i < n
        invariant
            n == input@.len(),
            i <= n,
            lex(input@) == prepend(tokens@.map_values(|o: Op| o@), lex(input@.skip(i as int))),
        decreases n - i,
    {
        let ghost rest = input@.skip(i as int);
        let ghost done = tokens@.map_values(|o: Op| o@);
        let c = input.get_char(i);
        assert(rest[0] == c);
        assert(rest.drop_first() =~= input@.skip(i + 1));
        match command_op(c) {
            Some(op) => {
                let ghost v = op@;
                tokens.push(op);
                proof {
                    lemma_prepend_twice(done, seq![v], lex(input@.skip(i + 1)));
                    assert(tokens@.map_values(|o: Op| o@) =~= done + seq![v]);
                }
                i += 1;
            },
            None => {
                if c == '_' || is_digit(c) {
                    let mut text: Vec<u8> = Vec::new();
                    if c == '_' {
                        text.push(45u8);
                    } else {
                        text.push(c as u32 as u8);
                    }
                    let mut digits_only = true;
                    let mut j: usize = i + 1;
                    assert(input@.subrange(i as int, j as int) =~= seq![c]);
                    assert(text@ =~= literal_text(input@.subrange(i as int, j as int)));
                    while j < n && continues(input, j)
                        invariant
                            n == input@.len(),
                            i < j <= n,
                            literal_run(input@.skip(i + 1)) == (j - i - 1) + literal_run(
                                input@.skip(j as int),
                            ),
                            text@ == literal_text(input@.subrange(i as int, j as int)),
                            digits_only == forall|k: int|
                                i + 1 <= k < j ==> is_digit_char(#[trigger] input@[k]),
                        decreases n - j,
                    {
                        let d = input.get_char(j);
                        assert(input@.skip(j as int).drop_first() =~= input@.skip(j + 1));
                        text.push(d as u32 as u8);
                        if d == '.' {
                            digits_only = false;
                        }
                        assert(input@.subrange(i as int, j + 1) =~= input@.subrange(
                            i as int,
                            j as int,
                        ).push(d));
                        assert(text@ =~= literal_text(input@.subrange(i as int, j + 1)));
                        j += 1;
                    }
                    let ghost lit = input@.subrange(i as int, j as int);
                    assert(rest.take(literal_len(rest) as int) =~= lit);
                    assert(rest.skip(literal_len(rest) as int) =~= input@.skip(j as int));
                    let parsed = if digits_only && (c != '_' || j - i > 1) {
                        big_parse_decimal(text.as_slice())
                    } else {
                        None
                    };
                    match parsed {
                        Some(num) => {
                            let ghost v = num@;
                            tokens.push(Op::Push(num));
                            proof {
                                lemma_prepend_twice(
                                    done,
                                    seq![OpView::Push(v)],
                                    lex(input@.skip(j as int)),
                                );
                                assert(tokens@.map_values(|o: Op| o@) =~= done + seq![
                                    OpView::Push(v),
                                ]);
                            }
                            i = j;
                        },
                        None => {
                            proof {
                                assert(lit[0] == c);
                                if !digits_only {
                                    let k = choose|k: int|
                                        i + 1 <= k < j && !is_digit_char(#[trigger] input@[k]);
                                    assert(lit[k - i] == input@[k]);
                                }
                            }
                            let mut msg = String::from_str("Unable to parse number: ");
                            msg.append(input.substring_char(i, j));
                            return Err(msg);
                        },
                    }
                } else if is_blank_char(c) {
                    i += 1;
                } else {
                    let mut msg = String::from_str("Unknown operation: ");
                    let culprit = input.substring_char(i, i + 1);
                    assert(culprit@ =~= seq![c]);
                    msg.append(culprit);
                    return Err(msg);
                }
            },
        }
    }
    assert(input@.skip(n as int) =~= Seq::<char>::empty());
    Ok(tokens)
}

fn continues(input: &str, j: usize) -> (r: bool)
    requires
        j < input@.len(),
    ensures
        r == continues_literal(input@[j as int]),
{
    let d = input.get_char(j);
    d == '.' || is_digit(d)
}

} // verus!
