use dc::calculator::{Calculator, OpResult, StackValue};
use dc::num::Num;
use num_bigint::BigInt;

fn number(v: i64) -> StackValue {
    StackValue::Number(Num::from_i64(v))
}

fn depth(calculator: &Calculator) -> usize {
    calculator.iter().len()
}

fn values(calculator: &Calculator) -> Vec<StackValue> {
    calculator.iter().to_vec()
}

#[test]
fn calculator_test_new() {
    let calculator = Calculator::new();
    assert_eq!(depth(&calculator), 0);
    assert_eq!(calculator.precision(), 0);
    assert_eq!(calculator.input_radix(), 10);
    assert_eq!(calculator.output_radix(), 10);
}

#[test]
fn calculator_test_push() {
    let mut calculator = Calculator::new();
    assert_eq!(depth(&calculator), 0);
    calculator.push(number(42)).unwrap();
    assert_eq!(depth(&calculator), 1);
    assert_eq!(*calculator.peek().unwrap(), number(42));
}

#[test]
fn calculator_test_pop() {
    let mut calculator = Calculator::new();
    calculator.push(number(42)).unwrap();
    assert_eq!(depth(&calculator), 1);
    assert_eq!(calculator.pop(), Some(number(42)));
    assert_eq!(depth(&calculator), 0);
}

#[test]
fn calculator_test_pop_empty() {
    let mut calculator = Calculator::new();
    assert_eq!(depth(&calculator), 0);
    assert_eq!(calculator.pop(), None);
    assert_eq!(depth(&calculator), 0);
}

#[test]
fn calculator_test_peek() {
    let mut calculator = Calculator::new();
    calculator.push(number(42)).unwrap();
    assert_eq!(depth(&calculator), 1);
    assert_eq!(calculator.peek(), Some(&number(42)));
    assert_eq!(depth(&calculator), 1);
}

#[test]
fn calculator_test_peek_empty() {
    let calculator = Calculator::new();
    assert_eq!(depth(&calculator), 0);
    assert_eq!(calculator.peek(), None);
    assert_eq!(depth(&calculator), 0);
}

#[test]
fn calculator_test_iter() {
    let mut calculator = Calculator::new();
    calculator.push(number(1)).unwrap();
    calculator.push(number(2)).unwrap();
    calculator.push(number(3)).unwrap();

    let mut result = Vec::new();
    for StackValue::Number(i) in calculator.iter() {
        result.push(i.clone());
    }

    assert_eq!(result, vec![Num::from_i64(1), Num::from_i64(2), Num::from_i64(3)]);
}

#[test]
fn calculator_test_clear() {
    let mut calculator = Calculator::new();
    calculator.push(number(1)).unwrap();
    calculator.push(number(2)).unwrap();
    calculator.push(number(3)).unwrap();
    assert_eq!(depth(&calculator), 3);
    calculator.clear().unwrap();
    assert_eq!(depth(&calculator), 0);
}

#[test]
fn calculator_test_clear_empty() {
    let mut calculator = Calculator::new();
    assert_eq!(depth(&calculator), 0);
    calculator.clear().unwrap();
    assert_eq!(depth(&calculator), 0);
}

#[test]
fn calculator_test_reverse() {
    let mut calculator = Calculator::new();
    calculator.push(number(4)).unwrap();
    calculator.push(number(5)).unwrap();
    calculator.reverse().unwrap();
    assert_eq!(depth(&calculator), 2);
    assert_eq!(*calculator.iter().first().unwrap(), number(5));
    assert_eq!(*calculator.peek().unwrap(), number(4));
}

#[test]
fn calculator_test_reverse_singleton() {
    let mut calculator = Calculator::new();
    calculator.push(number(4)).unwrap();
    calculator.reverse().unwrap();
    assert_eq!(depth(&calculator), 1);
    assert_eq!(*calculator.peek().unwrap(), number(4));
}

#[test]
fn calculator_test_add() {
    let mut calculator = Calculator::new();
    calculator.push(number(4)).unwrap();
    calculator.push(number(5)).unwrap();
    calculator.add().unwrap();
    assert_eq!(depth(&calculator), 1);
    assert_eq!(*calculator.peek().unwrap(), number(9));
}

#[test]
fn calculator_test_sub() {
    let mut calculator = Calculator::new();
    calculator.push(number(4)).unwrap();
    calculator.push(number(5)).unwrap();
    calculator.sub().unwrap();
    assert_eq!(depth(&calculator), 1);
    assert_eq!(*calculator.peek().unwrap(), number(-1));
}

#[test]
fn calculator_test_mul() {
    let mut calculator = Calculator::new();
    calculator.push(number(4)).unwrap();
    calculator.push(number(5)).unwrap();
    calculator.mul().unwrap();
    assert_eq!(depth(&calculator), 1);
    assert_eq!(*calculator.peek().unwrap(), number(20));
}

#[test]
fn calculator_test_div() {
    let mut calculator = Calculator::new();
    calculator.push(number(20)).unwrap();
    calculator.push(number(5)).unwrap();
    calculator.div().unwrap();
    assert_eq!(depth(&calculator), 1);
    assert_eq!(*calculator.peek().unwrap(), number(4));
}

#[test]
fn calculator_test_modulo() {
    let mut calculator = Calculator::new();
    calculator.push(number(10)).unwrap();
    calculator.push(number(6)).unwrap();
    calculator.modulo().unwrap();
    assert_eq!(depth(&calculator), 1);
    assert_eq!(*calculator.peek().unwrap(), number(4));
}

#[test]
fn calculator_test_div_rem() {
    let mut calculator = Calculator::new();
    calculator.push(number(10)).unwrap();
    calculator.push(number(6)).unwrap();
    calculator.div_rem().unwrap();
    assert_eq!(depth(&calculator), 2);
    assert_eq!(*calculator.iter().first().unwrap(), number(4));
    assert_eq!(*calculator.peek().unwrap(), number(1));
}

#[test]
fn calculator_test_exp() {
    let mut calculator = Calculator::new();
    calculator.push(number(2)).unwrap();
    calculator.push(number(10)).unwrap();
    calculator.exp().unwrap();
    assert_eq!(depth(&calculator), 1);
    assert_eq!(*calculator.peek().unwrap(), number(1024));
}

#[test]
fn calculator_test_sqrt() {
    let mut calculator = Calculator::new();
    calculator.push(number(10_000)).unwrap();
    calculator.sqrt().unwrap();
    assert_eq!(depth(&calculator), 1);
    assert_eq!(*calculator.peek().unwrap(), number(100));
}

#[test]
fn calculator_test_mod_exp() {
    let mut calculator = Calculator::new();
    calculator.push(number(4)).unwrap();
    calculator.push(number(13)).unwrap();
    calculator.push(number(497)).unwrap();
    calculator.mod_exp().unwrap();
    assert_eq!(depth(&calculator), 1);
    assert_eq!(*calculator.peek().unwrap(), number(445));
}

#[test]
fn calculator_test_get_input_radix() {
    let mut calculator = Calculator::new();
    calculator.get_input_radix().unwrap();
    assert_eq!(depth(&calculator), 1);
    assert_eq!(*calculator.peek().unwrap(), number(calculator.input_radix() as i64));
}

#[test]
fn calculator_test_get_output_radix() {
    let mut calculator = Calculator::new();
    calculator.get_output_radix().unwrap();
    assert_eq!(depth(&calculator), 1);
    assert_eq!(*calculator.peek().unwrap(), number(calculator.output_radix() as i64));
}

#[test]
fn calculator_test_get_precision() {
    let mut calculator = Calculator::new();
    calculator.get_precision().unwrap();
    assert_eq!(depth(&calculator), 1);
    assert_eq!(*calculator.peek().unwrap(), number(calculator.precision() as i64));
}

#[test]
fn calculator_test_set_input_radix() {
    let mut calculator = Calculator::new();
    calculator.push(number(42)).unwrap();
    calculator.set_input_radix().unwrap();
    assert_eq!(depth(&calculator), 0);
    assert_eq!(calculator.input_radix(), 42);
    assert_eq!(calculator.output_radix(), 10);
    assert_eq!(calculator.precision(), 0);
}

#[test]
fn calculator_test_set_output_radix() {
    let mut calculator = Calculator::new();
    calculator.push(number(42)).unwrap();
    calculator.set_output_radix().unwrap();
    assert_eq!(depth(&calculator), 0);
    assert_eq!(calculator.input_radix(), 10);
    assert_eq!(calculator.output_radix(), 42);
    assert_eq!(calculator.precision(), 0);
}

#[test]
fn calculator_test_set_precision() {
    let mut calculator = Calculator::new();
    calculator.push(number(42)).unwrap();
    calculator.set_precision().unwrap();
    assert_eq!(depth(&calculator), 0);
    assert_eq!(calculator.input_radix(), 10);
    assert_eq!(calculator.output_radix(), 10);
    assert_eq!(calculator.precision(), 42);
}

fn big(text: &str) -> Num {
    Num::from_signed_bytes_le(BigInt::parse_bytes(text.as_bytes(), 10).unwrap().to_signed_bytes_le())
}

#[test]
fn test_bignum() {
    let mut calculator = Calculator::new();
    let expected = big("15241578780673678515622620750190521");
    calculator.push(StackValue::Number(big("123456789123456789"))).unwrap();
    calculator.push(number(2)).unwrap();
    calculator.exp().unwrap();
    assert_eq!(&StackValue::Number(expected), calculator.peek().unwrap());
}

// Further cases.

fn with(values: &[i64]) -> Calculator {
    let mut calculator = Calculator::new();
    for v in values {
        calculator.push(number(*v)).unwrap();
    }
    calculator
}

fn stack_of(values: &[i64]) -> Vec<StackValue> {
    values.iter().map(|v| number(*v)).collect()
}

#[test]
fn truncating_division_and_remainder() {
    for (a, b) in [(17, 5), (-17, 5), (17, -5), (-17, -5), (0, 3), (4, 7)] {
        let mut d = with(&[a, b]);
        d.div().unwrap();
        let mut m = with(&[a, b]);
        m.modulo().unwrap();
        let mut dr = with(&[a, b]);
        dr.div_rem().unwrap();
        let q = a / b;
        let r = a % b;
        assert_eq!(values(&d), stack_of(&[q]));
        assert_eq!(values(&m), stack_of(&[r]));
        assert_eq!(values(&dr), stack_of(&[r, q]));
        assert_eq!(a, b * q + r);
    }
    let mut c = with(&[-17, 5]);
    c.div_rem().unwrap();
    assert_eq!(values(&c), stack_of(&[-2, -3]));
}

#[test]
fn duplicate_copies_top_or_does_nothing() {
    let mut c = with(&[7]);
    assert_eq!(c.duplicate(), Ok(OpResult::Continue));
    assert_eq!(values(&c), stack_of(&[7, 7]));
    let mut e = Calculator::new();
    assert_eq!(e.duplicate(), Ok(OpResult::Continue));
    assert_eq!(depth(&e), 0);
}

#[test]
fn reverse_on_short_stacks() {
    let mut c = with(&[1, 2, 3]);
    c.reverse().unwrap();
    assert_eq!(values(&c), stack_of(&[1, 3, 2]));
    let mut e = Calculator::new();
    assert_eq!(e.reverse(), Ok(OpResult::Continue));
    assert_eq!(depth(&e), 0);
}

#[test]
fn mod_exp_with_modulus_one_is_zero() {
    for (base, exponent) in [(0, 0), (5, 0), (-3, 7), (123, 45)] {
        let mut c = with(&[base, exponent, 1]);
        c.mod_exp().unwrap();
        assert_eq!(values(&c), stack_of(&[0]));
    }
}

#[test]
fn mod_exp_matches_naive_product() {
    for base in -6i64..=6 {
        for exponent in 0i64..=9 {
            for modulus in 1i64..=8 {
                let mut c = with(&[base, exponent, modulus]);
                c.mod_exp().unwrap();
                let mut naive = 1i64 % modulus;
                for _ in 0..exponent {
                    naive = (naive * base) % modulus;
                }
                assert_eq!(values(&c), stack_of(&[naive]), "{} {} {}", base, exponent, modulus);
            }
        }
    }
}

#[test]
fn mod_exp_large_exponent() {
    let mut c = Calculator::new();
    c.push(number(2)).unwrap();
    c.push(StackValue::Number(big("1000000000000000000000000000000"))).unwrap();
    c.push(number(1_000_000_007)).unwrap();
    c.mod_exp().unwrap();
    let expected = BigInt::from(2).modpow(
        &BigInt::parse_bytes(b"1000000000000000000000000000000", 10).unwrap(),
        &BigInt::from(1_000_000_007),
    );
    let expected = Num::from_signed_bytes_le(expected.to_signed_bytes_le());
    assert_eq!(*c.peek().unwrap(), StackValue::Number(expected));
}

fn error_of(result: Result<OpResult, String>) -> String {
    result.unwrap_err()
}

#[test]
fn underflow_leaves_stack_alone() {
    let mut c = with(&[1]);
    assert_eq!(error_of(c.add()), "stack empty!");
    assert_eq!(error_of(c.div_rem()), "stack empty!");
    assert_eq!(error_of(c.exp()), "stack empty!");
    let mut m = with(&[1, 2]);
    assert_eq!(error_of(m.mod_exp()), "stack empty!");
    assert_eq!(values(&m), stack_of(&[1, 2]));
    let mut e = Calculator::new();
    assert_eq!(error_of(e.sqrt()), "stack empty!");
    assert_eq!(error_of(e.set_precision()), "stack empty!");
    assert_eq!(values(&c), stack_of(&[1]));
}

#[test]
fn division_by_zero_is_refused() {
    let mut c = with(&[5, 0]);
    assert_eq!(error_of(c.div()), "division by zero");
    assert_eq!(error_of(c.modulo()), "division by zero");
    assert_eq!(error_of(c.div_rem()), "division by zero");
    assert_eq!(values(&c), stack_of(&[5, 0]));
}

#[test]
fn exponent_errors() {
    let mut c = with(&[2, -1]);
    assert_eq!(error_of(c.exp()), "exponent must be non-negative");
    assert_eq!(values(&c), stack_of(&[2, -1]));
    let mut h = Calculator::new();
    h.push(number(2)).unwrap();
    h.push(StackValue::Number(big("340282366920938463463374607431768211456"))).unwrap();
    assert_eq!(error_of(h.exp()), "exponent too large");
    assert_eq!(depth(&h), 2);
    let mut z = with(&[-3, 3]);
    z.exp().unwrap();
    assert_eq!(values(&z), stack_of(&[-27]));
    let mut o = with(&[7, 0]);
    o.exp().unwrap();
    assert_eq!(values(&o), stack_of(&[1]));
}

#[test]
fn sqrt_values_and_negative() {
    for (x, r) in [(0, 0), (1, 1), (15, 3), (16, 4), (17, 4), (99, 9)] {
        let mut c = with(&[x]);
        c.sqrt().unwrap();
        assert_eq!(values(&c), stack_of(&[r]));
    }
    let mut n = with(&[-4]);
    assert_eq!(error_of(n.sqrt()), "square root of a negative number");
    assert_eq!(values(&n), stack_of(&[-4]));
}

#[test]
fn mod_exp_operand_errors() {
    let mut c = with(&[2, 3, 0]);
    assert_eq!(error_of(c.mod_exp()), "modulus must be positive");
    let mut n = with(&[2, 3, -5]);
    assert_eq!(error_of(n.mod_exp()), "modulus must be positive");
    let mut e = with(&[2, -3, 5]);
    assert_eq!(error_of(e.mod_exp()), "exponent must be non-negative");
    assert_eq!(values(&e), stack_of(&[2, -3, 5]));
    let mut neg = with(&[-4, 3, 5]);
    neg.mod_exp().unwrap();
    assert_eq!(values(&neg), stack_of(&[-4]));
}

#[test]
fn register_out_of_range_is_refused() {
    let mut c = with(&[256]);
    assert_eq!(error_of(c.set_input_radix()), "value out of range for a register");
    assert_eq!(values(&c), stack_of(&[256]));
    let mut n = with(&[-1]);
    assert_eq!(error_of(n.set_output_radix()), "value out of range for a register");
    let mut top = with(&[255]);
    top.set_precision().unwrap();
    assert_eq!(top.precision(), 255);
    top.get_precision().unwrap();
    assert_eq!(values(&top), stack_of(&[255]));
}

#[test]
fn arithmetic_on_big_values() {
    let a = "123456789012345678901234567890";
    let b = "987654321098765432109876543210";
    let mut c = Calculator::new();
    c.push(StackValue::Number(big(a))).unwrap();
    c.push(StackValue::Number(big(b))).unwrap();
    c.add().unwrap();
    assert_eq!(values(&c), vec![StackValue::Number(big("1111111110111111111011111111100"))]);
    c.push(StackValue::Number(big(b))).unwrap();
    c.sub().unwrap();
    assert_eq!(values(&c), vec![StackValue::Number(big(a))]);
    c.push(number(-1)).unwrap();
    c.mul().unwrap();
    assert_eq!(values(&c), vec![StackValue::Number(big("-123456789012345678901234567890"))]);
}

#[test]
fn huge_exponent_of_zero_one_and_minus_one() {
    let even = "340282366920938463463374607431768211456";
    let odd = "340282366920938463463374607431768211457";
    for (base, exponent, expected) in [(1, even, 1), (0, odd, 0), (-1, even, 1), (-1, odd, -1)] {
        let mut c = with(&[base]);
        c.push(StackValue::Number(big(exponent))).unwrap();
        assert_eq!(c.exp(), Ok(OpResult::Continue));
        assert_eq!(values(&c), stack_of(&[expected]));
    }
    let mut c = with(&[-2]);
    c.push(StackValue::Number(big(odd))).unwrap();
    assert_eq!(error_of(c.exp()), "exponent too large");
    assert_eq!(c.iter().len(), 2);
}
