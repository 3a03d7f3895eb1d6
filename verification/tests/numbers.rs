use rlox::number::{is_less, is_less_or_same, is_not_a_number, is_same, negate};
use rlox::token::{Literal, Token, TokenType};
use rlox::value::{
    apply_arithmetic, apply_string_operation, apply_unary, RuntimeError, Value,
};

fn samples() -> Vec<f64> {
    vec![
        0.0,
        -0.0,
        1.0,
        -1.0,
        0.5,
        -0.5,
        5e-324,
        -5e-324,
        2.2250738585072014e-308,
        1.7976931348623157e308,
        -1.7976931348623157e308,
        f64::INFINITY,
        f64::NEG_INFINITY,
        f64::NAN,
        -f64::NAN,
        f64::from_bits(0x7ff0_0000_0000_0001),
        f64::from_bits(0xfff8_0000_0000_0000),
        3.0,
        1e10,
        -1e-10,
    ]
}

fn op(tok_type: TokenType, lexeme: &str) -> Token {
    Token::new(tok_type, String::from(lexeme), Literal::Nil, 1)
}

fn number(result: Result<Value, RuntimeError>) -> f64 {
    match result {
        Ok(Value::Number(bits)) => f64::from_bits(bits),
        other => panic!("{:?}", other),
    }
}

fn truth(result: Result<Value, RuntimeError>) -> bool {
    match result {
        Ok(Value::Bool(truth)) => truth,
        other => panic!("{:?}", other),
    }
}

#[test]
fn negate_flips_the_sign_bit() {
    for a in samples() {
        assert_eq!(negate(a.to_bits()), (-a).to_bits(), "{}", a);
        assert_eq!(negate(negate(a.to_bits())), a.to_bits());
    }
    assert_eq!(negate(0), 0x8000_0000_0000_0000);
    assert_eq!(negate(0x8000_0000_0000_0000), 0);
}

#[test]
fn nan_is_recognised() {
    for a in samples() {
        assert_eq!(is_not_a_number(a.to_bits()), a.is_nan(), "{}", a);
    }
    assert!(!is_not_a_number(0x7ff0_0000_0000_0000));
    assert!(is_not_a_number(0x7ff0_0000_0000_0001));
    assert!(!is_not_a_number(0xfff0_0000_0000_0000));
    assert!(is_not_a_number(0xffff_ffff_ffff_ffff));
}

#[test]
fn comparisons_agree_with_the_machine() {
    for a in samples() {
        for b in samples() {
            let (x, y) = (a.to_bits(), b.to_bits());
            assert_eq!(is_less(x, y), a < b, "{} < {}", a, b);
            assert_eq!(is_less_or_same(x, y), a <= b, "{} <= {}", a, b);
            assert_eq!(is_same(x, y), a == b, "{} == {}", a, b);
        }
    }
}

#[test]
fn zeros_are_the_same_and_neither_is_less() {
    let (plus, minus) = (0.0f64.to_bits(), (-0.0f64).to_bits());
    assert!(is_same(plus, minus));
    assert!(!is_less(minus, plus));
    assert!(!is_less(plus, minus));
    assert!(is_less_or_same(minus, plus));
}

#[test]
fn operators_on_numbers_agree_with_the_machine() {
    for a in samples() {
        for b in samples() {
            let (x, y) = (a.to_bits(), b.to_bits());
            let checks = [
                (TokenType::Plus, "+", a + b),
                (TokenType::Minus, "-", a - b),
                (TokenType::Star, "*", a * b),
                (TokenType::Slash, "/", a / b),
                (TokenType::Modulo, "%", a % b),
            ];
            for (tok_type, lexeme, want) in checks {
                let got = number(apply_arithmetic(&op(tok_type, lexeme), x, y));
                if want.is_nan() {
                    assert!(got.is_nan(), "{} {} {}", a, lexeme, b);
                } else {
                    assert_eq!(got.to_bits(), want.to_bits(), "{} {} {}", a, lexeme, b);
                }
            }
            let checks = [
                (TokenType::Greater, ">", a > b),
                (TokenType::GreaterEqual, ">=", a >= b),
                (TokenType::Less, "<", a < b),
                (TokenType::LessEqual, "<=", a <= b),
                (TokenType::EqualEqual, "==", a == b),
                (TokenType::BangEqual, "!=", a != b),
            ];
            for (tok_type, lexeme, want) in checks {
                let got = truth(apply_arithmetic(&op(tok_type, lexeme), x, y));
                assert_eq!(got, want, "{} {} {}", a, lexeme, b);
            }
        }
    }
}

#[test]
fn rounding_is_to_nearest_even() {
    let plus = op(TokenType::Plus, "+");
    let a = 9007199254740992.0f64;
    assert_eq!(number(apply_arithmetic(&plus, a.to_bits(), 1.0f64.to_bits())), 9007199254740992.0);
    assert_eq!(number(apply_arithmetic(&plus, a.to_bits(), 3.0f64.to_bits())), 9007199254740996.0);
    let star = op(TokenType::Star, "*");
    let big = 1.7976931348623157e308f64;
    assert_eq!(number(apply_arithmetic(&star, big.to_bits(), 2.0f64.to_bits())), f64::INFINITY);
    let slash = op(TokenType::Slash, "/");
    assert_eq!(number(apply_arithmetic(&slash, 5e-324f64.to_bits(), 2.0f64.to_bits())), 0.0);
    assert_eq!(
        number(apply_arithmetic(&slash, 1.0f64.to_bits(), 3.0f64.to_bits())),
        0.3333333333333333
    );
}

#[test]
fn a_token_that_is_no_operator_is_refused() {
    for tok_type in [TokenType::Comma, TokenType::Bang, TokenType::Equal, TokenType::And] {
        match apply_arithmetic(&op(tok_type, "?"), 1.0f64.to_bits(), 2.0f64.to_bits()) {
            Err(RuntimeError::UnknownOperator(found)) => assert_eq!(found.tok_type, tok_type),
            other => panic!("{:?}", other),
        }
    }
}

#[test]
fn plus_after_a_string() {
    let plus = op(TokenType::Plus, "+");
    match apply_string_operation(&plus, String::from("ab"), Value::String(String::from("cd"))) {
        Ok(Value::String(text)) => assert_eq!(text, "abcd"),
        other => panic!("{:?}", other),
    }
    for right in [Value::Number(0), Value::Bool(true), Value::Nil] {
        assert!(matches!(
            apply_string_operation(&plus, String::from("ab"), right),
            Err(RuntimeError::StringExpected(_))
        ));
    }
    let minus = op(TokenType::Minus, "-");
    assert!(matches!(
        apply_string_operation(&minus, String::from("ab"), Value::String(String::from("cd"))),
        Err(RuntimeError::NumberExpected(_))
    ));
    assert!(matches!(
        apply_string_operation(&minus, String::from("ab"), Value::Number(0)),
        Err(RuntimeError::NumberExpected(_))
    ));
}

#[test]
fn prefix_operators_on_values() {
    let minus = op(TokenType::Minus, "-");
    let plus = op(TokenType::Plus, "+");
    let bang = op(TokenType::Bang, "!");
    let star = op(TokenType::Star, "*");
    assert_eq!(number(apply_unary(&minus, Value::Number(2.5f64.to_bits()))), -2.5);
    assert_eq!(number(apply_unary(&plus, Value::Number(2.5f64.to_bits()))), 2.5);
    assert!(!truth(apply_unary(&bang, Value::Number(0))));
    assert!(!truth(apply_unary(&bang, Value::Bool(false))));
    assert!(!truth(apply_unary(&bang, Value::Nil)));
    assert!(!truth(apply_unary(&bang, Value::String(String::new()))));
    assert!(matches!(
        apply_unary(&star, Value::Number(0)),
        Err(RuntimeError::UnknownOperator(_))
    ));
    assert!(matches!(
        apply_unary(&minus, Value::String(String::from("a"))),
        Err(RuntimeError::NumberExpected(_))
    ));
    assert!(matches!(apply_unary(&plus, Value::Nil), Err(RuntimeError::NumberExpected(_))));
    assert!(matches!(apply_unary(&star, Value::Nil), Err(RuntimeError::NumberExpected(_))));
}

#[test]
fn truthiness() {
    assert!(Value::Bool(true).is_truthy());
    assert!(!Value::Bool(false).is_truthy());
    assert!(!Value::Nil.is_truthy());
    assert!(Value::Number(0).is_truthy());
    assert!(Value::Number(f64::NAN.to_bits()).is_truthy());
    assert!(Value::String(String::new()).is_truthy());
}

#[test]
fn literal_values() {
    assert!(matches!(Value::of_literal(&Literal::Number(7)), Value::Number(7)));
    assert!(matches!(Value::of_literal(&Literal::True), Value::Bool(true)));
    assert!(matches!(Value::of_literal(&Literal::False), Value::Bool(false)));
    assert!(matches!(Value::of_literal(&Literal::Nil), Value::Nil));
    match Value::of_literal(&Literal::String(String::from("s"))) {
        Value::String(text) => assert_eq!(text, "s"),
        other => panic!("{:?}", other),
    }
}

fn next(state: &mut u64) -> u64 {
    *state ^= *state << 13;
    *state ^= *state >> 7;
    *state ^= *state << 17;
    *state
}

#[test]
fn operators_agree_with_the_machine_on_many_patterns() {
    let mut state: u64 = 0x9e37_79b9_7f4a_7c15;
    let plus = op(TokenType::Plus, "+");
    let minus = op(TokenType::Minus, "-");
    let star = op(TokenType::Star, "*");
    let slash = op(TokenType::Slash, "/");
    let modulo = op(TokenType::Modulo, "%");
    for round in 0..4000 {
        let mut x = next(&mut state);
        let mut y = next(&mut state);
        if round % 4 == 1 {
            // Close exponents, so that sums cancel and quotients stay small.
            y = (x & 0xfff0_0000_0000_0000) | (y & 0x000f_ffff_ffff_ffff);
        }
        if round % 4 == 2 {
            // Subnormal and tiny operands.
            x &= 0x800f_ffff_ffff_ffff;
            y &= 0x803f_ffff_ffff_ffff;
        }
        let (a, b) = (f64::from_bits(x), f64::from_bits(y));
        let checks = [
            (&plus, a + b),
            (&minus, a - b),
            (&star, a * b),
            (&slash, a / b),
            (&modulo, a % b),
        ];
        for (token, want) in checks {
            let got = number(apply_arithmetic(token, x, y));
            if want.is_nan() {
                assert!(got.is_nan(), "{:x} {} {:x}", x, token.lexme, y);
            } else {
                assert_eq!(got.to_bits(), want.to_bits(), "{:x} {} {:x}", x, token.lexme, y);
            }
        }
        assert_eq!(is_less(x, y), a < b);
        assert_eq!(is_less_or_same(x, y), a <= b);
        assert_eq!(is_same(x, y), a == b);
        assert_eq!(is_not_a_number(x), a.is_nan());
        assert_eq!(negate(x), (-a).to_bits());
    }
}
