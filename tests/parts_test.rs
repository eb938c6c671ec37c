use imastack::ast::float::Float;
use imastack::ast::{compile_program, operator_word, split_words, Token};
use imastack::machine::{step, Arith, Step};
use imastack::words::Env;

fn num(x: f64) -> Float {
    Float(x.to_bits())
}

#[test]
fn index_truncates_toward_zero() {
    assert_eq!(num(4.0).to_index(), 4);
    assert_eq!(num(4.9).to_index(), 4);
    assert_eq!(num(0.5).to_index(), 0);
    assert_eq!(num(1.0).to_index(), 1);
    assert_eq!(num(12345.75).to_index(), 12345);
    assert_eq!(num(1152921504606846976.0).to_index(), 1usize << 60);
}

#[test]
fn index_saturates() {
    assert_eq!(num(-1.0).to_index(), 0);
    assert_eq!(num(-0.0).to_index(), 0);
    assert_eq!(num(f64::NAN).to_index(), 0);
    assert_eq!(num(f64::INFINITY).to_index(), usize::MAX);
    assert_eq!(num(f64::NEG_INFINITY).to_index(), 0);
    assert_eq!(num(1e30).to_index(), usize::MAX);
    assert_eq!(num(f64::MIN_POSITIVE).to_index(), 0);
}

#[test]
fn index_matches_the_cast() {
    for x in [0.0, 0.99, 1.5, 3.0, 1023.9, 65536.0, 4.5e15, 9.0e15, 1.8e19, 1.9e19, -7.0] {
        assert_eq!(num(x).to_index(), x as usize);
    }
}

#[test]
fn zero_test_covers_both_zeros() {
    assert!(num(0.0).is_zero());
    assert!(num(-0.0).is_zero());
    assert!(!num(5e-324).is_zero());
    assert!(!num(1.0).is_zero());
    assert!(!num(f64::NAN).is_zero());
}

#[test]
fn equality_is_ieee_equality() {
    assert!(num(0.0) == num(-0.0));
    assert!(num(f64::NAN) != num(f64::NAN));
    assert!(num(2.5) == num(2.5));
    assert!(num(2.5) != num(2.25));
    assert!(num(f64::NAN).is_nan());
    assert!(!num(f64::INFINITY).is_nan());
}

#[test]
fn zero_is_positive_zero() {
    assert_eq!(Float::zero().0, 0.0f64.to_bits());
}

#[test]
fn split_at_every_space() {
    assert_eq!(split_words("1 2 + print"), vec!["1", "2", "+", "print"]);
    assert_eq!(split_words("a  b"), vec!["a", "", "b"]);
    assert_eq!(split_words(""), vec![""]);
    assert_eq!(split_words(" x "), vec!["", "x", ""]);
    assert_eq!(split_words("é ü"), vec!["é", "ü"]);
}

#[test]
fn operator_words_are_recognised() {
    assert!(matches!(operator_word("+"), Some(Token::Add)));
    assert!(matches!(operator_word("-"), Some(Token::Sub)));
    assert!(matches!(operator_word("*"), Some(Token::Mul)));
    assert!(matches!(operator_word("/"), Some(Token::Div)));
    assert!(matches!(operator_word("dup"), Some(Token::Dup)));
    assert!(matches!(operator_word("swp"), Some(Token::Swp)));
    assert!(matches!(operator_word("jnz"), Some(Token::Jnz)));
    assert!(matches!(operator_word("print"), Some(Token::Print)));
    assert!(operator_word("prin").is_none());
    assert!(operator_word("Print").is_none());
    assert!(operator_word("++").is_none());
    assert!(operator_word("").is_none());
    assert!(operator_word("3").is_none());
}

#[test]
fn compile_maps_each_word_in_order() {
    let tokens = vec!["1.5", "dup", "x", "print"];
    let literals = vec![Some(num(1.5)), None, None, None];
    let program = compile_program(&tokens, &literals);
    assert_eq!(program.len(), 4);
    assert!(matches!(program[0], Token::Number(x) if x == num(1.5)));
    assert!(matches!(program[1], Token::Dup));
    assert!(matches!(program[2], Token::Number(x) if x.0 == 0));
    assert!(matches!(program[3], Token::Print));
}

#[test]
fn operator_words_win_over_literal_readings() {
    let program = compile_program(&["+"], &[Some(num(8.0))]);
    assert!(matches!(program[0], Token::Add));
}

#[test]
fn token_value() {
    assert_eq!(Token::Number(num(3.5)).value(), num(3.5));
    assert_eq!(Token::Print.value().0, 0);
}

#[test]
fn pop_on_empty_is_zero() {
    let mut env = Env::new();
    assert_eq!(env.pop().0, 0);
    env.push(num(2.0));
    env.push_number(num(3.0));
    assert_eq!(env.get_ops(), (num(3.0), num(2.0)));
    assert!(env.stack.is_empty());
}

#[test]
fn env_div_leaves_quotient_to_caller() {
    let mut env = Env::new();
    env.push(num(6.0));
    env.push(num(3.0));
    assert_eq!(env.div(), Some((num(6.0), num(3.0))));
    assert!(env.stack.is_empty());
    env.push(num(6.0));
    env.push(num(-0.0));
    assert_eq!(env.div(), None);
    assert_eq!(env.stack.len(), 1);
    assert_eq!(env.stack[0].0, 0);
}

#[test]
fn env_dup_swp_print() {
    let mut env = Env::new();
    env.push(num(1.0));
    env.push(num(2.0));
    env.swp();
    assert_eq!(env.stack, vec![num(2.0), num(1.0)]);
    env.dup();
    assert_eq!(env.stack, vec![num(2.0), num(1.0), num(1.0)]);
    env.print_float();
    env.print_float();
    env.print_float();
    env.print_float();
    assert_eq!(env.output, vec![num(1.0), num(1.0), num(2.0), num(0.0)]);
}

#[test]
fn env_jnz_sets_counter_only_when_taken() {
    let mut env = Env::new();
    let mut reg: usize = 9;
    env.push(num(1.0));
    env.push(num(3.7));
    assert!(env.jnz(&mut reg));
    assert_eq!(reg, 3);
    env.push(num(0.0));
    env.push(num(5.0));
    assert!(!env.jnz(&mut reg));
    assert_eq!(reg, 3);
    env.push(num(f64::NAN));
    env.push(num(2.0));
    assert!(env.jnz(&mut reg));
    assert_eq!(reg, 2);
}

#[test]
fn step_asks_for_arithmetic_with_left_operand_first() {
    let program = vec![Token::Number(num(10.0)), Token::Number(num(4.0)), Token::Sub];
    let mut env = Env::new();
    let mut reg: usize = 0;
    assert!(matches!(step(&program, &mut env, &mut reg), Step::Ran));
    assert!(matches!(step(&program, &mut env, &mut reg), Step::Ran));
    match step(&program, &mut env, &mut reg) {
        Step::Compute(op, a, b) => {
            assert_eq!(op, Arith::Sub);
            assert_eq!(a, num(10.0));
            assert_eq!(b, num(4.0));
        }
        _ => panic!("expected a request for arithmetic"),
    }
    assert_eq!(reg, 3);
    assert!(env.stack.is_empty());
    assert!(matches!(step(&program, &mut env, &mut reg), Step::Halted));
    assert_eq!(reg, 3);
}

#[test]
fn step_divides_by_zero_itself() {
    let program = vec![Token::Number(num(10.0)), Token::Number(num(0.0)), Token::Div];
    let mut env = Env::new();
    let mut reg: usize = 0;
    step(&program, &mut env, &mut reg);
    step(&program, &mut env, &mut reg);
    assert!(matches!(step(&program, &mut env, &mut reg), Step::Ran));
    assert_eq!(env.stack.len(), 1);
    assert_eq!(env.stack[0].0, 0);
}

#[test]
fn step_jump_has_no_increment_after_it() {
    let program = vec![Token::Number(num(1.0)), Token::Number(num(0.0)), Token::Jnz];
    let mut env = Env::new();
    let mut reg: usize = 0;
    step(&program, &mut env, &mut reg);
    step(&program, &mut env, &mut reg);
    step(&program, &mut env, &mut reg);
    assert_eq!(reg, 0);
}
