use imastack::ast::compile_program;
use imastack::ast::float::Float;
use imastack::ast::split_words;
use imastack::machine::{step, Arith, Step};
use imastack::words::Env;

fn num(x: f64) -> Float {
    Float(x.to_bits())
}

/// Runs a line to its end, doing the host's part with `f64`.
fn eval(code: &str) -> Env {
    let tokens = split_words(code);
    let literals: Vec<Option<Float>> = tokens.iter().map(|t| t.parse::<f64>().ok().map(num)).collect();
    let program = compile_program(&tokens, &literals);
    let mut env = Env::new();
    let mut reg: usize = 0;
    loop {
        match step(&program, &mut env, &mut reg) {
            Step::Halted => break,
            Step::Ran => {}
            Step::Compute(op, a, b) => {
                let (x, y) = (f64::from_bits(a.0), f64::from_bits(b.0));
                let r = match op {
                    Arith::Add => x + y,
                    Arith::Sub => x - y,
                    Arith::Mul => x * y,
                    Arith::Div => x / y,
                };
                env.push(num(r));
            }
        }
    }
    env
}

#[test]
fn basic_add() {
    assert_eq!(eval("1 2 + print").output, vec![num(3.0)]);
}

#[test]
fn basic_mul() {
    assert_eq!(eval("3 3 * print").output, vec![num(9.0)]);
}

#[test]
fn div_by_zero_is_zero() {
    assert_eq!(eval("0 1 / print").output, vec![num(0.0)]);
}

#[test]
fn basic_swp() {
    assert_eq!(eval("1 2 swp print print").output, vec![num(1.0), num(2.0)]);
}

#[test]
fn basic_dup() {
    assert_eq!(eval("1 dup print print").output, vec![num(1.0), num(1.0)]);
}

#[test]
fn basic_jnz() {
    assert_eq!(eval("1 4 jnz 0 1 print").output, vec![num(1.0)]);
}

#[test]
fn sub_is_second_popped_minus_top() {
    assert_eq!(eval("1 2 - print").output, vec![num(-1.0)]);
    assert_eq!(eval("7 2 - print").output, vec![num(5.0)]);
}

#[test]
fn div_is_second_popped_over_top() {
    assert_eq!(eval("3 6 / print").output, vec![num(0.5)]);
    assert_eq!(eval("6 3 / print").output, vec![num(2.0)]);
}

#[test]
fn arithmetic_on_fractions() {
    assert_eq!(eval("2.5 0.25 + print").output, vec![num(2.75)]);
    assert_eq!(eval("1.5 -2 * print").output, vec![num(-3.0)]);
}

#[test]
fn division_by_either_zero_is_zero() {
    assert_eq!(eval("5 0 / print").output, vec![num(0.0)]);
    assert_eq!(eval("-5 -0 / print").output, vec![num(0.0)]);
    assert_eq!(eval("/ print").output, vec![num(0.0)]);
}

#[test]
fn swapping_exchanges_the_top_two() {
    assert_eq!(eval("1 2 print print").output, vec![num(2.0), num(1.0)]);
    assert_eq!(eval("7 swp print print").output, vec![num(0.0), num(7.0)]);
}

#[test]
fn dup_on_empty_stack_gives_two_zeros() {
    assert_eq!(eval("dup print print print").output, vec![num(0.0), num(0.0), num(0.0)]);
}

#[test]
fn empty_stack_add_prints_zero() {
    assert_eq!(eval("+ print").output, vec![num(0.0)]);
}

#[test]
fn malformed_literal_is_zero() {
    assert_eq!(eval("abc print").output, vec![num(0.0)]);
}

#[test]
fn same_line_twice_gives_same_output() {
    let line = "2 3 * dup + 1 swp - print 0 jnz print";
    let first = eval(line).output;
    let second = eval(line).output;
    assert_eq!(first, second);
    assert_eq!(first, vec![num(-11.0), num(0.0)]);
}

#[test]
fn untaken_jump_falls_through() {
    assert_eq!(eval("0 4 jnz 7 print").output, vec![num(7.0)]);
}

#[test]
fn jump_past_the_end_halts() {
    let env = eval("1 99 jnz 5 print");
    assert_eq!(env.output, Vec::<Float>::new());
    assert_eq!(env.stack, Vec::<Float>::new());
}

#[test]
fn backward_jump_loops_until_condition_is_zero() {
    // prints 3, 2, 1, jumping back to the `dup` while the count is not zero
    let env = eval("3 dup print 1 - dup 1 jnz");
    assert_eq!(env.output, vec![num(3.0), num(2.0), num(1.0)]);
    assert_eq!(env.stack, vec![num(0.0)]);
}

#[test]
fn empty_line_prints_nothing() {
    let env = eval("");
    assert_eq!(env.output, Vec::<Float>::new());
    assert_eq!(env.stack, vec![num(0.0)]);
}

#[test]
fn adjacent_spaces_give_zero_literals() {
    assert_eq!(eval("5  print print").output, vec![num(0.0), num(5.0)]);
}

#[test]
fn print_on_empty_stack_prints_zero() {
    assert_eq!(eval("print").output, vec![num(0.0)]);
}
