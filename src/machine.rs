//! The execution loop as a step machine. Each call of `step` runs the
//! instruction at the program counter. Arithmetic on two numbers is the one
//! thing it leaves to its caller: for `+`, `-`, `*` and `/` with a non-zero
//! divisor it pops the operands and returns them in `Step::Compute`, and the
//! caller pushes the result before the next step.
use vstd::prelude::*;

use crate::ast::{Token, decode, views, words};
use crate::ast::float::{Float, is_zero_bits, index_of};
use crate::words::{Env, top_or_zero, drop_top};

verus! {

/// The arithmetic a step asks its caller for.
#[derive(Clone, Copy, Debug, PartialEq, Eq, Structural)]
pub enum Arith {
    Add,
    Sub,
    Mul,
    Div,
}

/// What one step did.
#[derive(Clone, Copy, Debug)]
pub enum Step {
    /// The program counter is past the last instruction: nothing was run.
    Halted,
    /// One instruction was run.
    Ran,
    /// An arithmetic instruction popped `a` (the second value popped) and `b`
    /// (the top): the caller is to push `a + b`, `a - b`, `a * b` or `a / b`.
    Compute(Arith, Float, Float),
}

/// The state of a run: stack, output and program counter.
pub struct Config {
    pub stack: Seq<Float>,
    pub output: Seq<Float>,
    pub reg: nat,
}

/// The state of a run at its start.
pub open spec fn initial() -> Config {
    Config { stack: Seq::empty(), output: Seq::empty(), reg: 0 }
}

/// Whether a run has ended: the program counter names no instruction.
pub open spec fn halted(prog: Seq<Token>, c: Config) -> bool {
    c.reg >= prog.len()
}

/// One step of the machine.
pub open spec fn next(prog: Seq<Token>, c: Config) -> (Config, Step) {
    if halted(prog, c) {
        (c, Step::Halted)
    } else {
        let b = top_or_zero(c.stack);
        let a = top_or_zero(drop_top(c.stack));
        let once = drop_top(c.stack);
        let twice = drop_top(drop_top(c.stack));
        let on = c.reg + 1;
        match prog[c.reg as int] {
            Token::Add => (Config { stack: twice, output: c.output, reg: on }, Step::Compute(Arith::Add, a, b)),
            Token::Sub => (Config { stack: twice, output: c.output, reg: on }, Step::Compute(Arith::Sub, a, b)),
            Token::Mul => (Config { stack: twice, output: c.output, reg: on }, Step::Compute(Arith::Mul, a, b)),
            Token::Div => if is_zero_bits(b.0) {
                (Config { stack: twice.push(Float::zero_spec()), output: c.output, reg: on }, Step::Ran)
            } else {
                (Config { stack: twice, output: c.output, reg: on }, Step::Compute(Arith::Div, a, b))
            },
            Token::Dup => (Config { stack: once.push(b).push(b), output: c.output, reg: on }, Step::Ran),
            Token::Swp => (Config { stack: twice.push(b).push(a), output: c.output, reg: on }, Step::Ran),
            // the target `b` is on top, the condition `a` below it
            Token::Jnz => (
                Config {
                    stack: twice,
                    output: c.output,
                    reg: if is_zero_bits(a.0) { on } else { index_of(b.0) },
                },
                Step::Ran,
            ),
            Token::Print => (Config { stack: once, output: c.output.push(b), reg: on }, Step::Ran),
            Token::Number(x) => (Config { stack: c.stack.push(x), output: c.output, reg: on }, Step::Ran),
        }
    }
}

/// The state after the caller has answered a step: the result of the
/// arithmetic asked for, as `arith` gives it, is pushed.
pub open spec fn answer(c: Config, s: Step, arith: spec_fn(Arith, Float, Float) -> Float) -> Config {
    match s {
        Step::Compute(op, a, b) => Config { stack: c.stack.push(arith(op, a, b)), ..c },
        _ => c,
    }
}

/// At most `fuel` steps of a run, each answered with `arith`; a run stops
/// early when it halts.
pub open spec fn run(
    prog: Seq<Token>,
    c: Config,
    arith: spec_fn(Arith, Float, Float) -> Float,
    fuel: nat,
) -> Config
    decreases fuel,
{
    if fuel == 0 || halted(prog, c) {
        c
    } else {
        let (c1, s) = next(prog, c);
        run(prog, answer(c1, s, arith), arith, (fuel - 1) as nat)
    }
}

/// The program of a line: its words decoded in order, `parse` giving what a
/// word reads as when taken as a number.
pub open spec fn program_of(code: Seq<char>, parse: spec_fn(Seq<char>) -> Option<Float>) -> Seq<
    Token,
> {
    words(code).map_values(|w: Seq<char>| decode(w, parse(w)))
}

/// The program that `compile_program` makes from the words of a line, with
/// each word's reading given by `parse`, is the program of that line.
pub proof fn lemma_compiled_line(
    code: Seq<char>,
    tokens: Seq<&str>,
    literals: Seq<Option<Float>>,
    prog: Seq<Token>,
    parse: spec_fn(Seq<char>) -> Option<Float>,
)
    requires
        views(tokens) == words(code),
        literals.len() == tokens.len(),
        forall|i: int| 0 <= i < tokens.len() ==> #[trigger] literals[i] == parse(tokens[i]@),
        prog.len() == tokens.len(),
        forall|i: int| 0 <= i < tokens.len() ==> #[trigger] prog[i] == decode(tokens[i]@, literals[i]),
    ensures
        prog == program_of(code, parse),
{
    assert(views(tokens).len() == tokens.len());
    assert forall|i: int| 0 <= i < prog.len() implies #[trigger] prog[i] == program_of(code, parse)[i] by {
        assert(views(tokens)[i] == tokens[i]@);
        assert(literals[i] == parse(tokens[i]@));
    }
    assert(prog =~= program_of(code, parse));
}

/// At most `fuel` steps of the run of a line from a fresh state.
pub open spec fn eval_line(
    code: Seq<char>,
    parse: spec_fn(Seq<char>) -> Option<Float>,
    arith: spec_fn(Arith, Float, Float) -> Float,
    fuel: nat,
) -> Config {
    run(program_of(code, parse), initial(), arith, fuel)
}

/// The state of the machine as a `Config`.
pub open spec fn config_of(env: Env, reg: usize) -> Config {
    Config { stack: env.stack@, output: env.output@, reg: reg as nat }
}

/// Runs the instruction at `reg`, if there is one, and moves `reg` on: to the
/// next instruction, or to the target of a jump that is taken.
pub fn step(program: &[Token], env: &mut Env, reg: &mut usize) -> (s: Step)
    ensures
        (config_of(*final(env), *final(reg)), s) == next(program@, config_of(*old(env), *old(reg))),
{
    if *reg >= program.len() {
        return Step::Halted;
    }
    let tok = program[*reg];
    match tok {
        Token::Add => {
            let (a, b) = env.add();
            *reg = *reg + 1;
            Step::Compute(Arith::Add, a, b)
        },
        Token::Sub => {
            let (a, b) = env.sub();
            *reg = *reg + 1;
            Step::Compute(Arith::Sub, a, b)
        },
        Token::Mul => {
            let (a, b) = env.mul();
            *reg = *reg + 1;
            Step::Compute(Arith::Mul, a, b)
        },
        Token::Div => {
            let q = env.div();
            *reg = *reg + 1;
            match q {
                Some((a, b)) => Step::Compute(Arith::Div, a, b),
                None => Step::Ran,
            }
        },
        Token::Dup => {
            env.dup();
            *reg = *reg + 1;
            Step::Ran
        },
        Token::Swp => {
            env.swp();
            *reg = *reg + 1;
            Step::Ran
        },
        Token::Jnz => {
            if !env.jnz(reg) {
                *reg = *reg + 1;
            }
            Step::Ran
        },
        Token::Print => {
            env.print_float();
            *reg = *reg + 1;
            Step::Ran
        },
        Token::Number(x) => {
            env.push_number(x);
            *reg = *reg + 1;
            Step::Ran
        },
    }
}

} // verus!
