//! Laws of whole lines, over every host: `parse` stands for what a word reads
//! as when taken as a number, `arith` for the arithmetic the host computes.
use vstd::prelude::*;

use crate::ast::{decode, join, lemma_words_of_join, no_space, operator_of, Token, words};
use crate::ast::float::{Float, index_of, is_zero_bits};
use crate::machine::{Arith, Config, answer, eval_line, halted, initial, next, program_of, run};

verus! {

/// The word of an arithmetic operator.
pub open spec fn word_of(op: Arith) -> Seq<char> {
    match op {
        Arith::Add => seq!['+'],
        Arith::Sub => seq!['-'],
        Arith::Mul => seq!['*'],
        Arith::Div => seq!['/'],
    }
}

pub open spec fn print_word() -> Seq<char> {
    seq!['p', 'r', 'i', 'n', 't']
}

pub open spec fn dup_word() -> Seq<char> {
    seq!['d', 'u', 'p']
}

pub open spec fn swp_word() -> Seq<char> {
    seq!['s', 'w', 'p']
}

/// `t` is a word that reads as the number `x`.
pub open spec fn literal_word(t: Seq<char>, x: Float, parse: spec_fn(Seq<char>) -> Option<Float>) -> bool {
    no_space(t) && operator_of(t) is None && parse(t) == Some(x)
}

/// The program of words joined by spaces is those words decoded.
pub proof fn lemma_program_of_join(ws: Seq<Seq<char>>, parse: spec_fn(Seq<char>) -> Option<Float>)
    requires
        ws.len() >= 1,
        forall|i: int| 0 <= i < ws.len() ==> no_space(#[trigger] ws[i]),
    ensures
        program_of(join(ws), parse).len() == ws.len(),
        forall|i: int|
            0 <= i < ws.len() ==> #[trigger] program_of(join(ws), parse)[i] == decode(
                ws[i],
                parse(ws[i]),
            ),
{
    lemma_words_of_join(ws);
}

proof fn lemma_operator_words()
    ensures
        no_space(seq!['+']),
        no_space(seq!['-']),
        no_space(seq!['*']),
        no_space(seq!['/']),
        no_space(print_word()),
        no_space(dup_word()),
        no_space(swp_word()),
        operator_of(print_word()) == Some(Token::Print),
        operator_of(dup_word()) == Some(Token::Dup),
        operator_of(swp_word()) == Some(Token::Swp),
{
    assert(print_word() != seq!['+']);
    assert(print_word() != seq!['-']);
    assert(print_word() != seq!['*']);
    assert(print_word() != seq!['/']);
    assert(print_word() != dup_word());
    assert(print_word() != swp_word());
    assert(print_word() != seq!['j', 'n', 'z']);
    assert(dup_word() != seq!['+']);
    assert(dup_word() != seq!['-']);
    assert(dup_word() != seq!['*']);
    assert(dup_word() != seq!['/']);
    assert(swp_word() != seq!['+']);
    assert(swp_word() != seq!['-']);
    assert(swp_word() != seq!['*']);
    assert(swp_word() != seq!['/']);
    assert(swp_word() != dup_word()) by {
        assert(swp_word()[0] != dup_word()[0]);
    }
}

proof fn lemma_word_of(op: Arith)
    ensures
        no_space(word_of(op)),
        operator_of(word_of(op)) == Some(
            match op {
                Arith::Add => Token::Add,
                Arith::Sub => Token::Sub,
                Arith::Mul => Token::Mul,
                Arith::Div => Token::Div,
            },
        ),
{
    assert(seq!['-'] != seq!['+']) by {
        assert(seq!['-'][0] != seq!['+'][0]);
    }
    assert(seq!['*'] != seq!['+']) by {
        assert(seq!['*'][0] != seq!['+'][0]);
    }
    assert(seq!['*'] != seq!['-']) by {
        assert(seq!['*'][0] != seq!['-'][0]);
    }
    assert(seq!['/'] != seq!['+']) by {
        assert(seq!['/'][0] != seq!['+'][0]);
    }
    assert(seq!['/'] != seq!['-']) by {
        assert(seq!['/'][0] != seq!['-'][0]);
    }
    assert(seq!['/'] != seq!['*']) by {
        assert(seq!['/'][0] != seq!['*'][0]);
    }
}

/// For numbers `a` and `b` written as `ta` and `tb`, the line `ta tb + print`
/// prints `a + b`, and likewise `-`, `*`, and `/` with a non-zero `b`: the
/// first number written is the left operand. The run then halts.
pub proof fn law_arith(
    ta: Seq<char>,
    tb: Seq<char>,
    a: Float,
    b: Float,
    op: Arith,
    parse: spec_fn(Seq<char>) -> Option<Float>,
    arith: spec_fn(Arith, Float, Float) -> Float,
    fuel: nat,
)
    requires
        literal_word(ta, a, parse),
        literal_word(tb, b, parse),
        op != Arith::Div || !is_zero_bits(b.0),
        fuel >= 4,
    ensures
        eval_line(join(seq![ta, tb, word_of(op), print_word()]), parse, arith, fuel).output
            == seq![arith(op, a, b)],
        halted(
            program_of(join(seq![ta, tb, word_of(op), print_word()]), parse),
            eval_line(join(seq![ta, tb, word_of(op), print_word()]), parse, arith, fuel),
        ),
{
    let ws = seq![ta, tb, word_of(op), print_word()];
    lemma_operator_words();
    lemma_word_of(op);
    lemma_program_of_join(ws, parse);
    let prog = program_of(join(ws), parse);
    assert(prog[0] == Token::Number(a));
    assert(prog[1] == Token::Number(b));
    assert(prog[3] == Token::Print);
    let c1 = Config { stack: seq![a], output: Seq::empty(), reg: 1 };
    let c2 = Config { stack: seq![a, b], output: Seq::empty(), reg: 2 };
    let c3 = Config { stack: seq![arith(op, a, b)], output: Seq::empty(), reg: 3 };
    let c4 = Config { stack: Seq::empty(), output: seq![arith(op, a, b)], reg: 4 };
    assert(seq![a] =~= Seq::<Float>::empty().push(a));
    assert(seq![a, b] =~= seq![a].push(b));
    assert(seq![a, b].drop_last() =~= seq![a]);
    assert(seq![a].drop_last() =~= Seq::<Float>::empty());
    assert(seq![arith(op, a, b)] =~= Seq::<Float>::empty().push(arith(op, a, b)));
    assert(seq![arith(op, a, b)].drop_last() =~= Seq::<Float>::empty());
    assert(run(prog, c4, arith, (fuel - 4) as nat) == c4);
    assert(run(prog, c3, arith, (fuel - 3) as nat) == c4);
    assert(run(prog, c2, arith, (fuel - 2) as nat) == c4);
    assert(run(prog, c1, arith, (fuel - 1) as nat) == c4);
    assert(run(prog, initial(), arith, fuel) == c4);
}

/// For numbers `a` and `b` written as `ta` and `tb`, where `b` is zero, the
/// line `ta tb / print` prints zero whatever `a` is, and asks the host for no
/// arithmetic.
pub proof fn law_div_by_zero(
    ta: Seq<char>,
    tb: Seq<char>,
    a: Float,
    b: Float,
    parse: spec_fn(Seq<char>) -> Option<Float>,
    arith: spec_fn(Arith, Float, Float) -> Float,
    fuel: nat,
)
    requires
        literal_word(ta, a, parse),
        literal_word(tb, b, parse),
        is_zero_bits(b.0),
        fuel >= 4,
    ensures
        eval_line(join(seq![ta, tb, word_of(Arith::Div), print_word()]), parse, arith, fuel).output
            == seq![Float::zero_spec()],
{
    let ws = seq![ta, tb, word_of(Arith::Div), print_word()];
    lemma_operator_words();
    lemma_word_of(Arith::Div);
    lemma_program_of_join(ws, parse);
    let prog = program_of(join(ws), parse);
    assert(prog[0] == Token::Number(a));
    assert(prog[1] == Token::Number(b));
    assert(prog[3] == Token::Print);
    let z = Float::zero_spec();
    let c1 = Config { stack: seq![a], output: Seq::empty(), reg: 1 };
    let c2 = Config { stack: seq![a, b], output: Seq::empty(), reg: 2 };
    let c3 = Config { stack: seq![z], output: Seq::empty(), reg: 3 };
    let c4 = Config { stack: Seq::empty(), output: seq![z], reg: 4 };
    assert(seq![a] =~= Seq::<Float>::empty().push(a));
    assert(seq![a, b] =~= seq![a].push(b));
    assert(seq![a, b].drop_last() =~= seq![a]);
    assert(seq![a].drop_last() =~= Seq::<Float>::empty());
    assert(seq![z] =~= Seq::<Float>::empty().push(z));
    assert(seq![z].drop_last() =~= Seq::<Float>::empty());
    assert(run(prog, c4, arith, (fuel - 4) as nat) == c4);
    assert(run(prog, c3, arith, (fuel - 3) as nat) == c4);
    assert(run(prog, c2, arith, (fuel - 2) as nat) == c4);
    assert(run(prog, c1, arith, (fuel - 1) as nat) == c4);
    assert(run(prog, initial(), arith, fuel) == c4);
}

/// For a number `a` written as `ta`, the line `ta dup print print` prints `a`
/// twice.
pub proof fn law_dup(
    ta: Seq<char>,
    a: Float,
    parse: spec_fn(Seq<char>) -> Option<Float>,
    arith: spec_fn(Arith, Float, Float) -> Float,
    fuel: nat,
)
    requires
        literal_word(ta, a, parse),
        fuel >= 4,
    ensures
        eval_line(join(seq![ta, dup_word(), print_word(), print_word()]), parse, arith, fuel).output
            == seq![a, a],
{
    let ws = seq![ta, dup_word(), print_word(), print_word()];
    lemma_operator_words();
    lemma_program_of_join(ws, parse);
    let prog = program_of(join(ws), parse);
    assert(prog[0] == Token::Number(a));
    assert(prog[1] == Token::Dup);
    assert(prog[2] == Token::Print);
    assert(prog[3] == Token::Print);
    let c1 = Config { stack: seq![a], output: Seq::empty(), reg: 1 };
    let c2 = Config { stack: seq![a, a], output: Seq::empty(), reg: 2 };
    let c3 = Config { stack: seq![a], output: seq![a], reg: 3 };
    let c4 = Config { stack: Seq::empty(), output: seq![a, a], reg: 4 };
    assert(seq![a] =~= Seq::<Float>::empty().push(a));
    assert(seq![a, a] =~= seq![a].push(a));
    assert(seq![a, a].drop_last() =~= seq![a]);
    assert(seq![a].drop_last() =~= Seq::<Float>::empty());
    assert(run(prog, c4, arith, (fuel - 4) as nat) == c4);
    assert(run(prog, c3, arith, (fuel - 3) as nat) == c4);
    assert(run(prog, c2, arith, (fuel - 2) as nat) == c4);
    assert(run(prog, c1, arith, (fuel - 1) as nat) == c4);
    assert(run(prog, initial(), arith, fuel) == c4);
}

/// For numbers `a` and `b` written as `ta` and `tb`, the line
/// `ta tb swp print print` prints `a`, then `b`: the two top values have
/// exchanged places, where `ta tb print print` prints `b`, then `a`.
pub proof fn law_swp(
    ta: Seq<char>,
    tb: Seq<char>,
    a: Float,
    b: Float,
    parse: spec_fn(Seq<char>) -> Option<Float>,
    arith: spec_fn(Arith, Float, Float) -> Float,
    fuel: nat,
)
    requires
        literal_word(ta, a, parse),
        literal_word(tb, b, parse),
        fuel >= 5,
    ensures
        eval_line(join(seq![ta, tb, swp_word(), print_word(), print_word()]), parse, arith, fuel).output
            == seq![a, b],
{
    let ws = seq![ta, tb, swp_word(), print_word(), print_word()];
    lemma_operator_words();
    lemma_program_of_join(ws, parse);
    let prog = program_of(join(ws), parse);
    assert(prog[0] == Token::Number(a));
    assert(prog[1] == Token::Number(b));
    assert(prog[2] == Token::Swp);
    assert(prog[3] == Token::Print);
    assert(prog[4] == Token::Print);
    let c1 = Config { stack: seq![a], output: Seq::empty(), reg: 1 };
    let c2 = Config { stack: seq![a, b], output: Seq::empty(), reg: 2 };
    let c3 = Config { stack: seq![b, a], output: Seq::empty(), reg: 3 };
    let c4 = Config { stack: seq![b], output: seq![a], reg: 4 };
    let c5 = Config { stack: Seq::empty(), output: seq![a, b], reg: 5 };
    assert(seq![a] =~= Seq::<Float>::empty().push(a));
    assert(seq![b] =~= Seq::<Float>::empty().push(b));
    assert(seq![a, b] =~= seq![a].push(b));
    assert(seq![a, b] =~= seq![a].push(b));
    assert(seq![b, a] =~= seq![b].push(a));
    assert(seq![a, b].drop_last() =~= seq![a]);
    assert(seq![b, a].drop_last() =~= seq![b]);
    assert(seq![a].drop_last() =~= Seq::<Float>::empty());
    assert(seq![b].drop_last() =~= Seq::<Float>::empty());
    assert(run(prog, c5, arith, (fuel - 5) as nat) == c5);
    assert(run(prog, c4, arith, (fuel - 4) as nat) == c5);
    assert(run(prog, c3, arith, (fuel - 3) as nat) == c5);
    assert(run(prog, c2, arith, (fuel - 2) as nat) == c5);
    assert(run(prog, c1, arith, (fuel - 1) as nat) == c5);
    assert(run(prog, initial(), arith, fuel) == c5);
}

/// The state a run starts from, with nothing printed yet.
pub open spec fn unprinted(c: Config) -> Config {
    Config { output: Seq::empty(), ..c }
}

/// A run keeps no state but its own: what it prints, and where its stack and
/// counter end, depend on the program, its stack and counter at the start and
/// the host's answers alone. Output printed before it stays as it was, and
/// what the run prints is appended to it.
pub proof fn law_no_hidden_state(
    prog: Seq<Token>,
    c: Config,
    arith: spec_fn(Arith, Float, Float) -> Float,
    fuel: nat,
)
    ensures
        ({
            let r = run(prog, c, arith, fuel);
            let fresh = run(prog, unprinted(c), arith, fuel);
            &&& r.stack == fresh.stack
            &&& r.reg == fresh.reg
            &&& r.output == c.output + fresh.output
        }),
    decreases fuel,
{
    if fuel == 0 || halted(prog, c) {
        assert(c.output =~= c.output + Seq::<Float>::empty());
    } else {
        let (c1, s) = next(prog, c);
        let (f1, t) = next(prog, unprinted(c));
        assert(s == t);
        assert(c1.stack == f1.stack && c1.reg == f1.reg);
        assert(c1.output =~= c.output + f1.output);
        let d = answer(c1, s, arith);
        let e = answer(f1, t, arith);
        assert(unprinted(d) == unprinted(e));
        law_no_hidden_state(prog, d, arith, (fuel - 1) as nat);
        law_no_hidden_state(prog, e, arith, (fuel - 1) as nat);
        let x = run(prog, unprinted(d), arith, (fuel - 1) as nat).output;
        assert(d.output + x =~= c.output + (e.output + x));
    }
}

/// A word that names no operator and reads as no number is the literal zero:
/// the line `t print` prints zero.
pub proof fn law_malformed_literal(
    t: Seq<char>,
    parse: spec_fn(Seq<char>) -> Option<Float>,
    arith: spec_fn(Arith, Float, Float) -> Float,
    fuel: nat,
)
    requires
        no_space(t),
        operator_of(t) is None,
        parse(t) is None,
        fuel >= 2,
    ensures
        eval_line(join(seq![t, print_word()]), parse, arith, fuel).output == seq![Float::zero_spec()],
{
    let ws = seq![t, print_word()];
    lemma_operator_words();
    lemma_program_of_join(ws, parse);
    let prog = program_of(join(ws), parse);
    let z = Float::zero_spec();
    assert(prog[0] == Token::Number(z));
    assert(prog[1] == Token::Print);
    let c1 = Config { stack: seq![z], output: Seq::empty(), reg: 1 };
    let c2 = Config { stack: Seq::empty(), output: seq![z], reg: 2 };
    assert(seq![z] =~= Seq::<Float>::empty().push(z));
    assert(seq![z].drop_last() =~= Seq::<Float>::empty());
    assert(run(prog, c2, arith, (fuel - 2) as nat) == c2);
    assert(run(prog, c1, arith, (fuel - 1) as nat) == c2);
    assert(run(prog, initial(), arith, fuel) == c2);
}

/// On an empty stack every missing operand is zero: the line `+ print` asks
/// the host for zero plus zero, and prints what it gives.
pub proof fn law_empty_stack(
    parse: spec_fn(Seq<char>) -> Option<Float>,
    arith: spec_fn(Arith, Float, Float) -> Float,
    fuel: nat,
)
    requires
        fuel >= 2,
    ensures
        eval_line(join(seq![word_of(Arith::Add), print_word()]), parse, arith, fuel).output
            == seq![arith(Arith::Add, Float::zero_spec(), Float::zero_spec())],
{
    let ws = seq![word_of(Arith::Add), print_word()];
    lemma_operator_words();
    lemma_word_of(Arith::Add);
    lemma_program_of_join(ws, parse);
    let prog = program_of(join(ws), parse);
    let z = Float::zero_spec();
    let r = arith(Arith::Add, z, z);
    assert(prog[0] == Token::Add);
    assert(prog[1] == Token::Print);
    let c1 = Config { stack: seq![r], output: Seq::empty(), reg: 1 };
    let c2 = Config { stack: Seq::empty(), output: seq![r], reg: 2 };
    assert(seq![r] =~= Seq::<Float>::empty().push(r));
    assert(seq![r].drop_last() =~= Seq::<Float>::empty());
    assert(run(prog, c2, arith, (fuel - 2) as nat) == c2);
    assert(run(prog, c1, arith, (fuel - 1) as nat) == c2);
    assert(run(prog, initial(), arith, fuel) == c2);
}

pub open spec fn jnz_word() -> Seq<char> {
    seq!['j', 'n', 'z']
}

/// A taken jump moves the counter to its target with no increment after it:
/// with `t1` reading as a non-zero `c`, `t4` as a value whose index is 4, and
/// `t0` as any number, the line `t1 t4 jnz t0 t1 print` jumps over `t0` to
/// the second `t1` and prints `c`.
pub proof fn law_jump(
    t1: Seq<char>,
    t4: Seq<char>,
    t0: Seq<char>,
    c: Float,
    t: Float,
    z: Float,
    parse: spec_fn(Seq<char>) -> Option<Float>,
    arith: spec_fn(Arith, Float, Float) -> Float,
    fuel: nat,
)
    requires
        literal_word(t1, c, parse),
        literal_word(t4, t, parse),
        literal_word(t0, z, parse),
        !is_zero_bits(c.0),
        index_of(t.0) == 4,
        fuel >= 5,
    ensures
        eval_line(join(seq![t1, t4, jnz_word(), t0, t1, print_word()]), parse, arith, fuel).output
            == seq![c],
{
    let ws = seq![t1, t4, jnz_word(), t0, t1, print_word()];
    lemma_operator_words();
    assert(jnz_word() != seq!['+']);
    assert(jnz_word() != seq!['-']);
    assert(jnz_word() != seq!['*']);
    assert(jnz_word() != seq!['/']);
    assert(jnz_word() != dup_word()) by {
        assert(jnz_word()[0] != dup_word()[0]);
    }
    assert(jnz_word() != swp_word()) by {
        assert(jnz_word()[0] != swp_word()[0]);
    }
    assert(no_space(jnz_word()));
    lemma_program_of_join(ws, parse);
    let prog = program_of(join(ws), parse);
    assert(prog[0] == Token::Number(c));
    assert(prog[1] == Token::Number(t));
    assert(prog[2] == Token::Jnz);
    assert(prog[4] == Token::Number(c));
    assert(prog[5] == Token::Print);
    let c1 = Config { stack: seq![c], output: Seq::empty(), reg: 1 };
    let c2 = Config { stack: seq![c, t], output: Seq::empty(), reg: 2 };
    let c3 = Config { stack: Seq::empty(), output: Seq::empty(), reg: 4 };
    let c4 = Config { stack: seq![c], output: Seq::empty(), reg: 5 };
    let c5 = Config { stack: Seq::empty(), output: seq![c], reg: 6 };
    assert(seq![c] =~= Seq::<Float>::empty().push(c));
    assert(seq![c, t] =~= seq![c].push(t));
    assert(seq![c, t].drop_last() =~= seq![c]);
    assert(seq![c].drop_last() =~= Seq::<Float>::empty());
    assert(run(prog, c5, arith, (fuel - 5) as nat) == c5);
    assert(run(prog, c4, arith, (fuel - 4) as nat) == c5);
    assert(run(prog, c3, arith, (fuel - 3) as nat) == c5);
    assert(run(prog, c2, arith, (fuel - 2) as nat) == c5);
    assert(run(prog, c1, arith, (fuel - 1) as nat) == c5);
    assert(run(prog, initial(), arith, fuel) == c5);
}

} // verus!
