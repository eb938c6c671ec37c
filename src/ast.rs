//! Instructions of the language, the splitting of a line into words, and the
//! decoding of words into instructions.
use vstd::prelude::*;
use vstd::string::StrSliceExecFns;

pub mod float;

use crate::ast::float::Float;

verus! {

/// One instruction of a program.
#[derive(Clone, Copy, Debug)]
pub enum Token {
    /// `+`
    Add,
    /// `-`
    Sub,
    /// `*`
    Mul,
    /// `/`
    Div,
    /// `dup`
    Dup,
    /// `swp`
    Swp,
    /// `jnz`
    Jnz,
    /// `print`
    Print,
    /// Any other word: the number it reads as, or zero.
    Number(Float),
}

impl Token {
    /// The number a token carries; an operator carries zero.
    pub fn value(&self) -> (r: Float)
        ensures
            r == (match *self {
                Token::Number(x) => x,
                _ => Float::zero_spec(),
            }),
    {
        match *self {
            Token::Number(x) => x,
            _ => Float::zero(),
        }
    }
}

/// The words of a line, split at every space as `str::split(' ')` does: `n`
/// spaces give `n + 1` words, and adjacent spaces give empty words.
pub open spec fn words(s: Seq<char>) -> Seq<Seq<char>>
    decreases s.len(),
{
    if s.len() == 0 {
        seq![Seq::<char>::empty()]
    } else {
        let w = words(s.drop_last());
        if s.last() == ' ' {
            w.push(Seq::<char>::empty())
        } else {
            w.update(w.len() - 1, w.last().push(s.last()))
        }
    }
}

/// The operator that a word names, if it names one.
pub open spec fn operator_of(w: Seq<char>) -> Option<Token> {
    if w == seq!['+'] {
        Some(Token::Add)
    } else if w == seq!['-'] {
        Some(Token::Sub)
    } else if w == seq!['*'] {
        Some(Token::Mul)
    } else if w == seq!['/'] {
        Some(Token::Div)
    } else if w == seq!['d', 'u', 'p'] {
        Some(Token::Dup)
    } else if w == seq!['s', 'w', 'p'] {
        Some(Token::Swp)
    } else if w == seq!['j', 'n', 'z'] {
        Some(Token::Jnz)
    } else if w == seq!['p', 'r', 'i', 'n', 't'] {
        Some(Token::Print)
    } else {
        None
    }
}

/// The instruction for a word, given what the word reads as when taken as a
/// number (`None` when it is no number): an operator word gives its operator,
/// any other word a literal, zero when it reads as no number.
pub open spec fn decode(w: Seq<char>, literal: Option<Float>) -> Token {
    match operator_of(w) {
        Some(t) => t,
        None => Token::Number(
            match literal {
                Some(x) => x,
                None => Float::zero_spec(),
            },
        ),
    }
}

/// The views of a sequence of string slices.
pub open spec fn views(ts: Seq<&str>) -> Seq<Seq<char>> {
    ts.map_values(|t: &str| t@)
}

proof fn lemma_words_nonempty(s: Seq<char>)
    ensures
        words(s).len() >= 1,
    decreases s.len(),
{
    if s.len() > 0 {
        lemma_words_nonempty(s.drop_last());
    }
}

/// Splits a line into words at every space.
pub fn split_words(code: &str) -> (r: Vec<&str>)
    ensures
        views(r@) == words(code@),
{
    let n = code.unicode_len();
    let mut r: Vec<&str> = Vec::new();
    let mut start: usize = 0;
    let mut i: usize = 0;
    assert(code@.subrange(0, 0) =~= Seq::<char>::empty());
    assert(views(r@).push(code@.subrange(0, 0)) =~= seq![Seq::<char>::empty()]);
    while i < n
        invariant
            n == code@.len(),
            start <= i <= n,
            views(r@).push(code@.subrange(start as int, i as int)) == words(
                code@.subrange(0, i as int),
            ),
        decreases n - i,
    {
        let c = code.get_char(i);
        let ghost pre = code@.subrange(0, i as int);
        let ghost next = code@.subrange(0, i as int + 1);
        assert(next.drop_last() == pre);
        assert(next.last() == c);
        proof {
            lemma_words_nonempty(pre);
        }
        if c == ' ' {
            let w = code.substring_char(start, i);
            let ghost before = r@;
            r.push(w);
            assert(views(r@) =~= views(before).push(w@));
            i = i + 1;
            start = i;
            assert(code@.subrange(start as int, i as int) =~= Seq::<char>::empty());
        } else {
            assert(code@.subrange(start as int, i as int + 1) =~= code@.subrange(
                start as int,
                i as int,
            ).push(c));
            i = i + 1;
        }
    }
    let w = code.substring_char(start, n);
    let ghost before = r@;
    r.push(w);
    assert(views(r@) =~= views(before).push(w@));
    assert(code@.subrange(0, n as int) =~= code@);
    r
}

/// Whether a word is exactly the given characters.
fn word_is(tok: &str, len: usize, c0: char, c1: char, c2: char, c3: char, c4: char) -> (r: bool)
    requires
        1 <= len <= 5,
    ensures
        r == (tok@ == seq![c0, c1, c2, c3, c4].subrange(0, len as int)),
{
    let n = tok.unicode_len();
    if n != len {
        return false;
    }
    let want = [c0, c1, c2, c3, c4];
    let mut i: usize = 0;
    while i < n
        invariant
            n == len == tok@.len(),
            len <= 5,
            i <= n,
            want@ == seq![c0, c1, c2, c3, c4],
            tok@.subrange(0, i as int) == want@.subrange(0, i as int),
        decreases n - i,
    {
        if tok.get_char(i) != want[i] {
            assert(tok@[i as int] != seq![c0, c1, c2, c3, c4].subrange(0, len as int)[i as int]);
            return false;
        }
        assert(tok@.subrange(0, i as int + 1) =~= want@.subrange(0, i as int + 1));
        i = i + 1;
    }
    assert(tok@ =~= tok@.subrange(0, n as int));
    true
}

/// The operator a word names, if any.
pub fn operator_word(tok: &str) -> (r: Option<Token>)
    ensures
        r == operator_of(tok@),
{
    let ghost s3 = seq!['d', 'u', 'p', ' ', ' '].subrange(0, 3);
    assert(seq!['+', ' ', ' ', ' ', ' '].subrange(0, 1) =~= seq!['+']);
    assert(seq!['-', ' ', ' ', ' ', ' '].subrange(0, 1) =~= seq!['-']);
    assert(seq!['*', ' ', ' ', ' ', ' '].subrange(0, 1) =~= seq!['*']);
    assert(seq!['/', ' ', ' ', ' ', ' '].subrange(0, 1) =~= seq!['/']);
    assert(seq!['d', 'u', 'p', ' ', ' '].subrange(0, 3) =~= seq!['d', 'u', 'p']);
    assert(seq!['s', 'w', 'p', ' ', ' '].subrange(0, 3) =~= seq!['s', 'w', 'p']);
    assert(seq!['j', 'n', 'z', ' ', ' '].subrange(0, 3) =~= seq!['j', 'n', 'z']);
    assert(seq!['p', 'r', 'i', 'n', 't'].subrange(0, 5) =~= seq!['p', 'r', 'i', 'n', 't']);
    if word_is(tok, 1, '+', ' ', ' ', ' ', ' ') {
        Some(Token::Add)
    } else if word_is(tok, 1, '-', ' ', ' ', ' ', ' ') {
        Some(Token::Sub)
    } else if word_is(tok, 1, '*', ' ', ' ', ' ', ' ') {
        Some(Token::Mul)
    } else if word_is(tok, 1, '/', ' ', ' ', ' ', ' ') {
        Some(Token::Div)
    } else if word_is(tok, 3, 'd', 'u', 'p', ' ', ' ') {
        Some(Token::Dup)
    } else if word_is(tok, 3, 's', 'w', 'p', ' ', ' ') {
        Some(Token::Swp)
    } else if word_is(tok, 3, 'j', 'n', 'z', ' ', ' ') {
        Some(Token::Jnz)
    } else if word_is(tok, 5, 'p', 'r', 'i', 'n', 't') {
        Some(Token::Print)
    } else {
        None
    }
}

/// Decodes words into a program, one instruction per word and in order.
/// `literals[i]` is what `tokens[i]` reads as when taken as a number (`None`
/// when it is no number); it matters only for words that name no operator.
pub fn compile_program(tokens: &[&str], literals: &[Option<Float>]) -> (r: Vec<Token>)
    requires
        literals@.len() == tokens@.len(),
    ensures
        r@.len() == tokens@.len(),
        forall|i: int|
            0 <= i < tokens@.len() ==> #[trigger] r@[i] == decode(tokens@[i]@, literals@[i]),
{
    let mut ast: Vec<Token> = Vec::new();
    let mut i: usize = 0;
    while i < tokens.len()
        invariant
            literals@.len() == tokens@.len(),
            i <= tokens@.len(),
            ast@.len() == i,
            forall|j: int| 0 <= j < i ==> #[trigger] ast@[j] == decode(tokens@[j]@, literals@[j]),
        decreases tokens@.len() - i,
    {
        let tok = match operator_word(tokens[i]) {
            Some(t) => t,
            None => match literals[i] {
                Some(x) => Token::Number(x),
                None => Token::Number(Float::zero()),
            },
        };
        ast.push(tok);
        i = i + 1;
    }
    ast
}

} // verus!

verus! {

/// Whether a word holds no space.
pub open spec fn no_space(w: Seq<char>) -> bool {
    forall|i: int| 0 <= i < w.len() ==> w[i] != ' '
}

/// Words joined into a line, a single space between two neighbours.
pub open spec fn join(ws: Seq<Seq<char>>) -> Seq<char>
    decreases ws.len(),
{
    if ws.len() <= 1 {
        if ws.len() == 0 {
            Seq::empty()
        } else {
            ws[0]
        }
    } else {
        join(ws.drop_last()) + seq![' '] + ws.last()
    }
}

/// Splitting at a space splits the two sides apart.
pub proof fn lemma_words_join(x: Seq<char>, y: Seq<char>)
    ensures
        words(x + seq![' '] + y) == words(x) + words(y),
    decreases y.len(),
{
    let z = x + seq![' '] + y;
    if y.len() == 0 {
        assert(z.drop_last() =~= x);
        assert(words(x) + words(y) =~= words(x).push(Seq::<char>::empty()));
    } else {
        let y0 = y.drop_last();
        assert(z.drop_last() =~= x + seq![' '] + y0);
        assert(z.last() == y.last());
        lemma_words_join(x, y0);
        lemma_words_nonempty(y0);
        let wx = words(x);
        let wy0 = words(y0);
        if y.last() == ' ' {
            assert(words(z) =~= wx + words(y));
        } else {
            let w = wx + wy0;
            assert(w.last() == wy0.last());
            assert(w.update(w.len() - 1, w.last().push(y.last())) =~= wx + wy0.update(
                wy0.len() - 1,
                wy0.last().push(y.last()),
            ));
        }
    }
}

/// A word without spaces splits into itself.
pub proof fn lemma_words_single(x: Seq<char>)
    requires
        no_space(x),
    ensures
        words(x) == seq![x],
    decreases x.len(),
{
    if x.len() == 0 {
        assert(x =~= Seq::<char>::empty());
    } else {
        let x0 = x.drop_last();
        assert(no_space(x0));
        lemma_words_single(x0);
        assert(x0.push(x.last()) =~= x);
        assert(x.last() != ' ') by {
            assert(x[x.len() - 1] != ' ');
        }
        assert(words(x) == seq![x0].update(0, x0.push(x.last())));
        assert(words(x) =~= seq![x]);
    }
}

/// Splitting a line of words joined by single spaces gives those words back.
pub proof fn lemma_words_of_join(ws: Seq<Seq<char>>)
    requires
        ws.len() >= 1,
        forall|i: int| 0 <= i < ws.len() ==> no_space(#[trigger] ws[i]),
    ensures
        words(join(ws)) == ws,
    decreases ws.len(),
{
    if ws.len() == 1 {
        lemma_words_single(ws[0]);
        assert(seq![ws[0]] =~= ws);
    } else {
        let w0 = ws.drop_last();
        assert forall|i: int| 0 <= i < w0.len() implies no_space(#[trigger] w0[i]) by {
            assert(w0[i] == ws[i]);
        }
        lemma_words_of_join(w0);
        assert(no_space(ws[ws.len() - 1]));
        lemma_words_single(ws.last());
        lemma_words_join(join(w0), ws.last());
        assert(w0 + seq![ws.last()] =~= ws);
    }
}

} // verus!
