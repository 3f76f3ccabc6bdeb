//! Arithmetic drills: the equations, dialogues and verdicts over pairs of digits.

use vstd::prelude::*;

use crate::corpus::sentences;
use crate::corpus::words::{BOT, EOS, EQUALS, MINUS, NO, OVER, PLUS, TIMES, USER, YES};

verus! {

/// The token of a decimal digit.
pub open spec fn digit(d: int) -> usize {
    if d <= 5 {
        (4 + d) as usize
    } else {
        (15 + d) as usize
    }
}

/// The pairs of digits that a drill runs over, and the operation that it trains.
#[derive(Debug, Clone, Copy)]
pub enum Domain {
    /// Sums from `low` to `high`.
    Sums { low: usize, high: usize },
    /// Differences of a minuend of at least `low` and a subtrahend up to it.
    Differences { low: usize },
    /// Products up to nine.
    Products,
    /// Exact quotients.
    Quotients,
}

/// The sentences that a drill makes of a pair.
#[derive(Debug, Clone, Copy)]
pub enum Form {
    /// `a + b = c <eos>`
    Equation,
    /// `<user> a + b = <bot> c <eos>`
    Dialogue,
    /// The equation, then the dialogue.
    EquationAndDialogue,
    /// The equation, its confirmation, and the denial of the next digit as result.
    EquationAndVerdicts,
}

/// Whether a pair belongs to a domain.
pub open spec fn admits(domain: Domain, a: int, b: int) -> bool {
    match domain {
        Domain::Sums { low, high } => low <= a + b <= high,
        Domain::Differences { low } => low <= a && b <= a,
        Domain::Products => a * b <= 9,
        Domain::Quotients => b >= 1 && a % b == 0,
    }
}

/// The sign of a domain's operation.
pub open spec fn sign(domain: Domain) -> usize {
    match domain {
        Domain::Sums { .. } => PLUS,
        Domain::Differences { .. } => MINUS,
        Domain::Products => TIMES,
        Domain::Quotients => OVER,
    }
}

/// The result of a domain's operation.
pub open spec fn result(domain: Domain, a: int, b: int) -> int {
    match domain {
        Domain::Sums { .. } => a + b,
        Domain::Differences { .. } => a - b,
        Domain::Products => a * b,
        Domain::Quotients => a / b,
    }
}

pub open spec fn equation(domain: Domain, a: int, b: int) -> Seq<usize> {
    seq![digit(a), sign(domain), digit(b), EQUALS, digit(result(domain, a, b)), EOS]
}

pub open spec fn dialogue(domain: Domain, a: int, b: int) -> Seq<usize> {
    seq![USER, digit(a), sign(domain), digit(b), EQUALS, BOT, digit(result(domain, a, b)), EOS]
}

pub open spec fn verdict(domain: Domain, a: int, b: int, shown: int, answer: usize) -> Seq<usize> {
    seq![digit(a), sign(domain), digit(b), EQUALS, digit(shown), EQUALS, answer, EOS]
}

/// The sentences of an admitted pair.
pub open spec fn drilled(domain: Domain, form: Form, a: int, b: int) -> Seq<Seq<usize>> {
    let c = result(domain, a, b);
    match form {
        Form::Equation => seq![equation(domain, a, b)],
        Form::Dialogue => seq![dialogue(domain, a, b)],
        Form::EquationAndDialogue => seq![equation(domain, a, b), dialogue(domain, a, b)],
        Form::EquationAndVerdicts => seq![
            equation(domain, a, b),
            verdict(domain, a, b, c, YES),
            verdict(domain, a, b, (c + 1) % 10, NO),
        ],
    }
}

/// The sentences of a drill over the first `k` pairs of digits below `n`, in lexicographic order.
pub open spec fn drill(domain: Domain, form: Form, n: int, k: nat) -> Seq<Seq<usize>>
    decreases k,
{
    if k == 0 {
        Seq::empty()
    } else {
        let a = (k - 1) / n;
        let b = (k - 1) % n;
        let before = drill(domain, form, n, (k - 1) as nat);
        if admits(domain, a, b) {
            before + drilled(domain, form, a, b)
        } else {
            before
        }
    }
}

/// A domain whose results on digits are digits.
pub open spec fn digital(domain: Domain) -> bool {
    domain matches Domain::Sums { low, high } ==> high <= 9
}

fn digit_token(d: usize) -> (token: usize)
    requires
        d <= 9,
    ensures
        token == digit(d as int),
{
    if d <= 5 {
        4 + d
    } else {
        15 + d
    }
}

fn belongs(domain: Domain, a: usize, b: usize) -> (b_: bool)
    requires
        a <= 9,
        b <= 9,
    ensures
        b_ == admits(domain, a as int, b as int),
{
    match domain {
        Domain::Sums { low, high } => low <= a + b && a + b <= high,
        Domain::Differences { low } => low <= a && b <= a,
        Domain::Products => {
            assert(a * b <= 81) by (nonlinear_arith)
                requires
                    a <= 9,
                    b <= 9,
            ;
            a * b <= 9
        },
        Domain::Quotients => b >= 1 && a % b == 0,
    }
}

fn operate(domain: Domain, a: usize, b: usize) -> (c: usize)
    requires
        a <= 9,
        b <= 9,
        digital(domain),
        admits(domain, a as int, b as int),
    ensures
        c == result(domain, a as int, b as int),
        c <= 9,
{
    match domain {
        Domain::Sums { .. } => a + b,
        Domain::Differences { .. } => a - b,
        Domain::Products => a * b,
        Domain::Quotients => {
            assert(a / b <= a) by (nonlinear_arith)
                requires
                    b >= 1,
            ;
            a / b
        },
    }
}

fn sign_token(domain: Domain) -> (token: usize)
    ensures
        token == sign(domain),
{
    match domain {
        Domain::Sums { .. } => PLUS,
        Domain::Differences { .. } => MINUS,
        Domain::Products => TIMES,
        Domain::Quotients => OVER,
    }
}

/// Appends the sentences of an admitted pair.
pub fn push_drilled(
    sentences: &mut Vec<Vec<usize>>,
    domain: Domain,
    form: Form,
    a: usize,
    b: usize,
)
    requires
        a <= 9,
        b <= 9,
        digital(domain),
        admits(domain, a as int, b as int),
    ensures
        sentences::deep(final(sentences)@) == sentences::deep(old(sentences)@) + drilled(
            domain,
            form,
            a as int,
            b as int,
        ),
{
    let ghost before = sentences@;
    let c: usize = operate(domain, a, b);
    let x: usize = digit_token(a);
    let y: usize = digit_token(b);
    let z: usize = digit_token(c);
    let s: usize = sign_token(domain);
    let equation: Vec<usize> = vec![x, s, y, EQUALS, z, EOS];
    let dialogue: Vec<usize> = vec![USER, x, s, y, EQUALS, BOT, z, EOS];
    assert(equation@ =~= self::equation(domain, a as int, b as int));
    assert(dialogue@ =~= self::dialogue(domain, a as int, b as int));
    match form {
        Form::Equation => {
            sentences.push(equation);
        },
        Form::Dialogue => {
            sentences.push(dialogue);
        },
        Form::EquationAndDialogue => {
            sentences.push(equation);
            sentences.push(dialogue);
        },
        Form::EquationAndVerdicts => {
            let confirmed: Vec<usize> = vec![x, s, y, EQUALS, z, EQUALS, YES, EOS];
            let next: usize = digit_token((c + 1) % 10);
            let denied: Vec<usize> = vec![x, s, y, EQUALS, next, EQUALS, NO, EOS];
            assert(confirmed@ =~= verdict(domain, a as int, b as int, c as int, YES));
            assert(denied@ =~= verdict(domain, a as int, b as int, (c + 1) % 10, NO));
            sentences.push(equation);
            sentences.push(confirmed);
            sentences.push(denied);
        },
    }
    assert(sentences::deep(sentences@) =~= sentences::deep(before) + drilled(
        domain,
        form,
        a as int,
        b as int,
    ));
}

/// Appends the sentences of a drill over all pairs of digits below `n`.
pub fn push_drill(sentences: &mut Vec<Vec<usize>>, domain: Domain, form: Form, n: usize)
    requires
        1 <= n <= 10,
        digital(domain),
    ensures
        sentences::deep(final(sentences)@) == sentences::deep(old(sentences)@) + drill(
            domain,
            form,
            n as int,
            (n * n) as nat,
        ),
{
    let ghost before = sentences::deep(sentences@);
    assert(n * n <= 100) by (nonlinear_arith)
        requires
            n <= 10,
    ;
    for k in 0..n * n
        invariant
            1 <= n <= 10,
            n * n <= 100,
            digital(domain),
            sentences::deep(sentences@) == before + drill(domain, form, n as int, k as nat),
    {
        let a: usize = k / n;
        let b: usize = k % n;
        assert(k / n < n) by (nonlinear_arith)
            requires
                k < n * n,
                n >= 1,
        ;
        if belongs(domain, a, b) {
            push_drilled(sentences, domain, form, a, b);
        }
        assert(sentences::deep(sentences@) =~= before + drill(
            domain,
            form,
            n as int,
            (k + 1) as nat,
        ));
    }
}

} // verus!
