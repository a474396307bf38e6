//! Arithmetic on real numbers, as the caller supplies it.
//!
//! Every sum, difference, product and quotient that the library needs is asked
//! of one function value, `arith(op, a, b)`: in practice the machine's
//! floating-point unit. Nothing is assumed of the numbers that come back. What
//! is proved is which questions are asked and what is done with the answers. A
//! contract therefore names a [`Term`] and says that a result is a value of
//! it: a number that `arith` gave for that term, operation by operation.
use vstd::prelude::*;
use crate::number::Real;

verus! {

/// The four operations asked of the supplied arithmetic.
#[derive(Clone, Copy, Debug, PartialEq, Eq, Structural)]
pub enum Op {
    /// `a + b`
    Add,
    /// `a - b`
    Sub,
    /// `a * b`
    Mul,
    /// `a / b`
    Div,
}

/// An arithmetic expression over given numbers. Terms occur in contracts only.
pub enum Term {
    /// A given number.
    Lit(Real),
    /// One operation on two terms, the left operand first.
    Bin(Op, Box<Term>, Box<Term>),
}

impl Term {
    /// `self + other`
    pub open spec fn plus(self, other: Term) -> Term {
        Term::Bin(Op::Add, Box::new(self), Box::new(other))
    }

    /// `self - other`
    pub open spec fn minus(self, other: Term) -> Term {
        Term::Bin(Op::Sub, Box::new(self), Box::new(other))
    }

    /// `self * other`
    pub open spec fn times(self, other: Term) -> Term {
        Term::Bin(Op::Mul, Box::new(self), Box::new(other))
    }

    /// `self / other`
    pub open spec fn over(self, other: Term) -> Term {
        Term::Bin(Op::Div, Box::new(self), Box::new(other))
    }
}

/// The term that stands for the number `x`.
pub open spec fn lit(x: Real) -> Term {
    Term::Lit(x)
}

/// The term that stands for the number with the pattern `bits`.
pub open spec fn num(bits: u64) -> Term {
    Term::Lit(Real { bits })
}

/// `arith` accepts every question.
pub open spec fn answers_all<A: Fn(Op, Real, Real) -> Real>(arith: &A) -> bool {
    forall|op: Op, a: Real, b: Real| call_requires(*arith, (op, a, b))
}

/// `v` is a value of `term` under `arith`: a number stands for itself, and a
/// value of an operation is what `arith` may return for that operation on a
/// value of the left operand and a value of the right one.
pub open spec fn yields<A: Fn(Op, Real, Real) -> Real>(arith: &A, term: Term, v: Real) -> bool
    decreases term,
{
    match term {
        Term::Lit(x) => v == x,
        Term::Bin(op, left, right) => exists|a: Real, b: Real|
            #![trigger call_ensures(*arith, (op, a, b), v)]
            yields(arith, *left, a) && yields(arith, *right, b) && call_ensures(
                *arith,
                (op, a, b),
                v,
            ),
    }
}

/// An answer of `arith` to a question about a value of one term and a value
/// of another is a value of the operation on the two terms.
pub proof fn lemma_value<A: Fn(Op, Real, Real) -> Real>(
    arith: &A,
    op: Op,
    left: Term,
    right: Term,
    a: Real,
    b: Real,
    v: Real,
)
    requires
        yields(arith, left, a),
        yields(arith, right, b),
        call_ensures(*arith, (op, a, b), v),
    ensures
        yields(arith, Term::Bin(op, Box::new(left), Box::new(right)), v),
{
}

/// A value of one operation on two numbers is an answer of `arith` to that
/// question.
pub proof fn lemma_answer<A: Fn(Op, Real, Real) -> Real>(arith: &A, op: Op, x: Real, y: Real, v: Real)
    requires
        yields(arith, Term::Bin(op, Box::new(lit(x)), Box::new(lit(y))), v),
    ensures
        call_ensures(*arith, (op, x, y), v),
{
    reveal_with_fuel(yields, 2);
}

/// `arith` is a function: it has one answer to each question.
pub open spec fn single_valued<A: Fn(Op, Real, Real) -> Real>(arith: &A) -> bool {
    forall|op: Op, a: Real, b: Real, v: Real, w: Real|
        #![trigger call_ensures(*arith, (op, a, b), v), call_ensures(*arith, (op, a, b), w)]
        call_ensures(*arith, (op, a, b), v) && call_ensures(*arith, (op, a, b), w) ==> v == w
}

/// Under arithmetic that is a function, a term has one value.
pub proof fn lemma_one_value<A: Fn(Op, Real, Real) -> Real>(arith: &A, term: Term, v: Real, w: Real)
    requires
        single_valued(arith),
        yields(arith, term, v),
        yields(arith, term, w),
    ensures
        v == w,
    decreases term,
{
    match term {
        Term::Lit(_) => {},
        Term::Bin(op, left, right) => {
            let (a, b) = choose|a: Real, b: Real|
                #![trigger call_ensures(*arith, (op, a, b), v)]
                yields(arith, *left, a) && yields(arith, *right, b) && call_ensures(
                    *arith,
                    (op, a, b),
                    v,
                );
            let (c, d) = choose|c: Real, d: Real|
                #![trigger call_ensures(*arith, (op, c, d), w)]
                yields(arith, *left, c) && yields(arith, *right, d) && call_ensures(
                    *arith,
                    (op, c, d),
                    w,
                );
            lemma_one_value(arith, *left, a, c);
            lemma_one_value(arith, *right, b, d);
        },
    }
}

/// A number together with the term that it is a value of.
pub(crate) struct Val {
    pub v: Real,
    pub t: Ghost<Term>,
}

impl Val {
    /// The number is a value of the term.
    pub(crate) open spec fn sound<A: Fn(Op, Real, Real) -> Real>(self, arith: &A) -> bool {
        yields(arith, self.t@, self.v)
    }

    /// A given number, standing for itself.
    pub(crate) fn of(x: Real) -> (r: Val)
        ensures
            r.v == x,
            r.t@ == lit(x),
    {
        Val { v: x, t: Ghost(lit(x)) }
    }

    /// The number with the given pattern.
    pub(crate) fn constant(bits: u64) -> (r: Val)
        ensures
            r.v.bits == bits,
            r.t@ == num(bits),
    {
        Val { v: Real::from_bits(bits), t: Ghost(num(bits)) }
    }

    /// Asks `arith` for `self op other`.
    pub(crate) fn ask<A: Fn(Op, Real, Real) -> Real>(&self, arith: &A, op: Op, other: &Val) -> (r:
        Val)
        requires
            answers_all(arith),
            self.sound(arith),
            other.sound(arith),
        ensures
            r.sound(arith),
            r.t@ == Term::Bin(op, Box::new(self.t@), Box::new(other.t@)),
    {
        Val {
            v: arith(op, self.v, other.v),
            t: Ghost(Term::Bin(op, Box::new(self.t@), Box::new(other.t@))),
        }
    }

    /// `self + other`
    pub(crate) fn plus<A: Fn(Op, Real, Real) -> Real>(&self, arith: &A, other: &Val) -> (r: Val)
        requires
            answers_all(arith),
            self.sound(arith),
            other.sound(arith),
        ensures
            r.sound(arith),
            r.t@ == self.t@.plus(other.t@),
    {
        self.ask(arith, Op::Add, other)
    }

    /// `self - other`
    pub(crate) fn minus<A: Fn(Op, Real, Real) -> Real>(&self, arith: &A, other: &Val) -> (r: Val)
        requires
            answers_all(arith),
            self.sound(arith),
            other.sound(arith),
        ensures
            r.sound(arith),
            r.t@ == self.t@.minus(other.t@),
    {
        self.ask(arith, Op::Sub, other)
    }

    /// `self * other`
    pub(crate) fn times<A: Fn(Op, Real, Real) -> Real>(&self, arith: &A, other: &Val) -> (r: Val)
        requires
            answers_all(arith),
            self.sound(arith),
            other.sound(arith),
        ensures
            r.sound(arith),
            r.t@ == self.t@.times(other.t@),
    {
        self.ask(arith, Op::Mul, other)
    }

    /// `self / other`
    pub(crate) fn over<A: Fn(Op, Real, Real) -> Real>(&self, arith: &A, other: &Val) -> (r: Val)
        requires
            answers_all(arith),
            self.sound(arith),
            other.sound(arith),
        ensures
            r.sound(arith),
            r.t@ == self.t@.over(other.t@),
    {
        self.ask(arith, Op::Div, other)
    }
}

} // verus!
