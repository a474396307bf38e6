//! Fixed-step integrators for `dy/dr = f(r, y)` on a state of `D` numbers.
//!
//! Both integrators are pure: they keep no state, and all they do is ask `f`
//! for derivatives and the supplied arithmetic for sums and products.
use vstd::prelude::*;
use crate::arithmetic::{
    answers_all,
    lemma_one_value,
    lit,
    num,
    single_valued,
    yields,
    Op,
    Term,
    Val,
};
use crate::number::{Real, SIX, TWO};

verus! {

/// The integrator to advance a state with.
#[derive(Clone, Copy, Debug, PartialEq, Eq, Structural)]
pub enum Method {
    /// The explicit Euler method: one derivative for each step.
    Euler,
    /// The classic Runge-Kutta method of fourth order: four derivatives for
    /// each step.
    Rk4,
}

/// `f` accepts every radius and state.
pub open spec fn defined_everywhere<const D: usize, F: Fn(Real, &[Real; D]) -> [Real; D]>(
    f: &F,
) -> bool {
    forall|t: Real, y: &[Real; D]| call_requires(*f, (t, y))
}

/// The derivatives that `f` may return, as a relation: `k` is a derivative of
/// the state `y` at `t`.
pub open spec fn graph<const D: usize, F: Fn(Real, &[Real; D]) -> [Real; D]>(f: &F) -> spec_fn(
    Real,
    [Real; D],
    [Real; D],
) -> bool {
    |t: Real, y: [Real; D], k: [Real; D]| call_ensures(*f, (t, &y), k)
}

/// One component after an Euler step: `y + k * h`.
pub open spec fn euler_term(h: Real, y: Real, k: Real) -> Term {
    lit(y).plus(lit(k).times(lit(h)))
}

/// The radius at which a Runge-Kutta stage asks for its derivative:
/// `t0 + h / 2` for a stage in the middle of the step, `t0 + h` for the one at
/// its end.
pub open spec fn probe_radius(h: Real, t0: Real, middle: bool) -> Term {
    if middle {
        lit(t0).plus(lit(h).over(num(TWO)))
    } else {
        lit(t0).plus(lit(h))
    }
}

/// One component of the state at which a Runge-Kutta stage asks for its
/// derivative, `k` being the derivative of the stage before:
/// `y + h * k / 2` in the middle of the step, `y + h * k` at its end.
pub open spec fn probe_term(h: Real, y: Real, k: Real, middle: bool) -> Term {
    if middle {
        lit(y).plus(lit(h).times(lit(k)).over(num(TWO)))
    } else {
        lit(y).plus(lit(h).times(lit(k)))
    }
}

/// One component after a Runge-Kutta step:
/// `y + (h / 6) * (k1 + 2 * k2 + 2 * k3 + k4)`.
pub open spec fn rk4_term(h: Real, y: Real, k1: Real, k2: Real, k3: Real, k4: Real) -> Term {
    lit(y).plus(
        lit(h).over(num(SIX)).times(
            lit(k1).plus(num(TWO).times(lit(k2))).plus(num(TWO).times(lit(k3))).plus(lit(k4)),
        ),
    )
}

/// `(t, y)` is where the stage after the derivative `k` asks for its own.
pub open spec fn probes<const D: usize, A: Fn(Op, Real, Real) -> Real>(
    arith: &A,
    h: Real,
    t0: Real,
    y0: [Real; D],
    k: [Real; D],
    middle: bool,
    t: Real,
    y: [Real; D],
) -> bool {
    &&& yields(arith, probe_radius(h, t0, middle), t)
    &&& forall|i: int|
        0 <= i < D ==> yields(arith, probe_term(h, y0[i], k[i], middle), #[trigger] y[i])
}

/// What a Runge-Kutta step computes on its way: the four derivatives, and the
/// radius and state at which each but the first was asked for.
pub struct Rk4Stages<const D: usize> {
    pub k1: [Real; D],
    pub t2: Real,
    pub y2: [Real; D],
    pub k2: [Real; D],
    pub t3: Real,
    pub y3: [Real; D],
    pub k3: [Real; D],
    pub t4: Real,
    pub y4: [Real; D],
    pub k4: [Real; D],
}

/// The step from `y0` to `y1` went through the stages `s`: the first
/// derivative was asked for at `(t0, y0)`, the second in the middle of the step
/// after the first, the third in the middle after the second, the fourth at
/// the end after the third, and `y1` blends the four.
pub open spec fn rk4_through<const D: usize, A: Fn(Op, Real, Real) -> Real>(
    arith: &A,
    deriv: spec_fn(Real, [Real; D], [Real; D]) -> bool,
    h: Real,
    t0: Real,
    y0: [Real; D],
    s: Rk4Stages<D>,
    y1: [Real; D],
) -> bool {
    &&& deriv(t0, y0, s.k1)
    &&& probes(arith, h, t0, y0, s.k1, true, s.t2, s.y2)
    &&& deriv(s.t2, s.y2, s.k2)
    &&& probes(arith, h, t0, y0, s.k2, true, s.t3, s.y3)
    &&& deriv(s.t3, s.y3, s.k3)
    &&& probes(arith, h, t0, y0, s.k3, false, s.t4, s.y4)
    &&& deriv(s.t4, s.y4, s.k4)
    &&& forall|i: int|
        0 <= i < D ==> yields(
            arith,
            rk4_term(h, y0[i], s.k1[i], s.k2[i], s.k3[i], s.k4[i]),
            #[trigger] y1[i],
        )
}

/// `y1` is `y0` after one Euler step of size `h` from radius `t0`, the
/// derivatives being those that `deriv` admits.
pub open spec fn euler_step<const D: usize, A: Fn(Op, Real, Real) -> Real>(
    arith: &A,
    deriv: spec_fn(Real, [Real; D], [Real; D]) -> bool,
    h: Real,
    t0: Real,
    y0: [Real; D],
    y1: [Real; D],
) -> bool {
    exists|k: [Real; D]|
        #![trigger deriv(t0, y0, k)]
        deriv(t0, y0, k) && forall|i: int|
            0 <= i < D ==> yields(arith, euler_term(h, y0[i], k[i]), #[trigger] y1[i])
}

/// `y1` is `y0` after one Runge-Kutta step of size `h` from radius `t0`, the
/// derivatives being those that `deriv` admits.
pub open spec fn rk4_step<const D: usize, A: Fn(Op, Real, Real) -> Real>(
    arith: &A,
    deriv: spec_fn(Real, [Real; D], [Real; D]) -> bool,
    h: Real,
    t0: Real,
    y0: [Real; D],
    y1: [Real; D],
) -> bool {
    exists|s: Rk4Stages<D>| rk4_through(arith, deriv, h, t0, y0, s, y1)
}

/// `y1` is `y0` after one step of the given method.
pub open spec fn stepped<const D: usize, A: Fn(Op, Real, Real) -> Real>(
    arith: &A,
    deriv: spec_fn(Real, [Real; D], [Real; D]) -> bool,
    method: Method,
    h: Real,
    t0: Real,
    y0: [Real; D],
    y1: [Real; D],
) -> bool {
    match method {
        Method::Euler => euler_step(arith, deriv, h, t0, y0, y1),
        Method::Rk4 => rk4_step(arith, deriv, h, t0, y0, y1),
    }
}

/// One Euler step: `y1 = y0 + f(t0, y0) * h`, with a single call of `f`.
pub fn euler<const D: usize, F, A>(f: &F, arith: &A, h: Real, t0: Real, y0: [Real; D]) -> (y1: [
    Real;
    D
]) where F: Fn(Real, &[Real; D]) -> [Real; D], A: Fn(Op, Real, Real) -> Real
    requires
        defined_everywhere(f),
        answers_all(arith),
    ensures
        euler_step(arith, graph(f), h, t0, y0, y1),
{
    let k = f(t0, &y0);
    let mut y1 = y0;
    let mut i: usize = 0;
    while i < D
        invariant
            answers_all(arith),
            i <= D,
            forall|j: int|
                0 <= j < i ==> yields(arith, euler_term(h, y0[j], k[j]), #[trigger] y1[j]),
        decreases D - i,
    {
        let next = Val::of(y0[i]).plus(arith, &Val::of(k[i]).times(arith, &Val::of(h)));
        y1[i] = next.v;
        i += 1;
    }
    assert(graph(f)(t0, y0, k));
    y1
}

/// Where the stage after the derivative `k` asks for its own.
fn probe<const D: usize, A: Fn(Op, Real, Real) -> Real>(
    arith: &A,
    h: Real,
    t0: Real,
    y0: &[Real; D],
    k: &[Real; D],
    middle: bool,
) -> (at: (Real, [Real; D]))
    requires
        answers_all(arith),
    ensures
        probes(arith, h, t0, *y0, *k, middle, at.0, at.1),
{
    let t = if middle {
        Val::of(t0).plus(arith, &Val::of(h).over(arith, &Val::constant(TWO)))
    } else {
        Val::of(t0).plus(arith, &Val::of(h))
    };
    let mut y = *y0;
    let mut i: usize = 0;
    while i < D
        invariant
            answers_all(arith),
            i <= D,
            forall|j: int|
                0 <= j < i ==> yields(arith, probe_term(h, y0[j], k[j], middle), #[trigger] y[j]),
        decreases D - i,
    {
        let push = Val::of(h).times(arith, &Val::of(k[i]));
        let next = if middle {
            Val::of(y0[i]).plus(arith, &push.over(arith, &Val::constant(TWO)))
        } else {
            Val::of(y0[i]).plus(arith, &push)
        };
        y[i] = next.v;
        i += 1;
    }
    (t.v, y)
}

/// One Runge-Kutta step of fourth order:
/// `k1 = f(t0, y0)`, `k2 = f(t0 + h / 2, y0 + h * k1 / 2)`,
/// `k3 = f(t0 + h / 2, y0 + h * k2 / 2)`, `k4 = f(t0 + h, y0 + h * k3)` and
/// `y1 = y0 + (h / 6) * (k1 + 2 * k2 + 2 * k3 + k4)`.
pub fn rk4<const D: usize, F, A>(f: &F, arith: &A, h: Real, t0: Real, y0: [Real; D]) -> (y1: [
    Real;
    D
]) where F: Fn(Real, &[Real; D]) -> [Real; D], A: Fn(Op, Real, Real) -> Real
    requires
        defined_everywhere(f),
        answers_all(arith),
    ensures
        rk4_step(arith, graph(f), h, t0, y0, y1),
{
    let k1 = f(t0, &y0);
    let (t2, y2) = probe(arith, h, t0, &y0, &k1, true);
    let k2 = f(t2, &y2);
    let (t3, y3) = probe(arith, h, t0, &y0, &k2, true);
    let k3 = f(t3, &y3);
    let (t4, y4) = probe(arith, h, t0, &y0, &k3, false);
    let k4 = f(t4, &y4);
    let sixth = Val::of(h).over(arith, &Val::constant(SIX));
    let mut y1 = y0;
    let mut i: usize = 0;
    while i < D
        invariant
            answers_all(arith),
            i <= D,
            sixth.sound(arith),
            sixth.t@ == lit(h).over(num(SIX)),
            forall|j: int|
                0 <= j < i ==> yields(
                    arith,
                    rk4_term(h, y0[j], k1[j], k2[j], k3[j], k4[j]),
                    #[trigger] y1[j],
                ),
        decreases D - i,
    {
        let two = Val::constant(TWO);
        let sum = Val::of(k1[i]).plus(arith, &two.times(arith, &Val::of(k2[i]))).plus(
            arith,
            &two.times(arith, &Val::of(k3[i])),
        ).plus(arith, &Val::of(k4[i]));
        let next = Val::of(y0[i]).plus(arith, &sixth.times(arith, &sum));
        y1[i] = next.v;
        i += 1;
    }
    proof {
        let s = Rk4Stages { k1, t2, y2, k2, t3, y3, k3, t4, y4, k4 };
        assert(rk4_through(arith, graph(f), h, t0, y0, s, y1));
    }
    y1
}

/// One step of the given method.
pub fn step<const D: usize, F, A>(
    f: &F,
    arith: &A,
    method: Method,
    h: Real,
    t0: Real,
    y0: [Real; D],
) -> (y1: [Real; D]) where F: Fn(Real, &[Real; D]) -> [Real; D], A: Fn(Op, Real, Real) -> Real
    requires
        defined_everywhere(f),
        answers_all(arith),
    ensures
        stepped(arith, graph(f), method, h, t0, y0, y1),
{
    match method {
        Method::Euler => euler(f, arith, h, t0, y0),
        Method::Rk4 => rk4(f, arith, h, t0, y0),
    }
}

/// `deriv` is a function: a state has one derivative at a radius.
pub open spec fn one_derivative<const D: usize>(
    deriv: spec_fn(Real, [Real; D], [Real; D]) -> bool,
) -> bool {
    forall|t: Real, y: [Real; D], k: [Real; D], l: [Real; D]|
        #![trigger deriv(t, y, k), deriv(t, y, l)]
        deriv(t, y, k) && deriv(t, y, l) ==> k == l
}

/// Where arithmetic and derivative are functions, an Euler step leads to one
/// state.
pub proof fn lemma_one_euler_step<const D: usize, A: Fn(Op, Real, Real) -> Real>(
    arith: &A,
    deriv: spec_fn(Real, [Real; D], [Real; D]) -> bool,
    h: Real,
    t0: Real,
    y0: [Real; D],
    y1: [Real; D],
    z1: [Real; D],
)
    requires
        single_valued(arith),
        one_derivative(deriv),
        euler_step(arith, deriv, h, t0, y0, y1),
        euler_step(arith, deriv, h, t0, y0, z1),
    ensures
        y1 == z1,
{
    let k = choose|k: [Real; D]|
        #![trigger deriv(t0, y0, k)]
        deriv(t0, y0, k) && forall|i: int|
            0 <= i < D ==> yields(arith, euler_term(h, y0[i], k[i]), #[trigger] y1[i]);
    let l = choose|l: [Real; D]|
        #![trigger deriv(t0, y0, l)]
        deriv(t0, y0, l) && forall|i: int|
            0 <= i < D ==> yields(arith, euler_term(h, y0[i], l[i]), #[trigger] z1[i]);
    assert(k == l);
    assert forall|i: int| 0 <= i < D implies y1[i] == z1[i] by {
        lemma_one_value(arith, euler_term(h, y0[i], k[i]), y1[i], z1[i]);
    }
    assert(y1 =~= z1);
}

/// Under arithmetic that is a function, a stage asks for its derivative at one
/// place.
pub proof fn lemma_one_probe<const D: usize, A: Fn(Op, Real, Real) -> Real>(
    arith: &A,
    h: Real,
    t0: Real,
    y0: [Real; D],
    k: [Real; D],
    middle: bool,
    t: Real,
    y: [Real; D],
    u: Real,
    z: [Real; D],
)
    requires
        single_valued(arith),
        probes(arith, h, t0, y0, k, middle, t, y),
        probes(arith, h, t0, y0, k, middle, u, z),
    ensures
        t == u,
        y == z,
{
    lemma_one_value(arith, probe_radius(h, t0, middle), t, u);
    assert forall|i: int| 0 <= i < D implies y[i] == z[i] by {
        lemma_one_value(arith, probe_term(h, y0[i], k[i], middle), y[i], z[i]);
    }
    assert(y =~= z);
}

/// Where arithmetic and derivative are functions, a Runge-Kutta step leads to
/// one state.
pub proof fn lemma_one_rk4_step<const D: usize, A: Fn(Op, Real, Real) -> Real>(
    arith: &A,
    deriv: spec_fn(Real, [Real; D], [Real; D]) -> bool,
    h: Real,
    t0: Real,
    y0: [Real; D],
    y1: [Real; D],
    z1: [Real; D],
)
    requires
        single_valued(arith),
        one_derivative(deriv),
        rk4_step(arith, deriv, h, t0, y0, y1),
        rk4_step(arith, deriv, h, t0, y0, z1),
    ensures
        y1 == z1,
{
    let s = choose|s: Rk4Stages<D>| rk4_through(arith, deriv, h, t0, y0, s, y1);
    let r = choose|r: Rk4Stages<D>| rk4_through(arith, deriv, h, t0, y0, r, z1);
    // Stage by stage the two runs ask at the same place and get the same
    // derivative.
    assert(s.k1 == r.k1);
    lemma_one_probe(arith, h, t0, y0, s.k1, true, s.t2, s.y2, r.t2, r.y2);
    assert(s.k2 == r.k2);
    lemma_one_probe(arith, h, t0, y0, s.k2, true, s.t3, s.y3, r.t3, r.y3);
    assert(s.k3 == r.k3);
    lemma_one_probe(arith, h, t0, y0, s.k3, false, s.t4, s.y4, r.t4, r.y4);
    assert(s.k4 == r.k4);
    assert forall|i: int| 0 <= i < D implies y1[i] == z1[i] by {
        lemma_one_value(
            arith,
            rk4_term(h, y0[i], s.k1[i], s.k2[i], s.k3[i], s.k4[i]),
            y1[i],
            z1[i],
        );
    }
    assert(y1 =~= z1);
}

/// Where arithmetic and derivative are functions, a step of either method
/// leads to one state.
pub proof fn lemma_one_step<const D: usize, A: Fn(Op, Real, Real) -> Real>(
    arith: &A,
    deriv: spec_fn(Real, [Real; D], [Real; D]) -> bool,
    method: Method,
    h: Real,
    t0: Real,
    y0: [Real; D],
    y1: [Real; D],
    z1: [Real; D],
)
    requires
        single_valued(arith),
        one_derivative(deriv),
        stepped(arith, deriv, method, h, t0, y0, y1),
        stepped(arith, deriv, method, h, t0, y0, z1),
    ensures
        y1 == z1,
{
    match method {
        Method::Euler => lemma_one_euler_step(arith, deriv, h, t0, y0, y1, z1),
        Method::Rk4 => lemma_one_rk4_step(arith, deriv, h, t0, y0, y1, z1),
    }
}

} // verus!
