//! The shooting solver: from a central pressure outward to the surface.
//!
//! A star is integrated from one step above its centre until the pressure is
//! no longer zero or above. The radius reached and the mass enclosed there are
//! the star's. At most a given number of steps is taken, so every run ends.
use vstd::prelude::*;
use crate::arithmetic::{
    answers_all,
    lemma_answer,
    lemma_one_value,
    lemma_value,
    lit,
    single_valued,
    yields,
    Op,
    Term,
    Val,
};
use crate::eos::{lemma_one_slope, slope, EquationOfState, NuclearParams};
use crate::failure::Failure;
use crate::number::Real;
use crate::numerical_integration::{
    defined_everywhere,
    euler_term,
    graph,
    lemma_one_step,
    one_derivative,
    rk4_through,
    step,
    stepped,
    Method,
    Rk4Stages,
};

verus! {

/// What a run is made with.
#[derive(Clone, Copy, Debug, PartialEq, Eq, Structural)]
pub struct Settings {
    /// The integrator.
    pub method: Method,
    /// The step size `h`; it is also the radius at which a star starts.
    pub step: Real,
    /// The small mass enclosed at the start.
    pub seed_mass: Real,
    /// The number of steps after which a run is given up.
    pub max_steps: usize,
    /// The unit in which a star's mass is reported: the mass at the surface
    /// is divided by it. Without a unit the mass is reported as it is.
    pub mass_unit: Option<Real>,
}

/// A star: the radius at which its pressure vanished, and its mass.
#[derive(Clone, Copy, Debug, PartialEq, Eq, Structural)]
pub struct Star {
    pub radius: Real,
    pub mass: Real,
}

/// A point on the way out: a radius, and the pressure and the enclosed mass
/// there.
pub struct Point {
    pub radius: Real,
    pub state: [Real; 2],
}

impl Point {
    /// The pressure is zero or above: the surface is not passed yet. At a
    /// point that is not inside the pressure is below zero, or not a number.
    pub open spec fn inside(self) -> bool {
        self.state[0].at_least_zero()
    }
}

/// The point at which the star of the given central pressure starts.
pub open spec fn starts(settings: Settings, central_pressure: Real, at: Point) -> bool {
    &&& at.radius == settings.step
    &&& at.state[0] == central_pressure
    &&& at.state[1] == settings.seed_mass
}

/// One step leads from `from` to `to`: the state is advanced by the
/// integrator, and the radius grows by the step size.
pub open spec fn moves<A: Fn(Op, Real, Real) -> Real>(
    arith: &A,
    deriv: spec_fn(Real, [Real; 2], [Real; 2]) -> bool,
    settings: Settings,
    from: Point,
    to: Point,
) -> bool {
    &&& stepped(arith, deriv, settings.method, settings.step, from.radius, from.state, to.state)
    &&& yields(arith, lit(from.radius).plus(lit(settings.step)), to.radius)
}

/// `track` is the way of a star outward: it begins at the star's start, each
/// point leads to the next by one step, and every point between the first and
/// the last is inside the star.
pub open spec fn is_track<A: Fn(Op, Real, Real) -> Real>(
    arith: &A,
    deriv: spec_fn(Real, [Real; 2], [Real; 2]) -> bool,
    settings: Settings,
    central_pressure: Real,
    track: Seq<Point>,
) -> bool {
    &&& track.len() >= 1
    &&& starts(settings, central_pressure, track[0])
    &&& forall|i: int|
        1 <= i < track.len() ==> moves(arith, deriv, settings, track[i - 1], #[trigger] track[i])
    &&& forall|i: int| 1 <= i < track.len() - 1 ==> (#[trigger] track[i]).inside()
}

/// The mass `reported` for the mass `enclosed` at the surface.
pub open spec fn reports<A: Fn(Op, Real, Real) -> Real>(
    arith: &A,
    settings: Settings,
    enclosed: Real,
    reported: Real,
) -> bool {
    match settings.mass_unit {
        Some(unit) => yields(arith, lit(enclosed).over(lit(unit)), reported),
        None => reported == enclosed,
    }
}

/// How a track ends. A star is reported at the first point after the start
/// that is not inside, with that point's radius and mass. The run is given up
/// where the allowed steps have all been taken and the last point is still
/// inside.
pub open spec fn ends<A: Fn(Op, Real, Real) -> Real>(
    arith: &A,
    settings: Settings,
    track: Seq<Point>,
    out: Result<Star, Failure>,
) -> bool {
    let steps = track.len() - 1;
    let last = track[steps];
    match out {
        Ok(star) => {
            &&& 1 <= steps <= settings.max_steps
            &&& !last.inside()
            &&& star.radius == last.radius
            &&& reports(arith, settings, last.state[1], star.mass)
        },
        Err(Failure::DidNotConverge) => {
            &&& steps == settings.max_steps
            &&& steps == 0 || last.inside()
        },
        Err(_) => false,
    }
}

/// `out` is the outcome of shooting from the given central pressure.
pub open spec fn shot<A: Fn(Op, Real, Real) -> Real>(
    arith: &A,
    deriv: spec_fn(Real, [Real; 2], [Real; 2]) -> bool,
    settings: Settings,
    central_pressure: Real,
    out: Result<Star, Failure>,
) -> bool {
    exists|track: Seq<Point>|
        #![trigger is_track(arith, deriv, settings, central_pressure, track)]
        is_track(arith, deriv, settings, central_pressure, track) && ends(
            arith,
            settings,
            track,
            out,
        )
}

/// Integrates one star outward. The start is one step above the centre, with
/// the seed mass enclosed; a step is taken, and then another for as long as
/// the pressure is zero or above.
pub fn shoot<F, A>(f: &F, arith: &A, settings: &Settings, central_pressure: Real) -> (out: Result<
    Star,
    Failure,
>) where F: Fn(Real, &[Real; 2]) -> [Real; 2], A: Fn(Op, Real, Real) -> Real
    requires
        defined_everywhere(f),
        answers_all(arith),
    ensures
        shot(arith, graph(f), *settings, central_pressure, out),
{
    let mut radius = settings.step;
    let mut state = [central_pressure, settings.seed_mass];
    let mut steps: usize = 0;
    let ghost mut track = seq![Point { radius, state }];
    while steps < settings.max_steps
        invariant
            defined_everywhere(f),
            answers_all(arith),
            steps <= settings.max_steps,
            track.len() == steps + 1,
            track[steps as int] == (Point { radius, state }),
            is_track(arith, graph(f), *settings, central_pressure, track),
            steps >= 1 ==> track[steps as int].inside(),
        decreases settings.max_steps - steps,
    {
        let next = step(f, arith, settings.method, settings.step, radius, state);
        let further = Val::of(radius).plus(arith, &Val::of(settings.step));
        proof {
            let to = Point { radius: further.v, state: next };
            assert(moves(arith, graph(f), *settings, track[steps as int], to));
            track = track.push(to);
        }
        radius = further.v;
        state = next;
        steps += 1;
        assert(is_track(arith, graph(f), *settings, central_pressure, track));
        if !state[0].at_least_zero() {
            let mass = match settings.mass_unit {
                Some(unit) => Val::of(state[1]).over(arith, &Val::of(unit)).v,
                None => state[1],
            };
            return Ok(Star { radius, mass });
        }
    }
    Err(Failure::DidNotConverge)
}

/// Shoots once from each seed pressure. The outcomes stand in the order of the
/// seeds, and each depends on its own seed alone: a run that is given up is
/// reported in its place and leaves the other stars as they are.
pub fn shoot_each<F, A>(f: &F, arith: &A, settings: &Settings, seeds: &Vec<Real>) -> (stars: Vec<
    Result<Star, Failure>,
>) where F: Fn(Real, &[Real; 2]) -> [Real; 2], A: Fn(Op, Real, Real) -> Real
    requires
        defined_everywhere(f),
        answers_all(arith),
    ensures
        stars.len() == seeds.len(),
        forall|i: int|
            0 <= i < seeds.len() ==> shot(
                arith,
                graph(f),
                *settings,
                seeds[i],
                #[trigger] stars[i],
            ),
{
    let mut stars: Vec<Result<Star, Failure>> = Vec::new();
    let mut i: usize = 0;
    while i < seeds.len()
        invariant
            defined_everywhere(f),
            answers_all(arith),
            i <= seeds.len(),
            stars.len() == i,
            forall|j: int|
                0 <= j < i ==> shot(arith, graph(f), *settings, seeds[j], #[trigger] stars[j]),
        decreases seeds.len() - i,
    {
        stars.push(shoot(f, arith, settings, seeds[i]));
        i += 1;
    }
    stars
}

/// The derivatives that the stellar-structure equations admit over `table`.
pub open spec fn structure<A: Fn(Op, Real, Real) -> Real>(
    arith: &A,
    table: Seq<NuclearParams>,
) -> spec_fn(Real, [Real; 2], [Real; 2]) -> bool {
    |t: Real, y: [Real; 2], k: [Real; 2]| slope(arith, table, t, y, k)
}

/// An outcome of shooting stays one when more derivatives are admitted.
pub proof fn lemma_shot_widens<A: Fn(Op, Real, Real) -> Real>(
    arith: &A,
    narrow: spec_fn(Real, [Real; 2], [Real; 2]) -> bool,
    wide: spec_fn(Real, [Real; 2], [Real; 2]) -> bool,
    settings: Settings,
    central_pressure: Real,
    out: Result<Star, Failure>,
)
    requires
        forall|t: Real, y: [Real; 2], k: [Real; 2]| #[trigger] narrow(t, y, k) ==> wide(t, y, k),
        shot(arith, narrow, settings, central_pressure, out),
    ensures
        shot(arith, wide, settings, central_pressure, out),
{
    let track = choose|track: Seq<Point>|
        #![trigger is_track(arith, narrow, settings, central_pressure, track)]
        is_track(arith, narrow, settings, central_pressure, track) && ends(
            arith,
            settings,
            track,
            out,
        );
    // The same track serves: each of its steps used derivatives that the wider
    // relation admits too.
    assert forall|i: int| 1 <= i < track.len() implies moves(
        arith,
        wide,
        settings,
        track[i - 1],
        #[trigger] track[i],
    ) by {
        let from = track[i - 1];
        let to = track[i];
        assert(moves(arith, narrow, settings, from, to));
        match settings.method {
            Method::Euler => {
                let k = choose|k: [Real; 2]|
                    #![trigger narrow(from.radius, from.state, k)]
                    narrow(from.radius, from.state, k) && forall|j: int|
                        0 <= j < 2 ==> yields(
                            arith,
                            euler_term(settings.step, from.state[j], k[j]),
                            #[trigger] to.state[j],
                        );
                assert(wide(from.radius, from.state, k));
            },
            Method::Rk4 => {
                let (h, t0, y0, y1) = (settings.step, from.radius, from.state, to.state);
                let s = choose|s: Rk4Stages<2>| rk4_through(arith, narrow, h, t0, y0, s, y1);
                assert(rk4_through(arith, wide, h, t0, y0, s, y1));
            },
        }
    }
    assert(is_track(arith, wide, settings, central_pressure, track));
}

/// The mass-radius relation over an equation of state: one star for each seed
/// pressure, in the order of the seeds. An empty table fails the whole run; a
/// star that does not converge fails alone.
pub fn mass_radius<A: Fn(Op, Real, Real) -> Real>(
    eos: &EquationOfState,
    arith: &A,
    settings: &Settings,
    seeds: &Vec<Real>,
) -> (out: Result<Vec<Result<Star, Failure>>, Failure>)
    requires
        answers_all(arith),
    ensures
        eos.well_formed() <==> out is Ok,
        out matches Err(e) ==> e == Failure::EmptyTable,
        out matches Ok(stars) ==> {
            &&& stars.len() == seeds.len()
            &&& forall|i: int|
                0 <= i < seeds.len() ==> shot(
                    arith,
                    structure(arith, eos.eos@),
                    *settings,
                    seeds[i],
                    #[trigger] stars[i],
                )
        },
{
    if eos.eos.len() == 0 {
        return Err(Failure::EmptyTable);
    }
    let f = |t: Real, y: &[Real; 2]| -> (k: [Real; 2])
        ensures
            slope(arith, eos.eos@, t, *y, k),
        {
            match eos.dmdr(arith, t, y) {
                Ok(k) => k,
                Err(_) => vstd::pervasive::unreached(),
            }
        };
    let stars = shoot_each(&f, arith, settings, seeds);
    proof {
        assert forall|i: int| 0 <= i < seeds.len() implies shot(
            arith,
            structure(arith, eos.eos@),
            *settings,
            seeds[i],
            #[trigger] stars[i],
        ) by {
            lemma_shot_widens(
                arith,
                graph(&f),
                structure(arith, eos.eos@),
                *settings,
                seeds[i],
                stars[i],
            );
        }
    }
    Ok(stars)
}

/// The radius after the given number of steps: the step size, and the step
/// size added to it once for each step.
pub open spec fn radius_after(h: Real, steps: nat) -> Term
    decreases steps,
{
    if steps == 0 {
        lit(h)
    } else {
        radius_after(h, (steps - 1) as nat).plus(lit(h))
    }
}

/// The radius of the point that a track reaches with its `i`-th step is the
/// radius after `i` steps.
pub proof fn lemma_radius_on_track<A: Fn(Op, Real, Real) -> Real>(
    arith: &A,
    deriv: spec_fn(Real, [Real; 2], [Real; 2]) -> bool,
    settings: Settings,
    central_pressure: Real,
    track: Seq<Point>,
    i: int,
)
    requires
        is_track(arith, deriv, settings, central_pressure, track),
        0 <= i < track.len(),
    ensures
        yields(arith, radius_after(settings.step, i as nat), track[i].radius),
    decreases i,
{
    if i > 0 {
        lemma_radius_on_track(arith, deriv, settings, central_pressure, track, i - 1);
        assert(moves(arith, deriv, settings, track[i - 1], track[i]));
        lemma_answer(arith, Op::Add, track[i - 1].radius, settings.step, track[i].radius);
        lemma_value(
            arith,
            Op::Add,
            radius_after(settings.step, (i - 1) as nat),
            lit(settings.step),
            track[i - 1].radius,
            settings.step,
            track[i].radius,
        );
    }
}

/// A star is found within the steps allowed: its radius is the radius after
/// some number of steps, at least one and at most as many as the settings
/// allow.
pub proof fn lemma_star_within_bound<A: Fn(Op, Real, Real) -> Real>(
    arith: &A,
    deriv: spec_fn(Real, [Real; 2], [Real; 2]) -> bool,
    settings: Settings,
    central_pressure: Real,
    star: Star,
)
    requires
        shot(arith, deriv, settings, central_pressure, Ok(star)),
    ensures
        exists|steps: nat|
            1 <= steps <= settings.max_steps && yields(
                arith,
                #[trigger] radius_after(settings.step, steps),
                star.radius,
            ),
{
    let track = choose|track: Seq<Point>|
        #![trigger is_track(arith, deriv, settings, central_pressure, track)]
        is_track(arith, deriv, settings, central_pressure, track) && ends(
            arith,
            settings,
            track,
            Ok(star),
        );
    let steps = (track.len() - 1) as nat;
    lemma_radius_on_track(arith, deriv, settings, central_pressure, track, steps as int);
    assert(yields(arith, radius_after(settings.step, steps), star.radius));
}

/// Where arithmetic and derivative are functions, a point leads to one next
/// point.
pub proof fn lemma_one_move<A: Fn(Op, Real, Real) -> Real>(
    arith: &A,
    deriv: spec_fn(Real, [Real; 2], [Real; 2]) -> bool,
    settings: Settings,
    from: Point,
    to: Point,
    other: Point,
)
    requires
        single_valued(arith),
        one_derivative(deriv),
        moves(arith, deriv, settings, from, to),
        moves(arith, deriv, settings, from, other),
    ensures
        to == other,
{
    lemma_one_step(
        arith,
        deriv,
        settings.method,
        settings.step,
        from.radius,
        from.state,
        to.state,
        other.state,
    );
    lemma_one_value(arith, lit(from.radius).plus(lit(settings.step)), to.radius, other.radius);
}

/// Where arithmetic and derivative are functions, two tracks of one star pass
/// through the same points for as long as both go on.
pub proof fn lemma_tracks_agree<A: Fn(Op, Real, Real) -> Real>(
    arith: &A,
    deriv: spec_fn(Real, [Real; 2], [Real; 2]) -> bool,
    settings: Settings,
    central_pressure: Real,
    track: Seq<Point>,
    other: Seq<Point>,
    i: int,
)
    requires
        single_valued(arith),
        one_derivative(deriv),
        is_track(arith, deriv, settings, central_pressure, track),
        is_track(arith, deriv, settings, central_pressure, other),
        0 <= i < track.len(),
        i < other.len(),
    ensures
        track[i] == other[i],
    decreases i,
{
    if i == 0 {
        assert(track[0].state =~= other[0].state);
    } else {
        lemma_tracks_agree(arith, deriv, settings, central_pressure, track, other, i - 1);
        lemma_one_move(arith, deriv, settings, track[i - 1], track[i], other[i]);
    }
}

/// Where arithmetic and derivative are functions, shooting from a central
/// pressure has one outcome: one star, or no convergence.
pub proof fn lemma_one_shot<A: Fn(Op, Real, Real) -> Real>(
    arith: &A,
    deriv: spec_fn(Real, [Real; 2], [Real; 2]) -> bool,
    settings: Settings,
    central_pressure: Real,
    out: Result<Star, Failure>,
    other: Result<Star, Failure>,
)
    requires
        single_valued(arith),
        one_derivative(deriv),
        shot(arith, deriv, settings, central_pressure, out),
        shot(arith, deriv, settings, central_pressure, other),
    ensures
        out == other,
{
    let a = choose|a: Seq<Point>|
        #![trigger is_track(arith, deriv, settings, central_pressure, a)]
        is_track(arith, deriv, settings, central_pressure, a) && ends(arith, settings, a, out);
    let b = choose|b: Seq<Point>|
        #![trigger is_track(arith, deriv, settings, central_pressure, b)]
        is_track(arith, deriv, settings, central_pressure, b) && ends(arith, settings, b, other);
    let m = a.len() - 1;
    let n = b.len() - 1;
    if m < n {
        // The shorter track ends where the longer one goes on: its last point
        // would be inside and not inside, or the steps allowed would be none
        // and some.
        lemma_tracks_agree(arith, deriv, settings, central_pressure, a, b, m);
        assert(b[m].inside() || m == 0);
    } else if n < m {
        lemma_tracks_agree(arith, deriv, settings, central_pressure, a, b, n);
        assert(a[n].inside() || n == 0);
    } else {
        lemma_tracks_agree(arith, deriv, settings, central_pressure, a, b, m);
        match (out, other) {
            (Ok(star), Ok(twin)) => {
                match settings.mass_unit {
                    Some(unit) => lemma_one_value(
                        arith,
                        lit(a[m].state[1]).over(lit(unit)),
                        star.mass,
                        twin.mass,
                    ),
                    None => {},
                }
            },
            _ => {},
        }
    }
}

/// Each star stands alone: where arithmetic and derivative are functions, the
/// outcome for a seed pressure is the same in every batch that holds the seed,
/// whatever the other seeds are and however their runs end.
pub proof fn lemma_stars_stand_alone<A: Fn(Op, Real, Real) -> Real>(
    arith: &A,
    deriv: spec_fn(Real, [Real; 2], [Real; 2]) -> bool,
    settings: Settings,
    seeds: Seq<Real>,
    stars: Seq<Result<Star, Failure>>,
    others: Seq<Real>,
    twins: Seq<Result<Star, Failure>>,
    i: int,
    j: int,
)
    requires
        single_valued(arith),
        one_derivative(deriv),
        stars.len() == seeds.len(),
        forall|q: int|
            0 <= q < seeds.len() ==> shot(arith, deriv, settings, seeds[q], #[trigger] stars[q]),
        twins.len() == others.len(),
        forall|q: int|
            0 <= q < others.len() ==> shot(arith, deriv, settings, others[q], #[trigger] twins[q]),
        0 <= i < seeds.len(),
        0 <= j < others.len(),
        seeds[i] == others[j],
    ensures
        stars[i] == twins[j],
{
    lemma_one_shot(arith, deriv, settings, seeds[i], stars[i], twins[j]);
}

/// Under arithmetic that is a function, the stellar-structure equations give a
/// state one derivative.
pub proof fn lemma_structure_is_a_function<A: Fn(Op, Real, Real) -> Real>(
    arith: &A,
    table: Seq<NuclearParams>,
)
    requires
        single_valued(arith),
    ensures
        one_derivative(structure(arith, table)),
{
    let deriv = structure(arith, table);
    assert forall|t: Real, y: [Real; 2], k: [Real; 2], l: [Real; 2]|
        #![trigger deriv(t, y, k), deriv(t, y, l)]
        deriv(t, y, k) && deriv(t, y, l) implies k == l by {
        lemma_one_slope(arith, table, t, y, k, l);
    }
}

} // verus!
