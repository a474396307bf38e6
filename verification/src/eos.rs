//! The tabulated equation of state, and the stellar-structure equations over it.
use vstd::prelude::*;
use crate::arithmetic::{
    answers_all,
    lemma_one_value,
    lit,
    num,
    single_valued,
    yields,
    Op,
    Term,
    Val,
};
use crate::failure::Failure;
use crate::number::{Real, FOUR, MINUS_ONE, PI, TWO, ZERO};
use crate::records::{csv_records, read_records};

verus! {

/// One sample of the equation of state.
#[derive(Clone, Copy, Debug, PartialEq, Eq, Structural)]
pub struct NuclearParams {
    pub pressure: Real,
    pub energy_density: Real,
}

/// The equation of state: samples in the order of the data they were read
/// from. The pressures need not be sorted.
#[derive(Debug)]
pub struct EquationOfState {
    pub eos: Vec<NuclearParams>,
}

impl EquationOfState {
    /// The table holds at least one sample. Loading establishes this, and a
    /// change of unit keeps it; a lookup succeeds exactly on such a table.
    pub open spec fn well_formed(&self) -> bool {
        self.eos.len() > 0
    }
}

/// `parse` accepts every text.
pub open spec fn reads_all<P: Fn(&str) -> Option<Real>>(parse: &P) -> bool {
    forall|s: &str| call_requires(*parse, (s,))
}

/// `parse` may read `text` as `out`: as that number, or as no number.
pub open spec fn reads<P: Fn(&str) -> Option<Real>>(
    parse: &P,
    text: Seq<char>,
    out: Option<Real>,
) -> bool {
    exists|s: &str| s@ == text && #[trigger] call_ensures(*parse, (s,), out)
}

/// The record holds `sample`: the pressure in its second field, the energy
/// density in its first.
pub open spec fn sample_of<P: Fn(&str) -> Option<Real>>(
    parse: &P,
    record: Seq<Seq<char>>,
    sample: NuclearParams,
) -> bool {
    &&& record.len() >= 2
    &&& reads(parse, record[1], Some(sample.pressure))
    &&& reads(parse, record[0], Some(sample.energy_density))
}

/// The record holds some sample.
pub open spec fn readable<P: Fn(&str) -> Option<Real>>(parse: &P, record: Seq<Seq<char>>) -> bool {
    exists|sample: NuclearParams| sample_of(parse, record, sample)
}

/// The record holds no sample: it has fewer than two fields, or one of the
/// first two was read as no number.
pub open spec fn unreadable<P: Fn(&str) -> Option<Real>>(
    parse: &P,
    record: Seq<Seq<char>>,
) -> bool {
    record.len() < 2 || reads(parse, record[1], None) || reads(parse, record[0], None)
}

/// How a table of text loads. It becomes an equation of state with one sample
/// for each record, in order, if there is a record and every record holds a
/// sample. The first record that holds none fails the whole load, and so does
/// a table without records.
pub open spec fn loaded<P: Fn(&str) -> Option<Real>>(
    parse: &P,
    records: Seq<Seq<Seq<char>>>,
    r: Result<EquationOfState, Failure>,
) -> bool {
    match r {
        Ok(table) => {
            &&& table.well_formed()
            &&& table.eos.len() == records.len()
            &&& forall|i: int|
                0 <= i < records.len() ==> sample_of(parse, #[trigger] records[i], table.eos[i])
        },
        Err(Failure::Parse { record }) => {
            &&& record < records.len()
            &&& unreadable(parse, records[record as int])
            &&& forall|i: int| 0 <= i < record ==> readable(parse, #[trigger] records[i])
        },
        Err(Failure::EmptyTable) => records.len() == 0,
        Err(_) => false,
    }
}

/// `after` is `before` in another unit: both of its numbers times `factor`.
pub open spec fn rescaled<A: Fn(Op, Real, Real) -> Real>(
    arith: &A,
    factor: Real,
    before: NuclearParams,
    after: NuclearParams,
) -> bool {
    &&& yields(arith, lit(before.pressure).times(lit(factor)), after.pressure)
    &&& yields(arith, lit(before.energy_density).times(lit(factor)), after.energy_density)
}

/// The rank by which a difference of pressures is judged: its absolute value,
/// placed in the total order.
pub open spec fn gap_key(gap: Real) -> u64 {
    gap.abs().total_key()
}

/// `i` is the first index at which `gaps` is least: no gap ranks below the one
/// at `i`, and every earlier gap ranks above it.
pub open spec fn is_first_least(gaps: Seq<Real>, i: int) -> bool {
    &&& 0 <= i < gaps.len()
    &&& forall|j: int| 0 <= j < gaps.len() ==> gap_key(gaps[i]) <= gap_key(#[trigger] gaps[j])
    &&& forall|j: int| 0 <= j < i ==> gap_key(gaps[i]) < gap_key(#[trigger] gaps[j])
}

/// `gaps` holds, for each sample in order, a value of its pressure minus
/// `pressure`.
pub open spec fn gaps_to<A: Fn(Op, Real, Real) -> Real>(
    arith: &A,
    table: Seq<NuclearParams>,
    pressure: Real,
    gaps: Seq<Real>,
) -> bool {
    &&& gaps.len() == table.len()
    &&& forall|j: int|
        0 <= j < table.len() ==> yields(
            arith,
            lit(table[j].pressure).minus(lit(pressure)),
            #[trigger] gaps[j],
        )
}

/// `rho` is the energy density of the sample nearest to `pressure`: of the
/// first sample whose pressure differs least from it.
pub open spec fn nearest<A: Fn(Op, Real, Real) -> Real>(
    arith: &A,
    table: Seq<NuclearParams>,
    pressure: Real,
    rho: Real,
) -> bool {
    exists|gaps: Seq<Real>, i: int|
        #![trigger gaps_to(arith, table, pressure, gaps), is_first_least(gaps, i)]
        gaps_to(arith, table, pressure, gaps) && is_first_least(gaps, i) && rho
            == table[i].energy_density
}

/// `r * r`
pub open spec fn square(r: Real) -> Term {
    lit(r).times(lit(r))
}

/// `r * r * r`
pub open spec fn cube(r: Real) -> Term {
    lit(r).times(lit(r)).times(lit(r))
}

/// The pressure gradient at radius `r`, for pressure `p`, enclosed mass `m`
/// and energy density `rho`:
/// `-1 * (p + rho) * (m + 4 * pi * p * r^3) / (r * (r - 2 * m))`.
pub open spec fn pressure_gradient(r: Real, p: Real, m: Real, rho: Real) -> Term {
    num(MINUS_ONE).times(lit(p).plus(lit(rho))).times(
        lit(m).plus(num(FOUR).times(num(PI)).times(lit(p)).times(cube(r))),
    ).over(lit(r).times(lit(r).minus(num(TWO).times(lit(m)))))
}

/// The mass gradient at radius `r`, for energy density `rho`:
/// `4 * pi * rho * r^2`.
pub open spec fn mass_gradient(r: Real, rho: Real) -> Term {
    num(FOUR).times(num(PI)).times(lit(rho)).times(square(r))
}

/// `k` is the derivative of the state `y`, pressure then enclosed mass, at
/// radius `r`. Where the pressure is below zero both gradients are exactly
/// zero, whatever the radius and the mass. Elsewhere they are values of the
/// two gradient terms, for the energy density of the sample nearest to the
/// pressure.
pub open spec fn slope<A: Fn(Op, Real, Real) -> Real>(
    arith: &A,
    table: Seq<NuclearParams>,
    r: Real,
    y: [Real; 2],
    k: [Real; 2],
) -> bool {
    if y[0].below_zero() {
        k[0].bits == ZERO && k[1].bits == ZERO
    } else {
        exists|rho: Real|
            #![trigger nearest(arith, table, y[0], rho)]
            nearest(arith, table, y[0], rho) && yields(
                arith,
                pressure_gradient(r, y[0], y[1], rho),
                k[0],
            ) && yields(arith, mass_gradient(r, rho), k[1])
    }
}

/// The index of the first least gap, if there is a gap at all.
pub fn first_least(gaps: &Vec<Real>) -> (r: Option<usize>)
    ensures
        gaps.len() == 0 <==> r is None,
        r matches Some(i) ==> is_first_least(gaps@, i as int),
{
    if gaps.len() == 0 {
        return None;
    }
    let mut best: usize = 0;
    let mut best_key: u64 = gaps[0].abs().total_key();
    let mut j: usize = 1;
    while j < gaps.len()
        invariant
            1 <= j <= gaps.len(),
            best < j,
            best_key == gap_key(gaps[best as int]),
            forall|q: int| 0 <= q < j ==> best_key <= gap_key(#[trigger] gaps[q]),
            forall|q: int| 0 <= q < best ==> best_key < gap_key(#[trigger] gaps[q]),
        decreases gaps.len() - j,
    {
        let key = gaps[j].abs().total_key();
        if key < best_key {
            best = j;
            best_key = key;
        }
        j += 1;
    }
    Some(best)
}

/// The surface clamp: past the surface, where the pressure is below zero, the
/// state no longer moves.
pub fn surface_clamp(pressure: Real, raw: [Real; 2]) -> (k: [Real; 2])
    ensures
        pressure.below_zero() ==> k[0].bits == ZERO && k[1].bits == ZERO,
        !pressure.below_zero() ==> k == raw,
{
    if pressure.below_zero() {
        [Real::from_bits(ZERO), Real::from_bits(ZERO)]
    } else {
        raw
    }
}

impl EquationOfState {
    /// Loads the equation of state from comma-separated data without a header
    /// row. Each record gives the energy density in its first field and the
    /// pressure in its second; `parse` reads a field as a number.
    pub fn new<P: Fn(&str) -> Option<Real>>(data: &[u8], parse: &P) -> (r: Result<
        EquationOfState,
        Failure,
    >)
        requires
            reads_all(parse),
        ensures
            match csv_records(data@) {
                Some(records) => loaded(parse, records, r),
                None => r == Err::<EquationOfState, Failure>(Failure::Csv),
            },
    {
        match read_records(data) {
            Ok(records) => EquationOfState::from_records(&records, parse),
            Err(_) => Err(Failure::Csv),
        }
    }

    /// Builds the equation of state from records that were read already.
    pub fn from_records<P: Fn(&str) -> Option<Real>>(records: &Vec<Vec<String>>, parse: &P) -> (r:
        Result<EquationOfState, Failure>)
        requires
            reads_all(parse),
        ensures
            loaded(parse, records.deep_view(), r),
    {
        let ghost text = records.deep_view();
        let mut eos: Vec<NuclearParams> = Vec::new();
        let mut i: usize = 0;
        while i < records.len()
            invariant
                reads_all(parse),
                text == records.deep_view(),
                i <= records.len(),
                eos.len() == i,
                forall|j: int| 0 <= j < i ==> sample_of(parse, #[trigger] text[j], eos[j]),
                forall|j: int| 0 <= j < i ==> readable(parse, #[trigger] text[j]),
            decreases records.len() - i,
        {
            let record = &records[i];
            if record.len() < 2 {
                return Err(Failure::Parse { record: i });
            }
            let pressure = match parse(record[1].as_str()) {
                Some(pressure) => pressure,
                None => {
                    return Err(Failure::Parse { record: i });
                },
            };
            let energy_density = match parse(record[0].as_str()) {
                Some(energy_density) => energy_density,
                None => {
                    return Err(Failure::Parse { record: i });
                },
            };
            let sample = NuclearParams { pressure, energy_density };
            assert(sample_of(parse, text[i as int], sample));
            eos.push(sample);
            i += 1;
        }
        if eos.len() == 0 {
            Err(Failure::EmptyTable)
        } else {
            Ok(EquationOfState { eos })
        }
    }

    /// Converts the table to another unit: the pressure and the energy density
    /// of every sample are multiplied by `factor`.
    pub fn rescale<A: Fn(Op, Real, Real) -> Real>(&mut self, arith: &A, factor: Real)
        requires
            answers_all(arith),
        ensures
            final(self).eos.len() == old(self).eos.len(),
            final(self).well_formed() == old(self).well_formed(),
            forall|i: int|
                0 <= i < old(self).eos.len() ==> rescaled(
                    arith,
                    factor,
                    old(self).eos[i],
                    #[trigger] final(self).eos[i],
                ),
    {
        let mut i: usize = 0;
        while i < self.eos.len()
            invariant
                answers_all(arith),
                i <= self.eos.len(),
                self.eos.len() == old(self).eos.len(),
                forall|j: int|
                    0 <= j < i ==> rescaled(
                        arith,
                        factor,
                        old(self).eos[j],
                        #[trigger] self.eos[j],
                    ),
                forall|j: int| i <= j < self.eos.len() ==> self.eos[j] == old(self).eos[j],
            decreases self.eos.len() - i,
        {
            let before = self.eos[i];
            let pressure = Val::of(before.pressure).times(arith, &Val::of(factor));
            let energy_density = Val::of(before.energy_density).times(arith, &Val::of(factor));
            self.eos[i] = NuclearParams { pressure: pressure.v, energy_density: energy_density.v };
            i += 1;
        }
    }

    /// The energy density at `pressure`: that of the nearest sample, the first
    /// one where two are equally near. Nothing is interpolated.
    pub fn get_energy_density<A: Fn(Op, Real, Real) -> Real>(
        &self,
        arith: &A,
        pressure: Real,
    ) -> (r: Result<Real, Failure>)
        requires
            answers_all(arith),
        ensures
            self.well_formed() <==> r is Ok,
            r matches Err(e) ==> e == Failure::EmptyTable,
            r matches Ok(rho) ==> nearest(arith, self.eos@, pressure, rho),
    {
        let mut gaps: Vec<Real> = Vec::new();
        let mut j: usize = 0;
        while j < self.eos.len()
            invariant
                answers_all(arith),
                j <= self.eos.len(),
                gaps.len() == j,
                forall|q: int|
                    0 <= q < j ==> yields(
                        arith,
                        lit(self.eos[q].pressure).minus(lit(pressure)),
                        #[trigger] gaps[q],
                    ),
            decreases self.eos.len() - j,
        {
            let gap = Val::of(self.eos[j].pressure).minus(arith, &Val::of(pressure));
            gaps.push(gap.v);
            j += 1;
        }
        match first_least(&gaps) {
            Some(i) => {
                assert(gaps_to(arith, self.eos@, pressure, gaps@));
                Ok(self.eos[i].energy_density)
            },
            None => Err(Failure::EmptyTable),
        }
    }

    /// The derivative of the state `y`, pressure then enclosed mass, at radius
    /// `r`: the right-hand side of the stellar-structure equations. The clamp
    /// at the surface is applied after the two gradients have been computed.
    ///
    /// Nothing guards the denominator `r * (r - 2 * m)`: where it vanishes, the
    /// pressure gradient is whatever the arithmetic makes of the division.
    pub fn dmdr<A: Fn(Op, Real, Real) -> Real>(&self, arith: &A, r: Real, y: &[Real; 2]) -> (out:
        Result<[Real; 2], Failure>)
        requires
            answers_all(arith),
        ensures
            self.well_formed() <==> out is Ok,
            out matches Err(e) ==> e == Failure::EmptyTable,
            out matches Ok(k) ==> slope(arith, self.eos@, r, *y, k),
            out matches Ok(k) ==> (y[0].below_zero() ==> k[0].bits == ZERO && k[1].bits == ZERO),
    {
        let rho = match self.get_energy_density(arith, y[0]) {
            Ok(rho) => rho,
            Err(_) => {
                return Err(Failure::EmptyTable);
            },
        };
        let p = Val::of(y[0]);
        let m = Val::of(y[1]);
        let rho = Val::of(rho);
        let r = Val::of(r);
        let four_pi = Val::constant(FOUR).times(arith, &Val::constant(PI));
        let weight = Val::constant(MINUS_ONE).times(arith, &p.plus(arith, &rho));
        let r_cubed = r.times(arith, &r).times(arith, &r);
        let pull = m.plus(arith, &four_pi.times(arith, &p).times(arith, &r_cubed));
        let room = r.times(arith, &r.minus(arith, &Val::constant(TWO).times(arith, &m)));
        let dp = weight.times(arith, &pull).over(arith, &room);
        let dm = four_pi.times(arith, &rho).times(arith, &r.times(arith, &r));
        Ok(surface_clamp(y[0], [dp.v, dm.v]))
    }
}

/// `parse` is a function: it reads a text in one way.
pub open spec fn reads_one_way<P: Fn(&str) -> Option<Real>>(parse: &P) -> bool {
    forall|s: &str, t: &str, a: Option<Real>, b: Option<Real>|
        #![trigger call_ensures(*parse, (s,), a), call_ensures(*parse, (t,), b)]
        s@ == t@ && call_ensures(*parse, (s,), a) && call_ensures(*parse, (t,), b) ==> a == b
}

/// With a `parse` that is a function, a table of text loads in one way: into
/// one table, or with one failure.
pub proof fn lemma_loads_one_way<P: Fn(&str) -> Option<Real>>(
    parse: &P,
    records: Seq<Seq<Seq<char>>>,
    r: Result<EquationOfState, Failure>,
    s: Result<EquationOfState, Failure>,
)
    requires
        reads_one_way(parse),
        loaded(parse, records, r),
        loaded(parse, records, s),
    ensures
        match (r, s) {
            (Ok(a), Ok(b)) => a.eos@ == b.eos@,
            (Err(e), Err(f)) => e == f,
            _ => false,
        },
{
    // A record that holds a sample holds one sample and is not unreadable.
    assert forall|i: int| 0 <= i < records.len() && readable(parse, records[i]) implies !unreadable(
        parse,
        #[trigger] records[i],
    ) by {
        let sample = choose|sample: NuclearParams| sample_of(parse, records[i], sample);
        assert(reads(parse, records[i][1], Some(sample.pressure)));
        assert(reads(parse, records[i][0], Some(sample.energy_density)));
    }
    match (r, s) {
        (Ok(a), Ok(b)) => {
            assert forall|i: int| 0 <= i < records.len() implies a.eos[i] == b.eos[i] by {
                assert(sample_of(parse, records[i], a.eos[i]));
                assert(sample_of(parse, records[i], b.eos[i]));
            }
            assert(a.eos@ =~= b.eos@);
        },
        (Ok(a), Err(Failure::Parse { record })) => {
            assert(sample_of(parse, records[record as int], a.eos[record as int]));
            assert(readable(parse, records[record as int]));
        },
        (Err(Failure::Parse { record }), Ok(b)) => {
            assert(sample_of(parse, records[record as int], b.eos[record as int]));
            assert(readable(parse, records[record as int]));
        },
        (Err(Failure::Parse { record: first }), Err(Failure::Parse { record: second })) => {
            // The earlier of two different records would be readable and unreadable.
            if first < second {
                assert(readable(parse, records[first as int]));
            }
            if second < first {
                assert(readable(parse, records[second as int]));
            }
        },
        _ => {},
    }
}

/// No sequence has two first least gaps: the nearest sample is one sample.
pub proof fn lemma_first_least_is_unique(gaps: Seq<Real>, i: int, j: int)
    requires
        is_first_least(gaps, i),
        is_first_least(gaps, j),
    ensures
        i == j,
{
    // The later of two different indices would have a gap below the least.
    if i < j {
        assert(gap_key(gaps[j]) < gap_key(gaps[i]));
        assert(gap_key(gaps[i]) <= gap_key(gaps[j]));
    }
    if j < i {
        assert(gap_key(gaps[i]) < gap_key(gaps[j]));
        assert(gap_key(gaps[j]) <= gap_key(gaps[i]));
    }
}

/// Under arithmetic that is a function, one sample is the nearest: the lookup
/// has one result.
pub proof fn lemma_one_nearest<A: Fn(Op, Real, Real) -> Real>(
    arith: &A,
    table: Seq<NuclearParams>,
    pressure: Real,
    rho: Real,
    sigma: Real,
)
    requires
        single_valued(arith),
        nearest(arith, table, pressure, rho),
        nearest(arith, table, pressure, sigma),
    ensures
        rho == sigma,
{
    let (gaps, i) = choose|gaps: Seq<Real>, i: int|
        #![trigger gaps_to(arith, table, pressure, gaps), is_first_least(gaps, i)]
        gaps_to(arith, table, pressure, gaps) && is_first_least(gaps, i) && rho
            == table[i].energy_density;
    let (others, j) = choose|others: Seq<Real>, j: int|
        #![trigger gaps_to(arith, table, pressure, others), is_first_least(others, j)]
        gaps_to(arith, table, pressure, others) && is_first_least(others, j) && sigma
            == table[j].energy_density;
    assert forall|q: int| 0 <= q < table.len() implies gaps[q] == others[q] by {
        lemma_one_value(arith, lit(table[q].pressure).minus(lit(pressure)), gaps[q], others[q]);
    }
    assert(gaps =~= others);
    lemma_first_least_is_unique(gaps, i, j);
}

/// Under arithmetic that is a function, a state has one derivative.
pub proof fn lemma_one_slope<A: Fn(Op, Real, Real) -> Real>(
    arith: &A,
    table: Seq<NuclearParams>,
    r: Real,
    y: [Real; 2],
    k: [Real; 2],
    l: [Real; 2],
)
    requires
        single_valued(arith),
        slope(arith, table, r, y, k),
        slope(arith, table, r, y, l),
    ensures
        k == l,
{
    if !y[0].below_zero() {
        let rho = choose|rho: Real|
            #![trigger nearest(arith, table, y[0], rho)]
            nearest(arith, table, y[0], rho) && yields(
                arith,
                pressure_gradient(r, y[0], y[1], rho),
                k[0],
            ) && yields(arith, mass_gradient(r, rho), k[1]);
        let sigma = choose|sigma: Real|
            #![trigger nearest(arith, table, y[0], sigma)]
            nearest(arith, table, y[0], sigma) && yields(
                arith,
                pressure_gradient(r, y[0], y[1], sigma),
                l[0],
            ) && yields(arith, mass_gradient(r, sigma), l[1]);
        lemma_one_nearest(arith, table, y[0], rho, sigma);
        lemma_one_value(arith, pressure_gradient(r, y[0], y[1], rho), k[0], l[0]);
        lemma_one_value(arith, mass_gradient(r, rho), k[1], l[1]);
    }
    assert(k =~= l);
}

} // verus!
