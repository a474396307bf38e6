use neutron_star::arithmetic::Op;
use neutron_star::eos::{EquationOfState, NuclearParams};
use neutron_star::failure::Failure;
use neutron_star::number::Real;
use neutron_star::numerical_integration::{euler, Method};
use neutron_star::shooting::{mass_radius, shoot, shoot_each, Settings, Star};

fn num(x: f64) -> Real {
    Real::from_bits(x.to_bits())
}

fn float(x: Real) -> f64 {
    f64::from_bits(x.to_bits())
}

fn arith(op: Op, a: Real, b: Real) -> Real {
    let (a, b) = (float(a), float(b));
    num(match op {
        Op::Add => a + b,
        Op::Sub => a - b,
        Op::Mul => a * b,
        Op::Div => a / b,
    })
}

fn settings(method: Method, step: f64, max_steps: usize) -> Settings {
    Settings { method, step: num(step), seed_mass: num(1e-10), max_steps, mass_unit: None }
}

fn star(radius: f64, mass: f64) -> Star {
    Star { radius: num(radius), mass: num(mass) }
}

fn falling(_r: Real, _y: &[Real; 2]) -> [Real; 2] {
    [num(-1.0), num(0.5)]
}

fn stuck_at_seven(_r: Real, y: &[Real; 2]) -> [Real; 2] {
    if float(y[0]) == 7.0 {
        [num(0.0), num(0.0)]
    } else {
        [num(-1.0), num(0.5)]
    }
}

fn sample(pressure: f64, energy_density: f64) -> NuclearParams {
    NuclearParams { pressure: num(pressure), energy_density: num(energy_density) }
}

#[test]
fn a_steadily_falling_pressure_surfaces_after_the_expected_steps() {
    let out = shoot(&falling, &arith, &settings(Method::Euler, 0.125, 1000), num(1.0));
    assert_eq!(out, Ok(star(0.125 + 9.0 * 0.125, 1e-10 + 9.0 * 0.5 * 0.125)));
    let out = shoot(&falling, &arith, &settings(Method::Rk4, 0.125, 1000), num(1.0));
    assert_eq!(out.map(|s| float(s.radius)), Ok(1.25));
}

#[test]
fn the_number_of_steps_grows_with_the_central_pressure() {
    for (central, steps) in [(0.5, 5.0), (1.0, 9.0), (2.0, 17.0), (4.0, 33.0)] {
        let out = shoot(&falling, &arith, &settings(Method::Euler, 0.125, 1000), num(central));
        assert_eq!(out.map(|s| float(s.radius)), Ok(0.125 + steps * 0.125));
    }
}

#[test]
fn a_pressure_of_zero_is_still_inside() {
    let out = shoot(&falling, &arith, &settings(Method::Euler, 0.5, 10), num(1.0));
    assert_eq!(out.map(|s| float(s.radius)), Ok(0.5 + 3.0 * 0.5));
}

#[test]
fn the_last_allowed_step_may_surface() {
    let out = shoot(&falling, &arith, &settings(Method::Euler, 0.125, 9), num(1.0));
    assert_eq!(out.map(|s| float(s.radius)), Ok(1.25));
}

#[test]
fn one_step_too_few_does_not_converge() {
    let out = shoot(&falling, &arith, &settings(Method::Euler, 0.125, 8), num(1.0));
    assert_eq!(out, Err(Failure::DidNotConverge));
}

#[test]
fn no_step_allowed_does_not_converge() {
    let out = shoot(&falling, &arith, &settings(Method::Euler, 0.125, 0), num(1.0));
    assert_eq!(out, Err(Failure::DidNotConverge));
    let out = shoot(&falling, &arith, &settings(Method::Euler, 0.125, 0), num(-1.0));
    assert_eq!(out, Err(Failure::DidNotConverge));
}

#[test]
fn a_pressure_that_never_falls_does_not_converge() {
    let out = shoot(&stuck_at_seven, &arith, &settings(Method::Euler, 0.125, 500), num(7.0));
    assert_eq!(out, Err(Failure::DidNotConverge));
}

#[test]
fn a_start_below_zero_takes_one_step() {
    let out = shoot(&falling, &arith, &settings(Method::Euler, 0.125, 10), num(-3.0));
    assert_eq!(out, Ok(star(0.25, 1e-10 + 0.5 * 0.125)));
}

#[test]
fn a_pressure_that_is_not_a_number_ends_the_run() {
    let broken = |_r: Real, _y: &[Real; 2]| [num(f64::NAN), num(0.0)];
    let out = shoot(&broken, &arith, &settings(Method::Euler, 0.125, 10), num(1.0));
    assert_eq!(out.map(|s| float(s.radius)), Ok(0.25));
}

#[test]
fn the_mass_is_reported_in_the_given_unit() {
    let mut with_unit = settings(Method::Euler, 0.125, 1000);
    with_unit.mass_unit = Some(num(1.4766));
    let out = shoot(&falling, &arith, &with_unit, num(1.0));
    assert_eq!(out, Ok(star(1.25, (1e-10 + 9.0 * 0.5 * 0.125) / 1.4766)));
}

#[test]
fn shoot_steps_as_the_integrator_does() {
    let run = settings(Method::Euler, 0.25, 100);
    let mut radius = 0.25;
    let mut state = [num(1.0), num(1e-10)];
    loop {
        state = euler(&stuck_at_seven, &arith, num(0.25), num(radius), state);
        radius += 0.25;
        if !(float(state[0]) >= 0.0) {
            break;
        }
    }
    assert_eq!(shoot(&stuck_at_seven, &arith, &run, num(1.0)), Ok(star(radius, float(state[1]))));
}

#[test]
fn one_star_that_does_not_converge_leaves_the_others() {
    let run = settings(Method::Euler, 0.125, 200);
    let seeds = vec![num(1.0), num(7.0), num(2.0)];
    let stars = shoot_each(&stuck_at_seven, &arith, &run, &seeds);
    assert_eq!(stars.len(), 3);
    assert_eq!(stars[0], shoot(&stuck_at_seven, &arith, &run, num(1.0)));
    assert_eq!(stars[0], Ok(star(1.25, 1e-10 + 9.0 * 0.5 * 0.125)));
    assert_eq!(stars[1], Err(Failure::DidNotConverge));
    assert_eq!(stars[2], shoot(&stuck_at_seven, &arith, &run, num(2.0)));
    assert_eq!(stars[2], Ok(star(0.125 + 17.0 * 0.125, 1e-10 + 17.0 * 0.5 * 0.125)));
}

#[test]
fn the_outcomes_stand_in_the_order_of_the_seeds() {
    let run = settings(Method::Euler, 0.125, 200);
    let seeds = vec![num(4.0), num(0.5), num(2.0), num(1.0)];
    let radii: Vec<f64> = shoot_each(&falling, &arith, &run, &seeds)
        .into_iter()
        .map(|out| float(out.unwrap().radius))
        .collect();
    assert_eq!(radii, vec![0.125 * 34.0, 0.125 * 6.0, 0.125 * 18.0, 0.125 * 10.0]);
    assert!(shoot_each(&falling, &arith, &run, &Vec::new()).is_empty());
}

#[test]
fn mass_radius_over_a_table() {
    let table = EquationOfState { eos: vec![sample(1.0, 10.0), sample(100.0, -100.0)] };
    let run = settings(Method::Euler, 0.01, 10_000);
    let seeds = vec![num(1.0), num(100.0), num(2.0)];
    let stars = mass_radius(&table, &arith, &run, &seeds).unwrap();
    assert_eq!(stars.len(), 3);
    assert_eq!(stars[1], Err(Failure::DidNotConverge));
    let f = |r: Real, y: &[Real; 2]| table.dmdr(&arith, r, y).unwrap();
    assert_eq!(stars[0], shoot(&f, &arith, &run, num(1.0)));
    assert_eq!(stars[2], shoot(&f, &arith, &run, num(2.0)));
    let first = stars[0].unwrap();
    let third = stars[2].unwrap();
    assert!(float(first.radius) > 0.01 && float(first.radius) < 1.0);
    assert!(float(third.radius) > float(first.radius));
    assert!(float(first.mass) > 0.0);
}

#[test]
fn mass_radius_by_both_methods() {
    let table = EquationOfState { eos: vec![sample(1.0, 10.0)] };
    let seeds = vec![num(1.0)];
    let run = settings(Method::Euler, 0.001, 100_000);
    let by_euler = mass_radius(&table, &arith, &run, &seeds).unwrap();
    let run = settings(Method::Rk4, 0.001, 100_000);
    let by_rk4 = mass_radius(&table, &arith, &run, &seeds).unwrap();
    assert_eq!(by_euler, vec![Ok(star(0.060000000000000046, 0.008822848908341587))]);
    assert_eq!(by_rk4, vec![Ok(star(0.059000000000000045, 0.008386596880488597))]);
}

#[test]
fn mass_radius_over_an_empty_table_fails() {
    let table = EquationOfState { eos: Vec::new() };
    let run = settings(Method::Euler, 0.01, 10);
    assert_eq!(mass_radius(&table, &arith, &run, &vec![num(1.0)]), Err(Failure::EmptyTable));
    assert_eq!(mass_radius(&table, &arith, &run, &Vec::new()), Err(Failure::EmptyTable));
}
