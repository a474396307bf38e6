use nalgebra::{SVector, Vector2};
use neutron_star::arithmetic::Op;
use neutron_star::number::Real;
use neutron_star::numerical_integration::{euler, rk4, step, Method};

fn num(x: f64) -> Real {
    Real::from_bits(x.to_bits())
}

fn float(x: Real) -> f64 {
    f64::from_bits(x.to_bits())
}

fn arith(op: Op, a: Real, b: Real) -> Real {
    let (a, b) = (float(a), float(b));
    num(match op {
        Op::Add => a + b,
        Op::Sub => a - b,
        Op::Mul => a * b,
        Op::Div => a / b,
    })
}

fn growth(h: f64, steps: usize) -> f64 {
    let f = |_t: Real, y: &[Real; 1]| *y;
    let mut t0 = 0.0;
    let mut y0 = [num(1.0)];
    for _ in 0..steps {
        y0 = rk4(&f, &arith, num(h), num(t0), y0);
        t0 += h;
    }
    float(y0[0])
}

#[test]
fn initial_value_problem_euler() {
    let f = |_t: Real, y: &[Real; 1]| *y;
    let t0 = num(0.0);
    let mut y0 = [num(1.0)];
    let h = num(1.0);

    y0 = euler(&f, &arith, h, t0, y0);
    assert_eq!(float(y0[0]), 2.0);
    y0 = euler(&f, &arith, h, t0, y0);
    assert_eq!(float(y0[0]), 4.0);
    y0 = euler(&f, &arith, h, t0, y0);
    assert_eq!(float(y0[0]), 8.0)
}

#[test]
fn initial_value_problem_rk4() {
    let f = |_t: Real, y: &[Real; 1]| *y;
    let mut t0 = 0.0;
    let mut y0 = [num(1.0)];
    let h = 0.1;

    let mut counter = 0;
    while counter < 10 {
        counter += 1;
        y0 = rk4(&f, &arith, num(h), num(t0), y0);
        t0 += h;
    }
    println!("{:?}", y0)
}

#[test]
fn euler_adds_the_derivative_times_the_step() {
    let f = |t: Real, y: &[Real; 2]| [num(float(y[1]) + float(t)), num(-float(y[0]))];
    let y1 = euler(&f, &arith, num(0.25), num(2.0), [num(1.0), num(3.0)]);
    assert_eq!(float(y1[0]), 1.0 + (3.0 + 2.0) * 0.25);
    assert_eq!(float(y1[1]), 3.0 + -1.0 * 0.25);
}

#[test]
fn euler_calls_the_derivative_once() {
    let calls = std::cell::Cell::new(0);
    let f = |_t: Real, y: &[Real; 1]| {
        calls.set(calls.get() + 1);
        *y
    };
    euler(&f, &arith, num(0.5), num(0.0), [num(1.0)]);
    assert_eq!(calls.get(), 1);
}

#[test]
fn euler_on_an_empty_state() {
    let f = |_t: Real, y: &[Real; 0]| *y;
    assert_eq!(euler(&f, &arith, num(1.0), num(0.0), []), []);
    assert_eq!(rk4(&f, &arith, num(1.0), num(0.0), []), []);
}

#[test]
fn rk4_takes_one_step_of_the_exponential() {
    let f = |_t: Real, y: &[Real; 1]| *y;
    let y1 = rk4(&f, &arith, num(1.0), num(0.0), [num(1.0)]);
    assert_eq!(float(y1[0]), 2.708333333333333);
    assert_eq!(float(y1[0]), 1.0 + (1.0 / 6.0) * (1.0 + 2.0 * 1.5 + 2.0 * 1.75 + 2.75));
}

#[test]
fn rk4_asks_for_its_derivatives_where_the_method_says() {
    let asked = std::cell::RefCell::new(Vec::new());
    let f = |t: Real, y: &[Real; 1]| {
        asked.borrow_mut().push((float(t), float(y[0])));
        [num(2.0 * float(y[0]))]
    };
    let y1 = rk4(&f, &arith, num(0.5), num(1.0), [num(4.0)]);
    let (k1, k2, k3, k4) = (8.0, 12.0, 14.0, 22.0);
    assert_eq!(
        asked.into_inner(),
        vec![
            (1.0, 4.0),
            (1.0 + 0.5 / 2.0, 4.0 + 0.5 * k1 / 2.0),
            (1.0 + 0.5 / 2.0, 4.0 + 0.5 * k2 / 2.0),
            (1.0 + 0.5, 4.0 + 0.5 * k3),
        ]
    );
    assert_eq!(float(y1[0]), 4.0 + (0.5 / 6.0) * (k1 + 2.0 * k2 + 2.0 * k3 + k4));
}

#[test]
fn rk4_follows_the_exponential_closely() {
    let e = std::f64::consts::E;
    assert_eq!(growth(0.1, 10), 2.718279744135166);
    assert!((growth(0.1, 10) - e).abs() < 3e-6);
    assert!((growth(0.05, 20) - e).abs() < 2e-7);
    assert!((growth(0.025, 40) - e).abs() < 1e-8);
}

#[test]
fn rk4_error_shrinks_with_the_step() {
    let e = std::f64::consts::E;
    let coarse = (growth(0.1, 10) - e).abs();
    let fine = (growth(0.05, 20) - e).abs();
    let finer = (growth(0.025, 40) - e).abs();
    assert!(fine < coarse / 10.0);
    assert!(finer < fine / 10.0);
}

#[test]
fn rk4_is_closer_than_euler() {
    let f = |_t: Real, y: &[Real; 1]| *y;
    let mut by_euler = [num(1.0)];
    for _ in 0..10 {
        by_euler = euler(&f, &arith, num(0.1), num(0.0), by_euler);
    }
    let e = std::f64::consts::E;
    assert!((growth(0.1, 10) - e).abs() < (float(by_euler[0]) - e).abs());
}

#[test]
fn step_takes_the_chosen_method() {
    let f = |_t: Real, y: &[Real; 1]| *y;
    let y0 = [num(1.0)];
    assert_eq!(step(&f, &arith, Method::Euler, num(1.0), num(0.0), y0), [num(2.0)]);
    assert_eq!(step(&f, &arith, Method::Rk4, num(1.0), num(0.0), y0), [num(2.708333333333333)]);
}

#[test]
fn the_integrators_use_the_arithmetic_they_are_given() {
    let f = |_t: Real, y: &[Real; 1]| *y;
    let always_one = |_op: Op, _a: Real, _b: Real| num(1.0);
    assert_eq!(euler(&f, &always_one, num(5.0), num(0.0), [num(3.0)]), [num(1.0)]);
    assert_eq!(rk4(&f, &always_one, num(5.0), num(0.0), [num(3.0)]), [num(1.0)]);
}

fn state<const D: usize>(y: SVector<f64, D>) -> [Real; D] {
    std::array::from_fn(|i| num(y[i]))
}

fn vector<const D: usize>(y: &[Real; D]) -> SVector<f64, D> {
    SVector::from_fn(|i, _| float(y[i]))
}

fn swing(t: f64, y: Vector2<f64>) -> Vector2<f64> {
    Vector2::new(y[1] * 0.3 + t, -1.7 * y[0] + 0.1 * y[1])
}

fn swing_on_states(t: Real, y: &[Real; 2]) -> [Real; 2] {
    state(swing(float(t), vector(y)))
}

#[test]
fn euler_agrees_with_vector_arithmetic() {
    let (h, mut t0) = (0.07, 0.3);
    let mut y0 = Vector2::new(1.1, -0.4);
    for _ in 0..25 {
        let by_states = euler(&swing_on_states, &arith, num(h), num(t0), state(y0));
        y0 = y0 + swing(t0, y0) * h;
        assert_eq!(by_states, state(y0));
        t0 += h;
    }
}

#[test]
fn rk4_agrees_with_vector_arithmetic() {
    let (h, mut t0) = (0.07, 0.3);
    let mut y0 = Vector2::new(1.1, -0.4);
    for _ in 0..25 {
        let by_states = rk4(&swing_on_states, &arith, num(h), num(t0), state(y0));
        let k1 = swing(t0, y0);
        let k2 = swing(t0 + (h / 2.0), y0 + (h * k1 / 2.0));
        let k3 = swing(t0 + (h / 2.0), y0 + (h * k2 / 2.0));
        let k4 = swing(t0 + h, y0 + (h * k3));
        y0 = y0 + (h / 6.0) * (k1 + (2.0 * k2) + (2.0 * k3) + k4);
        assert_eq!(by_states, state(y0));
        t0 += h;
    }
}
