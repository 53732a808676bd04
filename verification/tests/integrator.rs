use simlib::integrator::rk4_couplings;
use simlib::integrator::rk4_nodes;
use simlib::integrator::rk4_weights;
use simlib::integrator::RK4_SCALE;

/// One classical RK4 step of size `h` from time `t`, built from the crate's
/// tableau: four stages, each trial state fed by the previous slope, then
/// the weighted combination.
fn rk4_step(y: &[f64], t: f64, h: f64, deriv: &dyn Fn(&[f64], f64) -> Vec<f64>) -> Vec<f64> {
    let scale = RK4_SCALE as f64;
    let b = rk4_weights();
    let c = rk4_nodes();
    let a = rk4_couplings();
    let n = y.len();
    let mut slopes: Vec<Vec<f64>> = Vec::new();
    for i in 0..4 {
        let trial: Vec<f64> = if i == 0 {
            y.to_vec()
        } else {
            let weight = a[i - 1] as f64 / scale;
            (0..n).map(|d| y[d] + h * weight * slopes[i - 1][d]).collect()
        };
        let ti = t + h * (c[i] as f64 / scale);
        let k = deriv(&trial, ti);
        // Mismatched vector lengths between stages are a fatal contract
        // violation, rejected eagerly.
        assert_eq!(k.len(), n);
        slopes.push(k);
    }
    (0..n)
        .map(|d| {
            let mut acc = 0.0_f64;
            for i in 0..4 {
                acc += b[i] as f64 * slopes[i][d];
            }
            y[d] + h * acc / scale
        })
        .collect()
}

#[test]
fn tableau_holds_the_classical_coefficients() {
    assert_eq!(RK4_SCALE, 6);
    assert_eq!(rk4_weights(), vec![1, 2, 2, 1]);
    assert_eq!(rk4_nodes(), vec![0, 3, 3, 6]);
    assert_eq!(rk4_couplings(), vec![3, 3, 6]);
}

#[test]
fn free_fall_single_step_matches_closed_form() {
    // dv/dt = -g, dx/dt = v: the solution is a parabola, which RK4
    // reproduces to rounding error; the local truncation error of one step
    // is far below any h^5 bound.
    let g = 9.81_f64;
    let deriv = |y: &[f64], _t: f64| vec![y[1], -g];
    for &h in &[0.4_f64, 0.2, 0.1, 0.05] {
        let y0 = [0.0_f64, 20.0];
        let y1 = rk4_step(&y0, 0.0, h, &deriv);
        let exact_x = 20.0 * h - 0.5 * g * h * h;
        let exact_v = 20.0 - g * h;
        assert!((y1[0] - exact_x).abs() < 1e-12);
        assert!((y1[1] - exact_v).abs() < 1e-12);
    }
}

#[test]
fn free_fall_trajectory_matches_parabola() {
    let g = 9.81_f64;
    let deriv = |y: &[f64], _t: f64| vec![y[1], -g];
    let h = 0.01_f64;
    let mut y = vec![0.0_f64, 20.0];
    for step in 0..400u64 {
        y = rk4_step(&y, h * step as f64, h, &deriv);
    }
    let t = h * 400.0;
    let exact_x = 20.0 * t - 0.5 * g * t * t;
    assert!((y[0] - exact_x).abs() < 1e-9);
}

#[test]
fn global_error_shrinks_as_fourth_order() {
    // dy/dt = -y from y(0) = 1 to t = 2: halving h must shrink the global
    // error by about 2^4 = 16.
    let deriv = |y: &[f64], _t: f64| vec![-y[0]];
    let exact = (-2.0_f64).exp();
    let mut errors = Vec::new();
    for &steps in &[20u64, 40u64] {
        let h = 2.0 / steps as f64;
        let mut y = vec![1.0_f64];
        for step in 0..steps {
            y = rk4_step(&y, h * step as f64, h, &deriv);
        }
        errors.push((y[0] - exact).abs());
    }
    let ratio = errors[0] / errors[1];
    assert!(ratio > 12.0 && ratio < 20.0, "ratio {ratio}");
}

#[derive(Clone, Debug, Default, PartialEq)]
struct Projectile {
    position: (f64, f64),
    velocity: (f64, f64),
}

fn load(sim: &Projectile) -> Vec<f64> {
    vec![sim.position.0, sim.position.1, sim.velocity.0, sim.velocity.1]
}

fn unload(sim: &mut Projectile, v: &[f64]) {
    sim.position = (v[0], v[1]);
    sim.velocity = (v[2], v[3]);
}

#[test]
fn loader_unloader_round_trip_is_exact() {
    // Writing back the loaded vector must reproduce the state bit for bit.
    let cases = [
        Projectile { position: (0.0, -0.0), velocity: (10.0, 20.0) },
        Projectile { position: (1.0e-308, f64::MAX), velocity: (-3.25, 1.0 / 3.0) },
        Projectile { position: (-41.125, 0.1), velocity: (f64::MIN_POSITIVE, -0.0) },
    ];
    for original in &cases {
        let mut sim = original.clone();
        let v = load(&sim);
        unload(&mut sim, &v);
        assert_eq!(sim.position.0.to_bits(), original.position.0.to_bits());
        assert_eq!(sim.position.1.to_bits(), original.position.1.to_bits());
        assert_eq!(sim.velocity.0.to_bits(), original.velocity.0.to_bits());
        assert_eq!(sim.velocity.1.to_bits(), original.velocity.1.to_bits());
    }
}

#[test]
fn projectile_lands_where_the_parabola_says() {
    // vx = 10, vy = 20, g = 9.81, dt = 0.01: the flight ends when y crosses
    // zero going down, at t = 2*vy/g and x = vx*t, within 1e-3 relative.
    let g = 9.81_f64;
    let dt = 0.01_f64;
    let end_time = 5.0_f64;
    let tol = 1e-9_f64;
    let deriv = |y: &[f64], _t: f64| vec![y[2], y[3], 0.0, -g];

    let mut n_steps = 0u64;
    while dt * (n_steps as f64) < end_time {
        n_steps += 1;
    }
    let mut scheduler = simlib::Scheduler::new(n_steps);
    scheduler.set_integrator();
    let mut run = scheduler.begin();

    let mut sim = Projectile { position: (0.0, 0.0), velocity: (10.0, 20.0) };
    let mut detector = simlib::CrossingDetector::new(simlib::CrossingMode::Decreasing);
    detector.observe(sign_of(sim.position.1));
    let mut prev_err = sim.position.1;
    let mut landing = None;

    while let Some(action) = run.next_action() {
        match action {
            simlib::Action::Integrate { step } => {
                let t0 = dt * step as f64;
                let checkpoint = sim.clone();
                let v = rk4_step(&load(&sim), t0, dt, &deriv);
                unload(&mut sim, &v);
                let err = sim.position.1;
                if detector.observe(sign_of(err)) {
                    // Roll back to the checkpoint and sub-step to the
                    // false-position estimate until the error converges.
                    let (mut t_lo, mut e_lo) = (t0, prev_err);
                    let (mut t_hi, mut e_hi) = (t0 + dt, err);
                    let mut search = simlib::Refinement::new(50);
                    loop {
                        let t_est = t_lo - e_lo * (t_hi - t_lo) / (e_hi - e_lo);
                        sim = checkpoint.clone();
                        let v = rk4_step(&load(&sim), t0, t_est - t0, &deriv);
                        unload(&mut sim, &v);
                        let e_est = sim.position.1;
                        match search.advance(e_est.abs() < tol) {
                            simlib::RefineStatus::Refine => {
                                if (e_est < 0.0) == (e_lo < 0.0) {
                                    t_lo = t_est;
                                    e_lo = e_est;
                                } else {
                                    t_hi = t_est;
                                    e_hi = e_est;
                                }
                            }
                            _ => {
                                landing = Some((t_est, sim.position.0));
                                break;
                            }
                        }
                    }
                    break;
                }
                prev_err = err;
            }
            _ => {}
        }
        if landing.is_some() {
            break;
        }
    }

    let (t_land, x_land) = landing.expect("the projectile must land before the end time");
    let t_exact = 2.0 * 20.0 / g;
    let x_exact = 10.0 * t_exact;
    assert!(((t_land - t_exact) / t_exact).abs() < 1e-3, "t {t_land} vs {t_exact}");
    assert!(((x_land - x_exact) / x_exact).abs() < 1e-3, "x {x_land} vs {x_exact}");
}

/// The sign of an error sample, as the detector reads it.
fn sign_of(e: f64) -> simlib::Sign {
    if e < 0.0 {
        simlib::Sign::Negative
    } else if e > 0.0 {
        simlib::Sign::Positive
    } else {
        simlib::Sign::Zero
    }
}
