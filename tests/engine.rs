use num_complex::Complex64;
use phasor_anim::arm::{Arm, ArmPoint};
use phasor_anim::path::{CubicBezier, Line, Path, PathElement};
use phasor_anim::phasor::PhasorArray;
use phasor_anim::trail::Trail;
use phasor_anim::PhasorAnim;
use std::f64::consts::PI;

fn c(re: f64, im: f64) -> Complex64 {
    Complex64::new(re, im)
}

fn plus(a: Complex64, b: Complex64) -> Complex64 {
    a + b
}

fn norm(a: Complex64) -> f64 {
    a.norm()
}

fn lerp(a: Complex64, b: Complex64, t: f64) -> Complex64 {
    a * (1. - t) + b * t
}

fn position(e: &PathElement<Complex64>, t: f64) -> Complex64 {
    match e {
        PathElement::Line(l) => lerp(l.z_0, l.z_1, t),
        PathElement::CubicBezier(b) => {
            let l_1 = lerp(b.z_0, b.z_1, t);
            let l_2 = lerp(b.z_1, b.z_2, t);
            let l_3 = lerp(b.z_2, b.z_3, t);
            lerp(lerp(l_1, l_2, t), lerp(l_2, l_3, t), t)
        }
    }
}

fn quadrature(e: &PathElement<Complex64>, n_samples: usize, n: f64) -> Complex64 {
    let dt = 1. / (n_samples as f64);
    (0..n_samples)
        .map(|s| (s as f64) * dt)
        .map(|t| position(e, t) * (-Complex64::i() * 2. * PI * n * t).exp() * dt)
        .sum()
}

fn term_for(
    n_samples: usize,
) -> impl Fn(PathElement<Complex64>, usize, usize, i32) -> Complex64 {
    move |e, k, count, n| {
        let omega = 1. / (count as f64);
        let n = n as f64;
        let q = quadrature(&e, n_samples, n * omega);
        omega * (-Complex64::i() * 2. * PI * n * omega * (k as f64)).exp() * q
    }
}

fn rotate_by(dt: f64) -> impl Fn(Complex64, i32) -> Complex64 {
    let base = (-dt * Complex64::i()).exp();
    move |p, n| p * base.powi(n)
}

fn square_path() -> Path<Complex64> {
    let mut path = Path::new(c(0., 0.));
    path.move_to(c(-1., -1.));
    path.line_to(c(1., -1.));
    path.line_to(c(1., 1.));
    path.line_to(c(-1., 1.));
    path.close();
    path
}

fn square_anim(num_phasors: usize, trail_len: usize) -> PhasorAnim<Complex64> {
    let path = square_path();
    PhasorAnim::from_path(num_phasors, &path, term_for(num_phasors), plus, c(0., 0.), trail_len)
}

#[test]
fn frequencies_zig_zag() {
    assert_eq!(PhasorArray::<Complex64>::frequencies(1), vec![0]);
    assert_eq!(PhasorArray::<Complex64>::frequencies(4), vec![0, 1, -1, 2, -2, 3, -3]);
}

#[test]
fn fourier_series_follows_frequency_order() {
    let p = PhasorArray::fourier_series(3, |n: i32| n * 10);
    assert_eq!(p.iter(), &[0, 10, -10, 20, -20]);
    assert_eq!(p.num_phasors(), 3);
}

#[test]
fn update_rotates_by_frequency() {
    let mut p = PhasorArray::fourier_series(3, |_n: i32| 1i64);
    p.update(|x: i64, n: i32| x * 100 + n as i64);
    assert_eq!(p.iter(), &[100, 101, 99, 102, 98]);
}

#[test]
fn arm_state_has_two_n_points() {
    for n in 1..6usize {
        let anim = square_anim(n, 10);
        let arm = anim.get_arm_state(c(0., 0.), plus, norm, 0.);
        assert_eq!(arm.len(), 2 * n);
    }
}

#[test]
fn arm_state_is_cumulative_sum_with_radii() {
    let p = PhasorArray::fourier_series(2, |n: i32| c(n as f64, 1.));
    let arm = Arm::new(&p).get_state(c(5., 5.), plus, norm, 0.);
    assert_eq!(arm.len(), 4);
    assert_eq!(arm[0].pos, c(5., 5.));
    assert_eq!(arm[1].pos, c(5., 6.));
    assert_eq!(arm[2].pos, c(6., 7.));
    assert_eq!(arm[3].pos, c(5., 8.));
    assert_eq!(arm[0].r, 1.);
    assert_eq!(arm[1].r, 2f64.sqrt());
    assert_eq!(arm[2].r, 2f64.sqrt());
    assert_eq!(arm[3].r, 0.);
}

#[test]
fn last_point_equals_arm_tip() {
    let mut anim = square_anim(6, 10);
    for step in 0..5 {
        let arm: Vec<ArmPoint<Complex64, f64>> = anim.get_arm_state(c(3., -2.), plus, norm, 0.);
        let last = anim.get_last_point(c(3., -2.), plus);
        assert_eq!(arm[arm.len() - 1].pos, last);
        anim.update(rotate_by(0.1 * step as f64), plus, c(0., 0.));
    }
}

#[test]
fn update_then_reverse_restores() {
    let mut anim = square_anim(5, 10);
    let before: Vec<Complex64> = anim.phasors().iter().to_vec();
    anim.update(rotate_by(0.37), plus, c(0., 0.));
    anim.update(rotate_by(-0.37), plus, c(0., 0.));
    let after: Vec<Complex64> = anim.phasors().iter().to_vec();
    assert_eq!(before.len(), after.len());
    for (b, a) in before.iter().zip(after.iter()) {
        assert!((b.norm() - a.norm()).abs() < 1e-12);
        assert!((b - a).norm() < 1e-12);
    }
}

#[test]
fn line_matches_builder_path() {
    let direct = PhasorAnim::line(4, c(1., 2.), c(3., -1.), term_for(4), plus, c(0., 0.), 10);
    let mut path = Path::new(c(0., 0.));
    path.move_to(c(1., 2.));
    path.line_to(c(3., -1.));
    let built = PhasorAnim::from_path(4, &path, term_for(4), plus, c(0., 0.), 10);
    assert_eq!(direct.phasors().iter(), built.phasors().iter());
}

#[test]
fn trail_never_exceeds_capacity() {
    let mut t: Trail<u32> = Trail::new(3);
    for i in 0..10u32 {
        t.push(i);
        assert!(t.len() <= 3);
    }
    assert_eq!(t.len(), 3);
    assert_eq!(t.get_trail_state(0, |a: u32, b: u32| a + b), vec![7, 8, 9]);
}

#[test]
fn trail_state_is_offset_by_origin() {
    let mut t: Trail<i64> = Trail::new(5);
    t.push(1);
    t.push(2);
    assert_eq!(t.get_trail_state(100, |a: i64, b: i64| a + b), vec![101, 102]);
}

#[test]
fn zero_capacity_trail_stays_empty() {
    let mut t: Trail<i64> = Trail::new(0);
    t.push(1);
    assert_eq!(t.len(), 0);
    assert_eq!(t.max_len(), 0);
}

#[test]
fn anim_trail_keeps_most_recent_tips() {
    let mut anim = square_anim(4, 3);
    let mut tips = Vec::new();
    for _ in 0..7 {
        anim.update(rotate_by(0.2), plus, c(0., 0.));
        tips.push(anim.get_last_point(c(0., 0.), plus));
    }
    let trail = anim.get_trail_state(c(0., 0.), plus);
    assert_eq!(trail, tips[4..].to_vec());
    let shifted = anim.get_trail_state(c(1., 1.), plus);
    assert_eq!(shifted[0], tips[4] + c(1., 1.));
}

#[test]
fn rectangle_tip_reconstructs_corner() {
    let anim = square_anim(8, 10);
    let arm = anim.get_arm_state(c(0., 0.), plus, norm, 0.);
    assert_eq!(arm.len(), 16);
    let tip = arm[15].pos;
    let corners = [c(-1., -1.), c(1., -1.), c(1., 1.), c(-1., 1.)];
    assert!(corners.iter().any(|k| (tip - k).norm() < 0.1));
}

#[test]
fn update_by_zero_keeps_coefficients() {
    let mut anim = square_anim(8, 10);
    let before: Vec<Complex64> = anim.phasors().iter().to_vec();
    anim.update(rotate_by(0.), plus, c(0., 0.));
    let after: Vec<Complex64> = anim.phasors().iter().to_vec();
    for (b, a) in before.iter().zip(after.iter()) {
        assert_eq!(b.re.to_bits(), a.re.to_bits());
        assert_eq!(b.im.to_bits(), a.im.to_bits());
    }
}

#[test]
fn builder_tracks_pen() {
    let mut path = Path::new(c(0., 0.));
    path.move_to(c(1., 1.));
    assert!(path.elements().is_empty());
    path.line_to(c(2., 1.));
    path.curve_to(c(3., 1.), c(3., 2.), c(2., 2.));
    assert_eq!(path.current(), c(2., 2.));
    assert_eq!(path.start(), c(1., 1.));
    path.close();
    assert_eq!(path.current(), c(1., 1.));
    let e = path.elements();
    assert_eq!(e.len(), 3);
    assert_eq!(e[0].start(), c(1., 1.));
    assert_eq!(e[0].end(), c(2., 1.));
    match e[1] {
        PathElement::CubicBezier(CubicBezier { z_0, z_1, z_2, z_3 }) => {
            assert_eq!((z_0, z_1, z_2, z_3), (c(2., 1.), c(3., 1.), c(3., 2.), c(2., 2.)));
        }
        _ => panic!("expected a curve"),
    }
    match e[2] {
        PathElement::Line(Line { z_0, z_1 }) => {
            assert_eq!((z_0, z_1), (c(2., 2.), c(1., 1.)));
        }
        _ => panic!("expected a line"),
    }
}

#[test]
fn composite_coefficient_sums_terms_in_order() {
    let mut path = Path::new(1i64);
    path.line_to(2);
    path.line_to(3);
    path.line_to(4);
    let term = |e: PathElement<i64>, k: usize, count: usize, n: i32| {
        e.end() * 1000 + (k as i64) * 100 + (count as i64) * 10 + n as i64
    };
    let r = path.coefficient(2, &term, &|a: i64, b: i64| a + b, 0);
    assert_eq!(r, (2032 + 3132 + 4232) as i64);
    let p = path.to_phasors(2, term, |a: i64, b: i64| a + b, 0);
    assert_eq!(p.iter().len(), 3);
    assert_eq!(p.iter()[1], 2031 + 3131 + 4231);
}
