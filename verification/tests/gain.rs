use antenna_pattern_generator_lib::binary64::is_zero;
use antenna_pattern_generator_lib::calc_phase;
use antenna_pattern_generator_lib::pattern_gain;
use antenna_pattern_generator_lib::term_gain;
use antenna_pattern_generator_lib::Arithmetic;
use antenna_pattern_generator_lib::ArrayError;
use antenna_pattern_generator_lib::ArrayIface;
use antenna_pattern_generator_lib::ComplexWord;
use antenna_pattern_generator_lib::Element;
use antenna_pattern_generator_lib::ElementArray;
use antenna_pattern_generator_lib::ElementIface;
use antenna_pattern_generator_lib::OmniElement;
use antenna_pattern_generator_lib::PatchElement;
use antenna_pattern_generator_lib::Pattern;
use antenna_pattern_generator_lib::PhaseCache;
use antenna_pattern_generator_lib::PhaseKey;
use antenna_pattern_generator_lib::Point;
use antenna_pattern_generator_lib::Term;
use num::complex::Complex;
use std::cell::Cell;
use std::cell::RefCell;

const SPEED_OF_LIGHT: f64 = 299792458.0;
const PI: f64 = std::f64::consts::PI;

type Unary = fn(PhaseKey) -> ComplexWord;
type Shape = fn(u64, u64, u64, u64, u64) -> ComplexWord;
type Binary = fn(ComplexWord, ComplexWord) -> ComplexWord;

fn words(c: Complex<f64>) -> ComplexWord {
    ComplexWord::new(c.re.to_bits(), c.im.to_bits())
}

fn number(w: ComplexWord) -> Complex<f64> {
    Complex::new(f64::from_bits(w.re), f64::from_bits(w.im))
}

fn point(x: f64, y: f64, z: f64) -> Point {
    Point::new(x.to_bits(), y.to_bits(), z.to_bits())
}

fn key(p: Point, frequency: f64, theta: f64, phi: f64) -> PhaseKey {
    PhaseKey {
        position: p,
        frequency: frequency.to_bits(),
        theta: theta.to_bits(),
        phi: phi.to_bits(),
    }
}

fn phase(k: PhaseKey) -> ComplexWord {
    let i = Complex::new(0.0, 1.0);
    let theta = f64::from_bits(k.theta);
    let phi = f64::from_bits(k.phi);
    let wave = 2.0 * PI * f64::from_bits(k.frequency) / SPEED_OF_LIGHT;
    let dx = i * wave * f64::from_bits(k.position.x) * phi.cos() * theta.sin();
    let dy = i * wave * f64::from_bits(k.position.y) * phi.sin() * theta.sin();
    let dz = i * wave * f64::from_bits(k.position.z) * theta.cos();
    words(dx.exp() * dy.exp() * dz.exp())
}

fn patch(length: f64, width: f64, frequency: f64, theta: f64, phi: f64) -> Complex<f64> {
    let wave = 2.0 * PI * frequency / SPEED_OF_LIGHT;
    let u = wave * width * theta.sin() * phi.sin() / 2.0;
    let amp = if is_zero(u.to_bits()) { 1.0 } else { u.sin() / u };
    let taper = (wave * length * theta.sin() * phi.cos()).cos();
    let combined = amp * taper;
    let e_theta = combined * phi.cos();
    let e_phi = -combined * theta.cos() * phi.sin();
    Complex::new((e_theta * e_theta + e_phi * e_phi).sqrt(), 0.0)
}

fn patch_words(length: u64, width: u64, frequency: u64, theta: u64, phi: u64) -> ComplexWord {
    words(patch(
        f64::from_bits(length),
        f64::from_bits(width),
        f64::from_bits(frequency),
        f64::from_bits(theta),
        f64::from_bits(phi),
    ))
}

fn times(a: ComplexWord, b: ComplexWord) -> ComplexWord {
    words(number(a) * number(b))
}

fn plus(a: ComplexWord, b: ComplexWord) -> ComplexWord {
    words(number(a) + number(b))
}

fn ops() -> Arithmetic<Shape, Unary, Binary, Binary> {
    Arithmetic { patch: patch_words, phase, times, plus }
}

fn gain_with(
    array: &ElementArray,
    cache: &mut PhaseCache,
    frequency: f64,
    theta: f64,
    phi: f64,
) -> Complex<f64> {
    number(array.get_gain(frequency.to_bits(), theta.to_bits(), phi.to_bits(), cache, &ops()))
}

fn gain(array: &ElementArray, frequency: f64, theta: f64, phi: f64) -> Complex<f64> {
    gain_with(array, &mut PhaseCache::new(0), frequency, theta, phi)
}

fn channel(
    array: &ElementArray,
    index: usize,
    frequency: f64,
    theta: f64,
    phi: f64,
) -> Result<Complex<f64>, ArrayError> {
    array
        .get_channel_gain(
            index,
            frequency.to_bits(),
            theta.to_bits(),
            phi.to_bits(),
            &mut PhaseCache::new(0),
            &ops(),
        )
        .map(number)
}

fn value(t: Term, frequency: f64, theta: f64, phi: f64) -> Complex<f64> {
    number(term_gain(
        t,
        frequency.to_bits(),
        theta.to_bits(),
        phi.to_bits(),
        &mut PhaseCache::new(0),
        &ops(),
    ))
}

fn omni(x: f64, y: f64, z: f64, gain: f64, weight: Complex<f64>) -> Element {
    Element::Omni(OmniElement::new(point(x, y, z), gain.to_bits(), words(weight)))
}

fn three_elements() -> ElementArray {
    let patch = PatchElement::new(
        point(0.0, 0.2, 0.0),
        0.03f64.to_bits(),
        0.04f64.to_bits(),
        words(Complex::new(0.0, 1.0)),
    )
    .unwrap();
    ElementArray::new(vec![
        omni(0.1, 0.0, 0.0, 1.0, Complex::new(1.0, 0.0)),
        Element::Patch(patch),
        omni(-0.1, 0.05, 0.3, 2.0, Complex::new(0.5, -0.5)),
    ])
}

#[test]
fn an_array_without_elements_has_gain_zero() {
    let array = ElementArray::new(Vec::new());
    assert_eq!(array.len(), 0);
    assert!(array.terms().is_empty());
    let calls = Cell::new(0);
    let counting = Arithmetic {
        patch: |l: u64, w: u64, f: u64, t: u64, h: u64| {
            calls.set(calls.get() + 1);
            patch_words(l, w, f, t, h)
        },
        phase: |k: PhaseKey| {
            calls.set(calls.get() + 1);
            phase(k)
        },
        times: |a: ComplexWord, b: ComplexWord| {
            calls.set(calls.get() + 1);
            times(a, b)
        },
        plus: |a: ComplexWord, b: ComplexWord| {
            calls.set(calls.get() + 1);
            plus(a, b)
        },
    };
    let mut cache = PhaseCache::new(10);
    let total =
        array.get_gain(1e9f64.to_bits(), 0.3f64.to_bits(), 0.4f64.to_bits(), &mut cache, &counting);
    assert_eq!(total, ComplexWord { re: 0, im: 0 });
    assert_eq!(number(total), Complex::new(0.0, 0.0));
    assert_eq!(calls.get(), 0);
    assert_eq!(cache.len(), 0);
}

#[test]
fn a_term_is_phase_times_pattern_times_weight() {
    let t = Term {
        pattern: Pattern::Isotropic { gain: 2.0f64.to_bits() },
        position: point(0.1, 0.2, 0.3),
        weight: words(Complex::new(0.0, 1.0)),
    };
    let (f, theta, phi) = (1e9, 0.9, 2.2);
    let shift = number(phase(key(t.position, f, theta, phi)));
    let expected = shift * Complex::new(2.0, 0.0) * Complex::new(0.0, 1.0);
    assert_eq!(value(t, f, theta, phi), expected);
    let log = RefCell::new(Vec::new());
    let logging = Arithmetic {
        patch: |l: u64, w: u64, _: u64, _: u64, _: u64| {
            log.borrow_mut().push("patch");
            ComplexWord::new(l, w)
        },
        phase: |_: PhaseKey| {
            log.borrow_mut().push("phase");
            ComplexWord::new(3, 0)
        },
        times: |a: ComplexWord, b: ComplexWord| {
            log.borrow_mut().push("times");
            ComplexWord::new(a.re * b.re, a.im + b.im)
        },
        plus: |a: ComplexWord, b: ComplexWord| {
            log.borrow_mut().push("plus");
            ComplexWord::new(a.re + b.re, 0)
        },
    };
    let five = Term {
        pattern: Pattern::Patch { length: 2, width: 1 },
        position: t.position,
        weight: ComplexWord::new(5, 1),
    };
    let v = term_gain(five, 1, 2, 3, &mut PhaseCache::new(0), &logging);
    assert_eq!(v, ComplexWord::new(30, 2));
    assert_eq!(log.borrow().clone(), vec!["phase", "patch", "times", "times"]);
    log.borrow_mut().clear();
    let six = Term {
        pattern: Pattern::Isotropic { gain: 2 },
        position: t.position,
        weight: ComplexWord::new(6, 1),
    };
    let v = term_gain(six, 1, 2, 3, &mut PhaseCache::new(0), &logging);
    assert_eq!(v, ComplexWord::new(36, 1));
    assert_eq!(log.into_inner(), vec!["phase", "times", "times"]);
}

#[test]
fn an_isotropic_pattern_is_its_gain_in_every_direction() {
    let p = Pattern::Isotropic { gain: 2.5f64.to_bits() };
    for (theta, phi) in [(0.0f64, 0.0f64), (0.3, 0.4), (PI / 2.0, 1.0), (2.0, 5.0)] {
        let v = pattern_gain(p, 1e9f64.to_bits(), theta.to_bits(), phi.to_bits(), &ops());
        assert_eq!(v, ComplexWord { re: 2.5f64.to_bits(), im: 0 });
        assert_eq!(number(v), Complex::new(2.5, 0.0));
    }
    let q = Pattern::Patch { length: 0.03f64.to_bits(), width: 0.04f64.to_bits() };
    let v = pattern_gain(q, 1e9f64.to_bits(), 0.3f64.to_bits(), 0.4f64.to_bits(), &ops());
    assert_eq!(number(v), patch(0.03, 0.04, 1e9, 0.3, 0.4));
}

#[test]
fn a_single_element_gives_its_channel_gain() {
    let array = ElementArray::new(vec![omni(0.1, -0.2, 0.3, 2.0, Complex::new(0.6, 0.8))]);
    for (theta, phi) in [(0.0f64, 0.0f64), (0.3, 0.4), (PI / 2.0, 1.0), (2.0, 5.0)] {
        let total = gain(&array, 1e9, theta, phi);
        let direct = channel(&array, 0, 1e9, theta, phi).unwrap();
        assert_eq!(total, direct);
        let term = array.channel_term(0).unwrap();
        assert_eq!(direct, value(term, 1e9, theta, phi));
        assert!((direct.norm() - 2.0).abs() < 1e-9);
    }
}

#[test]
fn a_single_element_gain_is_its_channel_gain_up_to_the_sign_of_a_zero() {
    let minus_zero = words(Complex::new(-0.0, -0.0));
    let array = ElementArray::new(vec![Element::Omni(OmniElement::new(
        Point::origin(),
        1.0f64.to_bits(),
        minus_zero,
    ))]);
    let second = Arithmetic {
        patch: patch_words,
        phase,
        times: |_: ComplexWord, b: ComplexWord| b,
        plus,
    };
    let direct = array.get_channel_gain(0, 1, 2, 3, &mut PhaseCache::new(0), &second).unwrap();
    let total = array.get_gain(1, 2, 3, &mut PhaseCache::new(0), &second);
    assert_eq!(direct, minus_zero);
    assert_eq!(total, ComplexWord { re: 0, im: 0 });
    assert_ne!(total, direct);
    assert_eq!(number(total), number(direct));
}

#[test]
fn the_gain_is_the_sum_of_the_channel_gains_in_order() {
    let array = three_elements();
    let (f, theta, phi) = (2.4e9, 0.7, 1.9);
    let mut expected = Complex::new(0.0, 0.0);
    for i in 0..array.len() {
        expected = expected + channel(&array, i, f, theta, phi).unwrap();
    }
    assert_eq!(gain(&array, f, theta, phi), expected);
    let seen = RefCell::new(Vec::new());
    let recording = Arithmetic {
        patch: patch_words,
        phase: |k: PhaseKey| {
            seen.borrow_mut().push(k.position);
            phase(k)
        },
        times,
        plus,
    };
    let total = array.get_gain(
        f.to_bits(),
        theta.to_bits(),
        phi.to_bits(),
        &mut PhaseCache::new(0),
        &recording,
    );
    assert_eq!(number(total), expected);
    let positions: Vec<Point> = array.terms().iter().map(|t| t.position).collect();
    assert_eq!(seen.into_inner(), positions);
}

#[test]
fn two_omnis_half_a_wavelength_apart_cancel() {
    let wavelength = SPEED_OF_LIGHT / 1e9;
    let array = ElementArray::new(vec![
        omni(0.0, 0.0, 0.0, 1.0, Complex::new(1.0, 0.0)),
        omni(wavelength / 2.0, 0.0, 0.0, 1.0, Complex::new(1.0, 0.0)),
    ]);
    let total = gain(&array, 1e9, PI / 2.0, 0.0);
    assert!(total.norm() < 1e-6);
    let first = channel(&array, 0, 1e9, PI / 2.0, 0.0).unwrap();
    let second = channel(&array, 1, 1e9, PI / 2.0, 0.0).unwrap();
    assert!((first - Complex::new(1.0, 0.0)).norm() < 1e-12);
    assert!((second - Complex::new(-1.0, 0.0)).norm() < 1e-9);
    let broadside = gain(&array, 1e9, 0.0, 0.0);
    assert!((broadside - Complex::new(2.0, 0.0)).norm() < 1e-9);
}

#[test]
fn element_spacing() {
    let wavelength = SPEED_OF_LIGHT / 1e9;
    let e0 = Element::Omni(OmniElement::with_defaults(1.0f64.to_bits()));
    let e1 = omni(wavelength / 2.0, 0.0, 0.0, 1.0, Complex::new(0.0, 1.0));
    let array = ElementArray::new(vec![e0, e1]);
    let theta_spacing = 0.5 * PI / 180.0;
    let phi_spacing = 1.0 * PI / 180.0;
    let num_theta_samples = (PI / theta_spacing) as usize;
    let num_phi_samples = (2.0 * PI / phi_spacing) as usize;
    assert_eq!(num_theta_samples, 360);
    assert_eq!(num_phi_samples, 360);
    let mut cache = PhaseCache::new(0);
    let mut rows = 0;
    for phi_idx in 0..num_phi_samples {
        let phi = phi_idx as f64 * phi_spacing;
        for theta_idx in 0..num_theta_samples {
            let theta = theta_idx as f64 * theta_spacing;
            let magnitude = gain_with(&array, &mut cache, 1e9, theta, phi).norm();
            assert!(magnitude.is_finite());
            assert!(magnitude <= 2.0 + 1e-9);
        }
        rows += 1;
    }
    assert_eq!(rows, 360);
}

#[test]
fn each_model_defines_the_gain_of_its_element() {
    let (f, theta, phi) = (1e9f64, 0.9f64, 2.2f64);
    let (fw, tw, hw) = (f.to_bits(), theta.to_bits(), phi.to_bits());
    let mut cache = PhaseCache::new(0);
    let mut o =
        OmniElement::new(point(0.1, 0.2, 0.3), 2.0f64.to_bits(), words(Complex::new(0.0, 1.0)));
    let g = number(o.get_gain(fw, tw, hw, &mut cache, &ops()));
    let shift = number(phase(key(point(0.1, 0.2, 0.3), f, theta, phi)));
    assert!((g - shift * 2.0 * Complex::new(0.0, 1.0)).norm() < 1e-12);
    assert!((g.norm() - 2.0).abs() < 1e-9);
    assert_eq!(g, value(o.term(), f, theta, phi));
    o.set_weight(words(Complex::new(3.0, 0.0)));
    let h_omni = number(o.get_gain(fw, tw, hw, &mut cache, &ops()));
    assert!((h_omni - shift * 2.0 * 3.0).norm() < 1e-12);

    let mut p = PatchElement::new(
        point(0.0, 0.5, 0.0),
        0.03f64.to_bits(),
        0.04f64.to_bits(),
        words(Complex::new(1.0, 0.0)),
    )
    .unwrap();
    let bare = patch(0.03, 0.04, f, theta, phi);
    let mut table = PhaseCache::new(8);
    let g = number(p.get_gain(fw, tw, hw, &mut table, &ops()));
    assert_eq!(g, bare);
    assert_eq!(table.len(), 0);
    p.set_weight(words(Complex::new(0.0, -2.0)));
    assert_eq!(p.weight(), words(Complex::new(0.0, -2.0)));
    let h = number(p.get_gain(fw, tw, hw, &mut table, &ops()));
    assert_eq!(h, g);
    let elsewhere = PatchElement::new(
        point(3.0, -1.0, 2.0),
        0.03f64.to_bits(),
        0.04f64.to_bits(),
        words(Complex::new(7.0, 7.0)),
    )
    .unwrap();
    assert_eq!(number(elsewhere.get_gain(fw, tw, hw, &mut table, &ops())), bare);
    assert_eq!(table.len(), 0);

    let mut e = Element::Patch(p);
    assert_eq!(number(e.get_gain(fw, tw, hw, &mut table, &ops())), bare);
    e.set_weight(words(Complex::new(1.0, 0.0)));
    assert_eq!(number(e.get_gain(fw, tw, hw, &mut table, &ops())), bare);
    assert_eq!(e.term().weight, words(Complex::new(1.0, 0.0)));
    assert_eq!(e.term().position, point(0.0, 0.5, 0.0));
    let same = Element::Omni(o);
    assert_eq!(number(same.get_gain(fw, tw, hw, &mut table, &ops())), h_omni);
    assert_eq!(table.len(), 1);
    let lighter = e.with_weight(words(Complex::new(0.5, 0.0)));
    assert_eq!(lighter.term().weight, words(Complex::new(0.5, 0.0)));
    assert_eq!(lighter.term().pattern, e.term().pattern);
}

#[test]
fn a_channel_index_at_or_past_the_end_is_out_of_range() {
    let array = three_elements();
    assert_eq!(array.len(), 3);
    assert!(channel(&array, 2, 1e9, 0.1, 0.2).is_ok());
    assert_eq!(channel(&array, 3, 1e9, 0.1, 0.2), Err(ArrayError::IndexOutOfRange));
    assert_eq!(channel(&array, usize::MAX, 1e9, 0.1, 0.2), Err(ArrayError::IndexOutOfRange));
    assert_eq!(array.channel_term(3), Err(ArrayError::IndexOutOfRange));
    assert!(array.channel_term(2).is_ok());
    let empty = ElementArray::new(Vec::new());
    assert_eq!(channel(&empty, 0, 1e9, 0.1, 0.2), Err(ArrayError::IndexOutOfRange));
    let mut cache = PhaseCache::new(5);
    let r = array.get_channel_gain(3, 1, 2, 3, &mut cache, &ops());
    assert_eq!(r, Err(ArrayError::IndexOutOfRange));
    assert_eq!(cache.len(), 0);
    assert!(array.get_channel_gain(2, 1, 2, 3, &mut cache, &ops()).is_ok());
    assert_eq!(cache.len(), 1);
}

#[test]
fn terms_follow_the_elements_in_channel_order() {
    let mut array = three_elements();
    let terms = array.terms();
    assert_eq!(terms.len(), 3);
    for i in 0..3 {
        assert_eq!(array.channel_term(i), Ok(terms[i]));
    }
    assert_eq!(terms[0].pattern, Pattern::Isotropic { gain: 1.0f64.to_bits() });
    assert_eq!(terms[0].position, point(0.1, 0.0, 0.0));
    assert_eq!(
        terms[1].pattern,
        Pattern::Patch { length: 0.03f64.to_bits(), width: 0.04f64.to_bits() }
    );
    assert_eq!(terms[1].weight, words(Complex::new(0.0, 1.0)));
    assert_eq!(terms[2].weight, words(Complex::new(0.5, -0.5)));
    array.push(omni(9.0, 9.0, 9.0, 3.0, Complex::new(1.0, 0.0)));
    assert_eq!(array.len(), 4);
    let more = array.terms();
    assert_eq!(more[..3], terms[..]);
    assert_eq!(more[3].position, point(9.0, 9.0, 9.0));
}

#[test]
fn a_new_weight_changes_one_term_only() {
    let mut array = three_elements();
    let before = array.terms();
    let w = words(Complex::new(-2.0, 0.25));
    assert_eq!(array.set_weight(1, w), Ok(()));
    let after = array.terms();
    assert_eq!(after[0], before[0]);
    assert_eq!(after[2], before[2]);
    assert_eq!(after[1].weight, w);
    assert_eq!(after[1].pattern, before[1].pattern);
    assert_eq!(after[1].position, before[1].position);
    assert_eq!(array.set_weight(3, w), Err(ArrayError::IndexOutOfRange));
    assert_eq!(array.terms(), after);
}

#[test]
fn scaling_a_weight_scales_that_channel_alone() {
    let mut array = three_elements();
    let (f, theta, phi) = (1e9, 1.1, 0.6);
    let before: Vec<Complex<f64>> =
        (0..3).map(|i| channel(&array, i, f, theta, phi).unwrap()).collect();
    let total_before = gain(&array, f, theta, phi);
    let c = Complex::new(0.3, -1.7);
    let old = number(array.channel_term(2).unwrap().weight);
    array.set_weight(2, words(old * c)).unwrap();
    let after: Vec<Complex<f64>> =
        (0..3).map(|i| channel(&array, i, f, theta, phi).unwrap()).collect();
    assert_eq!(after[0], before[0]);
    assert_eq!(after[1], before[1]);
    assert!((after[2] - before[2] * c).norm() < 1e-9);
    let total_after = gain(&array, f, theta, phi);
    assert!((total_after - (total_before + before[2] * (c - 1.0))).norm() < 1e-9);
}

#[test]
fn a_phase_factor_has_magnitude_one() {
    let points = [point(0.0, 0.0, 0.0), point(0.15, -0.3, 2.0), point(-7.0, 0.01, 0.5)];
    let mut cache = PhaseCache::with_default_capacity();
    let compute: Unary = phase;
    for p in points {
        for f in [1e6f64, 1e9, 2.4e9] {
            for (theta, phi) in [(0.0f64, 0.0f64), (0.4, 1.0), (PI / 2.0, 3.0), (PI, 6.0)] {
                let v = number(calc_phase(
                    &p,
                    f.to_bits(),
                    theta.to_bits(),
                    phi.to_bits(),
                    &mut cache,
                    &compute,
                ));
                assert!((v.norm() - 1.0).abs() < 1e-9);
            }
        }
    }
    assert_eq!(cache.len(), 36);
}

#[test]
fn the_phase_factor_of_the_origin_is_one() {
    let mut cache = PhaseCache::with_default_capacity();
    let compute: Unary = phase;
    for f in [1.0f64, 1e9, 7.7e10] {
        for (theta, phi) in [(0.0f64, 0.0f64), (0.4, 1.0), (PI / 2.0, 3.0), (PI, 6.0)] {
            let v = number(calc_phase(
                &Point::origin(),
                f.to_bits(),
                theta.to_bits(),
                phi.to_bits(),
                &mut cache,
                &compute,
            ));
            assert_eq!(v, Complex::new(1.0, 0.0));
        }
    }
}

#[test]
fn a_patch_has_gain_one_at_boresight() {
    for (length, width) in [(0.03, 0.04), (1.0, 1.0), (1e-3, 5.0)] {
        for f in [1e6, 1e9, 2.4e9] {
            for phi in [0.0, 0.5, 1.0, 2.0, 4.0] {
                let g = patch(length, width, f, 0.0, phi);
                assert!(!g.re.is_nan());
                assert!((g.re - 1.0).abs() < 1e-12);
                assert_eq!(g.im, 0.0);
            }
        }
    }
    let e = PatchElement::with_defaults(0.03f64.to_bits(), 0.04f64.to_bits()).unwrap();
    let array = ElementArray::new(vec![Element::Patch(e)]);
    let g = gain(&array, 1e9, 0.0, 0.0);
    assert_eq!(g, Complex::new(1.0, 0.0));
}

#[test]
fn a_patch_element_has_gain_one_at_boresight_whatever_its_weight_and_position() {
    let mut cache = PhaseCache::new(0);
    for (x, weight) in [(0.0, Complex::new(1.0, 0.0)), (0.7, Complex::new(2.0, 0.0)), (-3.0, Complex::new(0.0, -5.0))] {
        let e = PatchElement::new(point(x, 0.1, 0.2), 0.03f64.to_bits(), 0.04f64.to_bits(), words(weight))
            .unwrap();
        for f in [1e6f64, 1e9, 2.4e9] {
            for phi in [0.0f64, 0.5, 1.0, 2.0, 4.0] {
                let g = number(e.get_gain(
                    f.to_bits(),
                    0.0f64.to_bits(),
                    phi.to_bits(),
                    &mut cache,
                    &ops(),
                ));
                assert!(!g.re.is_nan());
                assert!((g.re - 1.0).abs() <= 1e-12);
                assert_eq!(g.im, 0.0);
            }
        }
    }
}

#[test]
fn an_array_places_and_weights_a_patch_once() {
    let (f, theta, phi) = (1e9f64, 0.9f64, 2.2f64);
    let position = point(0.0, 0.5, 0.0);
    let weight = Complex::new(0.0, -2.0);
    let e = PatchElement::new(position, 0.03f64.to_bits(), 0.04f64.to_bits(), words(weight))
        .unwrap();
    let array = ElementArray::new(vec![Element::Patch(e)]);
    let bare = patch(0.03, 0.04, f, theta, phi);
    let shift = number(phase(key(position, f, theta, phi)));
    let direct = channel(&array, 0, f, theta, phi).unwrap();
    assert_eq!(direct, shift * bare * weight);
    assert!((direct - bare * shift * weight).norm() < 1e-9);
    assert_eq!(gain(&array, f, theta, phi), direct);
    let own = number(e.get_gain(
        f.to_bits(),
        theta.to_bits(),
        phi.to_bits(),
        &mut PhaseCache::new(0),
        &ops(),
    ));
    assert_eq!(own, bare);
}

#[test]
fn a_memoized_phase_factor_is_the_recomputed_one_bit_for_bit() {
    let mut cache = PhaseCache::with_default_capacity();
    let calls = Cell::new(0);
    let counted = |k: PhaseKey| {
        calls.set(calls.get() + 1);
        phase(k)
    };
    let places = [point(0.15, -0.3, 2.0), point(0.0, 0.0, 0.0), point(1.0, 1.0, -1.0)];
    for _ in 0..4 {
        for p in places {
            let memoized = calc_phase(
                &p,
                1e9f64.to_bits(),
                0.4f64.to_bits(),
                1.0f64.to_bits(),
                &mut cache,
                &counted,
            );
            let fresh = phase(key(p, 1e9, 0.4, 1.0));
            assert_eq!(memoized.re, fresh.re);
            assert_eq!(memoized.im, fresh.im);
        }
    }
    assert_eq!(calls.get(), 3);
    assert_eq!(cache.len(), 3);
}

#[test]
fn the_memoized_gain_is_the_gain_without_a_table() {
    let array = three_elements();
    let mut cache = PhaseCache::with_default_capacity();
    let directions: [(f64, f64); 4] = [(0.0, 0.0), (0.3, 0.4), (PI / 2.0, 1.0), (2.0, 5.0)];
    for _ in 0..3 {
        for (theta, phi) in directions {
            let memoized = gain_with(&array, &mut cache, 1e9, theta, phi);
            let plain = gain(&array, 1e9, theta, phi);
            assert_eq!(memoized.re.to_bits(), plain.re.to_bits());
            assert_eq!(memoized.im.to_bits(), plain.im.to_bits());
        }
    }
    assert_eq!(cache.len(), 12);
    let calls = Cell::new(0);
    let counting = Arithmetic {
        patch: patch_words,
        phase: |k: PhaseKey| {
            calls.set(calls.get() + 1);
            phase(k)
        },
        times,
        plus,
    };
    for (theta, phi) in directions {
        array.get_gain(1e9f64.to_bits(), theta.to_bits(), phi.to_bits(), &mut cache, &counting);
    }
    assert_eq!(calls.get(), 0);
    array.get_gain(1e9f64.to_bits(), 0.1f64.to_bits(), 0.1f64.to_bits(), &mut cache, &counting);
    assert_eq!(calls.get(), 3);
}
