//! The arithmetic that the caller supplies, and the value of a term under it.
//!
//! Four operations on words are not computed here: the pattern of a patch at
//! a frequency and a direction, the phase factor of a key, and the product and
//! the sum of two complex numbers. The caller hands them in, and the functions
//! of this crate say how they are combined: which operation is applied to
//! what, in which order, and what is looked up in the phase table instead of
//! being computed again. Their contracts are relations over the contracts of
//! the four operations. Where the operations compute functions, the relations
//! determine the results, and the laws at the end say so.

use crate::binary64::ComplexWord;
use crate::binary64::ZERO;
use crate::cache::agrees;
use crate::cache::law_memoized_is_recomputed;
use crate::cache::memoizes;
use crate::cache::Entry;
use crate::cache::PhaseCache;
use crate::cache::PhaseKey;
use crate::element::Pattern;
use crate::element::Term;
use crate::point::Point;
use vstd::prelude::*;

verus! {

/// The four operations on words that the caller supplies.
pub struct Arithmetic<P, S, M, A> {
    /// The pattern of a patch at its own phase center, from its length and
    /// width, a frequency, a polar angle and an azimuthal angle.
    pub patch: P,
    /// The phase factor of a position, a frequency and a direction.
    pub phase: S,
    /// The product of two complex numbers.
    pub times: M,
    /// The sum of two complex numbers.
    pub plus: A,
}

/// The key under which the phase factor of a position is memoized.
pub open spec fn key_of(position: Point, frequency: u64, theta: u64, phi: u64) -> PhaseKey {
    PhaseKey { position, frequency, theta, phi }
}

/// Every operation can be called on every argument.
pub open spec fn accepts_all<P, S, M, A>(ops: Arithmetic<P, S, M, A>) -> bool where
    P: Fn(u64, u64, u64, u64, u64) -> ComplexWord,
    S: Fn(PhaseKey) -> ComplexWord,
    M: Fn(ComplexWord, ComplexWord) -> ComplexWord,
    A: Fn(ComplexWord, ComplexWord) -> ComplexWord,
{
    &&& forall|l: u64, w: u64, f: u64, t: u64, h: u64| #[trigger]
        ops.patch.requires((l, w, f, t, h))
    &&& forall|k: PhaseKey| #[trigger] ops.phase.requires((k,))
    &&& forall|a: ComplexWord, b: ComplexWord| #[trigger] ops.times.requires((a, b))
    &&& forall|a: ComplexWord, b: ComplexWord| #[trigger] ops.plus.requires((a, b))
}

/// `own` is a value of the pattern at the frequency and direction. An
/// isotropic pattern has its gain in every direction, as a real number; the
/// pattern of a patch is what the patch operation gives for its sides.
pub open spec fn pattern_values_to<P, S, M, A>(
    ops: Arithmetic<P, S, M, A>,
    pattern: Pattern,
    frequency: u64,
    theta: u64,
    phi: u64,
    own: ComplexWord,
) -> bool where
    P: Fn(u64, u64, u64, u64, u64) -> ComplexWord,
    S: Fn(PhaseKey) -> ComplexWord,
    M: Fn(ComplexWord, ComplexWord) -> ComplexWord,
    A: Fn(ComplexWord, ComplexWord) -> ComplexWord,
{
    match pattern {
        Pattern::Isotropic { gain } => own == (ComplexWord { re: gain, im: 0 }),
        Pattern::Patch { length, width } => ops.patch.ensures(
            (length, width, frequency, theta, phi),
            own,
        ),
    }
}

/// `value` is a value of the term at the frequency and direction: the phase
/// factor of the term's position, memoized in the table, times the value of
/// the term's pattern, times the term's weight. Translation and weight are
/// each applied once. `after` is the table afterwards.
pub open spec fn term_values_to<P, S, M, A>(
    ops: Arithmetic<P, S, M, A>,
    term: Term,
    frequency: u64,
    theta: u64,
    phi: u64,
    table: Seq<Entry>,
    capacity: nat,
    value: ComplexWord,
    after: Seq<Entry>,
) -> bool where
    P: Fn(u64, u64, u64, u64, u64) -> ComplexWord,
    S: Fn(PhaseKey) -> ComplexWord,
    M: Fn(ComplexWord, ComplexWord) -> ComplexWord,
    A: Fn(ComplexWord, ComplexWord) -> ComplexWord,
{
    exists|shift: ComplexWord, own: ComplexWord, moved: ComplexWord|
        memoizes(
            table,
            capacity,
            key_of(term.position, frequency, theta, phi),
            ops.phase,
            shift,
            after,
        ) && pattern_values_to(ops, term.pattern, frequency, theta, phi, own)
            && #[trigger] ops.times.ensures((shift, own), moved) && ops.times.ensures(
            (moved, term.weight),
            value,
        )
}

/// The phase factor that translates a pattern from the phase center to
/// `position`, for a plane wave of the given frequency from the given
/// direction. The factor is looked up in the table; where it is not there,
/// `phase` computes it and it is stored.
pub fn calc_phase<S>(
    position: &Point,
    frequency: u64,
    theta: u64,
    phi: u64,
    cache: &mut PhaseCache,
    phase: &S,
) -> (r: ComplexWord) where S: Fn(PhaseKey) -> ComplexWord
    requires
        phase.requires((key_of(*position, frequency, theta, phi),)),
    ensures
        final(cache).limit() == old(cache).limit(),
        memoizes(
            old(cache)@,
            old(cache).limit(),
            key_of(*position, frequency, theta, phi),
            *phase,
            r,
            final(cache)@,
        ),
{
    let key = PhaseKey { position: *position, frequency, theta, phi };
    cache.get_or_compute(key, phase)
}

/// The value of a pattern at its own phase center, at a frequency and a
/// direction.
pub fn pattern_gain<P, S, M, A>(
    pattern: Pattern,
    frequency: u64,
    theta: u64,
    phi: u64,
    ops: &Arithmetic<P, S, M, A>,
) -> (own: ComplexWord) where
    P: Fn(u64, u64, u64, u64, u64) -> ComplexWord,
    S: Fn(PhaseKey) -> ComplexWord,
    M: Fn(ComplexWord, ComplexWord) -> ComplexWord,
    A: Fn(ComplexWord, ComplexWord) -> ComplexWord,

    requires
        accepts_all(*ops),
    ensures
        pattern_values_to(*ops, pattern, frequency, theta, phi, own),
{
    match pattern {
        Pattern::Isotropic { gain } => ComplexWord { re: gain, im: ZERO },
        Pattern::Patch { length, width } => (ops.patch)(length, width, frequency, theta, phi),
    }
}

/// The value of a term at a frequency and a direction: its pattern,
/// translated to its position and weighted.
pub fn term_gain<P, S, M, A>(
    term: Term,
    frequency: u64,
    theta: u64,
    phi: u64,
    cache: &mut PhaseCache,
    ops: &Arithmetic<P, S, M, A>,
) -> (value: ComplexWord) where
    P: Fn(u64, u64, u64, u64, u64) -> ComplexWord,
    S: Fn(PhaseKey) -> ComplexWord,
    M: Fn(ComplexWord, ComplexWord) -> ComplexWord,
    A: Fn(ComplexWord, ComplexWord) -> ComplexWord,

    requires
        accepts_all(*ops),
    ensures
        final(cache).limit() == old(cache).limit(),
        term_values_to(
            *ops,
            term,
            frequency,
            theta,
            phi,
            old(cache)@,
            old(cache).limit(),
            value,
            final(cache)@,
        ),
{
    let shift = calc_phase(&term.position, frequency, theta, phi, cache, &ops.phase);
    let own = pattern_gain(term.pattern, frequency, theta, phi, ops);
    let moved = (ops.times)(shift, own);
    let value = (ops.times)(moved, term.weight);
    assert(ops.times.ensures((shift, own), moved));
    value
}

/// Each operation computes a function: whatever it returns for an argument
/// is the function's value there.
pub open spec fn computes<P, S, M, A>(
    ops: Arithmetic<P, S, M, A>,
    patch: spec_fn(u64, u64, u64, u64, u64) -> ComplexWord,
    phase: spec_fn(PhaseKey) -> ComplexWord,
    times: spec_fn(ComplexWord, ComplexWord) -> ComplexWord,
    plus: spec_fn(ComplexWord, ComplexWord) -> ComplexWord,
) -> bool where
    P: Fn(u64, u64, u64, u64, u64) -> ComplexWord,
    S: Fn(PhaseKey) -> ComplexWord,
    M: Fn(ComplexWord, ComplexWord) -> ComplexWord,
    A: Fn(ComplexWord, ComplexWord) -> ComplexWord,
{
    &&& forall|l: u64, w: u64, f: u64, t: u64, h: u64, v: ComplexWord| #[trigger]
        ops.patch.ensures((l, w, f, t, h), v) ==> v == patch(l, w, f, t, h)
    &&& forall|k: PhaseKey, v: ComplexWord| #[trigger] ops.phase.ensures((k,), v) ==> v == phase(k)
    &&& forall|a: ComplexWord, b: ComplexWord, c: ComplexWord| #[trigger]
        ops.times.ensures((a, b), c) ==> c == times(a, b)
    &&& forall|a: ComplexWord, b: ComplexWord, c: ComplexWord| #[trigger]
        ops.plus.ensures((a, b), c) ==> c == plus(a, b)
}

/// The value of a pattern under a function for the patch pattern.
pub open spec fn pattern_value_of(
    pattern: Pattern,
    frequency: u64,
    theta: u64,
    phi: u64,
    patch: spec_fn(u64, u64, u64, u64, u64) -> ComplexWord,
) -> ComplexWord {
    match pattern {
        Pattern::Isotropic { gain } => ComplexWord { re: gain, im: 0 },
        Pattern::Patch { length, width } => patch(length, width, frequency, theta, phi),
    }
}

/// The value of a term under functions for the patch pattern, the phase
/// factor and the product, without any table: phase factor times pattern
/// times weight.
pub open spec fn term_value_of(
    term: Term,
    frequency: u64,
    theta: u64,
    phi: u64,
    patch: spec_fn(u64, u64, u64, u64, u64) -> ComplexWord,
    phase: spec_fn(PhaseKey) -> ComplexWord,
    times: spec_fn(ComplexWord, ComplexWord) -> ComplexWord,
) -> ComplexWord {
    times(
        times(
            phase(key_of(term.position, frequency, theta, phi)),
            pattern_value_of(term.pattern, frequency, theta, phi, patch),
        ),
        term.weight,
    )
}

/// Where the operations compute functions and the table agrees with the
/// phase function, a value of a term is the value of the term under the
/// functions, whatever the table held, and the table still agrees afterwards.
pub proof fn law_term_value_ignores_the_table<P, S, M, A>(
    ops: Arithmetic<P, S, M, A>,
    term: Term,
    frequency: u64,
    theta: u64,
    phi: u64,
    table: Seq<Entry>,
    capacity: nat,
    value: ComplexWord,
    after: Seq<Entry>,
    patch: spec_fn(u64, u64, u64, u64, u64) -> ComplexWord,
    phase: spec_fn(PhaseKey) -> ComplexWord,
    times: spec_fn(ComplexWord, ComplexWord) -> ComplexWord,
    plus: spec_fn(ComplexWord, ComplexWord) -> ComplexWord,
) where
    P: Fn(u64, u64, u64, u64, u64) -> ComplexWord,
    S: Fn(PhaseKey) -> ComplexWord,
    M: Fn(ComplexWord, ComplexWord) -> ComplexWord,
    A: Fn(ComplexWord, ComplexWord) -> ComplexWord,

    requires
        computes(ops, patch, phase, times, plus),
        agrees(table, phase),
        term_values_to(ops, term, frequency, theta, phi, table, capacity, value, after),
    ensures
        value == term_value_of(term, frequency, theta, phi, patch, phase, times),
        agrees(after, phase),
{
    let key = key_of(term.position, frequency, theta, phi);
    let (shift, own, moved) = choose|shift: ComplexWord, own: ComplexWord, moved: ComplexWord|
        memoizes(table, capacity, key, ops.phase, shift, after) && pattern_values_to(
            ops,
            term.pattern,
            frequency,
            theta,
            phi,
            own,
        ) && #[trigger] ops.times.ensures((shift, own), moved) && ops.times.ensures(
            (moved, term.weight),
            value,
        );
    law_memoized_is_recomputed(table, capacity, key, ops.phase, phase, shift, after);
}

/// Where the product is commutative, as the product of complex numbers is and
/// as its rounded form is too, the value of a term is as well the pattern
/// times the phase factor times the weight: the first two factors may stand
/// in either order.
pub proof fn law_term_value_in_either_order(
    term: Term,
    frequency: u64,
    theta: u64,
    phi: u64,
    patch: spec_fn(u64, u64, u64, u64, u64) -> ComplexWord,
    phase: spec_fn(PhaseKey) -> ComplexWord,
    times: spec_fn(ComplexWord, ComplexWord) -> ComplexWord,
)
    requires
        forall|a: ComplexWord, b: ComplexWord| #[trigger] times(a, b) == times(b, a),
    ensures
        term_value_of(term, frequency, theta, phi, patch, phase, times) == times(
            times(
                pattern_value_of(term.pattern, frequency, theta, phi, patch),
                phase(key_of(term.position, frequency, theta, phi)),
            ),
            term.weight,
        ),
{
    let shift = phase(key_of(term.position, frequency, theta, phi));
    let own = pattern_value_of(term.pattern, frequency, theta, phi, patch);
    assert(times(shift, own) == times(own, shift));
}

/// Scaling the weight of a term by a factor scales the value of the term by
/// that factor, where the product is commutative and associative, as the
/// product of complex numbers is. A rounded product is not associative, and
/// of it the law holds up to rounding only.
pub proof fn law_scaled_weight_scales_the_value(
    term: Term,
    factor: ComplexWord,
    frequency: u64,
    theta: u64,
    phi: u64,
    patch: spec_fn(u64, u64, u64, u64, u64) -> ComplexWord,
    phase: spec_fn(PhaseKey) -> ComplexWord,
    times: spec_fn(ComplexWord, ComplexWord) -> ComplexWord,
)
    requires
        forall|a: ComplexWord, b: ComplexWord| #[trigger] times(a, b) == times(b, a),
        forall|a: ComplexWord, b: ComplexWord, c: ComplexWord| #[trigger]
            times(times(a, b), c) == times(a, times(b, c)),
    ensures
        term_value_of(
            term.reweighted(times(factor, term.weight)),
            frequency,
            theta,
            phi,
            patch,
            phase,
            times,
        ) == times(factor, term_value_of(term, frequency, theta, phi, patch, phase, times)),
{
    let bare = times(
        phase(key_of(term.position, frequency, theta, phi)),
        pattern_value_of(term.pattern, frequency, theta, phi, patch),
    );
    assert(times(times(bare, factor), term.weight) == times(bare, times(factor, term.weight)));
    assert(times(bare, factor) == times(factor, bare));
    assert(times(times(factor, bare), term.weight) == times(factor, times(bare, term.weight)));
}

} // verus!
