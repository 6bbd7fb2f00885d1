//! Arrays of elements.
//!
//! An array is an ordered sequence of elements; the place of an element in
//! the sequence is its channel index. The gain of the array is the sum of the
//! terms of its elements, so the array is viewed as the sequence of those
//! terms: an array without elements has no term, and the term of a channel
//! is the summand that the channel adds.

use crate::arithmetic::accepts_all;
use crate::arithmetic::computes;
use crate::arithmetic::key_of;
use crate::arithmetic::law_scaled_weight_scales_the_value;
use crate::arithmetic::law_term_value_ignores_the_table;
use crate::arithmetic::pattern_value_of;
use crate::arithmetic::term_gain;
use crate::arithmetic::term_value_of;
use crate::arithmetic::term_values_to;
use crate::arithmetic::Arithmetic;
use crate::binary64::ComplexWord;
use crate::cache::agrees;
use crate::cache::Entry;
use crate::cache::PhaseCache;
use crate::cache::PhaseKey;
use crate::element::Element;
use crate::element::Term;
use vstd::prelude::*;

verus! {

/// Why a channel could not be addressed.
#[derive(Clone, Copy, Debug, PartialEq, Eq, Structural)]
pub enum ArrayError {
    /// The channel index is not below the number of elements.
    IndexOutOfRange,
}

/// `total` is a gain of the terms at the frequency and direction: their
/// values, summed from left to right from `0 + 0j`, each evaluated on the
/// table that the one before it left. `after` is the table at the end. The
/// operations are not taken to be functions: the relation holds of every
/// outcome that their contracts admit.
pub open spec fn sums_to<P, S, M, A>(
    ops: Arithmetic<P, S, M, A>,
    terms: Seq<Term>,
    frequency: u64,
    theta: u64,
    phi: u64,
    table: Seq<Entry>,
    capacity: nat,
    total: ComplexWord,
    after: Seq<Entry>,
) -> bool where
    P: Fn(u64, u64, u64, u64, u64) -> ComplexWord,
    S: Fn(PhaseKey) -> ComplexWord,
    M: Fn(ComplexWord, ComplexWord) -> ComplexWord,
    A: Fn(ComplexWord, ComplexWord) -> ComplexWord,

    decreases terms.len(),
{
    if terms.len() == 0 {
        total == ComplexWord::zero_spec() && after == table
    } else {
        exists|before: ComplexWord, value: ComplexWord, between: Seq<Entry>|
            #![trigger
                term_values_to(ops, terms.last(), frequency, theta, phi, between, capacity, value, after),
                ops.plus.ensures((before, value), total)]
            sums_to(
                ops,
                terms.drop_last(),
                frequency,
                theta,
                phi,
                table,
                capacity,
                before,
                between,
            ) && term_values_to(
                ops,
                terms.last(),
                frequency,
                theta,
                phi,
                between,
                capacity,
                value,
                after,
            ) && ops.plus.ensures((before, value), total)
    }
}

/// The gain of the terms under functions for the four operations, without
/// any table: the values of the terms, summed from left to right from
/// `0 + 0j`.
pub open spec fn gain_of(
    terms: Seq<Term>,
    frequency: u64,
    theta: u64,
    phi: u64,
    patch: spec_fn(u64, u64, u64, u64, u64) -> ComplexWord,
    phase: spec_fn(PhaseKey) -> ComplexWord,
    times: spec_fn(ComplexWord, ComplexWord) -> ComplexWord,
    plus: spec_fn(ComplexWord, ComplexWord) -> ComplexWord,
) -> ComplexWord
    decreases terms.len(),
{
    if terms.len() == 0 {
        ComplexWord::zero_spec()
    } else {
        plus(
            gain_of(terms.drop_last(), frequency, theta, phi, patch, phase, times, plus),
            term_value_of(terms.last(), frequency, theta, phi, patch, phase, times),
        )
    }
}

/// An ordered collection of elements.
pub struct ElementArray {
    elements: Vec<Element>,
}

impl View for ElementArray {
    type V = Seq<Term>;

    closed spec fn view(&self) -> Seq<Term> {
        self.elements@.map_values(|e: Element| e@)
    }
}

impl ElementArray {
    /// The array of the given elements, in their order.
    pub fn new(elements: Vec<Element>) -> (r: ElementArray)
        ensures
            r@.len() == elements@.len(),
            forall|i: int|
                #![trigger r@[i]]
                #![trigger elements@[i]]
                0 <= i < elements@.len() ==> r@[i] == elements@[i]@,
    {
        ElementArray { elements }
    }

    /// The number of elements, one more than the highest channel index.
    pub fn len(&self) -> (n: usize)
        ensures
            n == self@.len(),
    {
        self.elements.len()
    }

    /// Appends an element; its channel index is the number of elements that
    /// were there before.
    pub fn push(&mut self, element: Element)
        ensures
            final(self)@ == old(self)@.push(element@),
    {
        self.elements.push(element);
        assert(self@ =~= old(self)@.push(element@));
    }

    /// The terms whose sum is the gain of the array, in channel order. Each
    /// element contributes exactly one; an array without elements none.
    pub fn terms(&self) -> (r: Vec<Term>)
        ensures
            r@ == self@,
            forall|i: int| 0 <= i < r@.len() ==> (#[trigger] r@[i]).well_formed(),
    {
        let mut out: Vec<Term> = Vec::new();
        let mut i: usize = 0;
        while i < self.elements.len()
            invariant
                i <= self.elements.len(),
                out@ == self@.take(i as int),
                forall|j: int| 0 <= j < out@.len() ==> (#[trigger] out@[j]).well_formed(),
            decreases self.elements.len() - i,
        {
            let t = self.elements[i].term();
            out.push(t);
            assert(out@ =~= self@.take(i + 1));
            i += 1;
        }
        assert(self@.take(i as int) =~= self@);
        out
    }

    /// The term of one channel: what the element at `index` adds to the gain
    /// of the array. It is found exactly when `index` is below the number of
    /// elements.
    pub fn channel_term(&self, index: usize) -> (r: Result<Term, ArrayError>)
        ensures
            match r {
                Ok(t) => index < self@.len() && t == self@[index as int] && t.well_formed(),
                Err(e) => index >= self@.len() && e == ArrayError::IndexOutOfRange,
            },
    {
        if index < self.elements.len() {
            Ok(self.elements[index].term())
        } else {
            Err(ArrayError::IndexOutOfRange)
        }
    }

    /// The gain of one channel at a frequency and a direction: the value of
    /// the term of the element at `index`, with its weight and its
    /// translation, without any summing. It is computed exactly when `index`
    /// is below the number of elements; otherwise the table is left alone.
    pub fn get_channel_gain<P, S, M, A>(
        &self,
        index: usize,
        frequency: u64,
        theta: u64,
        phi: u64,
        cache: &mut PhaseCache,
        ops: &Arithmetic<P, S, M, A>,
    ) -> (r: Result<ComplexWord, ArrayError>) where
        P: Fn(u64, u64, u64, u64, u64) -> ComplexWord,
        S: Fn(PhaseKey) -> ComplexWord,
        M: Fn(ComplexWord, ComplexWord) -> ComplexWord,
        A: Fn(ComplexWord, ComplexWord) -> ComplexWord,

        requires
            accepts_all(*ops),
        ensures
            final(cache).limit() == old(cache).limit(),
            match r {
                Ok(v) => index < self@.len() && term_values_to(
                    *ops,
                    self@[index as int],
                    frequency,
                    theta,
                    phi,
                    old(cache)@,
                    old(cache).limit(),
                    v,
                    final(cache)@,
                ),
                Err(e) => index >= self@.len() && e == ArrayError::IndexOutOfRange
                    && final(cache)@ == old(cache)@,
            },
    {
        if index < self.elements.len() {
            let term = self.elements[index].term();
            Ok(term_gain(term, frequency, theta, phi, cache, ops))
        } else {
            Err(ArrayError::IndexOutOfRange)
        }
    }

    /// Replaces the weight of one channel. Every other channel keeps its
    /// term, and the addressed one keeps its pattern and position. With an
    /// index that is out of range nothing changes.
    pub fn set_weight(&mut self, index: usize, weight: ComplexWord) -> (r: Result<(), ArrayError>)
        ensures
            match r {
                Ok(_) => index < old(self)@.len() && final(self)@ == old(self)@.update(
                    index as int,
                    old(self)@[index as int].reweighted(weight),
                ),
                Err(e) => index >= old(self)@.len() && e == ArrayError::IndexOutOfRange
                    && final(self)@ == old(self)@,
            },
    {
        if index < self.elements.len() {
            let e = self.elements[index].with_weight(weight);
            self.elements.set(index, e);
            assert(self@ =~= old(self)@.update(
                index as int,
                old(self)@[index as int].reweighted(weight),
            ));
            Ok(())
        } else {
            Err(ArrayError::IndexOutOfRange)
        }
    }
}

/// What every kind of array offers: the gain of all its elements together.
pub trait ArrayIface {
    /// The terms of the elements, in channel order.
    spec fn contributions(&self) -> Seq<Term>;

    /// The gain of the array at a frequency and a direction: the values of
    /// its terms, summed in channel order from `0 + 0j`. An array without
    /// elements has the gain `0 + 0j` and leaves the table alone.
    fn get_gain<P, S, M, A>(
        &self,
        frequency: u64,
        theta: u64,
        phi: u64,
        cache: &mut PhaseCache,
        ops: &Arithmetic<P, S, M, A>,
    ) -> (total: ComplexWord) where
        P: Fn(u64, u64, u64, u64, u64) -> ComplexWord,
        S: Fn(PhaseKey) -> ComplexWord,
        M: Fn(ComplexWord, ComplexWord) -> ComplexWord,
        A: Fn(ComplexWord, ComplexWord) -> ComplexWord,

        requires
            accepts_all(*ops),
        ensures
            final(cache).limit() == old(cache).limit(),
            sums_to(
                *ops,
                self.contributions(),
                frequency,
                theta,
                phi,
                old(cache)@,
                old(cache).limit(),
                total,
                final(cache)@,
            ),
            self.contributions().len() == 0 ==> total == ComplexWord::zero_spec() && final(cache)@
                == old(cache)@,
    ;
}

impl ArrayIface for ElementArray {
    open spec fn contributions(&self) -> Seq<Term> {
        self@
    }

    fn get_gain<P, S, M, A>(
        &self,
        frequency: u64,
        theta: u64,
        phi: u64,
        cache: &mut PhaseCache,
        ops: &Arithmetic<P, S, M, A>,
    ) -> (total: ComplexWord) where
        P: Fn(u64, u64, u64, u64, u64) -> ComplexWord,
        S: Fn(PhaseKey) -> ComplexWord,
        M: Fn(ComplexWord, ComplexWord) -> ComplexWord,
        A: Fn(ComplexWord, ComplexWord) -> ComplexWord,
    {
        let ghost table = cache@;
        let ghost capacity = cache.limit();
        let mut total = ComplexWord::zero();
        let mut i: usize = 0;
        while i < self.elements.len()
            invariant
                i <= self.elements.len(),
                accepts_all(*ops),
                cache.limit() == capacity,
                sums_to(
                    *ops,
                    self@.take(i as int),
                    frequency,
                    theta,
                    phi,
                    table,
                    capacity,
                    total,
                    cache@,
                ),
            decreases self.elements.len() - i,
        {
            let ghost between = cache@;
            let term = self.elements[i].term();
            let value = term_gain(term, frequency, theta, phi, cache, ops);
            let next = (ops.plus)(total, value);
            proof {
                let upto = self@.take(i + 1);
                assert(upto.drop_last() =~= self@.take(i as int));
                assert(upto.last() == term);
                assert(term_values_to(
                    *ops,
                    upto.last(),
                    frequency,
                    theta,
                    phi,
                    between,
                    capacity,
                    value,
                    cache@,
                ));
                assert(ops.plus.ensures((total, value), next));
            }
            total = next;
            i += 1;
        }
        assert(self@.take(i as int) =~= self@);
        total
    }
}

/// The memoized gain is the gain. Where the operations compute functions and
/// the table agrees with the phase function, a gain of the terms is their
/// gain under the functions: it depends on the terms, the frequency and the
/// direction alone, not on what the table held. The table still agrees
/// afterwards.
pub proof fn law_gain_ignores_the_table<P, S, M, A>(
    ops: Arithmetic<P, S, M, A>,
    terms: Seq<Term>,
    frequency: u64,
    theta: u64,
    phi: u64,
    table: Seq<Entry>,
    capacity: nat,
    total: ComplexWord,
    after: Seq<Entry>,
    patch: spec_fn(u64, u64, u64, u64, u64) -> ComplexWord,
    phase: spec_fn(PhaseKey) -> ComplexWord,
    times: spec_fn(ComplexWord, ComplexWord) -> ComplexWord,
    plus: spec_fn(ComplexWord, ComplexWord) -> ComplexWord,
) where
    P: Fn(u64, u64, u64, u64, u64) -> ComplexWord,
    S: Fn(PhaseKey) -> ComplexWord,
    M: Fn(ComplexWord, ComplexWord) -> ComplexWord,
    A: Fn(ComplexWord, ComplexWord) -> ComplexWord,

    requires
        computes(ops, patch, phase, times, plus),
        agrees(table, phase),
        sums_to(ops, terms, frequency, theta, phi, table, capacity, total, after),
    ensures
        total == gain_of(terms, frequency, theta, phi, patch, phase, times, plus),
        agrees(after, phase),
    decreases terms.len(),
{
    if terms.len() > 0 {
        let (before, value, between) = choose|
            before: ComplexWord,
            value: ComplexWord,
            between: Seq<Entry>,
        |
            #![trigger
                term_values_to(ops, terms.last(), frequency, theta, phi, between, capacity, value, after),
                ops.plus.ensures((before, value), total)]
            sums_to(
                ops,
                terms.drop_last(),
                frequency,
                theta,
                phi,
                table,
                capacity,
                before,
                between,
            ) && term_values_to(
                ops,
                terms.last(),
                frequency,
                theta,
                phi,
                between,
                capacity,
                value,
                after,
            ) && ops.plus.ensures((before, value), total);
        law_gain_ignores_the_table(
            ops,
            terms.drop_last(),
            frequency,
            theta,
            phi,
            table,
            capacity,
            before,
            between,
            patch,
            phase,
            times,
            plus,
        );
        law_term_value_ignores_the_table(
            ops,
            terms.last(),
            frequency,
            theta,
            phi,
            between,
            capacity,
            value,
            after,
            patch,
            phase,
            times,
            plus,
        );
    }
}

/// The gain of no terms is `0 + 0j`, and the gain of a single term is the
/// value of that term, the gain of its channel, added to `0 + 0j`.
pub proof fn law_gain_of_none_and_of_one(
    term: Term,
    frequency: u64,
    theta: u64,
    phi: u64,
    patch: spec_fn(u64, u64, u64, u64, u64) -> ComplexWord,
    phase: spec_fn(PhaseKey) -> ComplexWord,
    times: spec_fn(ComplexWord, ComplexWord) -> ComplexWord,
    plus: spec_fn(ComplexWord, ComplexWord) -> ComplexWord,
)
    ensures
        gain_of(Seq::<Term>::empty(), frequency, theta, phi, patch, phase, times, plus)
            == ComplexWord::zero_spec(),
        gain_of(seq![term], frequency, theta, phi, patch, phase, times, plus) == plus(
            ComplexWord::zero_spec(),
            term_value_of(term, frequency, theta, phi, patch, phase, times),
        ),
{
    let one = seq![term];
    assert(one.drop_last() =~= Seq::<Term>::empty());
    assert(one.last() == term);
    assert(gain_of(one, frequency, theta, phi, patch, phase, times, plus) == plus(
        gain_of(one.drop_last(), frequency, theta, phi, patch, phase, times, plus),
        term_value_of(one.last(), frequency, theta, phi, patch, phase, times),
    ));
}

/// The gain of a single term is the value of that term, the gain of its
/// channel, as a number, where adding a value to `0 + 0j` gives the same
/// number back. The binary64 sum does: it returns a nonzero finite or
/// infinite value unchanged, a zero for a zero and a NaN for a NaN. Word for
/// word the two may differ, in the sign of a zero or the payload of a NaN.
pub proof fn law_single_term_gain_is_its_value(
    term: Term,
    frequency: u64,
    theta: u64,
    phi: u64,
    patch: spec_fn(u64, u64, u64, u64, u64) -> ComplexWord,
    phase: spec_fn(PhaseKey) -> ComplexWord,
    times: spec_fn(ComplexWord, ComplexWord) -> ComplexWord,
    plus: spec_fn(ComplexWord, ComplexWord) -> ComplexWord,
)
    requires
        forall|v: ComplexWord| (#[trigger] plus(ComplexWord::zero_spec(), v)).same_number(v),
    ensures
        gain_of(seq![term], frequency, theta, phi, patch, phase, times, plus).same_number(
            term_value_of(term, frequency, theta, phi, patch, phase, times),
        ),
{
    law_gain_of_none_and_of_one(term, frequency, theta, phi, patch, phase, times, plus);
}

/// The values of the terms, in channel order.
pub open spec fn values_of(
    terms: Seq<Term>,
    frequency: u64,
    theta: u64,
    phi: u64,
    patch: spec_fn(u64, u64, u64, u64, u64) -> ComplexWord,
    phase: spec_fn(PhaseKey) -> ComplexWord,
    times: spec_fn(ComplexWord, ComplexWord) -> ComplexWord,
) -> Seq<ComplexWord> {
    Seq::new(
        terms.len(),
        |i: int| term_value_of(terms[i], frequency, theta, phi, patch, phase, times),
    )
}

/// The sum of the values, from left to right from `0 + 0j`.
pub open spec fn sum_of(
    values: Seq<ComplexWord>,
    plus: spec_fn(ComplexWord, ComplexWord) -> ComplexWord,
) -> ComplexWord
    decreases values.len(),
{
    if values.len() == 0 {
        ComplexWord::zero_spec()
    } else {
        plus(sum_of(values.drop_last(), plus), values.last())
    }
}

/// The gain of the terms is the sum of their values: each term enters the
/// gain through its value alone.
pub proof fn law_gain_is_the_sum_of_the_values(
    terms: Seq<Term>,
    frequency: u64,
    theta: u64,
    phi: u64,
    patch: spec_fn(u64, u64, u64, u64, u64) -> ComplexWord,
    phase: spec_fn(PhaseKey) -> ComplexWord,
    times: spec_fn(ComplexWord, ComplexWord) -> ComplexWord,
    plus: spec_fn(ComplexWord, ComplexWord) -> ComplexWord,
)
    ensures
        gain_of(terms, frequency, theta, phi, patch, phase, times, plus) == sum_of(
            values_of(terms, frequency, theta, phi, patch, phase, times),
            plus,
        ),
    decreases terms.len(),
{
    if terms.len() > 0 {
        let values = values_of(terms, frequency, theta, phi, patch, phase, times);
        let rest = terms.drop_last();
        law_gain_is_the_sum_of_the_values(rest, frequency, theta, phi, patch, phase, times, plus);
        assert(values.drop_last() =~= values_of(
            rest,
            frequency,
            theta,
            phi,
            patch,
            phase,
            times,
        ));
        assert(values.last() == term_value_of(
            terms.last(),
            frequency,
            theta,
            phi,
            patch,
            phase,
            times,
        ));
    }
}

/// Scaling the weight of one channel by a factor scales the summand of that
/// channel by the factor and leaves every other summand as it was: the gain
/// afterwards is the sum of the same values with that one replaced by the
/// factor times it. This holds where the product is commutative and
/// associative, as the product of complex numbers is. A rounded product is
/// not associative, and of it the law holds up to rounding only.
pub proof fn law_scaled_weight_scales_one_summand(
    terms: Seq<Term>,
    index: int,
    factor: ComplexWord,
    frequency: u64,
    theta: u64,
    phi: u64,
    patch: spec_fn(u64, u64, u64, u64, u64) -> ComplexWord,
    phase: spec_fn(PhaseKey) -> ComplexWord,
    times: spec_fn(ComplexWord, ComplexWord) -> ComplexWord,
    plus: spec_fn(ComplexWord, ComplexWord) -> ComplexWord,
)
    requires
        0 <= index < terms.len(),
        forall|a: ComplexWord, b: ComplexWord| #[trigger] times(a, b) == times(b, a),
        forall|a: ComplexWord, b: ComplexWord, c: ComplexWord| #[trigger]
            times(times(a, b), c) == times(a, times(b, c)),
    ensures
        ({
            let scaled = terms.update(
                index,
                terms[index].reweighted(times(factor, terms[index].weight)),
            );
            let values = values_of(terms, frequency, theta, phi, patch, phase, times);
            &&& values_of(scaled, frequency, theta, phi, patch, phase, times) == values.update(
                index,
                times(factor, values[index]),
            )
            &&& gain_of(scaled, frequency, theta, phi, patch, phase, times, plus) == sum_of(
                values.update(index, times(factor, values[index])),
                plus,
            )
        }),
{
    let scaled = terms.update(index, terms[index].reweighted(times(factor, terms[index].weight)));
    let values = values_of(terms, frequency, theta, phi, patch, phase, times);
    law_scaled_weight_scales_the_value(
        terms[index],
        factor,
        frequency,
        theta,
        phi,
        patch,
        phase,
        times,
    );
    assert(values_of(scaled, frequency, theta, phi, patch, phase, times) =~= values.update(
        index,
        times(factor, values[index]),
    ));
    law_gain_is_the_sum_of_the_values(scaled, frequency, theta, phi, patch, phase, times, plus);
}

/// Where the sum is commutative and associative, a sum is the sum of the
/// other values plus any one of them.
proof fn lemma_sum_splits(
    values: Seq<ComplexWord>,
    index: int,
    plus: spec_fn(ComplexWord, ComplexWord) -> ComplexWord,
)
    requires
        0 <= index < values.len(),
        forall|a: ComplexWord, b: ComplexWord| #[trigger] plus(a, b) == plus(b, a),
        forall|a: ComplexWord, b: ComplexWord, c: ComplexWord| #[trigger]
            plus(plus(a, b), c) == plus(a, plus(b, c)),
    ensures
        sum_of(values, plus) == plus(sum_of(values.remove(index), plus), values[index]),
    decreases values.len(),
{
    let rest = values.drop_last();
    if index == values.len() - 1 {
        assert(values.remove(index) =~= rest);
    } else {
        lemma_sum_splits(rest, index, plus);
        let without = values.remove(index);
        let others = rest.remove(index);
        assert(without.drop_last() =~= others);
        assert(without.last() == values.last());
        let below = sum_of(others, plus);
        let one = values[index];
        let last = values.last();
        assert(sum_of(without, plus) == plus(below, last));
        assert(sum_of(values, plus) == plus(plus(below, one), last));
        assert(plus(plus(below, one), last) == plus(below, plus(one, last)));
        assert(plus(one, last) == plus(last, one));
        assert(plus(plus(below, last), one) == plus(below, plus(last, one)));
    }
}

/// The gain of an array is the gain of the array without one channel, plus
/// the value of that channel, and a new weight for the channel leaves the
/// gain of the others as it was. This holds where the sum is commutative and
/// associative, as the sum of complex numbers is. A rounded sum is
/// commutative but not associative, and of it the law holds up to rounding
/// only.
pub proof fn law_gain_splits_off_one_channel(
    terms: Seq<Term>,
    index: int,
    weight: ComplexWord,
    frequency: u64,
    theta: u64,
    phi: u64,
    patch: spec_fn(u64, u64, u64, u64, u64) -> ComplexWord,
    phase: spec_fn(PhaseKey) -> ComplexWord,
    times: spec_fn(ComplexWord, ComplexWord) -> ComplexWord,
    plus: spec_fn(ComplexWord, ComplexWord) -> ComplexWord,
)
    requires
        0 <= index < terms.len(),
        forall|a: ComplexWord, b: ComplexWord| #[trigger] plus(a, b) == plus(b, a),
        forall|a: ComplexWord, b: ComplexWord, c: ComplexWord| #[trigger]
            plus(plus(a, b), c) == plus(a, plus(b, c)),
    ensures
        gain_of(terms, frequency, theta, phi, patch, phase, times, plus) == plus(
            gain_of(terms.remove(index), frequency, theta, phi, patch, phase, times, plus),
            term_value_of(terms[index], frequency, theta, phi, patch, phase, times),
        ),
        terms.update(index, terms[index].reweighted(weight)).remove(index) == terms.remove(index),
        gain_of(
            terms.update(index, terms[index].reweighted(weight)),
            frequency,
            theta,
            phi,
            patch,
            phase,
            times,
            plus,
        ) == plus(
            gain_of(terms.remove(index), frequency, theta, phi, patch, phase, times, plus),
            term_value_of(
                terms[index].reweighted(weight),
                frequency,
                theta,
                phi,
                patch,
                phase,
                times,
            ),
        ),
{
    let values = values_of(terms, frequency, theta, phi, patch, phase, times);
    law_gain_is_the_sum_of_the_values(terms, frequency, theta, phi, patch, phase, times, plus);
    law_gain_is_the_sum_of_the_values(
        terms.remove(index),
        frequency,
        theta,
        phi,
        patch,
        phase,
        times,
        plus,
    );
    assert(values.remove(index) =~= values_of(
        terms.remove(index),
        frequency,
        theta,
        phi,
        patch,
        phase,
        times,
    ));
    lemma_sum_splits(values, index, plus);
    let changed = terms.update(index, terms[index].reweighted(weight));
    assert(changed.remove(index) =~= terms.remove(index));
    let new_values = values_of(changed, frequency, theta, phi, patch, phase, times);
    law_gain_is_the_sum_of_the_values(changed, frequency, theta, phi, patch, phase, times, plus);
    assert(new_values.remove(index) =~= values.remove(index));
    lemma_sum_splits(new_values, index, plus);
}

/// A new weight for one channel changes the value of that channel alone: the
/// terms of the other channels, and so their values, are what they were, and
/// the term of the addressed channel differs in its weight only, which is
/// the last factor of its value.
pub proof fn law_reweighting_is_local(
    terms: Seq<Term>,
    index: int,
    weight: ComplexWord,
    other: int,
    frequency: u64,
    theta: u64,
    phi: u64,
    patch: spec_fn(u64, u64, u64, u64, u64) -> ComplexWord,
    phase: spec_fn(PhaseKey) -> ComplexWord,
    times: spec_fn(ComplexWord, ComplexWord) -> ComplexWord,
)
    requires
        0 <= index < terms.len(),
        0 <= other < terms.len(),
    ensures
        ({
            let after = terms.update(index, terms[index].reweighted(weight));
            &&& after.len() == terms.len()
            &&& other != index ==> after[other] == terms[other] && term_value_of(
                after[other],
                frequency,
                theta,
                phi,
                patch,
                phase,
                times,
            ) == term_value_of(terms[other], frequency, theta, phi, patch, phase, times)
            &&& term_value_of(after[index], frequency, theta, phi, patch, phase, times) == times(
                times(
                    phase(key_of(terms[index].position, frequency, theta, phi)),
                    pattern_value_of(terms[index].pattern, frequency, theta, phi, patch),
                ),
                weight,
            )
        }),
{
}

} // verus!
