//! Element models and the terms they contribute.
//!
//! Whatever its model, an element contributes one term to the gain of an
//! array: the phase factor that moves its pattern from the phase center to
//! the element's position, times its own pattern at the queried direction,
//! times the element's weight. A `Term` names the three factors. Because a
//! term holds exactly one position and one weight, translation and weighting
//! are each applied once, whichever model the element has.
//!
//! The gain of an element by itself depends on its model. An omni element
//! applies its position and its weight itself: its gain is the value of its
//! term. A patch element applies neither: its gain is the value of its
//! pattern, and the array that holds it translates and weights.

use crate::arithmetic::accepts_all;
use crate::arithmetic::computes;
use crate::arithmetic::law_term_value_ignores_the_table;
use crate::arithmetic::pattern_value_of;
use crate::arithmetic::term_value_of;
use crate::arithmetic::pattern_gain;
use crate::arithmetic::pattern_values_to;
use crate::arithmetic::term_gain;
use crate::arithmetic::term_values_to;
use crate::arithmetic::Arithmetic;
use crate::binary64::is_positive;
use crate::binary64::positive;
use crate::binary64::ComplexWord;
use crate::cache::agrees;
use crate::cache::Entry;
use crate::cache::PhaseCache;
use crate::cache::PhaseKey;
use crate::point::Point;
use vstd::prelude::*;

verus! {

/// Why an element could not be built.
#[derive(Clone, Copy, Debug, PartialEq, Eq, Structural)]
pub enum ElementError {
    /// A patch side is not greater than zero.
    InvalidGeometry,
}

/// The pattern of an element at its own phase center.
#[derive(Clone, Copy, Debug, PartialEq, Eq, Structural)]
pub enum Pattern {
    /// The same linear gain in every direction.
    Isotropic { gain: u64 },
    /// The closed-form pattern of a rectangular patch with the given sides,
    /// in meters.
    Patch { length: u64, width: u64 },
}

/// One summand of an array's gain: `phase(position) * pattern * weight`.
#[derive(Clone, Copy, Debug, PartialEq, Eq, Structural)]
pub struct Term {
    pub pattern: Pattern,
    pub position: Point,
    pub weight: ComplexWord,
}

impl Pattern {
    /// A patch pattern has both sides greater than zero.
    pub open spec fn valid(self) -> bool {
        match self {
            Pattern::Isotropic { gain } => true,
            Pattern::Patch { length, width } => positive(length) && positive(width),
        }
    }
}

impl Term {
    /// The pattern of the term is valid.
    pub open spec fn well_formed(self) -> bool {
        self.pattern.valid()
    }

    /// The same term under another weight.
    pub open spec fn reweighted(self, weight: ComplexWord) -> Term {
        Term { pattern: self.pattern, position: self.position, weight }
    }
}

/// What the gain of an element is the value of.
#[derive(Clone, Copy, Debug, PartialEq, Eq, Structural)]
pub enum GainModel {
    /// The element knows its position and weight: its gain is the value of
    /// its term, the pattern translated and weighted.
    Placed(Term),
    /// The element does not apply its position and weight: its gain is the
    /// value of its pattern alone, and the array that holds it translates
    /// and weights.
    Bare(Pattern),
}

/// `gain` is a gain under the model at the frequency and direction, and
/// `after` the phase table afterwards. A bare pattern is evaluated without
/// the table.
pub open spec fn gains_to<P, S, M, A>(
    ops: Arithmetic<P, S, M, A>,
    model: GainModel,
    frequency: u64,
    theta: u64,
    phi: u64,
    table: Seq<Entry>,
    capacity: nat,
    gain: ComplexWord,
    after: Seq<Entry>,
) -> bool where
    P: Fn(u64, u64, u64, u64, u64) -> ComplexWord,
    S: Fn(PhaseKey) -> ComplexWord,
    M: Fn(ComplexWord, ComplexWord) -> ComplexWord,
    A: Fn(ComplexWord, ComplexWord) -> ComplexWord,
{
    match model {
        GainModel::Placed(term) => term_values_to(
            ops,
            term,
            frequency,
            theta,
            phi,
            table,
            capacity,
            gain,
            after,
        ),
        GainModel::Bare(pattern) => pattern_values_to(ops, pattern, frequency, theta, phi, gain)
            && after == table,
    }
}

/// What every element of an array offers: its gain, and a weight that can be
/// replaced.
pub trait ElementIface {
    /// The term of the element: its pattern, its position and its weight.
    spec fn contribution(&self) -> Term;

    /// What the gain of the element is the value of.
    spec fn gain_model(&self) -> GainModel;

    /// The gain of the element at a frequency and a direction, as its model
    /// defines it.
    fn get_gain<P, S, M, A>(
        &self,
        frequency: u64,
        theta: u64,
        phi: u64,
        cache: &mut PhaseCache,
        ops: &Arithmetic<P, S, M, A>,
    ) -> (r: ComplexWord) where
        P: Fn(u64, u64, u64, u64, u64) -> ComplexWord,
        S: Fn(PhaseKey) -> ComplexWord,
        M: Fn(ComplexWord, ComplexWord) -> ComplexWord,
        A: Fn(ComplexWord, ComplexWord) -> ComplexWord,

        requires
            accepts_all(*ops),
        ensures
            final(cache).limit() == old(cache).limit(),
            gains_to(
                *ops,
                self.gain_model(),
                frequency,
                theta,
                phi,
                old(cache)@,
                old(cache).limit(),
                r,
                final(cache)@,
            ),
    ;

    /// Replaces the weight and leaves the pattern and the position as they are.
    fn set_weight(&mut self, weight: ComplexWord)
        ensures
            final(self).contribution() == old(self).contribution().reweighted(weight),
    ;
}

/// An omni-directional element: a linear gain that does not depend on the
/// direction, a position and a weight. Only the weight can change after
/// construction.
#[derive(Clone, Copy, Debug)]
pub struct OmniElement {
    position: Point,
    gain: u64,
    weight: ComplexWord,
}

impl View for OmniElement {
    type V = Term;

    closed spec fn view(&self) -> Term {
        Term {
            pattern: Pattern::Isotropic { gain: self.gain },
            position: self.position,
            weight: self.weight,
        }
    }
}

impl OmniElement {
    /// An omni element with the given position, gain and weight.
    pub fn new(position: Point, gain: u64, weight: ComplexWord) -> (r: OmniElement)
        ensures
            r@ == (Term { pattern: Pattern::Isotropic { gain }, position, weight }),
    {
        OmniElement { position, gain, weight }
    }

    /// An omni element of the given gain at the phase center, with weight
    /// `1 + 0j`.
    pub fn with_defaults(gain: u64) -> (r: OmniElement)
        ensures
            r@.pattern == (Pattern::Isotropic { gain }),
            r@.position == (Point { x: 0, y: 0, z: 0 }),
            r@.weight == ComplexWord::unit_spec(),
    {
        OmniElement { position: Point::origin(), gain, weight: ComplexWord::unit() }
    }

    /// The term that this element contributes.
    pub fn term(&self) -> (t: Term)
        ensures
            t == self@,
            t.well_formed(),
    {
        Term {
            pattern: Pattern::Isotropic { gain: self.gain },
            position: self.position,
            weight: self.weight,
        }
    }

    /// Where the element stands.
    pub fn position(&self) -> (r: Point)
        ensures
            r == self@.position,
    {
        self.position
    }

    /// The linear gain of the element.
    pub fn gain(&self) -> (r: u64)
        ensures
            self@.pattern == (Pattern::Isotropic { gain: r }),
    {
        self.gain
    }

    /// The weight of the element.
    pub fn weight(&self) -> (r: ComplexWord)
        ensures
            r == self@.weight,
    {
        self.weight
    }
}

impl ElementIface for OmniElement {
    open spec fn contribution(&self) -> Term {
        self@
    }

    /// The gain of an omni element is the value of its term: the phase
    /// factor of its position, times its gain, times its weight.
    open spec fn gain_model(&self) -> GainModel {
        GainModel::Placed(self@)
    }

    fn get_gain<P, S, M, A>(
        &self,
        frequency: u64,
        theta: u64,
        phi: u64,
        cache: &mut PhaseCache,
        ops: &Arithmetic<P, S, M, A>,
    ) -> (r: ComplexWord) where
        P: Fn(u64, u64, u64, u64, u64) -> ComplexWord,
        S: Fn(PhaseKey) -> ComplexWord,
        M: Fn(ComplexWord, ComplexWord) -> ComplexWord,
        A: Fn(ComplexWord, ComplexWord) -> ComplexWord,
    {
        term_gain(self.term(), frequency, theta, phi, cache, ops)
    }

    fn set_weight(&mut self, weight: ComplexWord) {
        self.weight = weight;
    }
}

/// A rectangular patch element: two sides greater than zero, a position and
/// a weight. Only the weight can change after construction.
#[derive(Clone, Copy, Debug)]
pub struct PatchElement {
    position: Point,
    length: u64,
    width: u64,
    weight: ComplexWord,
}

impl View for PatchElement {
    type V = Term;

    closed spec fn view(&self) -> Term {
        Term {
            pattern: Pattern::Patch { length: self.length, width: self.width },
            position: self.position,
            weight: self.weight,
        }
    }
}

impl PatchElement {
    #[verifier::type_invariant]
    spec fn sides_positive(self) -> bool {
        positive(self.length) && positive(self.width)
    }

    /// A patch with the given position, sides and weight. It is built exactly
    /// when both sides are greater than zero.
    pub fn new(position: Point, length: u64, width: u64, weight: ComplexWord) -> (r: Result<
        PatchElement,
        ElementError,
    >)
        ensures
            match r {
                Ok(p) => positive(length) && positive(width) && p@ == (Term {
                    pattern: Pattern::Patch { length, width },
                    position,
                    weight,
                }),
                Err(e) => !(positive(length) && positive(width)) && e
                    == ElementError::InvalidGeometry,
            },
    {
        if is_positive(length) && is_positive(width) {
            Ok(PatchElement { position, length, width, weight })
        } else {
            Err(ElementError::InvalidGeometry)
        }
    }

    /// A patch with the given sides at the phase center, with weight `1 + 0j`.
    /// It is built exactly when both sides are greater than zero.
    pub fn with_defaults(length: u64, width: u64) -> (r: Result<PatchElement, ElementError>)
        ensures
            match r {
                Ok(p) => positive(length) && positive(width) && p@ == (Term {
                    pattern: Pattern::Patch { length, width },
                    position: Point { x: 0, y: 0, z: 0 },
                    weight: ComplexWord::unit_spec(),
                }),
                Err(e) => !(positive(length) && positive(width)) && e
                    == ElementError::InvalidGeometry,
            },
    {
        PatchElement::new(Point::origin(), length, width, ComplexWord::unit())
    }

    /// The term that this element contributes.
    pub fn term(&self) -> (t: Term)
        ensures
            t == self@,
            t.well_formed(),
    {
        proof {
            use_type_invariant(self);
        }
        Term {
            pattern: Pattern::Patch { length: self.length, width: self.width },
            position: self.position,
            weight: self.weight,
        }
    }

    /// Where the element stands.
    pub fn position(&self) -> (r: Point)
        ensures
            r == self@.position,
    {
        self.position
    }

    /// The side parallel to the feed, greater than zero.
    pub fn length(&self) -> (r: u64)
        ensures
            self@.pattern is Patch,
            r == self@.pattern->length,
            positive(r),
    {
        proof {
            use_type_invariant(self);
        }
        self.length
    }

    /// The side normal to the feed, greater than zero.
    pub fn width(&self) -> (r: u64)
        ensures
            self@.pattern is Patch,
            r == self@.pattern->width,
            positive(r),
    {
        proof {
            use_type_invariant(self);
        }
        self.width
    }

    /// The weight of the element.
    pub fn weight(&self) -> (r: ComplexWord)
        ensures
            r == self@.weight,
    {
        self.weight
    }
}

impl ElementIface for PatchElement {
    open spec fn contribution(&self) -> Term {
        self@
    }

    /// The gain of a patch element is the value of its pattern alone.
    /// Neither its weight nor its position enters: the array that holds the
    /// patch applies both.
    open spec fn gain_model(&self) -> GainModel {
        GainModel::Bare(self@.pattern)
    }

    fn get_gain<P, S, M, A>(
        &self,
        frequency: u64,
        theta: u64,
        phi: u64,
        cache: &mut PhaseCache,
        ops: &Arithmetic<P, S, M, A>,
    ) -> (r: ComplexWord) where
        P: Fn(u64, u64, u64, u64, u64) -> ComplexWord,
        S: Fn(PhaseKey) -> ComplexWord,
        M: Fn(ComplexWord, ComplexWord) -> ComplexWord,
        A: Fn(ComplexWord, ComplexWord) -> ComplexWord,
    {
        pattern_gain(self.term().pattern, frequency, theta, phi, ops)
    }

    fn set_weight(&mut self, weight: ComplexWord)
        ensures
            final(self).gain_model() == old(self).gain_model(),
    {
        proof {
            use_type_invariant(&*self);
        }
        self.weight = weight;
    }
}

/// An element of an array: one of the closed set of models.
#[derive(Clone, Copy, Debug)]
pub enum Element {
    Omni(OmniElement),
    Patch(PatchElement),
}

impl View for Element {
    type V = Term;

    open spec fn view(&self) -> Term {
        match *self {
            Element::Omni(e) => e@,
            Element::Patch(e) => e@,
        }
    }
}

impl Element {
    /// The term that this element contributes.
    pub fn term(&self) -> (t: Term)
        ensures
            t == self@,
            t.well_formed(),
    {
        match self {
            Element::Omni(e) => e.term(),
            Element::Patch(e) => e.term(),
        }
    }

    /// The same element under another weight.
    pub fn with_weight(self, weight: ComplexWord) -> (r: Element)
        ensures
            r@ == self@.reweighted(weight),
            r is Omni <==> self is Omni,
    {
        match self {
            Element::Omni(e) => {
                let mut e = e;
                e.set_weight(weight);
                Element::Omni(e)
            },
            Element::Patch(e) => {
                let mut e = e;
                e.set_weight(weight);
                Element::Patch(e)
            },
        }
    }
}

impl ElementIface for Element {
    open spec fn contribution(&self) -> Term {
        self@
    }

    /// The gain of an element is the gain of the model that it holds.
    open spec fn gain_model(&self) -> GainModel {
        match *self {
            Element::Omni(e) => e.gain_model(),
            Element::Patch(e) => e.gain_model(),
        }
    }

    fn get_gain<P, S, M, A>(
        &self,
        frequency: u64,
        theta: u64,
        phi: u64,
        cache: &mut PhaseCache,
        ops: &Arithmetic<P, S, M, A>,
    ) -> (r: ComplexWord) where
        P: Fn(u64, u64, u64, u64, u64) -> ComplexWord,
        S: Fn(PhaseKey) -> ComplexWord,
        M: Fn(ComplexWord, ComplexWord) -> ComplexWord,
        A: Fn(ComplexWord, ComplexWord) -> ComplexWord,
    {
        match self {
            Element::Omni(e) => e.get_gain(frequency, theta, phi, cache, ops),
            Element::Patch(e) => e.get_gain(frequency, theta, phi, cache, ops),
        }
    }

    fn set_weight(&mut self, weight: ComplexWord) {
        *self = self.with_weight(weight);
    }
}

/// The value of a model under functions for the patch pattern, the phase
/// factor and the product, without any table.
pub open spec fn model_value_of(
    model: GainModel,
    frequency: u64,
    theta: u64,
    phi: u64,
    patch: spec_fn(u64, u64, u64, u64, u64) -> ComplexWord,
    phase: spec_fn(PhaseKey) -> ComplexWord,
    times: spec_fn(ComplexWord, ComplexWord) -> ComplexWord,
) -> ComplexWord {
    match model {
        GainModel::Placed(term) => term_value_of(term, frequency, theta, phi, patch, phase, times),
        GainModel::Bare(pattern) => pattern_value_of(pattern, frequency, theta, phi, patch),
    }
}

/// Where the operations compute functions and the table agrees with the
/// phase function, a gain of an element is the value of its model under the
/// functions, whatever the table held, and the table still agrees
/// afterwards. For a patch that value is the patch function of its sides, the
/// frequency and the direction: its weight and its position do not enter.
pub proof fn law_element_gain_ignores_the_table<P, S, M, A>(
    ops: Arithmetic<P, S, M, A>,
    model: GainModel,
    frequency: u64,
    theta: u64,
    phi: u64,
    table: Seq<Entry>,
    capacity: nat,
    gain: ComplexWord,
    after: Seq<Entry>,
    patch: spec_fn(u64, u64, u64, u64, u64) -> ComplexWord,
    phase: spec_fn(PhaseKey) -> ComplexWord,
    times: spec_fn(ComplexWord, ComplexWord) -> ComplexWord,
    plus: spec_fn(ComplexWord, ComplexWord) -> ComplexWord,
) where
    P: Fn(u64, u64, u64, u64, u64) -> ComplexWord,
    S: Fn(PhaseKey) -> ComplexWord,
    M: Fn(ComplexWord, ComplexWord) -> ComplexWord,
    A: Fn(ComplexWord, ComplexWord) -> ComplexWord,

    requires
        computes(ops, patch, phase, times, plus),
        agrees(table, phase),
        gains_to(ops, model, frequency, theta, phi, table, capacity, gain, after),
    ensures
        gain == model_value_of(model, frequency, theta, phi, patch, phase, times),
        agrees(after, phase),
{
    match model {
        GainModel::Placed(term) => {
            law_term_value_ignores_the_table(
                ops,
                term,
                frequency,
                theta,
                phi,
                table,
                capacity,
                gain,
                after,
                patch,
                phase,
                times,
                plus,
            );
        },
        GainModel::Bare(pattern) => {},
    }
}

/// The gain of a patch element depends on its sides alone: two patches with
/// the same sides have the same gain model, whatever their weights and
/// positions, and so a new weight leaves the gain of a patch as it was.
pub proof fn law_patch_gain_ignores_weight_and_position(first: PatchElement, second: PatchElement)
    requires
        first@.pattern == second@.pattern,
    ensures
        first.gain_model() == second.gain_model(),
        first.gain_model() == GainModel::Bare(first@.pattern),
{
}

} // verus!
