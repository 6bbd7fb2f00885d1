//! Far-field pattern synthesis for phased antenna arrays: the exact core.
//!
//! Every real quantity (a coordinate, a frequency, an angle, a gain, a
//! weight) is carried as the 64-bit word of its IEEE 754 binary64 encoding.
//! On words, equality is exact, so a tuple of words can key a lookup table
//! and a stored result is returned bit for bit.
//!
//! The crate holds what is decided on words: the classification of a word,
//! the validation of element geometry, the term that each element adds to
//! the gain of an array, the order in which terms are evaluated and summed,
//! the addressing of channels, and the bounded table that memoizes phase
//! factors. The trigonometric formulas and the complex product and sum are
//! the caller's: they are handed in as four operations on words, and the
//! contracts say how the results are built from them.

pub mod arithmetic;
pub mod array;
pub mod binary64;
pub mod cache;
pub mod element;
pub mod point;

pub use crate::arithmetic::calc_phase;
pub use crate::arithmetic::pattern_gain;
pub use crate::arithmetic::term_gain;
pub use crate::arithmetic::Arithmetic;
pub use crate::array::ArrayError;
pub use crate::array::ArrayIface;
pub use crate::array::ElementArray;
pub use crate::binary64::ComplexWord;
pub use crate::cache::PhaseCache;
pub use crate::cache::PhaseKey;
pub use crate::element::Element;
pub use crate::element::ElementError;
pub use crate::element::ElementIface;
pub use crate::element::GainModel;
pub use crate::element::OmniElement;
pub use crate::element::PatchElement;
pub use crate::element::Pattern;
pub use crate::element::Term;
pub use crate::point::Point;
