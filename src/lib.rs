//! Conformance tests carried by trait definitions.
//!
//! The library is the compile-time core of two attribute transforms. The
//! interface annotator takes a trait whose definition embeds `#[test]`
//! functions, removes them, and appends one hidden method that runs them all.
//! The implementation instantiator takes an `impl` of such a trait and emits
//! one test function per concrete instantiation, each calling that hidden
//! method.
//!
//! Syntax reaches the core as a plain model: what the analysis reads is held
//! as strings, flags and indices, and every other piece of the input is an
//! opaque payload named by a [`template::Payload`]. The output is a flat
//! token template, which [`render::render`] turns into a
//! `proc_macro2::TokenStream` once the caller supplies the payloads.
//!
//! - [`annotate`]: the interface annotator ([`annotate::tested_trait`]).
//! - [`instantiate`]: the implementation instantiator
//!   ([`instantiate::test_impl`]).
//! - [`names`]: the hidden method's name, the shared counter and the names
//!   of synthesized tests.
//! - [`template`] and [`render`]: token templates and their rendering.
use vstd::prelude::*;

pub mod annotate;
pub mod instantiate;
pub mod names;
pub mod render;
pub mod template;

pub use names::gensym;

verus! {

} // verus!
