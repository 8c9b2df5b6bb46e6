//! A verified text-diffing library.
//!
//! The pipeline has three stages, composed per call and sharing no state:
//! a tokenizer that splits each input into comparable units (characters,
//! words, or lines), a sequence aligner that computes a minimal edit script
//! between the two token sequences, and a formatter that renders the script
//! as a single piece of marked-up text.
//!
//! Every stage's output is pinned to a spec-level function of its inputs,
//! so a whole diff call is a mathematical function of the two texts and
//! the options: see `diff::spec_diff`. The aligner's script is proved to
//! cover both token sequences exactly and to cost exactly the edit
//! distance between them; the laws module adds the identity, the
//! reconstruction and the minimality theorems on top.

pub mod align;
pub mod diff;
pub mod laws;
pub mod render;
pub mod script;
pub mod token;
