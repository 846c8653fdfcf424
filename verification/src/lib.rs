//! Verified core of the academic reading desk: Markdown segmentation,
//! translation post-processing, digest context selection, field routing,
//! paradigm recognition and export rendering.
use vstd::prelude::*;

pub mod text;
pub mod segment;
pub mod json;
pub mod base64;
pub mod translate;
pub mod html;
pub mod export;
pub mod lexicon;
pub mod rank;
pub mod paradigm;
pub mod fields;
pub mod digest;
pub mod error_code;
pub mod stats;
pub mod logging;
pub mod notes;
pub mod mineru;
pub mod library;

verus! {

} // verus!
