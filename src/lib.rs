//! Turns a tour page into a GPS track: finds the JSON document embedded in the
//! page, decodes it, and assembles the ordered list of track points.
use vstd::prelude::*;

pub mod document;
pub mod error;
pub mod locate;
pub mod pipeline;
pub mod track;

verus! {

} // verus!
