//! The whole conversion from page text to track.
use vstd::prelude::*;
use vstd::string::StringSliceAdditionalSpecFns;
use vstd::utf8::*;

use crate::document::{decode_payload, decoded};
use crate::error::{Failure, PipelineError};
use crate::locate::{has_embedding, locate_payload, payload_bounds};
use crate::track::{json_to_track, track_of, track_outcome, Track, TrackView};

verus! {

broadcast use vstd::utf8::encode_utf8_decode_utf8;

/// The track that an escaped payload describes, or why it describes none.
pub open spec fn track_from_payload(payload: Seq<char>) -> Result<TrackView, Failure> {
    match decoded(payload) {
        Ok(doc) => track_of(doc),
        Err(f) => Err(f),
    }
}

/// Locates the embedded document in a page, decodes it, and assembles the track.
pub fn track_from_html(html: &str) -> (r: Result<Track, PipelineError>)
    ensures
        !has_embedding(html.spec_bytes()) ==> track_outcome(r) == Err::<TrackView, Failure>(
            Failure::MarkerNotFound,
        ),
        has_embedding(html.spec_bytes()) ==> exists|start: int, end: int|
            payload_bounds(html.spec_bytes(), start, end) && track_outcome(r)
                == track_from_payload(decode_utf8(html.spec_bytes().subrange(start, end))),
{
    let payload = match locate_payload(html) {
        Ok(p) => p,
        Err(e) => return Err(e),
    };
    assert(decode_utf8(payload.spec_bytes()) == payload@);
    let doc = match decode_payload(payload) {
        Ok(d) => d,
        Err(e) => return Err(e),
    };
    json_to_track(&doc)
}

} // verus!
