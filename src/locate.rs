//! Finding the embedded payload in a page by plain substring search.
use vstd::prelude::*;
use vstd::string::StringSliceAdditionalSpecFns;
use vstd::utf8::*;

use crate::error::{Failure, PipelineError};

verus! {

broadcast use vstd::utf8::encode_utf8_valid_utf8;

/// The bytes of `kmtBoot.setProps("`, the call that opens the embedding.
pub open spec fn open_marker() -> Seq<u8> {
    seq![
        107u8, 109, 116, 66, 111, 111, 116, 46, 115, 101, 116, 80, 114, 111, 112, 115, 40, 34,
    ]}

/// The bytes of `");`, which close the embedding.
pub open spec fn close_marker() -> Seq<u8> {
    seq![34u8, 41, 59]
}

/// `pat` stands in `text` starting at byte `i`.
pub open spec fn occurs_at(text: Seq<u8>, pat: Seq<u8>, i: int) -> bool {
    0 <= i && i + pat.len() <= text.len() && text.subrange(i, i + pat.len()) == pat
}

/// `i` is the first place at or after `from` where `pat` stands in `text`.
pub open spec fn first_at_or_after(text: Seq<u8>, pat: Seq<u8>, from: int, i: int) -> bool {
    &&& from <= i
    &&& occurs_at(text, pat, i)
    &&& forall|j: int| from <= j < i ==> !occurs_at(text, pat, j)
}

/// The page holds an opening marker followed, at or after its end, by a closing marker.
pub open spec fn has_embedding(text: Seq<u8>) -> bool {
    exists|o: int, c: int|
        occurs_at(text, open_marker(), o) && o + open_marker().len() <= c && occurs_at(
            text,
            close_marker(),
            c,
        )
}

/// The payload bounds: `start` ends the first opening marker, and `end` begins
/// the first closing marker at or after `start`.
pub open spec fn payload_bounds(text: Seq<u8>, start: int, end: int) -> bool {
    &&& first_at_or_after(text, open_marker(), 0, start - open_marker().len())
    &&& first_at_or_after(text, close_marker(), start, end)
}

/// The first place at or after `from` where `pat` stands in `text`, if any.
pub fn find_from(text: &[u8], pat: &[u8], from: usize) -> (r: Option<usize>)
    requires
        pat@.len() > 0,
    ensures
        match r {
            Some(i) => first_at_or_after(text@, pat@, from as int, i as int),
            None => forall|j: int| from <= j ==> !occurs_at(text@, pat@, j),
        },
{
    if text.len() < pat.len() {
        return None;
    }
    let last = text.len() - pat.len();
    assert(text@.len() == text.len());
    let mut i = from;
    while i <= last
        invariant
            last == text@.len() - pat@.len(),
            text@.len() <= usize::MAX,
            pat@.len() > 0,
            from <= i,
            forall|j: int| from <= j < i ==> !occurs_at(text@, pat@, j),
        decreases last + 1 - i,
    {
        let mut k: usize = 0;
        let mut same = true;
        while same && k < pat.len()
            invariant
                i <= last,
                last == text@.len() - pat@.len(),
                text@.len() <= usize::MAX,
                k <= pat@.len(),
                forall|m: int| 0 <= m < k ==> text@[i + m] == pat@[m],
                !same ==> k < pat@.len() && text@[i + k] != pat@[k as int],
            decreases pat@.len() - k + (if same { 1int } else { 0int }),
        {
            if text[i + k] == pat[k] {
                k = k + 1;
            } else {
                same = false;
            }
        }
        if same {
            assert(text@.subrange(i as int, i + pat@.len()) =~= pat@);
            return Some(i);
        }
        assert(text@.subrange(i as int, i + pat@.len())[k as int] != pat@[k as int]);
        i = i + 1;
    }
    None
}

/// The text strictly between the first `kmtBoot.setProps("` of the page and
/// the first `");` after it.
pub fn locate_payload(html: &str) -> (r: Result<&str, PipelineError>)
    ensures
        r is Ok <==> has_embedding(html.spec_bytes()),
        match r {
            Ok(payload) => exists|start: int, end: int|
                payload_bounds(html.spec_bytes(), start, end) && payload.spec_bytes()
                    == html.spec_bytes().subrange(start, end),
            Err(e) => e@ == Failure::MarkerNotFound,
        },
{
    let bytes = html.as_bytes();
    let ghost text = html.spec_bytes();
    let open: Vec<u8> = vec![
        107u8, 109, 116, 66, 111, 111, 116, 46, 115, 101, 116, 80, 114, 111, 112, 115, 40, 34,
    ];
    let close: Vec<u8> = vec![34u8, 41, 59];
    assert(bytes@.len() == bytes.len());
    assert(open@ =~= open_marker());
    assert(close@ =~= close_marker());
    match find_from(bytes, open.as_slice(), 0) {
        None => {
            assert(!has_embedding(text));
            Err(PipelineError::MarkerNotFound)
        },
        Some(o) => {
            let start = o + open.len();
            match find_from(bytes, close.as_slice(), start) {
                None => {
                    assert forall|o2: int, c: int|
                        occurs_at(text, open_marker(), o2) && o2 + open_marker().len() <= c
                            implies !occurs_at(text, close_marker(), c) by {
                        if o2 < o {
                            assert(!occurs_at(text, open_marker(), o2));
                        }
                    }
                    Err(PipelineError::MarkerNotFound)
                },
                Some(c) => {
                    proof {
                        assert(text[start - 1] == text.subrange(o as int, start as int)[17]);
                        lemma_boundary_after_ascii(text, start as int);
                        assert(text[c as int] == text.subrange(c as int, c + 3)[0]);
                        is_char_boundary_iff_not_is_continuation_byte(text, c as int);
                    }
                    let (_, rest) = html.split_at(start);
                    proof {
                        let tail = rest.spec_bytes();
                        valid_utf8_split(text, start as int);
                        assert(tail[c - start] == text[c as int]);
                        is_char_boundary_iff_not_is_continuation_byte(tail, c - start);
                    }
                    let (payload, _) = rest.split_at(c - start);
                    assert(payload.spec_bytes() =~= text.subrange(start as int, c as int));
                    Ok(payload)
                },
            }
        },
    }
}

/// In valid UTF-8, the byte after an ASCII byte starts a character.
proof fn lemma_boundary_after_ascii(bytes: Seq<u8>, i: int)
    requires
        valid_utf8(bytes),
        0 < i <= bytes.len(),
        bytes[i - 1] < 0x80,
    ensures
        is_char_boundary(bytes, i),
{
    is_char_boundary_start_end_of_seq(bytes);
    if i < bytes.len() {
        is_char_boundary_iff_not_is_continuation_byte(bytes, i - 1);
        valid_utf8_split(bytes, i - 1);
        let tail = bytes.subrange(i - 1, bytes.len() as int);
        assert(tail[0] == bytes[i - 1]);
        assert(length_of_first_scalar(tail) == 1);
        let rest = pop_first_scalar(tail);
        assert(valid_utf8(rest));
        assert(rest =~= bytes.subrange(i, bytes.len() as int));
        is_char_boundary_start_end_of_seq(rest);
        is_char_boundary_iff_not_is_continuation_byte(rest, 0);
        assert(rest[0] == bytes[i]);
        is_char_boundary_iff_not_is_continuation_byte(bytes, i);
    }
}

} // verus!
