//! Assembling a track from the parsed document.
use vstd::prelude::*;

use crate::document::{elements_of, member, member_of, number_of, text_of};
use crate::error::{Failure, PipelineError};

verus! {

/// One point of the track: a position, longitude first, and its elevation,
/// each as the JSON number that the document holds.
#[derive(Debug)]
pub struct TrackPoint {
    pub longitude: serde_json::Number,
    pub latitude: serde_json::Number,
    pub elevation: serde_json::Number,
}

/// A track of one segment: the points in the order of the document, and the
/// tour's name where the document gives one.
#[derive(Debug)]
pub struct Track {
    pub name: Option<String>,
    pub points: Vec<TrackPoint>,
}

/// A track as plain values.
pub struct TrackView {
    pub name: Option<Seq<char>>,
    pub points: Seq<TrackPoint>,
}

impl View for Track {
    type V = TrackView;

    open spec fn view(&self) -> TrackView {
        TrackView {
            name: match self.name {
                Some(n) => Some(n@),
                None => None,
            },
            points: self.points@,
        }
    }
}

/// The keys from the document's root to the tour.
pub open spec fn tour_path() -> Seq<Seq<char>> {
    seq!["page"@, "_embedded"@, "tour"@]
}

/// The keys from the tour to its coordinate list.
pub open spec fn items_path() -> Seq<Seq<char>> {
    seq!["_embedded"@, "coordinates"@, "items"@]
}

/// The value reached from `v` by the keys of `path`, or the position of the
/// first key that is missing.
pub open spec fn follow(v: serde_json::Value, path: Seq<Seq<char>>) -> Result<
    serde_json::Value,
    nat,
>
    decreases path.len(),
{
    if path.len() == 0 {
        Ok(v)
    } else {
        match follow(v, path.drop_last()) {
            Ok(parent) => match member_of(parent, path.last()) {
                Some(child) => Ok(child),
                None => Err((path.len() - 1) as nat),
            },
            Err(k) => Err(k),
        }
    }
}

/// The number under `key` of a coordinate record, if it is one.
pub open spec fn field_number(item: serde_json::Value, key: Seq<char>) -> Option<
    serde_json::Number,
> {
    match member_of(item, key) {
        Some(f) => number_of(f),
        None => None,
    }
}

/// The first of `lat`, `lng` and `alt` that a record lacks as a number.
pub open spec fn bad_field(item: serde_json::Value) -> Option<Seq<char>> {
    if field_number(item, "lat"@) is None {
        Some("lat"@)
    } else if field_number(item, "lng"@) is None {
        Some("lng"@)
    } else if field_number(item, "alt"@) is None {
        Some("alt"@)
    } else {
        None
    }
}

/// The position and field of the first invalid record.
pub open spec fn first_invalid(items: Seq<serde_json::Value>) -> Option<(nat, Seq<char>)>
    decreases items.len(),
{
    if items.len() == 0 {
        None
    } else {
        match first_invalid(items.drop_last()) {
            Some(found) => Some(found),
            None => match bad_field(items.last()) {
                Some(f) => Some(((items.len() - 1) as nat, f)),
                None => None,
            },
        }
    }
}

/// The point that a valid record stands for.
pub open spec fn point_of(item: serde_json::Value) -> TrackPoint {
    TrackPoint {
        longitude: field_number(item, "lng"@)->0,
        latitude: field_number(item, "lat"@)->0,
        elevation: field_number(item, "alt"@)->0,
    }
}

/// The tour's name: absent is no name, anything but a string is an error.
pub open spec fn tour_name(tour: serde_json::Value) -> Result<Option<Seq<char>>, Failure> {
    match member_of(tour, "name"@) {
        None => Ok(None),
        Some(n) => match text_of(n) {
            Some(t) => Ok(Some(t)),
            None => Err(Failure::InvalidField("name"@, None)),
        },
    }
}

/// The track that a document describes, or why it describes none.
pub open spec fn track_of(doc: serde_json::Value) -> Result<TrackView, Failure> {
    match follow(doc, tour_path()) {
        Err(k) => Err(Failure::PathNotFound(tour_path()[k as int])),
        Ok(tour) => match follow(tour, items_path()) {
            Err(k) => Err(Failure::PathNotFound(items_path()[k as int])),
            Ok(list) => match elements_of(list) {
                None => Err(Failure::NotAnArray),
                Some(items) => match first_invalid(items) {
                    Some((k, f)) => Err(Failure::InvalidField(f, Some(k))),
                    None => match tour_name(tour) {
                        Err(e) => Err(e),
                        Ok(name) => Ok(
                            TrackView { name, points: items.map_values(|it| point_of(it)) },
                        ),
                    },
                },
            },
        },
    }
}

/// A track result as plain values.
pub open spec fn track_outcome(r: Result<Track, PipelineError>) -> Result<TrackView, Failure> {
    match r {
        Ok(t) => Ok(t@),
        Err(e) => Err(e@),
    }
}

/// The keys of a path as character sequences.
pub open spec fn key_views(keys: Seq<&str>) -> Seq<Seq<char>> {
    keys.map_values(|k: &str| k@)
}

/// Once a prefix holds an invalid record, every longer prefix reports the same one.
proof fn lemma_first_invalid_extends(items: Seq<serde_json::Value>, n: int, m: int)
    requires
        0 <= n <= m <= items.len(),
        first_invalid(items.take(n)) is Some,
    ensures
        first_invalid(items.take(m)) == first_invalid(items.take(n)),
    decreases m - n,
{
    if m > n {
        lemma_first_invalid_extends(items, n, m - 1);
        assert(items.take(m).drop_last() =~= items.take(m - 1));
    }
}

/// Follows `keys` from `doc`; on failure, the position of the first missing key.
fn walk<'a>(doc: &'a serde_json::Value, keys: &Vec<&str>) -> (r: Result<
    &'a serde_json::Value,
    usize,
>)
    ensures
        match r {
            Ok(v) => follow(*doc, key_views(keys@)) == Ok::<serde_json::Value, nat>(*v),
            Err(k) => k < keys@.len() && follow(*doc, key_views(keys@)) == Err::<
                serde_json::Value,
                nat,
            >(k as nat),
        },
{
    let mut cur = doc;
    let mut i: usize = 0;
    while i < keys.len()
        invariant
            i <= keys@.len(),
            follow(*doc, key_views(keys@).take(i as int)) == Ok::<serde_json::Value, nat>(*cur),
        decreases keys@.len() - i,
    {
        assert(key_views(keys@).take(i + 1).drop_last() =~= key_views(keys@).take(i as int));
        match member(cur, keys[i]) {
            Some(child) => {
                cur = child;
            },
            None => {
                proof {
                    let all = key_views(keys@);
                    assert forall|j: int| i + 1 <= j <= all.len() implies follow(*doc, all.take(j))
                        == Err::<serde_json::Value, nat>(i as nat) by {
                        lemma_follow_err_extends(*doc, all, i + 1, j);
                    }
                    assert(all.take(all.len() as int) =~= all);
                }
                return Err(i);
            },
        }
        i = i + 1;
    }
    assert(key_views(keys@).take(i as int) =~= key_views(keys@));
    Ok(cur)
}

/// Once a prefix of a path is missing, every longer prefix fails at the same key.
proof fn lemma_follow_err_extends(v: serde_json::Value, path: Seq<Seq<char>>, n: int, m: int)
    requires
        0 <= n <= m <= path.len(),
        follow(v, path.take(n)) is Err,
    ensures
        follow(v, path.take(m)) == follow(v, path.take(n)),
    decreases m - n,
{
    if m > n {
        lemma_follow_err_extends(v, path, n, m - 1);
        assert(path.take(m).drop_last() =~= path.take(m - 1));
    }
}

/// The number under `key` of a coordinate record, if it is one.
pub fn coordinate(item: &serde_json::Value, key: &str) -> (r: Option<serde_json::Number>)
    ensures
        r == field_number(*item, key@),
{
    match member(item, key) {
        Some(f) => match f.as_number() {
            Some(n) => Some(n.clone()),
            None => None,
        },
        None => None,
    }
}

/// The tour's name under `tour`: absent is no name, anything but a string is an error.
fn read_name(tour: &serde_json::Value) -> (r: Result<Option<String>, PipelineError>)
    ensures
        match r {
            Ok(n) => tour_name(*tour) == Ok::<Option<Seq<char>>, Failure>(
                match n {
                    Some(t) => Some(t@),
                    None => None,
                },
            ),
            Err(e) => tour_name(*tour) == Err::<Option<Seq<char>>, Failure>(e@),
        },
{
    match member(tour, "name") {
        None => Ok(None),
        Some(n) => match n.as_str() {
            Some(t) => Ok(Some(t.to_owned())),
            None => Err(PipelineError::InvalidField("name".to_owned(), None)),
        },
    }
}

/// Validates each coordinate record in order and converts it to a point.
fn read_points(items: &Vec<serde_json::Value>) -> (r: Result<Vec<TrackPoint>, PipelineError>)
    ensures
        match r {
            Ok(points) => first_invalid(items@) is None && points@ == items@.map_values(
                |it| point_of(it),
            ),
            Err(e) => exists|k: nat, f: Seq<char>|
                first_invalid(items@) == Some((k, f)) && e@ == Failure::InvalidField(f, Some(k)),
        },
{
    let mut points: Vec<TrackPoint> = Vec::new();
    let mut i: usize = 0;
    while i < items.len()
        invariant
            i <= items@.len(),
            first_invalid(items@.take(i as int)) is None,
            points@ == items@.take(i as int).map_values(|it| point_of(it)),
        decreases items@.len() - i,
    {
        let item = &items[i];
        let ghost next = items@.take(i + 1);
        assert(next.drop_last() =~= items@.take(i as int));
        assert(next.last() == *item);
        let lat = coordinate(item, "lat");
        let lng = coordinate(item, "lng");
        let alt = coordinate(item, "alt");
        let field = if lat.is_none() {
            Some("lat")
        } else if lng.is_none() {
            Some("lng")
        } else if alt.is_none() {
            Some("alt")
        } else {
            None
        };
        match field {
            Some(f) => {
                proof {
                    lemma_first_invalid_extends(items@, i + 1, items@.len() as int);
                    assert(items@.take(items@.len() as int) =~= items@);
                }
                return Err(PipelineError::InvalidField(f.to_owned(), Some(i)));
            },
            None => {
                points.push(
                    TrackPoint {
                        longitude: lng.unwrap(),
                        latitude: lat.unwrap(),
                        elevation: alt.unwrap(),
                    },
                );
                assert(points@ =~= next.map_values(|it| point_of(it)));
            },
        }
        i = i + 1;
    }
    assert(items@.take(i as int) =~= items@);
    Ok(points)
}

/// Reads the track out of a parsed document: the coordinate list under
/// `page._embedded.tour._embedded.coordinates.items`, each record's `lat`,
/// `lng` and `alt` as numbers, and the optional `page._embedded.tour.name`.
pub fn json_to_track(doc: &serde_json::Value) -> (r: Result<Track, PipelineError>)
    ensures
        track_outcome(r) == track_of(*doc),
{
    let tour_keys: Vec<&str> = vec!["page", "_embedded", "tour"];
    let items_keys: Vec<&str> = vec!["_embedded", "coordinates", "items"];
    assert(key_views(tour_keys@) =~= tour_path());
    assert(key_views(items_keys@) =~= items_path());
    let tour = match walk(doc, &tour_keys) {
        Ok(t) => t,
        Err(k) => {
            assert(key_views(tour_keys@)[k as int] == tour_keys@[k as int]@);
            return Err(PipelineError::PathNotFound(tour_keys[k].to_owned()));
        },
    };
    let list = match walk(tour, &items_keys) {
        Ok(l) => l,
        Err(k) => {
            assert(key_views(items_keys@)[k as int] == items_keys@[k as int]@);
            return Err(PipelineError::PathNotFound(items_keys[k].to_owned()));
        },
    };
    let items = match list.as_array() {
        Some(a) => a,
        None => return Err(PipelineError::NotAnArray),
    };
    let points = match read_points(items) {
        Ok(p) => p,
        Err(e) => return Err(e),
    };
    let name = match read_name(tour) {
        Ok(n) => n,
        Err(e) => return Err(e),
    };
    Ok(Track { name, points })
}

/// The coordinate records that a document holds, where its path leads to an array.
pub open spec fn records_of(doc: serde_json::Value) -> Option<Seq<serde_json::Value>> {
    match follow(doc, tour_path()) {
        Ok(tour) => match follow(tour, items_path()) {
            Ok(list) => elements_of(list),
            Err(_) => None,
        },
        Err(_) => None,
    }
}

/// A track holds one point for each coordinate record, in the records' order.
pub proof fn points_keep_record_order(doc: serde_json::Value)
    requires
        track_of(doc) is Ok,
    ensures
        records_of(doc) is Some,
        track_of(doc)->Ok_0.points.len() == records_of(doc)->0.len(),
        forall|k: int|
            0 <= k < records_of(doc)->0.len() ==> track_of(doc)->Ok_0.points[k] == point_of(
                records_of(doc)->0[k],
            ),
{
}

/// A prefix of valid records holds no invalid one.
proof fn lemma_valid_prefix(items: Seq<serde_json::Value>, n: int)
    requires
        0 <= n <= items.len(),
        forall|j: int| 0 <= j < n ==> bad_field(#[trigger] items[j]) is None,
    ensures
        first_invalid(items.take(n)) is None,
    decreases n,
{
    if n > 0 {
        lemma_valid_prefix(items, n - 1);
        assert(items.take(n).drop_last() =~= items.take(n - 1));
    }
}

/// A record without a numeric `lat`, after valid records only, fails the
/// whole track with `InvalidField("lat", k)`, whatever the records after it hold.
pub proof fn invalid_latitude_fails_track(doc: serde_json::Value, k: nat)
    requires
        records_of(doc) is Some,
        k < records_of(doc)->0.len(),
        forall|j: int| 0 <= j < k ==> bad_field(#[trigger] records_of(doc)->0[j]) is None,
        field_number(records_of(doc)->0[k as int], "lat"@) is None,
    ensures
        track_of(doc) == Err::<TrackView, Failure>(Failure::InvalidField("lat"@, Some(k))),
{
    let items = records_of(doc)->0;
    lemma_valid_prefix(items, k as int);
    assert(items.take(k + 1int).drop_last() =~= items.take(k as int));
    lemma_first_invalid_extends(items, k + 1int, items.len() as int);
    assert(items.take(items.len() as int) =~= items);
}

} // verus!
