//! The track of an activity: one coordinate for each record that reports a
//! position, in the order of the records.
//!
//! A record reports a position when it holds both a latitude field and a
//! longitude field, each a signed 32-bit number of semicircles. The fields
//! are read in order until both have been seen; until then a later field
//! replaces an earlier one of the same name. A field with the right name and
//! another kind of value is passed over like any other field.

use crate::angle::degrees_e5;
use crate::angle::lemma_degrees_within_half_turn;
use crate::angle::lemma_degrees_within_quarter_turn;
use crate::angle::semicircles_to_degrees_e5;
use crate::angle::HALF_TURN_UNITS;
use crate::record::FieldValue;
use crate::record::FieldView;
use crate::record::Record;
use crate::record::ValueView;
use crate::record::records_view;
use crate::record::lemma_field_names_differ;
use crate::record::LATITUDE_FIELD;
use crate::record::LONGITUDE_FIELD;
use vstd::prelude::*;

verus! {

/// A position as the device reports it, both angles in semicircles.
#[derive(Clone, Copy, Debug, PartialEq, Eq)]
pub struct Position {
    /// Latitude in semicircles.
    pub lat: i32,
    /// Longitude in semicircles.
    pub lon: i32,
}

/// A point of the track, longitude first, both angles in
/// hundred-thousandths of a degree.
#[derive(Clone, Copy, Debug, PartialEq, Eq)]
pub struct Coordinate {
    /// Longitude in hundred-thousandths of a degree.
    pub longitude: i32,
    /// Latitude in hundred-thousandths of a degree.
    pub latitude: i32,
}

/// The latitude that `field` carries, if it is a latitude field.
pub open spec fn latitude_of(field: FieldView) -> Option<i32> {
    match field.value {
        ValueView::SInt32(v) if field.name == LATITUDE_FIELD@ => Some(v),
        _ => None,
    }
}

/// The longitude that `field` carries, if it is a longitude field.
pub open spec fn longitude_of(field: FieldView) -> Option<i32> {
    match field.value {
        ValueView::SInt32(v) if field.name == LONGITUDE_FIELD@ => Some(v),
        _ => None,
    }
}

/// What a reading of fields has seen so far.
pub struct Seen {
    /// The latest latitude.
    pub lat: Option<i32>,
    /// The latest longitude.
    pub lon: Option<i32>,
}

impl Seen {
    /// Nothing seen yet.
    pub open spec fn nothing() -> Seen {
        Seen { lat: None, lon: None }
    }

    /// Whether both angles have been seen.
    pub open spec fn complete(self) -> bool {
        self.lat is Some && self.lon is Some
    }

    /// What has been seen once `field` is read too.
    pub open spec fn with(self, field: FieldView) -> Seen {
        if latitude_of(field) is Some {
            Seen { lat: latitude_of(field), lon: self.lon }
        } else if longitude_of(field) is Some {
            Seen { lat: self.lat, lon: longitude_of(field) }
        } else {
            self
        }
    }
}

/// What a reading of `fields` has seen when it ends: at the first field that
/// completes the pair, or else at the last field.
pub open spec fn seen_in(fields: Seq<FieldView>) -> Seen
    decreases fields.len(),
{
    if fields.len() == 0 {
        Seen::nothing()
    } else {
        let before = seen_in(fields.drop_last());
        if before.complete() {
            before
        } else {
            before.with(fields.last())
        }
    }
}

/// The position that a record of `fields` reports, if it reports one.
pub open spec fn position_of(fields: Seq<FieldView>) -> Option<Position> {
    let seen = seen_in(fields);
    match (seen.lat, seen.lon) {
        (Some(lat), Some(lon)) => Some(Position { lat, lon }),
        _ => None,
    }
}

/// The coordinate of a position: each angle converted and rounded by itself.
pub open spec fn coordinate_of(position: Position) -> Coordinate {
    Coordinate {
        longitude: degrees_e5(position.lon as int) as i32,
        latitude: degrees_e5(position.lat as int) as i32,
    }
}

/// The track of `records`: the coordinates of those that report a position,
/// in the order of the records.
pub open spec fn coordinates_of(records: Seq<Seq<FieldView>>) -> Seq<Coordinate>
    decreases records.len(),
{
    if records.len() == 0 {
        Seq::empty()
    } else {
        let before = coordinates_of(records.drop_last());
        match position_of(records.last()) {
            Some(position) => before.push(coordinate_of(position)),
            None => before,
        }
    }
}

/// Once both angles have been seen, further fields change nothing.
pub proof fn lemma_seen_stays(fields: Seq<FieldView>, n: int)
    requires
        0 <= n <= fields.len(),
        seen_in(fields.take(n)).complete(),
    ensures
        seen_in(fields) == seen_in(fields.take(n)),
    decreases fields.len() - n,
{
    if n == fields.len() {
        assert(fields.take(n) == fields);
    } else {
        assert(fields.take(n + 1).drop_last() == fields.take(n));
        lemma_seen_stays(fields, n + 1);
    }
}

/// Whether some field of `fields` is a latitude field.
pub open spec fn has_latitude(fields: Seq<FieldView>) -> bool {
    exists|i: int| 0 <= i < fields.len() && latitude_of(#[trigger] fields[i]) is Some
}

/// Whether some field of `fields` is a longitude field.
pub open spec fn has_longitude(fields: Seq<FieldView>) -> bool {
    exists|i: int| 0 <= i < fields.len() && longitude_of(#[trigger] fields[i]) is Some
}

/// How many coordinates the records before the one at `i` give.
pub open spec fn emitted_before(records: Seq<Seq<FieldView>>, i: int) -> nat {
    coordinates_of(records.take(i)).len()
}

/// An angle is seen exactly when a field of its kind is there, and what is
/// seen is the value of such a field.
pub proof fn lemma_seen_comes_from_fields(fields: Seq<FieldView>)
    ensures
        seen_in(fields).lat is Some <==> has_latitude(fields),
        seen_in(fields).lon is Some <==> has_longitude(fields),
        seen_in(fields).lat is Some ==> exists|i: int|
            0 <= i < fields.len() && latitude_of(#[trigger] fields[i]) == seen_in(fields).lat,
        seen_in(fields).lon is Some ==> exists|i: int|
            0 <= i < fields.len() && longitude_of(#[trigger] fields[i]) == seen_in(fields).lon,
    decreases fields.len(),
{
    if fields.len() > 0 {
        let init = fields.drop_last();
        let last = fields.last();
        let n = init.len() as int;
        lemma_seen_comes_from_fields(init);
        lemma_field_names_differ();
        assert(fields[n] == last);
        assert forall|i: int| 0 <= i < init.len() implies init[i] == fields[i] by {}
        let before = seen_in(init);
        let seen = seen_in(fields);
        if has_latitude(init) {
            let i = choose|i: int| 0 <= i < init.len() && latitude_of(#[trigger] init[i]) is Some;
            assert(latitude_of(fields[i]) is Some);
        }
        if has_longitude(init) {
            let i = choose|i: int| 0 <= i < init.len() && longitude_of(#[trigger] init[i]) is Some;
            assert(longitude_of(fields[i]) is Some);
        }
        if has_latitude(fields) && !has_latitude(init) {
            let i = choose|i: int| 0 <= i < fields.len() && latitude_of(#[trigger] fields[i]) is Some;
            if i < n {
                assert(latitude_of(init[i]) is Some);
            }
            assert(latitude_of(last) is Some);
        }
        if has_longitude(fields) && !has_longitude(init) {
            let i = choose|i: int|
                0 <= i < fields.len() && longitude_of(#[trigger] fields[i]) is Some;
            if i < n {
                assert(longitude_of(init[i]) is Some);
            }
            assert(longitude_of(last) is Some);
        }
        if seen.lat is Some {
            if seen.lat == before.lat {
                let i = choose|i: int|
                    0 <= i < init.len() && latitude_of(#[trigger] init[i]) == before.lat;
                assert(latitude_of(fields[i]) == seen.lat);
            } else {
                assert(latitude_of(fields[n]) == seen.lat);
            }
        }
        if seen.lon is Some {
            if seen.lon == before.lon {
                let i = choose|i: int|
                    0 <= i < init.len() && longitude_of(#[trigger] init[i]) == before.lon;
                assert(longitude_of(fields[i]) == seen.lon);
            } else {
                assert(longitude_of(fields[n]) == seen.lon);
            }
        }
    }
}

/// A record reports a position exactly when it holds both a latitude field
/// and a longitude field. One of the two alone gives nothing.
pub proof fn lemma_position_needs_both(fields: Seq<FieldView>)
    ensures
        position_of(fields) is Some <==> has_latitude(fields) && has_longitude(fields),
{
    lemma_seen_comes_from_fields(fields);
}

/// The angles of a reported position are the values of a latitude field and
/// of a longitude field of the record: nothing is made up.
pub proof fn lemma_position_comes_from_fields(fields: Seq<FieldView>)
    requires
        position_of(fields) is Some,
    ensures
        exists|i: int|
            0 <= i < fields.len() && latitude_of(#[trigger] fields[i]) == Some(
                position_of(fields)->0.lat,
            ),
        exists|i: int|
            0 <= i < fields.len() && longitude_of(#[trigger] fields[i]) == Some(
                position_of(fields)->0.lon,
            ),
{
    lemma_seen_comes_from_fields(fields);
}

/// Where the latitude fields of a record agree on one value and its
/// longitude fields on another, the record reports those two, in whatever
/// order its fields stand.
pub proof fn lemma_position_ignores_order(fields: Seq<FieldView>, lat: i32, lon: i32)
    requires
        has_latitude(fields),
        has_longitude(fields),
        forall|i: int|
            0 <= i < fields.len() && latitude_of(#[trigger] fields[i]) is Some ==> latitude_of(
                fields[i],
            ) == Some(lat),
        forall|i: int|
            0 <= i < fields.len() && longitude_of(#[trigger] fields[i]) is Some ==> longitude_of(
                fields[i],
            ) == Some(lon),
    ensures
        position_of(fields) == Some(Position { lat, lon }),
{
    lemma_seen_comes_from_fields(fields);
}

/// A field that is neither a latitude field nor a longitude field can be
/// taken out of a record without changing what the record reports.
pub proof fn lemma_other_field_is_ignored(fields: Seq<FieldView>, i: int)
    requires
        0 <= i < fields.len(),
        latitude_of(fields[i]) is None,
        longitude_of(fields[i]) is None,
    ensures
        seen_in(fields.remove(i)) == seen_in(fields),
        position_of(fields.remove(i)) == position_of(fields),
    decreases fields.len(),
{
    if i == fields.len() - 1 {
        assert(fields.remove(i) == fields.drop_last());
    } else {
        assert(fields.remove(i).drop_last() == fields.drop_last().remove(i));
        assert(fields.remove(i).last() == fields.last());
        lemma_other_field_is_ignored(fields.drop_last(), i);
    }
}

/// A field that bears the name of the latitude or of the longitude field
/// and holds another kind of value than a signed 32-bit integer is passed
/// over: the record reports what it reports without that field.
pub proof fn lemma_field_of_other_kind_is_ignored(fields: Seq<FieldView>, i: int)
    requires
        0 <= i < fields.len(),
        !(fields[i].value is SInt32),
    ensures
        latitude_of(fields[i]) is None,
        longitude_of(fields[i]) is None,
        position_of(fields.remove(i)) == position_of(fields),
{
    lemma_other_field_is_ignored(fields, i);
}

/// The conversion of a position loses nothing in the narrowing to 32 bits,
/// and both angles of the coordinate lie within 180 degrees either way.
pub proof fn lemma_coordinate_is_exact(position: Position)
    ensures
        coordinate_of(position).longitude == degrees_e5(position.lon as int),
        coordinate_of(position).latitude == degrees_e5(position.lat as int),
        -HALF_TURN_UNITS <= coordinate_of(position).longitude <= HALF_TURN_UNITS,
        -HALF_TURN_UNITS <= coordinate_of(position).latitude <= HALF_TURN_UNITS,
{
    lemma_degrees_within_half_turn(position.lon as int);
    lemma_degrees_within_half_turn(position.lat as int);
}

/// The latitude of a coordinate lies within 90 degrees either way exactly
/// when the reported latitude lies within a quarter turn, give or take the
/// 59 semicircles that round back onto 90 degrees.
pub proof fn lemma_latitude_within_quarter_turn(position: Position)
    ensures
        -0x4000_003b <= position.lat <= 0x4000_003b <==> -9_000_000 <= coordinate_of(
            position,
        ).latitude <= 9_000_000,
{
    lemma_coordinate_is_exact(position);
    lemma_degrees_within_quarter_turn(position.lat as int);
}

/// The track of two runs of records, one after the other, is the track of
/// the first followed by the track of the second: no record bears on the
/// coordinate of another.
pub proof fn lemma_track_of_concat(first: Seq<Seq<FieldView>>, second: Seq<Seq<FieldView>>)
    ensures
        coordinates_of(first + second) == coordinates_of(first) + coordinates_of(second),
    decreases second.len(),
{
    if second.len() == 0 {
        assert(first + second == first);
    } else {
        assert((first + second).drop_last() == first + second.drop_last());
        assert((first + second).last() == second.last());
        lemma_track_of_concat(first, second.drop_last());
    }
}

/// A track has at most one coordinate for each record.
pub proof fn lemma_track_is_no_longer(records: Seq<Seq<FieldView>>)
    ensures
        coordinates_of(records).len() <= records.len(),
    decreases records.len(),
{
    if records.len() > 0 {
        lemma_track_is_no_longer(records.drop_last());
    }
}

/// The count of coordinates given so far never falls from one record to a
/// later one, and rises past a record that reports a position.
pub proof fn lemma_emitted_before_grows(records: Seq<Seq<FieldView>>, i: int, j: int)
    requires
        0 <= i <= j <= records.len(),
    ensures
        emitted_before(records, i) <= emitted_before(records, j),
        i < j && position_of(records[i]) is Some ==> emitted_before(records, i)
            < emitted_before(records, j),
        emitted_before(records, j) <= coordinates_of(records).len(),
{
    assert(records.take(j) == records.take(i) + records.subrange(i, j));
    lemma_track_of_concat(records.take(i), records.subrange(i, j));
    assert(records == records.take(j) + records.skip(j));
    lemma_track_of_concat(records.take(j), records.skip(j));
    if i < j {
        assert(records.take(j) == records.take(i + 1) + records.subrange(i + 1, j));
        lemma_track_of_concat(records.take(i + 1), records.subrange(i + 1, j));
        assert(records.take(i + 1).drop_last() == records.take(i));
        assert(records.take(i + 1).last() == records[i]);
    }
}

/// A record that reports a position gives its own coordinate, at the place
/// that the records before it leave free.
pub proof fn lemma_track_point(records: Seq<Seq<FieldView>>, i: int)
    requires
        0 <= i < records.len(),
        position_of(records[i]) is Some,
    ensures
        emitted_before(records, i) < coordinates_of(records).len(),
        coordinates_of(records)[emitted_before(records, i) as int] == coordinate_of(
            position_of(records[i])->0,
        ),
{
    assert(records == records.take(i + 1) + records.skip(i + 1));
    lemma_track_of_concat(records.take(i + 1), records.skip(i + 1));
    assert(records.take(i + 1).drop_last() == records.take(i));
    assert(records.take(i + 1).last() == records[i]);
}

/// Every coordinate of a track is given by some record that reports a
/// position.
pub proof fn lemma_track_source(records: Seq<Seq<FieldView>>, k: int)
    requires
        0 <= k < coordinates_of(records).len(),
    ensures
        exists|i: int|
            0 <= i < records.len() && position_of(#[trigger] records[i]) is Some
                && emitted_before(records, i) == k,
    decreases records.len(),
{
    let init = records.drop_last();
    let n = init.len() as int;
    assert(records.take(n) == init);
    if k < coordinates_of(init).len() {
        lemma_track_source(init, k);
        let i = choose|i: int|
            0 <= i < init.len() && position_of(#[trigger] init[i]) is Some && emitted_before(
                init,
                i,
            ) == k;
        assert(init.take(i) == records.take(i));
        assert(position_of(records[i]) is Some);
    } else {
        assert(position_of(records[n]) is Some);
    }
}

/// Order is kept: of two records that report a position, the earlier one
/// gives the earlier coordinate.
pub proof fn lemma_order_is_kept(records: Seq<Seq<FieldView>>, i: int, j: int)
    requires
        0 <= i < j < records.len(),
        position_of(records[i]) is Some,
        position_of(records[j]) is Some,
    ensures
        emitted_before(records, i) < emitted_before(records, j) < coordinates_of(records).len(),
        coordinates_of(records)[emitted_before(records, i) as int] == coordinate_of(
            position_of(records[i])->0,
        ),
        coordinates_of(records)[emitted_before(records, j) as int] == coordinate_of(
            position_of(records[j])->0,
        ),
{
    lemma_emitted_before_grows(records, i, j);
    lemma_track_point(records, i);
    lemma_track_point(records, j);
}

/// A record that lacks a latitude field or a longitude field can be taken
/// out without changing the track.
pub proof fn lemma_record_without_pair_adds_nothing(records: Seq<Seq<FieldView>>, i: int)
    requires
        0 <= i < records.len(),
        !has_latitude(records[i]) || !has_longitude(records[i]),
    ensures
        coordinates_of(records.remove(i)) == coordinates_of(records),
{
    lemma_position_needs_both(records[i]);
    assert(records == records.take(i + 1) + records.skip(i + 1));
    assert(records.remove(i) == records.take(i) + records.skip(i + 1));
    lemma_track_of_concat(records.take(i + 1), records.skip(i + 1));
    lemma_track_of_concat(records.take(i), records.skip(i + 1));
    assert(records.take(i + 1).drop_last() == records.take(i));
    assert(records.take(i + 1).last() == records[i]);
}

/// Every coordinate of a track lies within 180 degrees either way, in both
/// angles.
pub proof fn lemma_track_is_within_half_turn(records: Seq<Seq<FieldView>>)
    ensures
        forall|k: int|
            0 <= k < coordinates_of(records).len() ==> {
                let c = #[trigger] coordinates_of(records)[k];
                &&& -HALF_TURN_UNITS <= c.longitude <= HALF_TURN_UNITS
                &&& -HALF_TURN_UNITS <= c.latitude <= HALF_TURN_UNITS
            },
{
    assert forall|k: int| 0 <= k < coordinates_of(records).len() implies {
        let c = #[trigger] coordinates_of(records)[k];
        &&& -HALF_TURN_UNITS <= c.longitude <= HALF_TURN_UNITS
        &&& -HALF_TURN_UNITS <= c.latitude <= HALF_TURN_UNITS
    } by {
        lemma_track_source(records, k);
        let i = choose|i: int|
            0 <= i < records.len() && position_of(#[trigger] records[i]) is Some
                && emitted_before(records, i) == k;
        lemma_track_point(records, i);
        lemma_coordinate_is_exact(position_of(records[i])->0);
    }
}

/// The latitudes of a track all lie within 90 degrees either way exactly
/// when every reported latitude lies within a quarter turn, give or take the
/// 59 semicircles that round back onto 90 degrees.
pub proof fn lemma_track_latitudes(records: Seq<Seq<FieldView>>)
    ensures
        (forall|i: int|
            0 <= i < records.len() && position_of(#[trigger] records[i]) is Some ==> -0x4000_003b
                <= position_of(records[i])->0.lat <= 0x4000_003b) <==> (forall|k: int|
            0 <= k < coordinates_of(records).len() ==> -9_000_000 <= (
            #[trigger] coordinates_of(records)[k]).latitude <= 9_000_000),
{
    let track = coordinates_of(records);
    if forall|i: int|
        0 <= i < records.len() && position_of(#[trigger] records[i]) is Some ==> -0x4000_003b
            <= position_of(records[i])->0.lat <= 0x4000_003b {
        assert forall|k: int| 0 <= k < track.len() implies -9_000_000 <= (
        #[trigger] track[k]).latitude <= 9_000_000 by {
            lemma_track_source(records, k);
            let i = choose|i: int|
                0 <= i < records.len() && position_of(#[trigger] records[i]) is Some
                    && emitted_before(records, i) == k;
            lemma_track_point(records, i);
            lemma_latitude_within_quarter_turn(position_of(records[i])->0);
        }
    }
    if forall|k: int|
        0 <= k < track.len() ==> -9_000_000 <= (#[trigger] track[k]).latitude <= 9_000_000 {
        assert forall|i: int|
            0 <= i < records.len() && position_of(#[trigger] records[i]) is Some implies -0x4000_003b
                <= position_of(records[i])->0.lat <= 0x4000_003b by {
            lemma_track_point(records, i);
            lemma_latitude_within_quarter_turn(position_of(records[i])->0);
            assert(-9_000_000 <= track[emitted_before(records, i) as int].latitude <= 9_000_000);
        }
    }
}

/// Reads the position that `record` reports, if it reports one.
pub fn scan_position(record: &Record) -> (found: Option<Position>)
    ensures
        found == position_of(record@),
{
    let latitude = LATITUDE_FIELD.to_owned();
    let longitude = LONGITUDE_FIELD.to_owned();
    scan_for(record, &latitude, &longitude)
}

/// Reads the position that `record` reports, given the two field names.
fn scan_for(record: &Record, latitude: &String, longitude: &String) -> (found: Option<Position>)
    requires
        latitude@ == LATITUDE_FIELD@,
        longitude@ == LONGITUDE_FIELD@,
    ensures
        found == position_of(record@),
{
    let mut lat: Option<i32> = None;
    let mut lon: Option<i32> = None;
    let mut i: usize = 0;
    assert(record@.take(0).len() == 0);
    while i < record.fields.len()
        invariant
            0 <= i <= record.fields.len(),
            record@.len() == record.fields.len(),
            latitude@ == LATITUDE_FIELD@,
            longitude@ == LONGITUDE_FIELD@,
            seen_in(record@.take(i as int)) == (Seen { lat, lon }),
            !(lat is Some && lon is Some),
        decreases record.fields.len() - i,
    {
        let field = &record.fields[i];
        proof {
            lemma_field_names_differ();
            assert(record@.take(i + 1).drop_last() == record@.take(i as int));
            assert(record@.take(i + 1).last() == field@);
        }
        if field.name == *latitude {
            if let FieldValue::SInt32(v) = field.value {
                lat = Some(v);
            }
        } else if field.name == *longitude {
            if let FieldValue::SInt32(v) = field.value {
                lon = Some(v);
            }
        }
        i += 1;
        if let (Some(lat), Some(lon)) = (lat, lon) {
            proof {
                lemma_seen_stays(record@, i as int);
            }
            return Some(Position { lat, lon });
        }
    }
    assert(record@.take(i as int) == record@);
    None
}

/// Converts a position to a coordinate.
pub fn to_coordinate(position: Position) -> (coordinate: Coordinate)
    ensures
        coordinate == coordinate_of(position),
{
    proof {
        lemma_degrees_within_half_turn(position.lon as int);
        lemma_degrees_within_half_turn(position.lat as int);
    }
    Coordinate {
        longitude: semicircles_to_degrees_e5(position.lon as i64) as i32,
        latitude: semicircles_to_degrees_e5(position.lat as i64) as i32,
    }
}

/// The track of `records`: one coordinate, longitude first, for each record
/// that reports a position, in the order of the records.
pub fn get_coordinates(records: &[Record]) -> (track: Vec<Coordinate>)
    ensures
        track@ == coordinates_of(records_view(records@)),
        track.len() <= records.len(),
        forall|k: int|
            0 <= k < track.len() ==> {
                &&& -HALF_TURN_UNITS <= (#[trigger] track[k]).longitude <= HALF_TURN_UNITS
                &&& -HALF_TURN_UNITS <= track[k].latitude <= HALF_TURN_UNITS
            },
{
    let latitude = LATITUDE_FIELD.to_owned();
    let longitude = LONGITUDE_FIELD.to_owned();
    let ghost all = records_view(records@);
    let mut track: Vec<Coordinate> = Vec::new();
    let mut i: usize = 0;
    while i < records.len()
        invariant
            0 <= i <= records.len(),
            all == records_view(records@),
            latitude@ == LATITUDE_FIELD@,
            longitude@ == LONGITUDE_FIELD@,
            track@ == coordinates_of(all.take(i as int)),
        decreases records.len() - i,
    {
        proof {
            assert(all.take(i + 1).drop_last() == all.take(i as int));
            assert(all.take(i + 1).last() == records[i as int]@);
        }
        if let Some(position) = scan_for(&records[i], &latitude, &longitude) {
            track.push(to_coordinate(position));
        }
        i += 1;
    }
    proof {
        assert(all.take(i as int) == all);
        lemma_track_is_no_longer(all);
        lemma_track_is_within_half_turn(all);
    }
    track
}

} // verus!
