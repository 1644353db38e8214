//! The capture time of an activity: the first time stamp that its records
//! carry, in the order of the records and, within a record, of its fields.

use crate::instant::rfc3339_utc;
use crate::instant::Timestamp;
use crate::record::FieldValue;
use crate::record::FieldView;
use crate::record::Record;
use crate::record::ValueView;
use crate::record::records_view;
use crate::record::TIMESTAMP_FIELD;
use vstd::prelude::*;

verus! {

/// An instant as two numbers: whole seconds since the start of 1970, and
/// nanoseconds since the last whole second.
pub struct Instant {
    /// Whole seconds since the start of 1970.
    pub secs: int,
    /// Nanoseconds since the last whole second.
    pub nanos: int,
}

/// The instant that `field` carries, if it is a time stamp field.
pub open spec fn timestamp_of(field: FieldView) -> Option<Instant> {
    match field.value {
        ValueView::Timestamp { secs, nanos } if field.name == TIMESTAMP_FIELD@ => Some(
            Instant { secs, nanos },
        ),
        _ => None,
    }
}

/// The instant of the first time stamp field among `fields`.
pub open spec fn record_timestamp(fields: Seq<FieldView>) -> Option<Instant>
    decreases fields.len(),
{
    if fields.len() == 0 {
        None
    } else {
        match record_timestamp(fields.drop_last()) {
            Some(instant) => Some(instant),
            None => timestamp_of(fields.last()),
        }
    }
}

/// The instant of the first time stamp field of the first record that has
/// one.
pub open spec fn first_timestamp(records: Seq<Seq<FieldView>>) -> Option<Instant>
    decreases records.len(),
{
    if records.len() == 0 {
        None
    } else {
        match first_timestamp(records.drop_last()) {
            Some(instant) => Some(instant),
            None => record_timestamp(records.last()),
        }
    }
}

/// Whether the field at `f` of the record at `r` comes before the field at
/// `f2` of the record at `r2`: records first, then fields.
pub open spec fn comes_before(r: int, f: int, r2: int, f2: int) -> bool {
    r < r2 || (r == r2 && f < f2)
}

/// A time stamp found among the first fields of a record is the time stamp
/// of the record: later fields are never looked at.
pub proof fn lemma_record_timestamp_stays(fields: Seq<FieldView>, n: int)
    requires
        0 <= n <= fields.len(),
        record_timestamp(fields.take(n)) is Some,
    ensures
        record_timestamp(fields) == record_timestamp(fields.take(n)),
    decreases fields.len() - n,
{
    if n == fields.len() {
        assert(fields.take(n) == fields);
    } else {
        assert(fields.take(n + 1).drop_last() == fields.take(n));
        lemma_record_timestamp_stays(fields, n + 1);
    }
}

/// A time stamp found among the first records is the capture time: later
/// records are never looked at.
pub proof fn lemma_first_timestamp_stays(records: Seq<Seq<FieldView>>, n: int)
    requires
        0 <= n <= records.len(),
        first_timestamp(records.take(n)) is Some,
    ensures
        first_timestamp(records) == first_timestamp(records.take(n)),
    decreases records.len() - n,
{
    if n == records.len() {
        assert(records.take(n) == records);
    } else {
        assert(records.take(n + 1).drop_last() == records.take(n));
        lemma_first_timestamp_stays(records, n + 1);
    }
}

/// A record has no time stamp exactly when none of its fields is a time
/// stamp field.
pub proof fn lemma_record_without_timestamp(fields: Seq<FieldView>)
    ensures
        record_timestamp(fields) is None <==> forall|f: int|
            0 <= f < fields.len() ==> timestamp_of(#[trigger] fields[f]) is None,
    decreases fields.len(),
{
    if fields.len() > 0 {
        let init = fields.drop_last();
        lemma_record_without_timestamp(init);
        assert forall|f: int| 0 <= f < init.len() implies init[f] == fields[f] by {}
        if record_timestamp(init) is Some {
            let f = choose|f: int| 0 <= f < init.len() && timestamp_of(#[trigger] init[f]) is Some;
            assert(timestamp_of(fields[f]) is Some);
        } else if timestamp_of(fields.last()) is None {
            assert forall|f: int| 0 <= f < fields.len() implies timestamp_of(
                #[trigger] fields[f],
            ) is None by {
                if f < init.len() {
                    assert(timestamp_of(init[f]) is None);
                }
            }
        } else {
            assert(timestamp_of(fields[fields.len() - 1]) is Some);
        }
    }
}

/// There is no capture time exactly when no field of any record is a time
/// stamp field.
pub proof fn lemma_no_timestamp(records: Seq<Seq<FieldView>>)
    ensures
        first_timestamp(records) is None <==> forall|r: int, f: int|
            0 <= r < records.len() && 0 <= f < records[r].len() ==> timestamp_of(
                #[trigger] records[r][f],
            ) is None,
    decreases records.len(),
{
    if records.len() > 0 {
        let init = records.drop_last();
        let last = records.last();
        let n = init.len() as int;
        lemma_no_timestamp(init);
        lemma_record_without_timestamp(last);
        assert(records[n] == last);
        assert forall|r: int| 0 <= r < init.len() implies init[r] == records[r] by {}
        if first_timestamp(init) is Some {
            let (r, f) = choose|r: int, f: int|
                0 <= r < init.len() && 0 <= f < init[r].len() && timestamp_of(
                    #[trigger] init[r][f],
                ) is Some;
            assert(timestamp_of(records[r][f]) is Some);
        } else if record_timestamp(last) is Some {
            let f = choose|f: int| 0 <= f < last.len() && timestamp_of(#[trigger] last[f]) is Some;
            assert(timestamp_of(records[n][f]) is Some);
        } else {
            assert forall|r: int, f: int|
                0 <= r < records.len() && 0 <= f < records[r].len() implies timestamp_of(
                #[trigger] records[r][f],
            ) is None by {
                if r < n {
                    assert(timestamp_of(init[r][f]) is None);
                } else {
                    assert(timestamp_of(last[f]) is None);
                }
            }
        }
    }
}

/// The first match wins within a record: a time stamp field before which
/// the record has no other gives the record's time stamp.
pub proof fn lemma_record_first_match(fields: Seq<FieldView>, f: int)
    requires
        0 <= f < fields.len(),
        timestamp_of(fields[f]) is Some,
        forall|f2: int| 0 <= f2 < f ==> timestamp_of(#[trigger] fields[f2]) is None,
    ensures
        record_timestamp(fields) == timestamp_of(fields[f]),
{
    lemma_record_without_timestamp(fields.take(f));
    assert(fields.take(f + 1).drop_last() == fields.take(f));
    assert(fields.take(f + 1).last() == fields[f]);
    lemma_record_timestamp_stays(fields, f + 1);
}

/// The first match wins: a time stamp field before which no field of any
/// record is a time stamp field gives the capture time, whatever follows it.
pub proof fn lemma_first_match(records: Seq<Seq<FieldView>>, r: int, f: int)
    requires
        0 <= r < records.len(),
        0 <= f < records[r].len(),
        timestamp_of(records[r][f]) is Some,
        forall|r2: int, f2: int|
            0 <= r2 < records.len() && 0 <= f2 < records[r2].len() && comes_before(r2, f2, r, f)
                ==> timestamp_of(#[trigger] records[r2][f2]) is None,
    ensures
        first_timestamp(records) == timestamp_of(records[r][f]),
{
    lemma_no_timestamp(records.take(r));
    assert forall|r2: int, f2: int|
        0 <= r2 < records.take(r).len() && 0 <= f2 < records.take(r)[r2].len() implies timestamp_of(
        #[trigger] records.take(r)[r2][f2],
    ) is None by {
        assert(comes_before(r2, f2, r, f));
        assert(timestamp_of(records[r2][f2]) is None);
    }
    assert forall|f2: int| 0 <= f2 < f implies timestamp_of(#[trigger] records[r][f2]) is None by {
        assert(comes_before(r, f2, r, f));
    }
    lemma_record_first_match(records[r], f);
    assert(records.take(r + 1).drop_last() == records.take(r));
    assert(records.take(r + 1).last() == records[r]);
    lemma_first_timestamp_stays(records, r + 1);
}

/// The capture time comes from the first record that has a time stamp:
/// where the record at `r` has one and none before it has, the capture time
/// is that record's, whatever later records hold.
pub proof fn lemma_first_record_wins(records: Seq<Seq<FieldView>>, r: int)
    requires
        0 <= r < records.len(),
        record_timestamp(records[r]) is Some,
        forall|r2: int| 0 <= r2 < r ==> record_timestamp(#[trigger] records[r2]) is None,
    ensures
        first_timestamp(records) == record_timestamp(records[r]),
{
    lemma_no_timestamp(records.take(r));
    assert forall|r2: int, f2: int|
        0 <= r2 < records.take(r).len() && 0 <= f2 < records.take(r)[r2].len() implies timestamp_of(
        #[trigger] records.take(r)[r2][f2],
    ) is None by {
        assert(record_timestamp(records[r2]) is None);
        lemma_record_without_timestamp(records[r2]);
    }
    assert(records.take(r + 1).drop_last() == records.take(r));
    assert(records.take(r + 1).last() == records[r]);
    lemma_first_timestamp_stays(records, r + 1);
}

/// Finds the first time stamp field of `record`.
pub fn find_in_record(record: &Record) -> (found: Option<Timestamp>)
    ensures
        found is Some <==> record_timestamp(record@) is Some,
        found matches Some(t) ==> record_timestamp(record@) == Some(
            Instant { secs: t.secs(), nanos: t.nanos() },
        ),
{
    let wanted = TIMESTAMP_FIELD.to_owned();
    find_named(record, &wanted)
}

/// Finds the first time stamp field of `record`, given the field's name.
fn find_named(record: &Record, wanted: &String) -> (found: Option<Timestamp>)
    requires
        wanted@ == TIMESTAMP_FIELD@,
    ensures
        found is Some <==> record_timestamp(record@) is Some,
        found matches Some(t) ==> record_timestamp(record@) == Some(
            Instant { secs: t.secs(), nanos: t.nanos() },
        ),
{
    let mut i: usize = 0;
    assert(record@.take(0).len() == 0);
    while i < record.fields.len()
        invariant
            0 <= i <= record.fields.len(),
            record@.len() == record.fields.len(),
            wanted@ == TIMESTAMP_FIELD@,
            record_timestamp(record@.take(i as int)) is None,
        decreases record.fields.len() - i,
    {
        let field = &record.fields[i];
        proof {
            assert(record@.take(i + 1).drop_last() == record@.take(i as int));
            assert(record@.take(i + 1).last() == field@);
        }
        if field.name == *wanted {
            if let FieldValue::Timestamp(t) = field.value {
                proof {
                    lemma_record_timestamp_stays(record@, i + 1);
                }
                return Some(t);
            }
        }
        i += 1;
    }
    assert(record@.take(i as int) == record@);
    None
}

/// Finds the capture time: the first time stamp field of the first record
/// that has one.
pub fn find_timestamp(records: &[Record]) -> (found: Option<Timestamp>)
    ensures
        found is Some <==> first_timestamp(records_view(records@)) is Some,
        found matches Some(t) ==> first_timestamp(records_view(records@)) == Some(
            Instant { secs: t.secs(), nanos: t.nanos() },
        ),
{
    let wanted = TIMESTAMP_FIELD.to_owned();
    let ghost all = records_view(records@);
    let mut i: usize = 0;
    assert(all.take(0).len() == 0);
    while i < records.len()
        invariant
            0 <= i <= records.len(),
            all == records_view(records@),
            wanted@ == TIMESTAMP_FIELD@,
            first_timestamp(all.take(i as int)) is None,
        decreases records.len() - i,
    {
        proof {
            assert(all.take(i + 1).drop_last() == all.take(i as int));
            assert(all.take(i + 1).last() == records[i as int]@);
        }
        if let Some(t) = find_named(&records[i], &wanted) {
            proof {
                lemma_first_timestamp_stays(all, i + 1);
            }
            return Some(t);
        }
        i += 1;
    }
    assert(all.take(i as int) == all);
    None
}

/// The text of the capture time: `None` where no record has a time stamp,
/// else the RFC 3339 text of `first`'s instant at offset `+00:00`.
pub open spec fn timestamp_text(first: Option<Instant>) -> Option<Seq<char>> {
    match first {
        Some(instant) => Some(rfc3339_utc(instant.secs, instant.nanos)),
        None => None,
    }
}

/// The capture time as RFC 3339 text at offset `+00:00`, or `None` where no
/// record has a time stamp.
pub fn get_timestamp(records: &[Record]) -> (text: Option<String>)
    ensures
        text is Some <==> first_timestamp(records_view(records@)) is Some,
        text matches Some(t) ==> Some(t@) == timestamp_text(
            first_timestamp(records_view(records@)),
        ),
{
    match find_timestamp(records) {
        Some(t) => Some(t.to_rfc3339()),
        None => None,
    }
}

} // verus!
