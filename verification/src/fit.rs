//! Records as the `fitparser` crate decodes them, read into [`Record`]s.

use crate::instant::Timestamp;
use crate::record::Field;
use crate::record::FieldValue;
use crate::record::FieldView;
use crate::record::Record;
use crate::record::records_view;
use fitparser::FitDataRecord;
use fitparser::Value;
use vstd::prelude::*;

verus! {

/// A record as `fitparser` decodes it. Nothing of its inside is known here.
#[verifier::external_type_specification]
#[verifier::external_body]
pub struct ExFitDataRecord(fitparser::FitDataRecord);

/// The fields that a decoded record holds, in the record's own order: each
/// with its name and, for a value, the number of a signed 32-bit integer, the
/// instant of a time stamp, or `Other` for any other kind.
pub uninterp spec fn fit_fields(record: FitDataRecord) -> Seq<FieldView>;

/// The fields of each of `raw`, record by record.
pub open spec fn fit_records(raw: Seq<FitDataRecord>) -> Seq<Seq<FieldView>> {
    raw.map_values(|r: FitDataRecord| fit_fields(r))
}

/// Calls `FitDataRecord::fields` and takes the length of the slice.
///
/// Believed of fitparser, not proved: the slice holds the record's fields,
/// all of them.
#[verifier::external_body]
fn field_count(record: &FitDataRecord) -> (n: usize)
    ensures
        n == fit_fields(*record).len(),
{
    record.fields().len()
}

/// Calls `FitDataRecord::fields`, and on the field at `i` of the slice
/// `FitDataField::name` and `FitDataField::value`. A `Value::SInt32` gives
/// its number, a `Value::Timestamp` its instant, by chrono's
/// `DateTime::timestamp` and `DateTime::timestamp_subsec_nanos`, and every
/// other variant `Other`.
///
/// Believed, not proved: the slice holds the record's fields in their order;
/// and the two numbers of a `DateTime` are an instant of the calendar: its
/// seconds lie within the years -262143 to 262142, and its nanoseconds stay
/// under two thousand million, whatever second they follow.
#[verifier::external_body]
fn field_at(record: &FitDataRecord, i: usize) -> (field: Field)
    requires
        i < fit_fields(*record).len(),
    ensures
        field@ == fit_fields(*record)[i as int],
{
    let raw = &record.fields()[i];
    let value = match raw.value() {
        Value::SInt32(v) => FieldValue::SInt32(*v),
        Value::Timestamp(at) => FieldValue::Timestamp(
            Timestamp { secs: at.timestamp(), nanos: at.timestamp_subsec_nanos() },
        ),
        _ => FieldValue::Other,
    };
    Field { name: raw.name().to_owned(), value }
}

/// Reads one decoded record: every field, in order.
pub fn record_from_fit(raw: &FitDataRecord) -> (record: Record)
    ensures
        record@ == fit_fields(*raw),
{
    let n = field_count(raw);
    let mut fields: Vec<Field> = Vec::new();
    let mut i: usize = 0;
    while i < n
        invariant
            0 <= i <= n,
            n == fit_fields(*raw).len(),
            fields@.len() == i,
            forall|k: int| 0 <= k < i ==> (#[trigger] fields@[k])@ == fit_fields(*raw)[k],
        decreases n - i,
    {
        fields.push(field_at(raw, i));
        i += 1;
    }
    let record = Record { fields };
    assert(record@ =~= fit_fields(*raw));
    record
}

/// Reads decoded records: every record, in order, none left out or changed.
pub fn records_from_fit(raw: &[FitDataRecord]) -> (records: Vec<Record>)
    ensures
        records_view(records@) == fit_records(raw@),
        records.len() == raw.len(),
{
    let mut records: Vec<Record> = Vec::new();
    let mut i: usize = 0;
    while i < raw.len()
        invariant
            0 <= i <= raw.len(),
            records@.len() == i,
            forall|k: int| 0 <= k < i ==> (#[trigger] records@[k])@ == fit_fields(raw@[k]),
        decreases raw.len() - i,
    {
        records.push(record_from_fit(&raw[i]));
        i += 1;
    }
    assert(records_view(records@) =~= fit_records(raw@));
    records
}

} // verus!
