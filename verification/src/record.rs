//! Decoded records: ordered fields, each a name and a tagged value.

use crate::instant::Timestamp;
use vstd::prelude::*;

verus! {

/// The name of the field that carries a latitude.
pub const LATITUDE_FIELD: &'static str = "position_lat";

/// The name of the field that carries a longitude.
pub const LONGITUDE_FIELD: &'static str = "position_long";

/// The name of the field that carries the capture time.
pub const TIMESTAMP_FIELD: &'static str = "timestamp";

/// What a field holds. Only two kinds matter here; every other kind is
/// `Other` and is never read.
#[derive(Clone, Copy, Debug, PartialEq, Eq)]
pub enum FieldValue {
    /// A signed 32-bit integer.
    SInt32(i32),
    /// An absolute point in time.
    Timestamp(Timestamp),
    /// Any other kind of value.
    Other,
}

/// The mathematical value of a [`FieldValue`].
pub enum ValueView {
    /// A signed 32-bit integer.
    SInt32(i32),
    /// An instant: whole seconds since the start of 1970, and nanoseconds
    /// since the last whole second.
    Timestamp { secs: int, nanos: int },
    /// Any other kind of value.
    Other,
}

impl View for FieldValue {
    type V = ValueView;

    open spec fn view(&self) -> ValueView {
        match *self {
            FieldValue::SInt32(v) => ValueView::SInt32(v),
            FieldValue::Timestamp(t) => ValueView::Timestamp { secs: t.secs(), nanos: t.nanos() },
            FieldValue::Other => ValueView::Other,
        }
    }
}

/// One named value of a record.
#[derive(Clone, Debug, PartialEq, Eq)]
pub struct Field {
    /// The field's name.
    pub name: String,
    /// The field's value.
    pub value: FieldValue,
}

/// The mathematical value of a [`Field`].
pub struct FieldView {
    /// The field's name.
    pub name: Seq<char>,
    /// The field's value.
    pub value: ValueView,
}

impl View for Field {
    type V = FieldView;

    open spec fn view(&self) -> FieldView {
        FieldView { name: self.name@, value: self.value@ }
    }
}

impl Field {
    /// A field called `name` that holds `value`.
    pub fn new(name: &str, value: FieldValue) -> (field: Field)
        ensures
            field@ == (FieldView { name: name@, value: value@ }),
    {
        Field { name: name.to_owned(), value }
    }
}

/// One decoded message: its fields, in the order in which they were decoded.
#[derive(Clone, Debug, PartialEq, Eq)]
pub struct Record {
    /// The record's fields.
    pub fields: Vec<Field>,
}

impl View for Record {
    type V = Seq<FieldView>;

    open spec fn view(&self) -> Seq<FieldView> {
        self.fields@.map_values(|f: Field| f@)
    }
}

impl Record {
    /// A record of `fields`.
    pub fn new(fields: Vec<Field>) -> (record: Record)
        ensures
            record.fields == fields,
    {
        Record { fields }
    }
}

/// The mathematical value of a sequence of records.
pub open spec fn records_view(records: Seq<Record>) -> Seq<Seq<FieldView>> {
    records.map_values(|r: Record| r@)
}

/// The three field names differ from one another.
pub proof fn lemma_field_names_differ()
    ensures
        LATITUDE_FIELD@ != LONGITUDE_FIELD@,
        LATITUDE_FIELD@ != TIMESTAMP_FIELD@,
        LONGITUDE_FIELD@ != TIMESTAMP_FIELD@,
{
    reveal_strlit("position_lat");
    reveal_strlit("position_long");
    reveal_strlit("timestamp");
    assert(LATITUDE_FIELD@.len() == 12);
    assert(LONGITUDE_FIELD@.len() == 13);
    assert(TIMESTAMP_FIELD@.len() == 9);
}

} // verus!
