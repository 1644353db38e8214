//! The two entry points: from the outcome of loading a file to the track or
//! to the capture time. A file that could not be loaded gives its error, and
//! nothing else.

use crate::capture::first_timestamp;
use crate::capture::get_timestamp;
use crate::capture::timestamp_text;
use crate::fit::fit_records;
use crate::fit::records_from_fit;
use crate::track::coordinates_of;
use crate::track::get_coordinates;
use crate::track::Coordinate;
use fitparser::FitDataRecord;
use vstd::prelude::*;

verus! {

/// Why a file could not be loaded.
#[derive(Clone, Debug, PartialEq, Eq)]
pub enum LoadError {
    /// The file could not be opened or read. Holds the system's message.
    Io(String),
    /// The bytes are no activity file that the decoder accepts. Holds the
    /// decoder's message.
    Decode(String),
}

impl LoadError {
    /// The message of the error.
    pub fn message(&self) -> (text: &String)
        ensures
            match *self {
                LoadError::Io(m) => *text == m,
                LoadError::Decode(m) => *text == m,
            },
    {
        match self {
            LoadError::Io(m) => m,
            LoadError::Decode(m) => m,
        }
    }
}

/// The track of a loaded file, or the error of a file that was not loaded.
pub fn parse_coordinates(loaded: Result<Vec<FitDataRecord>, LoadError>) -> (out: Result<
    Vec<Coordinate>,
    LoadError,
>)
    ensures
        match loaded {
            Ok(raw) => out matches Ok(track) && track@ == coordinates_of(fit_records(raw@)),
            Err(error) => out == Err::<Vec<Coordinate>, LoadError>(error),
        },
{
    match loaded {
        Ok(raw) => {
            let records = records_from_fit(raw.as_slice());
            Ok(get_coordinates(records.as_slice()))
        },
        Err(error) => Err(error),
    }
}

/// The capture time of a loaded file, or the error of a file that was not
/// loaded.
pub fn parse_timestamp(loaded: Result<Vec<FitDataRecord>, LoadError>) -> (out: Result<
    Option<String>,
    LoadError,
>)
    ensures
        match loaded {
            Ok(raw) => out matches Ok(text) && (text is Some <==> first_timestamp(fit_records(raw@))
                is Some) && (text matches Some(t) ==> Some(t@) == timestamp_text(
                first_timestamp(fit_records(raw@)),
            )),
            Err(error) => out == Err::<Option<String>, LoadError>(error),
        },
{
    match loaded {
        Ok(raw) => {
            let records = records_from_fit(raw.as_slice());
            Ok(get_timestamp(records.as_slice()))
        },
        Err(error) => Err(error),
    }
}

} // verus!
