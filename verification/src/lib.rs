//! Track points and the capture time of a decoded fitness activity.
//!
//! A decoded activity is a sequence of [`Record`]s, each a sequence of named
//! fields. [`get_coordinates`] reads the track out of it: one
//! [`Coordinate`], longitude first, for each record that reports a position.
//! [`get_timestamp`] reads the capture time: the first time stamp that any
//! record carries, as RFC 3339 text.
//!
//! Angles are counted in hundred-thousandths of a degree and never held as
//! floating point, so a track is the same on every machine.
//!
//! Records that the `fitparser` crate has decoded are read in by
//! [`records_from_fit`]; [`parse_coordinates`] and [`parse_timestamp`] go
//! from the outcome of loading a file to the result in one step.

pub mod angle;
pub mod capture;
pub mod fit;
pub mod instant;
pub mod load;
pub mod record;
pub mod track;

pub use crate::angle::round_div;
pub use crate::angle::semicircles_to_degrees_e5;
pub use crate::capture::find_timestamp;
pub use crate::capture::get_timestamp;
pub use crate::fit::record_from_fit;
pub use crate::fit::records_from_fit;
pub use crate::instant::Timestamp;
pub use crate::load::parse_coordinates;
pub use crate::load::parse_timestamp;
pub use crate::load::LoadError;
pub use crate::record::Field;
pub use crate::record::FieldValue;
pub use crate::record::Record;
pub use crate::track::get_coordinates;
pub use crate::track::scan_position;
pub use crate::track::to_coordinate;
pub use crate::track::Coordinate;
pub use crate::track::Position;
