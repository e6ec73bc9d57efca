//! Conversion of comma-delimited address records into fixed-width lines.
//!
//! A line of input holds six comma-separated fields: last name, first
//! name, street, city, state and zip. Each such line becomes one line of
//! 161 characters in which every field is left-justified in a column of
//! fixed width, padded with spaces or cut to fit, and followed by a filler
//! of spaces. Blank lines are skipped, and lines with any other number of
//! fields are reported by their number and left out.
//!
//! Every function in this crate is verified against a model over sequences
//! of characters: a string is viewed as a `Seq<char>`, and widths,
//! positions and line numbers count characters and lines, never bytes.
//! Reading and writing files is left to the caller, who feeds the lines of
//! the input to a [`Converter`] and carries out what it asks for.

pub mod convert;
pub mod layout;
pub mod paths;
pub mod record;
pub mod text;

pub use convert::{convert_lines, Conversion, Converter, LineAction};
pub use layout::{pad_right, FIELD_COUNT, FIELD_WIDTHS, LINE_WIDTH};
pub use paths::{select_paths, Paths, DEFAULT_INPUT, DEFAULT_OUTPUT};
pub use record::{format_fixed_width, format_record, parse_csv_line, AddressRecord};
