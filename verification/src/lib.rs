//! Verified core of a small spreadsheet-to-JSON extraction service.
//!
//! The library turns the rows of a spreadsheet sheet, already read into
//! plain strings, into a JSON array of objects: the first row gives the
//! column names, and every later row becomes one object mapping column
//! name to cell text.  It also holds the pure parts of two side
//! operations: decoding a base64 image payload and rendering a QR code.

pub mod error;
pub mod json;
pub mod record;
pub mod extract;
pub mod image;
pub mod qr;
