//! Weather note helper: extracts trip metadata from Markdown notes, selects a
//! forecast or historical-proxy query window, builds provider URLs, decodes
//! daily temperature series, and idempotently rewrites a delimited weather
//! block inside each note.
//!
//! All document text is handled as raw bytes (`Vec<u8>`); dates are a plain
//! Gregorian calendar model and temperatures are integer hundredths of a
//! degree, so every rule of the pipeline is stated and proved here.

pub mod bytes;
pub mod date;
pub mod numfmt;
pub mod err;
pub mod temps;
pub mod aggregate;
pub mod block;
pub mod meta;
pub mod window;
pub mod url;
pub mod fetch;
