//! Events of chess clubs, read from the pages on which the clubs announce
//! them.
//!
//! Each source has an adapter that walks the structural units of its page,
//! extracts the text fragments of an event from a unit, normalises the dates
//! among them and keeps the unit as an event record if nothing required is
//! missing. The pages are fetched and the records stored outside this
//! library.

pub mod adapter;
pub mod calendar;
pub mod club8x8;
pub mod document;
pub mod event;
pub mod extractor;
pub mod jcf;
pub mod kitasenjyu;
pub mod laws;
pub mod normalizer;
pub mod number;
pub mod sink;
pub mod text;
