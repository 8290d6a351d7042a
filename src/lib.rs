//! A small catalog of book records and the convention by which a record is
//! turned into an ordered, string-keyed mapping for a host runtime.

pub mod mapping;
pub mod book;
