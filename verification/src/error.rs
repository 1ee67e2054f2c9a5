//! The error taxonomy of the library. The causes live at the I/O edges
//! outside the verified core, so each variant is a plain tag: transport
//! failures, the two payload-shape failures, socket or file failures, and
//! the absence of data for a query.

use vstd::prelude::*;

verus! {

#[derive(Clone, Copy, Debug, PartialEq, Eq, Structural)]
pub enum Error {
    RequestFailed,
    CsvParseError,
    JSONParseError,
    IOError,
    NotFound,
}

} // verus!
