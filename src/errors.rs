//! The errors of the store backends.
use vstd::prelude::*;

verus! {

/// `csv::Error`, carried opaquely.
#[verifier::external_type_specification]
#[verifier::external_body]
pub struct ExCsvError(csv::Error);

/// Why a store operation was given up.
#[derive(Debug)]
pub enum SchedulerErrors {
    /// The CSV reader or writer failed.
    CSV(csv::Error),
    /// The first row of the data file is not the expected header.
    BadHeader,
    /// A row of the data file does not describe a record.
    BadRow,
    /// A hash of the remote store does not describe a record.
    BadHash,
}

} // verus!
