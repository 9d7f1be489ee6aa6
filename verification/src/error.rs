//! The error raised when a full value cannot be rebuilt from its optioned form.

use vstd::prelude::*;

verus! {

/// Reports the fields that were absent when a full value was to be built from an
/// optioned one.
pub struct Error {
    /// Names of the missing fields, in the order in which they were found missing.
    pub missing_fields: Vec<&'static str>,
}

/// Merges two errors: the missing fields of `b` are appended to those of `a`.
/// Order is kept and nothing is deduplicated.
#[must_use]
pub fn merge_errors(a: Error, b: Error) -> (merged: Error)
    ensures
        merged.missing_fields@ == a.missing_fields@ + b.missing_fields@,
{
    let mut a = a;
    let mut b = b;
    a.missing_fields.append(&mut b.missing_fields);
    a
}

} // verus!
