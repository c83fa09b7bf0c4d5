//! Errors of query preparation, execution, enumeration and decoding.
use vstd::prelude::*;

verus! {

/// The kinds of failure that a query can meet.
#[derive(Debug, PartialEq, Eq)]
pub enum WMIError {
    /// The query text cannot be converted to a wide string: it holds a nul character.
    NulInQuery,
    /// Executing the query failed with this status code.
    HResultError { hres: i32 },
    /// Advancing the result cursor failed with this status code.
    EnumerationError { hres: i32 },
    /// Listing the property names of a result object failed with this status code.
    PropertyListingError { hres: i32 },
    /// A declared field has no property of that name on the result object.
    MissingProperty { name: String },
    /// A property's value does not fit the declared field.
    IncompatibleValue { name: String },
    /// A property's value has a type that is not decoded (floating point, nested arrays,
    /// an unknown type tag, or an unsigned value beyond the signed 64-bit range).
    UnsupportedValue,
}

/// A status code reports failure when it is negative.
pub open spec fn failed(hres: i32) -> bool {
    hres < 0
}

} // verus!
