//! Generation-time errors.
//!
//! All three abort generation of the service they are reported against:
//! a misplaced receiver parameter, a duplicated field name within one
//! method, and a collision between two generated record type names.

use vstd::prelude::*;

verus! {

/// What went wrong while generating a service's artifact.
#[derive(Clone, Copy, PartialEq, Eq, Structural, Debug)]
pub enum ErrorKind {
    /// A parameter named `self` stands somewhere other than first.
    MalformedSignature,
    /// Two parameters of one method share a name.
    DuplicateField,
    /// Two synthesized records share a type name.
    DuplicateTypeName,
}

/// A generation-time error, reported against the offending method.
///
/// Which fields carry information depends on `kind`:
/// - `MalformedSignature`: `method`, the offending parameter's `name`, and
///   its `position` in the parameter list;
/// - `DuplicateField`: `method`, the duplicated field `name`, and the
///   `position` of its second occurrence among the real parameters;
/// - `DuplicateTypeName`: the colliding type `name`, the `method` whose
///   record could not be registered, `other_method` owning the earlier
///   record, and the `position` of that record in the registration order.
#[derive(Debug)]
pub struct Error {
    pub kind: ErrorKind,
    pub method: String,
    pub other_method: String,
    pub name: String,
    pub position: usize,
}

/// Mathematical image of an [`Error`].
pub struct ErrorModel {
    pub kind: ErrorKind,
    pub method: Seq<char>,
    pub other_method: Seq<char>,
    pub name: Seq<char>,
    pub position: int,
}

impl View for Error {
    type V = ErrorModel;

    open spec fn view(&self) -> ErrorModel {
        ErrorModel {
            kind: self.kind,
            method: self.method@,
            other_method: self.other_method@,
            name: self.name@,
            position: self.position as int,
        }
    }
}

} // verus!
