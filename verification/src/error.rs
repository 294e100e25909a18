//! The failures that the operations of this crate report.

use crate::identity::Identity;
use vstd::prelude::*;

verus! {

/// The variable-length fields of a file record.
#[derive(Clone, Copy, Debug, PartialEq, Eq, Hash)]
pub enum Field {
    FileId,
    Cid,
    EncryptedKey,
}

/// What a lookup failed to find.
#[derive(Clone, Copy, Debug, PartialEq, Eq, Hash)]
pub enum Missing {
    /// No file record stands behind the handle.
    File,
    /// The file has no grant record for this grantee.
    Grant(Identity),
}

/// Why an operation was refused. Every refusal leaves all records as they were.
#[derive(Clone, Copy, Debug, PartialEq, Eq, Hash)]
pub enum Error {
    /// The field is longer than its declared maximum.
    FieldTooLong(Field),
    /// The field is empty.
    FieldEmpty(Field),
    /// The owner already has a file record under this file id.
    AlreadyExists,
    /// A record that the operation needs does not exist.
    NotFound(Missing),
    /// The identity lacks the relationship that the operation demands: it is
    /// not the owner, or it holds no grant that is live at the given time.
    /// A grant past its expiry is reported this way too.
    Unauthorized(Identity),
    /// The verifier rejected the proof and public inputs.
    ProofInvalid,
    /// The file's grant counter has reached the largest value it can hold.
    CounterExhausted,
}

/// Why a byte string is not the stored form of a record.
#[derive(Clone, Copy, Debug, PartialEq, Eq, Hash)]
pub enum DecodeError {
    /// The byte string does not have the fixed record size.
    WrongLength,
    /// The first eight bytes are not the tag of the record's kind.
    WrongTag,
    /// The length prefix of the field exceeds the field's declared maximum.
    FieldTooLong(Field),
    /// The bytes of the field are not valid UTF-8.
    InvalidText(Field),
    /// A byte that stands for a yes or no is neither 0 nor 1.
    InvalidFlag,
    /// The file handle does not fit this machine's `usize`.
    HandleOutOfRange,
}

} // verus!
