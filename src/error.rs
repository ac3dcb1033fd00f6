//! Errors of record decoding.

use vstd::prelude::*;

verus! {

/// What went wrong while decoding a record.
#[derive(Clone, Copy, Debug, PartialEq, Eq, Structural)]
pub enum ErrorKind {
    InvalidUsnRecord,
    InvalidUsnV2Record,
    InvalidUsnV3Record,
    UnsupportedVersion,
    WinstructError,
    Utf16DecodeError,
    IoError,
    SerdeJsonError,
    ValueError,
}

/// A failure to decode a USN record, with a message for the log.
#[derive(Debug)]
pub struct UsnError {
    pub message: String,
    pub kind: ErrorKind,
}

impl UsnError {
    pub fn json_value_error(msg: String) -> (r: Self)
        ensures
            r.kind == ErrorKind::ValueError,
            r.message@ == msg@,
    {
        UsnError { message: msg, kind: ErrorKind::ValueError }
    }

    pub fn utf16_decode_error(msg: String) -> (r: Self)
        ensures
            r.kind == ErrorKind::Utf16DecodeError,
            r.message@ == msg@,
    {
        UsnError { message: msg, kind: ErrorKind::Utf16DecodeError }
    }

    pub fn unsupported_usn_version(msg: String) -> (r: Self)
        ensures
            r.kind == ErrorKind::UnsupportedVersion,
            r.message@ == msg@,
    {
        UsnError { message: msg, kind: ErrorKind::UnsupportedVersion }
    }

    pub fn invalid_record(msg: String) -> (r: Self)
        ensures
            r.kind == ErrorKind::InvalidUsnRecord,
            r.message@ == msg@,
    {
        UsnError { message: msg, kind: ErrorKind::InvalidUsnRecord }
    }

    pub fn invalid_v2_record(msg: String) -> (r: Self)
        ensures
            r.kind == ErrorKind::InvalidUsnV2Record,
            r.message@ == msg@,
    {
        UsnError { message: msg, kind: ErrorKind::InvalidUsnV2Record }
    }

    pub fn invalid_v3_record(msg: String) -> (r: Self)
        ensures
            r.kind == ErrorKind::InvalidUsnV3Record,
            r.message@ == msg@,
    {
        UsnError { message: msg, kind: ErrorKind::InvalidUsnV3Record }
    }

    pub fn invalid_usn_record_length(msg: String) -> (r: Self)
        ensures
            r.kind == ErrorKind::InvalidUsnRecord,
            r.message@ == msg@,
    {
        UsnError { message: msg, kind: ErrorKind::InvalidUsnRecord }
    }

    pub fn io_error(msg: String) -> (r: Self)
        ensures
            r.kind == ErrorKind::IoError,
            r.message@ == msg@,
    {
        UsnError { message: msg, kind: ErrorKind::IoError }
    }

    /// The message, as the error is displayed.
    pub fn to_string(&self) -> (r: String)
        ensures
            r@ == self.message@,
    {
        self.message.clone()
    }
}

} // verus!
