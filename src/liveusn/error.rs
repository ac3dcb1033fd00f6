//! Errors of the live volume adapter.

use crate::fmt::{decimal, decimal_digits};
use vstd::prelude::*;
use vstd::string::*;

verus! {

/// What went wrong on the live path.
#[derive(Clone, Copy, Debug, PartialEq, Eq, Structural)]
pub enum ErrorKind {
    IoError,
    MftError,
    InvalidUsnJournalData,
    MftAttributeError,
    WindowsError,
}

/// A failure on the live path, with a message for the user.
#[derive(Debug)]
pub struct UsnLiveError {
    pub message: String,
    pub kind: ErrorKind,
}

/// The message for a journal-data buffer of an unknown size.
pub open spec fn journal_size_message(size: nat) -> Seq<char> {
    "Unknown size for UsnJournalData structure: "@ + decimal_digits(size)
}

impl UsnLiveError {
    pub fn unable_to_get_name_attr(message: &str) -> (r: Self)
        ensures
            r.kind == ErrorKind::MftAttributeError,
            r.message@ == message@,
    {
        UsnLiveError { message: String::from_str(message), kind: ErrorKind::MftAttributeError }
    }

    /// A platform error; `system_message` is the text the system formats for
    /// `err_code`.
    pub fn from_windows_error_code(err_code: u32, system_message: &str) -> (r: Self)
        ensures
            r.kind == ErrorKind::WindowsError,
            r.message@ == system_message@,
    {
        UsnLiveError { message: String::from_str(system_message), kind: ErrorKind::WindowsError }
    }

    /// The platform's last error; `system_message` is the text the system
    /// formats for it.
    pub fn from_windows_last_error(system_message: &str) -> (r: Self)
        ensures
            r.kind == ErrorKind::WindowsError,
            r.message@ == system_message@,
    {
        UsnLiveError { message: String::from_str(system_message), kind: ErrorKind::WindowsError }
    }

    pub fn invalid_usn_journal_data(size: usize) -> (r: Self)
        ensures
            r.kind == ErrorKind::InvalidUsnJournalData,
            r.message@ == journal_size_message(size as nat),
    {
        let mut message = String::from_str("Unknown size for UsnJournalData structure: ");
        let digits = decimal(size as u64);
        message.append(digits.as_str());
        UsnLiveError { message, kind: ErrorKind::InvalidUsnJournalData }
    }

    pub fn invalid_thing(message: &str) -> (r: Self)
        ensures
            r.kind == ErrorKind::WindowsError,
            r.message@ == message@,
    {
        UsnLiveError { message: String::from_str(message), kind: ErrorKind::WindowsError }
    }

    pub fn io_error(message: &str) -> (r: Self)
        ensures
            r.kind == ErrorKind::IoError,
            r.message@ == message@,
    {
        UsnLiveError { message: String::from_str(message), kind: ErrorKind::IoError }
    }

    /// The message, as the error is displayed.
    pub fn to_string(&self) -> (r: String)
        ensures
            r@ == self.message@,
    {
        self.message.clone()
    }
}

} // verus!
