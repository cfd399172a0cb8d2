//! The failures a load or a lookup can report.

use vstd::prelude::*;

verus! {

/// Everything that can go wrong while loading a database or answering a query.
#[derive(Debug, Clone, Copy, PartialEq, Eq, Structural)]
pub enum ErrorKind {
    /// The database image is malformed, or the query prefix is not a number.
    InvalidPhoneDatabase,
    /// The query is shorter than 7 or longer than 11 bytes.
    InvalidLength,
    /// No index entry carries the queried prefix.
    NotFound,
    /// The carrier code of the matching entry is outside 1..=8.
    InvalidOpNo,
}

impl ErrorKind {
    /// The sentence that describes this failure.
    pub open spec fn message(self) -> Seq<char> {
        match self {
            ErrorKind::InvalidPhoneDatabase => "invalid phone database."@,
            ErrorKind::InvalidLength => "length of phone number is invalid."@,
            ErrorKind::NotFound => "can not find this phone number in database."@,
            ErrorKind::InvalidOpNo => "invalid number to representative Communications Operators."@,
        }
    }

    /// The sentence that describes this failure, as an owned string.
    pub fn to_string(&self) -> (r: String)
        ensures
            r@ == self.message(),
    {
        match self {
            ErrorKind::InvalidPhoneDatabase => "invalid phone database.".to_owned(),
            ErrorKind::InvalidLength => "length of phone number is invalid.".to_owned(),
            ErrorKind::NotFound => "can not find this phone number in database.".to_owned(),
            ErrorKind::InvalidOpNo => "invalid number to representative Communications Operators.".to_owned(),
        }
    }
}

} // verus!
