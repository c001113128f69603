//! The failures that the store reports.

use vstd::prelude::*;

verus! {

/// Why an operation of the store did not go through. Every kind is an ordinary
/// result: none of them ends the process.
#[derive(Clone, Copy, Debug, PartialEq, Eq, Structural)]
pub enum Error {
    /// The file system refused, or an archive could not be written out.
    Io,
    /// The bytes are not an archive that can be opened.
    Corrupt,
    /// A slot did not open under the key, or its contents failed their check.
    DecryptFailed,
    /// A message with another identity already sits at the index.
    Conflict,
    /// No such container, slot or note.
    NotFound,
    /// A message file whose name holds no sequence index.
    Parse,
    /// An embedded payload that cannot be decoded.
    Decode,
    /// A message without a payload was to be written.
    NullMessage,
}

impl Error {
    /// A short English description of the failure.
    pub fn message(&self) -> (text: &'static str)
        ensures
            text@ == Self::describe(*self),
    {
        match self {
            Error::Io => "input or output failed",
            Error::Corrupt => "the archive cannot be opened",
            Error::DecryptFailed => "the slot does not open under the key",
            Error::Conflict => "another message is stored at this index",
            Error::NotFound => "not found",
            Error::Parse => "a message file name holds no sequence index",
            Error::Decode => "the embedded payload cannot be decoded",
            Error::NullMessage => "the message has no payload",
        }
    }

    /// The text that [`Error::message`] gives for each kind.
    pub open spec fn describe(e: Error) -> Seq<char> {
        match e {
            Error::Io => "input or output failed"@,
            Error::Corrupt => "the archive cannot be opened"@,
            Error::DecryptFailed => "the slot does not open under the key"@,
            Error::Conflict => "another message is stored at this index"@,
            Error::NotFound => "not found"@,
            Error::Parse => "a message file name holds no sequence index"@,
            Error::Decode => "the embedded payload cannot be decoded"@,
            Error::NullMessage => "the message has no payload"@,
        }
    }
}

} // verus!
