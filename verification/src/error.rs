use vstd::prelude::*;

verus! {

/// Why a run, or one worker of it, failed. Each variant carries the message
/// of the failure that caused it.
#[derive(Debug, Clone, PartialEq, Eq)]
pub enum Error {
    /// The manifest decoded as a binary document that has no text form.
    ConvertResourceInfo(String),
    /// The text form of the manifest is not a manifest.
    ParseResourceInfo(String),
    /// A worker ended without producing a result.
    InternalError(String),
    /// A request failed in transport or was answered with a failure status.
    Reqwest(String),
    /// A file or directory operation failed.
    Io(String),
}

impl Error {
    /// The message that the variant carries.
    pub open spec fn detail(self) -> Seq<char> {
        match self {
            Error::ConvertResourceInfo(m) => m@,
            Error::ParseResourceInfo(m) => m@,
            Error::InternalError(m) => m@,
            Error::Reqwest(m) => m@,
            Error::Io(m) => m@,
        }
    }

    /// The text shown for the error: the message, behind a prefix for the two
    /// manifest errors.
    pub open spec fn text(self) -> Seq<char> {
        match self {
            Error::ConvertResourceInfo(m) => "Failed to convert resource info: "@ + m@,
            Error::ParseResourceInfo(m) => "Failed to parse resource info: "@ + m@,
            Error::InternalError(m) => m@,
            Error::Reqwest(m) => m@,
            Error::Io(m) => m@,
        }
    }

    /// An equal error, for a second owner.
    pub fn duplicate(&self) -> (copy: Error)
        ensures
            copy == *self,
    {
        match self {
            Error::ConvertResourceInfo(m) => Error::ConvertResourceInfo(m.clone()),
            Error::ParseResourceInfo(m) => Error::ParseResourceInfo(m.clone()),
            Error::InternalError(m) => Error::InternalError(m.clone()),
            Error::Reqwest(m) => Error::Reqwest(m.clone()),
            Error::Io(m) => Error::Io(m.clone()),
        }
    }

    /// Renders the error as text.
    pub fn message(&self) -> (s: String)
        ensures
            s@ == self.text(),
    {
        match self {
            Error::ConvertResourceInfo(m) => {
                String::from_str("Failed to convert resource info: ").concat(m.as_str())
            },
            Error::ParseResourceInfo(m) => {
                String::from_str("Failed to parse resource info: ").concat(m.as_str())
            },
            Error::InternalError(m) => m.clone(),
            Error::Reqwest(m) => m.clone(),
            Error::Io(m) => m.clone(),
        }
    }
}

} // verus!
