use vstd::prelude::*;
use crate::error::Error;

verus! {

/// What the binary decoder made of the manifest bytes.
#[derive(Debug, PartialEq, Eq)]
pub enum BinaryAttempt {
    /// The bytes are not a binary document.
    NotBinary,
    /// The bytes are a binary document, and this is its text form.
    Rendered(Vec<u8>),
    /// The bytes are a binary document that has no text form; the message
    /// says why.
    Unrenderable(String),
}

/// The manifest in its text form, and where that form came from.
#[derive(Debug, PartialEq, Eq)]
pub enum ManifestSource {
    /// Decoded from a binary document; `raw` holds the bytes as received.
    Binary { canonical: Vec<u8>, raw: Vec<u8> },
    /// Received as text.
    Text { canonical: Vec<u8> },
}

impl ManifestSource {
    /// The source that `body` resolves to, given what the binary decoder
    /// made of it: a binary document counts in its text form and keeps the
    /// bytes received; anything else counts as text as it is, and keeps
    /// nothing. A binary document without a text form is an error.
    pub open spec fn resolved(body: Vec<u8>, attempt: BinaryAttempt) -> Result<
        ManifestSource,
        Error,
    > {
        match attempt {
            BinaryAttempt::NotBinary => Ok(ManifestSource::Text { canonical: body }),
            BinaryAttempt::Rendered(text) => Ok(
                ManifestSource::Binary { canonical: text, raw: body },
            ),
            BinaryAttempt::Unrenderable(message) => Err(Error::ConvertResourceInfo(message)),
        }
    }

    /// The text form.
    pub open spec fn text(self) -> Vec<u8> {
        match self {
            ManifestSource::Binary { canonical, .. } => canonical,
            ManifestSource::Text { canonical } => canonical,
        }
    }

    /// The bytes kept for the snapshot: those received, for a binary
    /// document only.
    pub open spec fn retained(self) -> Option<Vec<u8>> {
        match self {
            ManifestSource::Binary { raw, .. } => Some(raw),
            ManifestSource::Text { .. } => None,
        }
    }

    /// Decides, once, what the manifest bytes are. See
    /// [`ManifestSource::resolved`].
    pub fn resolve(body: Vec<u8>, attempt: BinaryAttempt) -> (source: Result<ManifestSource, Error>)
        ensures
            source == ManifestSource::resolved(body, attempt),
    {
        match attempt {
            BinaryAttempt::NotBinary => Ok(ManifestSource::Text { canonical: body }),
            BinaryAttempt::Rendered(text) => Ok(
                ManifestSource::Binary { canonical: text, raw: body },
            ),
            BinaryAttempt::Unrenderable(message) => Err(Error::ConvertResourceInfo(message)),
        }
    }

    /// The text form, to be parsed.
    pub fn canonical(&self) -> (text: &Vec<u8>)
        ensures
            *text == self.text(),
    {
        match self {
            ManifestSource::Binary { canonical, .. } => canonical,
            ManifestSource::Text { canonical } => canonical,
        }
    }

    /// Gives up the source for the bytes to snapshot.
    pub fn into_snapshot(self) -> (raw: Option<Vec<u8>>)
        ensures
            raw == self.retained(),
    {
        match self {
            ManifestSource::Binary { raw, .. } => Some(raw),
            ManifestSource::Text { .. } => None,
        }
    }
}

} // verus!
