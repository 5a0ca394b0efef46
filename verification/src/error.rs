//! The ways in which assembling an image can fail.

use vstd::prelude::*;

verus! {

/// Why an operation on an image was refused.
#[derive(Clone, Copy, Debug, PartialEq, Eq, Structural)]
pub enum Error {
    /// The bytes do not carry the markers of a PE image, or its headers are cut short.
    InvalidFormat,
    /// The optional header is neither the 32-bit nor the 64-bit layout.
    UnsupportedVariant,
    /// A section name is longer than eight bytes.
    NameTooLong,
    /// A size or an offset does not fit the 32-bit fields of the format.
    PayloadTooLarge,
    /// An alignment is zero or not a power of two.
    InvalidAlignment,
    /// The headers have no room left for another section table entry.
    HeaderSpaceExhausted,
}

impl Error {
    /// A short description of the failure, for messages.
    pub fn message(&self) -> (text: &'static str)
        ensures
            text@ == self.message_text(),
    {
        match self {
            Error::InvalidFormat => "not a portable executable image",
            Error::UnsupportedVariant => "unsupported optional header variant",
            Error::NameTooLong => "section name is longer than eight bytes",
            Error::PayloadTooLarge => "payload does not fit the image's 32-bit fields",
            Error::InvalidAlignment => "alignment is not a power of two",
            Error::HeaderSpaceExhausted => "no room in the headers for another section",
        }
    }

    /// The characters of [`Error::message`].
    pub open spec fn message_text(&self) -> Seq<char> {
        match self {
            Error::InvalidFormat => "not a portable executable image"@,
            Error::UnsupportedVariant => "unsupported optional header variant"@,
            Error::NameTooLong => "section name is longer than eight bytes"@,
            Error::PayloadTooLarge => "payload does not fit the image's 32-bit fields"@,
            Error::InvalidAlignment => "alignment is not a power of two"@,
            Error::HeaderSpaceExhausted => "no room in the headers for another section"@,
        }
    }
}

} // verus!
