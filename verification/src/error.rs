//! The errors of this library.

use quick_xml::Error as XmlError;
use vstd::prelude::*;

verus! {

/// Errors of this library.
#[derive(Debug)]
pub enum Error {
    /// The XML could not be read: a syntax error, a missing end tag, or a
    /// character reference that names no character.
    Xml(XmlError),
    /// The input ended before the element that was being read was closed.
    Eof,
    /// The reader returned an event without consuming any input.
    NoProgress,
    /// A text to be written holds this character, which XML 1.0 does not
    /// allow in a document.
    InvalidCharacter(char),
}

} // verus!
