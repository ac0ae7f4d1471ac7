//! The failures a request can end in.

use vstd::prelude::*;

verus! {

/// Why an XML document could not be decoded.
#[derive(Clone, Copy, Debug, PartialEq, Eq, Structural)]
pub enum XmlDeError {
    /// The input is not well-formed XML.
    Malformed,
    /// The input ended inside an element.
    Eof,
    /// An attribute or a child element that the schema does not know.
    InvalidFieldName,
    /// A field that the schema requires did not occur.
    MissingField,
    /// The tag fits no variant of an enum.
    InvalidVariant,
    /// The document's root element is not the one the schema names.
    InvalidTag,
    /// Character data where some was already read.
    ContentAlreadyWritten,
    /// A CDATA section.
    UnsupportedCData,
    /// An XML declaration inside an element.
    UnsupportedDeclaration,
    /// A processing instruction inside an element.
    UnsupportedProcessingInstruction,
    /// A document type declaration inside an element.
    UnsupportedDoctype,
    /// An event that a text-only element cannot hold.
    UnsupportedEvent,
    /// A closing tag that does not close the element being read.
    UnexpectedClosingTag,
    /// The text is not a value of the type asked for.
    ParseValue(ParseValueError),
}

/// Why a text is not a value of a primitive type.
#[derive(Clone, Copy, Debug, PartialEq, Eq, Structural)]
pub enum ParseValueError {
    ParseIntError(IntErrorKind),
    ParseFloatError,
}

/// Why a text is not an integer of the type asked for.
#[derive(Clone, Copy, Debug, PartialEq, Eq, Structural)]
pub enum IntErrorKind {
    Empty,
    InvalidDigit,
    PosOverflow,
    NegOverflow,
}

/// The failures of the protocol layer.
#[derive(Clone, Copy, Debug, PartialEq, Eq, Structural)]
pub enum Error {
    Unauthorized,
    NotFound,
    Conflict,
    BadRequest,
    XmlDeserializationError(XmlDeError),
    PropReadOnly,
    InternalError,
    NotImplemented,
}

impl Error {
    pub open spec fn spec_status_code(self) -> u16 {
        match self {
            Error::Unauthorized => 401,
            Error::NotFound => 404,
            Error::Conflict => 409,
            Error::BadRequest => 400,
            Error::XmlDeserializationError(_) => 400,
            Error::PropReadOnly => 409,
            Error::InternalError => 500,
            Error::NotImplemented => 501,
        }
    }

    /// The HTTP status a request that ends in this failure is answered with.
    pub fn status_code(&self) -> (code: u16)
        ensures
            code == self.spec_status_code(),
    {
        match self {
            Error::Unauthorized => 401,
            Error::NotFound => 404,
            Error::Conflict => 409,
            Error::BadRequest => 400,
            Error::XmlDeserializationError(_) => 400,
            Error::PropReadOnly => 409,
            Error::InternalError => 500,
            Error::NotImplemented => 501,
        }
    }
}

} // verus!
