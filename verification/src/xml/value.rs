//! Primitive values as the text of an element or an attribute.

use vstd::prelude::*;
use crate::error::{IntErrorKind, ParseValueError, XmlDeError};
use crate::xml::integer::{decimal, format_integer, lemma_parse_decimal, parse_int, parse_integer};

verus! {

/// A value that is written as text and read back from text.
pub trait Value: Sized + View {
    spec fn spec_serialize(v: Self::V) -> Seq<char>;

    spec fn spec_deserialize(val: Seq<char>) -> Result<Self::V, XmlDeError>;

    /// What is written is read back as the same value.
    proof fn serialized_is_deserialized(v: Self::V)
        ensures
            Self::spec_deserialize(Self::spec_serialize(v)) == Ok::<Self::V, XmlDeError>(v),
    ;

    fn serialize(&self) -> (text: String)
        ensures
            text@ == Self::spec_serialize(self@),
    ;

    fn deserialize(val: &str) -> (value: Result<Self, XmlDeError>)
        ensures
            match Self::spec_deserialize(val@) {
                Ok(v) => value matches Ok(x) && x@ == v,
                Err(e) => value matches Err(x) && x == e,
            },
    ;
}

impl Value for String {
    open spec fn spec_serialize(v: Seq<char>) -> Seq<char> {
        v
    }

    open spec fn spec_deserialize(val: Seq<char>) -> Result<Seq<char>, XmlDeError> {
        Ok(val)
    }

    proof fn serialized_is_deserialized(v: Seq<char>) {
    }

    fn serialize(&self) -> (text: String) {
        self.clone()
    }

    fn deserialize(val: &str) -> (value: Result<String, XmlDeError>) {
        Ok(val.to_owned())
    }
}

/// The failure of reading an integer, as a failure of decoding.
pub open spec fn int_error(kind: IntErrorKind) -> XmlDeError {
    XmlDeError::ParseValue(ParseValueError::ParseIntError(kind))
}

impl Value for i8 {
    open spec fn spec_serialize(v: i8) -> Seq<char> {
        decimal(v as int)
    }

    open spec fn spec_deserialize(val: Seq<char>) -> Result<i8, XmlDeError> {
        match parse_int(val, i8::MIN as int, i8::MAX as int) {
            Ok(v) => Ok(v as i8),
            Err(kind) => Err(int_error(kind)),
        }
    }

    proof fn serialized_is_deserialized(v: i8) {
        lemma_parse_decimal(v as int, i8::MIN as int, i8::MAX as int);
    }

    fn serialize(&self) -> (text: String) {
        format_integer(*self as i128)
    }

    fn deserialize(val: &str) -> (value: Result<i8, XmlDeError>) {
        match parse_integer(val, i8::MIN as i128, i8::MAX as i128) {
            Ok(v) => Ok(v as i8),
            Err(kind) => Err(XmlDeError::ParseValue(ParseValueError::ParseIntError(kind))),
        }
    }
}

impl Value for u8 {
    open spec fn spec_serialize(v: u8) -> Seq<char> {
        decimal(v as int)
    }

    open spec fn spec_deserialize(val: Seq<char>) -> Result<u8, XmlDeError> {
        match parse_int(val, u8::MIN as int, u8::MAX as int) {
            Ok(v) => Ok(v as u8),
            Err(kind) => Err(int_error(kind)),
        }
    }

    proof fn serialized_is_deserialized(v: u8) {
        lemma_parse_decimal(v as int, u8::MIN as int, u8::MAX as int);
    }

    fn serialize(&self) -> (text: String) {
        format_integer(*self as i128)
    }

    fn deserialize(val: &str) -> (value: Result<u8, XmlDeError>) {
        match parse_integer(val, u8::MIN as i128, u8::MAX as i128) {
            Ok(v) => Ok(v as u8),
            Err(kind) => Err(XmlDeError::ParseValue(ParseValueError::ParseIntError(kind))),
        }
    }
}

impl Value for i16 {
    open spec fn spec_serialize(v: i16) -> Seq<char> {
        decimal(v as int)
    }

    open spec fn spec_deserialize(val: Seq<char>) -> Result<i16, XmlDeError> {
        match parse_int(val, i16::MIN as int, i16::MAX as int) {
            Ok(v) => Ok(v as i16),
            Err(kind) => Err(int_error(kind)),
        }
    }

    proof fn serialized_is_deserialized(v: i16) {
        lemma_parse_decimal(v as int, i16::MIN as int, i16::MAX as int);
    }

    fn serialize(&self) -> (text: String) {
        format_integer(*self as i128)
    }

    fn deserialize(val: &str) -> (value: Result<i16, XmlDeError>) {
        match parse_integer(val, i16::MIN as i128, i16::MAX as i128) {
            Ok(v) => Ok(v as i16),
            Err(kind) => Err(XmlDeError::ParseValue(ParseValueError::ParseIntError(kind))),
        }
    }
}

impl Value for u16 {
    open spec fn spec_serialize(v: u16) -> Seq<char> {
        decimal(v as int)
    }

    open spec fn spec_deserialize(val: Seq<char>) -> Result<u16, XmlDeError> {
        match parse_int(val, u16::MIN as int, u16::MAX as int) {
            Ok(v) => Ok(v as u16),
            Err(kind) => Err(int_error(kind)),
        }
    }

    proof fn serialized_is_deserialized(v: u16) {
        lemma_parse_decimal(v as int, u16::MIN as int, u16::MAX as int);
    }

    fn serialize(&self) -> (text: String) {
        format_integer(*self as i128)
    }

    fn deserialize(val: &str) -> (value: Result<u16, XmlDeError>) {
        match parse_integer(val, u16::MIN as i128, u16::MAX as i128) {
            Ok(v) => Ok(v as u16),
            Err(kind) => Err(XmlDeError::ParseValue(ParseValueError::ParseIntError(kind))),
        }
    }
}

impl Value for i32 {
    open spec fn spec_serialize(v: i32) -> Seq<char> {
        decimal(v as int)
    }

    open spec fn spec_deserialize(val: Seq<char>) -> Result<i32, XmlDeError> {
        match parse_int(val, i32::MIN as int, i32::MAX as int) {
            Ok(v) => Ok(v as i32),
            Err(kind) => Err(int_error(kind)),
        }
    }

    proof fn serialized_is_deserialized(v: i32) {
        lemma_parse_decimal(v as int, i32::MIN as int, i32::MAX as int);
    }

    fn serialize(&self) -> (text: String) {
        format_integer(*self as i128)
    }

    fn deserialize(val: &str) -> (value: Result<i32, XmlDeError>) {
        match parse_integer(val, i32::MIN as i128, i32::MAX as i128) {
            Ok(v) => Ok(v as i32),
            Err(kind) => Err(XmlDeError::ParseValue(ParseValueError::ParseIntError(kind))),
        }
    }
}

impl Value for u32 {
    open spec fn spec_serialize(v: u32) -> Seq<char> {
        decimal(v as int)
    }

    open spec fn spec_deserialize(val: Seq<char>) -> Result<u32, XmlDeError> {
        match parse_int(val, u32::MIN as int, u32::MAX as int) {
            Ok(v) => Ok(v as u32),
            Err(kind) => Err(int_error(kind)),
        }
    }

    proof fn serialized_is_deserialized(v: u32) {
        lemma_parse_decimal(v as int, u32::MIN as int, u32::MAX as int);
    }

    fn serialize(&self) -> (text: String) {
        format_integer(*self as i128)
    }

    fn deserialize(val: &str) -> (value: Result<u32, XmlDeError>) {
        match parse_integer(val, u32::MIN as i128, u32::MAX as i128) {
            Ok(v) => Ok(v as u32),
            Err(kind) => Err(XmlDeError::ParseValue(ParseValueError::ParseIntError(kind))),
        }
    }
}

impl Value for i64 {
    open spec fn spec_serialize(v: i64) -> Seq<char> {
        decimal(v as int)
    }

    open spec fn spec_deserialize(val: Seq<char>) -> Result<i64, XmlDeError> {
        match parse_int(val, i64::MIN as int, i64::MAX as int) {
            Ok(v) => Ok(v as i64),
            Err(kind) => Err(int_error(kind)),
        }
    }

    proof fn serialized_is_deserialized(v: i64) {
        lemma_parse_decimal(v as int, i64::MIN as int, i64::MAX as int);
    }

    fn serialize(&self) -> (text: String) {
        format_integer(*self as i128)
    }

    fn deserialize(val: &str) -> (value: Result<i64, XmlDeError>) {
        match parse_integer(val, i64::MIN as i128, i64::MAX as i128) {
            Ok(v) => Ok(v as i64),
            Err(kind) => Err(XmlDeError::ParseValue(ParseValueError::ParseIntError(kind))),
        }
    }
}

impl Value for u64 {
    open spec fn spec_serialize(v: u64) -> Seq<char> {
        decimal(v as int)
    }

    open spec fn spec_deserialize(val: Seq<char>) -> Result<u64, XmlDeError> {
        match parse_int(val, u64::MIN as int, u64::MAX as int) {
            Ok(v) => Ok(v as u64),
            Err(kind) => Err(int_error(kind)),
        }
    }

    proof fn serialized_is_deserialized(v: u64) {
        lemma_parse_decimal(v as int, u64::MIN as int, u64::MAX as int);
    }

    fn serialize(&self) -> (text: String) {
        format_integer(*self as i128)
    }

    fn deserialize(val: &str) -> (value: Result<u64, XmlDeError>) {
        match parse_integer(val, u64::MIN as i128, u64::MAX as i128) {
            Ok(v) => Ok(v as u64),
            Err(kind) => Err(XmlDeError::ParseValue(ParseValueError::ParseIntError(kind))),
        }
    }
}

impl Value for isize {
    open spec fn spec_serialize(v: isize) -> Seq<char> {
        decimal(v as int)
    }

    open spec fn spec_deserialize(val: Seq<char>) -> Result<isize, XmlDeError> {
        match parse_int(val, isize::MIN as int, isize::MAX as int) {
            Ok(v) => Ok(v as isize),
            Err(kind) => Err(int_error(kind)),
        }
    }

    proof fn serialized_is_deserialized(v: isize) {
        lemma_parse_decimal(v as int, isize::MIN as int, isize::MAX as int);
    }

    fn serialize(&self) -> (text: String) {
        format_integer(*self as i128)
    }

    fn deserialize(val: &str) -> (value: Result<isize, XmlDeError>) {
        match parse_integer(val, isize::MIN as i128, isize::MAX as i128) {
            Ok(v) => Ok(v as isize),
            Err(kind) => Err(XmlDeError::ParseValue(ParseValueError::ParseIntError(kind))),
        }
    }
}

impl Value for usize {
    open spec fn spec_serialize(v: usize) -> Seq<char> {
        decimal(v as int)
    }

    open spec fn spec_deserialize(val: Seq<char>) -> Result<usize, XmlDeError> {
        match parse_int(val, usize::MIN as int, usize::MAX as int) {
            Ok(v) => Ok(v as usize),
            Err(kind) => Err(int_error(kind)),
        }
    }

    proof fn serialized_is_deserialized(v: usize) {
        lemma_parse_decimal(v as int, usize::MIN as int, usize::MAX as int);
    }

    fn serialize(&self) -> (text: String) {
        format_integer(*self as i128)
    }

    fn deserialize(val: &str) -> (value: Result<usize, XmlDeError>) {
        match parse_integer(val, usize::MIN as i128, usize::MAX as i128) {
            Ok(v) => Ok(v as usize),
            Err(kind) => Err(XmlDeError::ParseValue(ParseValueError::ParseIntError(kind))),
        }
    }
}

} // verus!
