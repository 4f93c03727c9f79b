//! Decode failures. Each error names the offending attribute kind and
//! carries the raw bytes observed, so a caller can report exactly what the
//! kernel sent.

use vstd::prelude::*;

verus! {

/// Mathematical image of a decode failure.
#[verifier::ext_equal]
pub enum SpecDecodeError {
    /// A record header or declared length did not fit the remaining bytes.
    Truncated { remaining: Seq<u8> },
    /// A fixed-width value had fewer bytes than its kind requires.
    ValueTooShort { attr_kind: u16, required: int, value: Seq<u8> },
    /// A value whose kind demands one exact length had another.
    WrongValueLength { attr_kind: u16, required: int, value: Seq<u8> },
    /// A text value was empty or not valid text before its terminator.
    InvalidText { attr_kind: u16, value: Seq<u8> },
    /// A fixed-stride list value was not a whole number of elements.
    UnalignedList { attr_kind: u16, stride: int, value: Seq<u8> },
}

#[derive(Debug, PartialEq, Eq, Clone)]
pub enum DecodeError {
    /// A record header or declared length did not fit the remaining bytes.
    Truncated { remaining: Vec<u8> },
    /// A fixed-width value had fewer bytes than its kind requires.
    ValueTooShort { attr_kind: u16, required: usize, value: Vec<u8> },
    /// A value whose kind demands one exact length had another.
    WrongValueLength { attr_kind: u16, required: usize, value: Vec<u8> },
    /// A text value was empty or not valid text before its terminator.
    InvalidText { attr_kind: u16, value: Vec<u8> },
    /// A fixed-stride list value was not a whole number of elements.
    UnalignedList { attr_kind: u16, stride: usize, value: Vec<u8> },
}

impl View for DecodeError {
    type V = SpecDecodeError;

    open spec fn view(&self) -> SpecDecodeError {
        match self {
            DecodeError::Truncated { remaining } => SpecDecodeError::Truncated {
                remaining: remaining@,
            },
            DecodeError::ValueTooShort { attr_kind, required, value } => {
                SpecDecodeError::ValueTooShort {
                    attr_kind: *attr_kind,
                    required: *required as int,
                    value: value@,
                }
            },
            DecodeError::WrongValueLength { attr_kind, required, value } => {
                SpecDecodeError::WrongValueLength {
                    attr_kind: *attr_kind,
                    required: *required as int,
                    value: value@,
                }
            },
            DecodeError::InvalidText { attr_kind, value } => SpecDecodeError::InvalidText {
                attr_kind: *attr_kind,
                value: value@,
            },
            DecodeError::UnalignedList { attr_kind, stride, value } => {
                SpecDecodeError::UnalignedList {
                    attr_kind: *attr_kind,
                    stride: *stride as int,
                    value: value@,
                }
            },
        }
    }
}

impl DeepView for DecodeError {
    type V = SpecDecodeError;

    open spec fn deep_view(&self) -> SpecDecodeError {
        self.view()
    }
}

} // verus!
