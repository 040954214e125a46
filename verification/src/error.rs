use vstd::prelude::*;

verus! {

/// The failures a DMI operation can report.
#[derive(Debug)]
pub enum DmiError {
    /// A pixel-stream segment whose length is neither 6 nor 8 hex digits.
    InvalidPngData,
    /// A width, height or hex digit that does not parse as a number.
    ParseError,
    /// The decoder rejected the byte stream.
    Decode(String),
    /// The encoder rejected the data handed to it.
    Encode(String),
    /// A compressed text chunk whose payload does not inflate to text.
    TextDecode(String),
    /// The state list could not be serialized.
    Serialization(String),
}

impl DmiError {
    /// A short description of the failure, for the caller's boundary.
    pub fn describe(&self) -> (r: String)
        ensures
            self is InvalidPngData ==> r@ == "invalid png data"@,
            self is ParseError ==> r@ == "cannot parse number"@,
            self matches DmiError::Decode(m) ==> r@ == m@,
            self matches DmiError::Encode(m) ==> r@ == m@,
            self matches DmiError::TextDecode(m) ==> r@ == m@,
            self matches DmiError::Serialization(m) ==> r@ == m@,
    {
        match self {
            DmiError::InvalidPngData => "invalid png data".to_owned(),
            DmiError::ParseError => "cannot parse number".to_owned(),
            DmiError::Decode(m) => m.clone(),
            DmiError::Encode(m) => m.clone(),
            DmiError::TextDecode(m) => m.clone(),
            DmiError::Serialization(m) => m.clone(),
        }
    }
}

} // verus!
