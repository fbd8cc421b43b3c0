use vstd::prelude::*;

verus! {

/// Why an input was refused.
#[derive(Debug, Clone, Copy, PartialEq, Eq, Structural)]
pub enum UkaError {
    /// The input is shorter than the smallest header of the format.
    TooSmall,
    /// The magic bytes of the format are missing.
    BadMagic,
    /// A header or schema version that is not supported.
    UnsupportedVersion,
    /// A class, endianness or identification field that is not supported.
    UnsupportedFormat,
    /// The page or block size is zero or not a power of two.
    InvalidPageSize,
    /// The header declares a size that the format does not allow.
    InvalidHeaderSize,
    /// A field holds a value that the format does not allow.
    InvalidField,
    /// Adding offsets and sizes overflows.
    RangeOverflow,
    /// A region extends past the end of the input.
    OutOfBounds,
    /// An `ANDROID!` image that is neither a boot nor an init_boot image.
    NotValidated,
    /// The image does not carry a kernel payload.
    NoKernelPayload,
    /// The input is not a known container.
    UnknownContainer,
    /// The input is empty.
    EmptyInput,
    /// The document names no source.
    EmptySource,
    /// The ZIP archive could not be read.
    Archive,
    /// A compressed kernel could not be decompressed.
    Decompression,
}

/// The short description of each error.
pub open spec fn error_message(e: UkaError) -> Seq<char> {
    match e {
        UkaError::TooSmall => "input is too small"@,
        UkaError::BadMagic => "magic bytes do not match"@,
        UkaError::UnsupportedVersion => "unsupported version"@,
        UkaError::UnsupportedFormat => "unsupported format"@,
        UkaError::InvalidPageSize => "invalid page size"@,
        UkaError::InvalidHeaderSize => "invalid header size"@,
        UkaError::InvalidField => "invalid header field"@,
        UkaError::RangeOverflow => "range overflow"@,
        UkaError::OutOfBounds => "region extends past input"@,
        UkaError::NotValidated => "ANDROID! image did not validate as boot or init_boot"@,
        UkaError::NoKernelPayload => "image contains no kernel payload"@,
        UkaError::UnknownContainer => "unknown container format"@,
        UkaError::EmptyInput => "input is empty"@,
        UkaError::EmptySource => "offset document source is empty"@,
        UkaError::Archive => "ZIP archive could not be read"@,
        UkaError::Decompression => "kernel could not be decompressed"@,
    }
}

impl UkaError {
    /// A short description of the error.
    pub fn message(&self) -> (r: &'static str)
        ensures
            r@ == error_message(*self),
    {
        match self {
            UkaError::TooSmall => "input is too small",
            UkaError::BadMagic => "magic bytes do not match",
            UkaError::UnsupportedVersion => "unsupported version",
            UkaError::UnsupportedFormat => "unsupported format",
            UkaError::InvalidPageSize => "invalid page size",
            UkaError::InvalidHeaderSize => "invalid header size",
            UkaError::InvalidField => "invalid header field",
            UkaError::RangeOverflow => "range overflow",
            UkaError::OutOfBounds => "region extends past input",
            UkaError::NotValidated => "ANDROID! image did not validate as boot or init_boot",
            UkaError::NoKernelPayload => "image contains no kernel payload",
            UkaError::UnknownContainer => "unknown container format",
            UkaError::EmptyInput => "input is empty",
            UkaError::EmptySource => "offset document source is empty",
            UkaError::Archive => "ZIP archive could not be read",
            UkaError::Decompression => "kernel could not be decompressed",
        }
    }
}

} // verus!
