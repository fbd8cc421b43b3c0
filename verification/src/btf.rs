use vstd::prelude::*;
use crate::bytes::{le_u16, le_u32, read_u16_le, read_u32_le};
use crate::error::UkaError;

verus! {

/// The BTF magic.
pub const BTF_MAGIC: u16 = 0xeb9f;

/// The size of a version 1 BTF header.
pub const BTF_HEADER_SIZE: usize = 24;

/// The fields of a BTF header.
#[derive(Debug, Clone, Copy, PartialEq, Eq, Structural)]
pub struct BtfHeader {
    pub version: u8,
    pub flags: u8,
    pub header_length: u32,
    pub type_offset: u32,
    pub type_length: u32,
    pub string_offset: u32,
    pub string_length: u32,
}

/// Why a region of `length` bytes at `offset` past the header does not fit.
pub open spec fn btf_region_error(header_end: int, offset: u32, length: u32, len: int) -> Option<
    UkaError,
> {
    if header_end + offset > usize::MAX {
        Some(UkaError::RangeOverflow)
    } else if header_end + offset + length > usize::MAX {
        Some(UkaError::RangeOverflow)
    } else if header_end + offset + length > len {
        Some(UkaError::OutOfBounds)
    } else {
        None
    }
}

fn check_region(header_end: usize, offset: u32, length: u32, len: usize) -> (r: Result<(), UkaError>)
    ensures
        match r {
            Ok(()) => btf_region_error(header_end as int, offset, length, len as int) is None,
            Err(e) => btf_region_error(header_end as int, offset, length, len as int) == Some(e),
        },
{
    let start = match header_end.checked_add(offset as usize) {
        Some(start) => start,
        None => return Err(UkaError::RangeOverflow),
    };
    let end = match start.checked_add(length as usize) {
        Some(end) => end,
        None => return Err(UkaError::RangeOverflow),
    };
    if end > len {
        return Err(UkaError::OutOfBounds);
    }
    Ok(())
}

/// The header fields that `s` declares.
pub open spec fn btf_fields(s: Seq<u8>) -> BtfHeader {
    BtfHeader {
        version: s[2],
        flags: s[3],
        header_length: le_u32(s, 4),
        type_offset: le_u32(s, 8),
        type_length: le_u32(s, 12),
        string_offset: le_u32(s, 16),
        string_length: le_u32(s, 20),
    }
}

/// The BTF header of `s`, or why it is refused, checked in this order: the
/// magic, version 1, a header of at least 24 bytes inside the input, and type
/// and string sections inside the input after the header.
pub open spec fn spec_parse_btf_header(s: Seq<u8>) -> Result<BtfHeader, UkaError> {
    let h = btf_fields(s);
    if s.len() < BTF_HEADER_SIZE {
        Err(UkaError::TooSmall)
    } else if le_u16(s, 0) != BTF_MAGIC {
        Err(UkaError::BadMagic)
    } else if h.version != 1 {
        Err(UkaError::UnsupportedVersion)
    } else if h.header_length < BTF_HEADER_SIZE {
        Err(UkaError::InvalidHeaderSize)
    } else if h.header_length > s.len() {
        Err(UkaError::OutOfBounds)
    } else if btf_region_error(h.header_length as int, h.type_offset, h.type_length, s.len() as int)
        is Some {
        Err(
            btf_region_error(
                h.header_length as int,
                h.type_offset,
                h.type_length,
                s.len() as int,
            ).unwrap(),
        )
    } else if btf_region_error(
        h.header_length as int,
        h.string_offset,
        h.string_length,
        s.len() as int,
    ) is Some {
        Err(
            btf_region_error(
                h.header_length as int,
                h.string_offset,
                h.string_length,
                s.len() as int,
            ).unwrap(),
        )
    } else {
        Ok(h)
    }
}

/// Parses and bounds-checks a BTF header without interpreting type records.
pub fn parse_btf_header(data: &[u8]) -> (r: Result<BtfHeader, UkaError>)
    ensures
        r == spec_parse_btf_header(data@),
{
    if data.len() < BTF_HEADER_SIZE {
        return Err(UkaError::TooSmall);
    }
    if read_u16_le(data, 0).unwrap() != BTF_MAGIC {
        return Err(UkaError::BadMagic);
    }
    let header = BtfHeader {
        version: data[2],
        flags: data[3],
        header_length: read_u32_le(data, 4).unwrap(),
        type_offset: read_u32_le(data, 8).unwrap(),
        type_length: read_u32_le(data, 12).unwrap(),
        string_offset: read_u32_le(data, 16).unwrap(),
        string_length: read_u32_le(data, 20).unwrap(),
    };
    if header.version != 1 {
        return Err(UkaError::UnsupportedVersion);
    }
    if header.header_length < BTF_HEADER_SIZE as u32 {
        return Err(UkaError::InvalidHeaderSize);
    }
    let header_end = header.header_length as usize;
    if header_end > data.len() {
        return Err(UkaError::OutOfBounds);
    }
    check_region(header_end, header.type_offset, header.type_length, data.len())?;
    check_region(header_end, header.string_offset, header.string_length, data.len())?;
    Ok(header)
}

/// An accepted BTF header is version 1, at least 24 bytes long, and its type
/// and string sections end inside the input after the header.
pub proof fn lemma_btf_sections_inside_input(s: Seq<u8>)
    requires
        spec_parse_btf_header(s) is Ok,
    ensures
        ({
            let h = spec_parse_btf_header(s).unwrap();
            &&& h.version == 1
            &&& BTF_HEADER_SIZE <= h.header_length <= s.len()
            &&& h.header_length + h.type_offset + h.type_length <= s.len()
            &&& h.header_length + h.string_offset + h.string_length <= s.len()
        }),
{
}

/// An accepted BTF header reports the version and flags bytes at 2 and 3 and
/// the little-endian header length, type offset and length, and string offset
/// and length at 4, 8, 12, 16 and 20.
pub proof fn lemma_btf_fields_come_from_their_offsets(s: Seq<u8>)
    requires
        spec_parse_btf_header(s) is Ok,
    ensures
        ({
            let h = spec_parse_btf_header(s).unwrap();
            &&& le_u16(s, 0) == BTF_MAGIC
            &&& h.version == s[2]
            &&& h.flags == s[3]
            &&& h.header_length == le_u32(s, 4)
            &&& h.type_offset == le_u32(s, 8)
            &&& h.type_length == le_u32(s, 12)
            &&& h.string_offset == le_u32(s, 16)
            &&& h.string_length == le_u32(s, 20)
        }),
{
}

} // verus!
