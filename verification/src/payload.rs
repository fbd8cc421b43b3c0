use vstd::prelude::*;
use crate::bytes::{be_u32, be_u64, read_u32_be, read_u64_be};
use crate::error::UkaError;
use crate::magic::{has_payload_magic, payload_magic};

verus! {

/// The size of the payload.bin header; the manifest follows it.
pub const PAYLOAD_HEADER_SIZE: usize = 24;

/// The fields of a payload.bin header and where its manifest and metadata
/// signature start.
#[derive(Debug, Clone, Copy, PartialEq, Eq, Structural)]
pub struct PayloadHeader {
    pub major_version: u64,
    pub manifest_size: u64,
    pub metadata_signature_size: u32,
    pub manifest_offset: u64,
    pub metadata_signature_offset: u64,
}

/// The payload header of `s`, or why it is refused, checked in this order: the
/// `CrAU` magic, a nonzero major version, and a manifest and metadata signature
/// that follow the header inside the input.
pub open spec fn spec_parse_payload_header(s: Seq<u8>) -> Result<PayloadHeader, UkaError> {
    let major = be_u64(s, 4);
    let manifest = be_u64(s, 12);
    let signature = be_u32(s, 20);
    if s.len() < PAYLOAD_HEADER_SIZE {
        Err(UkaError::TooSmall)
    } else if s.subrange(0, 4) != payload_magic() {
        Err(UkaError::BadMagic)
    } else if major == 0 {
        Err(UkaError::UnsupportedVersion)
    } else if PAYLOAD_HEADER_SIZE + manifest > u64::MAX {
        Err(UkaError::RangeOverflow)
    } else if PAYLOAD_HEADER_SIZE + manifest + signature > u64::MAX {
        Err(UkaError::RangeOverflow)
    } else if PAYLOAD_HEADER_SIZE + manifest + signature > s.len() {
        Err(UkaError::OutOfBounds)
    } else {
        Ok(
            PayloadHeader {
                major_version: major,
                manifest_size: manifest,
                metadata_signature_size: signature,
                manifest_offset: PAYLOAD_HEADER_SIZE as u64,
                metadata_signature_offset: (PAYLOAD_HEADER_SIZE + manifest) as u64,
            },
        )
    }
}

/// Parses only the payload container header; it does not apply or execute updates.
pub fn parse_payload_header(data: &[u8]) -> (r: Result<PayloadHeader, UkaError>)
    ensures
        r == spec_parse_payload_header(data@),
{
    if data.len() < PAYLOAD_HEADER_SIZE {
        return Err(UkaError::TooSmall);
    }
    if !has_payload_magic(data, 0) {
        return Err(UkaError::BadMagic);
    }
    let major_version = read_u64_be(data, 4).unwrap();
    if major_version == 0 {
        return Err(UkaError::UnsupportedVersion);
    }
    let manifest_size = read_u64_be(data, 12).unwrap();
    let metadata_signature_size = read_u32_be(data, 20).unwrap();
    let manifest_offset = PAYLOAD_HEADER_SIZE as u64;
    let metadata_signature_offset = match manifest_offset.checked_add(manifest_size) {
        Some(offset) => offset,
        None => return Err(UkaError::RangeOverflow),
    };
    let end = match metadata_signature_offset.checked_add(metadata_signature_size as u64) {
        Some(end) => end,
        None => return Err(UkaError::RangeOverflow),
    };
    if end > data.len() as u64 {
        return Err(UkaError::OutOfBounds);
    }
    Ok(
        PayloadHeader {
            major_version,
            manifest_size,
            metadata_signature_size,
            manifest_offset,
            metadata_signature_offset,
        },
    )
}

/// An accepted payload header places the manifest right after the header and
/// the metadata signature right after the manifest, both inside the input.
pub proof fn lemma_payload_regions_inside_input(s: Seq<u8>)
    requires
        spec_parse_payload_header(s) is Ok,
    ensures
        ({
            let h = spec_parse_payload_header(s).unwrap();
            &&& h.major_version != 0
            &&& h.manifest_offset == PAYLOAD_HEADER_SIZE
            &&& h.metadata_signature_offset == h.manifest_offset + h.manifest_size
            &&& h.metadata_signature_offset + h.metadata_signature_size <= s.len()
        }),
{
}

/// An accepted payload header reports the big-endian major version at 4, the
/// manifest size at 12 and the metadata signature size at 20.
pub proof fn lemma_payload_fields_come_from_their_offsets(s: Seq<u8>)
    requires
        spec_parse_payload_header(s) is Ok,
    ensures
        ({
            let h = spec_parse_payload_header(s).unwrap();
            &&& h.major_version == be_u64(s, 4)
            &&& h.manifest_size == be_u64(s, 12)
            &&& h.metadata_signature_size == be_u32(s, 20)
        }),
{
}

} // verus!
