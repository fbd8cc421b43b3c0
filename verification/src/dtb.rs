use vstd::prelude::*;
use crate::bytes::{be_u32, read_u32_be};
use crate::error::UkaError;

verus! {

/// The flattened device tree magic.
pub const FDT_MAGIC: u32 = 0xd00dfeed;

/// The size of a flattened device tree header.
pub const DTB_HEADER_SIZE: usize = 40;

/// The fields of a flattened device tree header.
#[derive(Debug, Clone, Copy, PartialEq, Eq, Structural)]
pub struct DtbHeader {
    pub total_size: u32,
    pub structure_offset: u32,
    pub strings_offset: u32,
    pub memory_reservation_offset: u32,
    pub version: u32,
    pub last_compatible_version: u32,
    pub boot_cpuid_phys: u32,
    pub strings_size: u32,
    pub structure_size: u32,
}

/// Why a block of `size` bytes at `offset` does not lie after the header and
/// inside the first `total` bytes.
pub open spec fn dtb_region_error(offset: u32, size: u32, total: int) -> Option<UkaError> {
    if offset + size > usize::MAX {
        Some(UkaError::RangeOverflow)
    } else if offset < DTB_HEADER_SIZE || offset + size > total {
        Some(UkaError::OutOfBounds)
    } else {
        None
    }
}

fn check_region(offset: u32, size: u32, total: usize) -> (r: Result<(), UkaError>)
    ensures
        match r {
            Ok(()) => dtb_region_error(offset, size, total as int) is None,
            Err(e) => dtb_region_error(offset, size, total as int) == Some(e),
        },
{
    let start = offset as usize;
    let end = match start.checked_add(size as usize) {
        Some(end) => end,
        None => return Err(UkaError::RangeOverflow),
    };
    if start < DTB_HEADER_SIZE || end > total {
        return Err(UkaError::OutOfBounds);
    }
    Ok(())
}

/// The header fields that `s` declares (big-endian).
pub open spec fn dtb_fields(s: Seq<u8>) -> DtbHeader {
    DtbHeader {
        total_size: be_u32(s, 4),
        structure_offset: be_u32(s, 8),
        strings_offset: be_u32(s, 12),
        memory_reservation_offset: be_u32(s, 16),
        version: be_u32(s, 20),
        last_compatible_version: be_u32(s, 24),
        boot_cpuid_phys: be_u32(s, 28),
        strings_size: be_u32(s, 32),
        structure_size: be_u32(s, 36),
    }
}

/// The DTB header of `s`, or why it is refused, checked in this order: the
/// magic, a total size of at least a header and at most the input length (taken
/// modulo 2^32), ordered versions, structure and strings blocks after the header
/// and inside the total size, and a memory reservation table that starts inside
/// it.
pub open spec fn spec_parse_dtb_header(s: Seq<u8>) -> Result<DtbHeader, UkaError> {
    let h = dtb_fields(s);
    if s.len() < DTB_HEADER_SIZE {
        Err(UkaError::TooSmall)
    } else if be_u32(s, 0) != FDT_MAGIC {
        Err(UkaError::BadMagic)
    } else if h.total_size < DTB_HEADER_SIZE || h.total_size > (s.len() as u32) {
        Err(UkaError::OutOfBounds)
    } else if h.version < h.last_compatible_version {
        Err(UkaError::InvalidField)
    } else if dtb_region_error(h.structure_offset, h.structure_size, h.total_size as int) is Some {
        Err(dtb_region_error(h.structure_offset, h.structure_size, h.total_size as int).unwrap())
    } else if dtb_region_error(h.strings_offset, h.strings_size, h.total_size as int) is Some {
        Err(dtb_region_error(h.strings_offset, h.strings_size, h.total_size as int).unwrap())
    } else if h.memory_reservation_offset >= h.total_size {
        Err(UkaError::OutOfBounds)
    } else {
        Ok(h)
    }
}

/// Parses and bounds-checks a flattened device tree header without modifying the DTB.
pub fn parse_dtb_header(data: &[u8]) -> (r: Result<DtbHeader, UkaError>)
    ensures
        r == spec_parse_dtb_header(data@),
{
    if data.len() < DTB_HEADER_SIZE {
        return Err(UkaError::TooSmall);
    }
    if read_u32_be(data, 0).unwrap() != FDT_MAGIC {
        return Err(UkaError::BadMagic);
    }
    let header = DtbHeader {
        total_size: read_u32_be(data, 4).unwrap(),
        structure_offset: read_u32_be(data, 8).unwrap(),
        strings_offset: read_u32_be(data, 12).unwrap(),
        memory_reservation_offset: read_u32_be(data, 16).unwrap(),
        version: read_u32_be(data, 20).unwrap(),
        last_compatible_version: read_u32_be(data, 24).unwrap(),
        boot_cpuid_phys: read_u32_be(data, 28).unwrap(),
        strings_size: read_u32_be(data, 32).unwrap(),
        structure_size: read_u32_be(data, 36).unwrap(),
    };
    if header.total_size < DTB_HEADER_SIZE as u32 || header.total_size > data.len() as u32 {
        return Err(UkaError::OutOfBounds);
    }
    if header.version < header.last_compatible_version {
        return Err(UkaError::InvalidField);
    }
    let total = header.total_size as usize;
    check_region(header.structure_offset, header.structure_size, total)?;
    check_region(header.strings_offset, header.strings_size, total)?;
    if header.memory_reservation_offset as usize >= total {
        return Err(UkaError::OutOfBounds);
    }
    Ok(header)
}

/// An accepted DTB header describes a blob of at least a header and at most the
/// input, whose structure and strings blocks follow the header inside the blob
/// and whose memory reservation table starts inside it. (Inputs of 4 GiB or
/// more are left out: the total size is compared with their length modulo
/// 2^32.)
pub proof fn lemma_dtb_blocks_inside_blob(s: Seq<u8>)
    requires
        spec_parse_dtb_header(s) is Ok,
        s.len() <= u32::MAX,
    ensures
        ({
            let h = spec_parse_dtb_header(s).unwrap();
            &&& DTB_HEADER_SIZE <= h.total_size <= s.len()
            &&& h.last_compatible_version <= h.version
            &&& DTB_HEADER_SIZE <= h.structure_offset
            &&& h.structure_offset + h.structure_size <= h.total_size
            &&& DTB_HEADER_SIZE <= h.strings_offset
            &&& h.strings_offset + h.strings_size <= h.total_size
            &&& h.memory_reservation_offset < h.total_size
        }),
{
}

/// An accepted DTB header reports the nine big-endian words that follow the
/// magic, in header order: total size, structure, strings and memory
/// reservation offsets, version, last compatible version, boot CPU, strings
/// size and structure size.
pub proof fn lemma_dtb_fields_come_from_their_offsets(s: Seq<u8>)
    requires
        spec_parse_dtb_header(s) is Ok,
    ensures
        ({
            let h = spec_parse_dtb_header(s).unwrap();
            &&& be_u32(s, 0) == FDT_MAGIC
            &&& h.total_size == be_u32(s, 4)
            &&& h.structure_offset == be_u32(s, 8)
            &&& h.strings_offset == be_u32(s, 12)
            &&& h.memory_reservation_offset == be_u32(s, 16)
            &&& h.version == be_u32(s, 20)
            &&& h.last_compatible_version == be_u32(s, 24)
            &&& h.boot_cpuid_phys == be_u32(s, 28)
            &&& h.strings_size == be_u32(s, 32)
            &&& h.structure_size == be_u32(s, 36)
        }),
{
}

} // verus!
