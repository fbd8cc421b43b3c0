use vstd::prelude::*;
use crate::bytes::{le_u16, le_u32, read_u16_le, read_u32_le};
use crate::error::UkaError;

verus! {

/// The Android sparse image magic.
pub const SPARSE_MAGIC: u32 = 0xed26ff3a;

/// The size of the sparse file header.
pub const SPARSE_HEADER_SIZE: usize = 28;

/// The fields of an Android sparse image header.
#[derive(Debug, Clone, Copy, PartialEq, Eq, Structural)]
pub struct SparseHeader {
    pub major_version: u16,
    pub minor_version: u16,
    pub file_header_size: u16,
    pub chunk_header_size: u16,
    pub block_size: u32,
    pub total_blocks: u32,
    pub total_chunks: u32,
    pub image_checksum: u32,
}

pub open spec fn sparse_fields(s: Seq<u8>) -> SparseHeader {
    SparseHeader {
        major_version: le_u16(s, 4),
        minor_version: le_u16(s, 6),
        file_header_size: le_u16(s, 8),
        chunk_header_size: le_u16(s, 10),
        block_size: le_u32(s, 12),
        total_blocks: le_u32(s, 16),
        total_chunks: le_u32(s, 20),
        image_checksum: le_u32(s, 24),
    }
}

/// The sparse header of `s`, or why it is refused, checked in this order: the
/// magic, major version 1, header sizes of at least 28 and 12 bytes, a nonzero
/// block size that is a multiple of 4, and a file header inside the input.
pub open spec fn spec_parse_sparse_header(s: Seq<u8>) -> Result<SparseHeader, UkaError> {
    let h = sparse_fields(s);
    if s.len() < SPARSE_HEADER_SIZE {
        Err(UkaError::TooSmall)
    } else if le_u32(s, 0) != SPARSE_MAGIC {
        Err(UkaError::BadMagic)
    } else if h.major_version != 1 {
        Err(UkaError::UnsupportedVersion)
    } else if h.file_header_size < SPARSE_HEADER_SIZE || h.chunk_header_size < 12 {
        Err(UkaError::InvalidHeaderSize)
    } else if h.block_size == 0 || h.block_size % 4 != 0 {
        Err(UkaError::InvalidField)
    } else if h.file_header_size > s.len() {
        Err(UkaError::OutOfBounds)
    } else {
        Ok(h)
    }
}

/// Parses an Android sparse image file header.
pub fn parse_sparse_header(data: &[u8]) -> (r: Result<SparseHeader, UkaError>)
    ensures
        r == spec_parse_sparse_header(data@),
{
    if data.len() < SPARSE_HEADER_SIZE {
        return Err(UkaError::TooSmall);
    }
    if read_u32_le(data, 0).unwrap() != SPARSE_MAGIC {
        return Err(UkaError::BadMagic);
    }
    let header = SparseHeader {
        major_version: read_u16_le(data, 4).unwrap(),
        minor_version: read_u16_le(data, 6).unwrap(),
        file_header_size: read_u16_le(data, 8).unwrap(),
        chunk_header_size: read_u16_le(data, 10).unwrap(),
        block_size: read_u32_le(data, 12).unwrap(),
        total_blocks: read_u32_le(data, 16).unwrap(),
        total_chunks: read_u32_le(data, 20).unwrap(),
        image_checksum: read_u32_le(data, 24).unwrap(),
    };
    if header.major_version != 1 {
        return Err(UkaError::UnsupportedVersion);
    }
    if header.file_header_size < SPARSE_HEADER_SIZE as u16 || header.chunk_header_size < 12 {
        return Err(UkaError::InvalidHeaderSize);
    }
    if header.block_size == 0 || header.block_size % 4 != 0 {
        return Err(UkaError::InvalidField);
    }
    if header.file_header_size as usize > data.len() {
        return Err(UkaError::OutOfBounds);
    }
    Ok(header)
}

/// An accepted sparse header is major version 1, with a file header of at least
/// 28 bytes inside the input and a nonzero block size that is a multiple of 4.
pub proof fn lemma_sparse_header_inside_input(s: Seq<u8>)
    requires
        spec_parse_sparse_header(s) is Ok,
    ensures
        ({
            let h = spec_parse_sparse_header(s).unwrap();
            &&& h.major_version == 1
            &&& SPARSE_HEADER_SIZE <= h.file_header_size <= s.len()
            &&& h.chunk_header_size >= 12
            &&& h.block_size > 0 && h.block_size % 4 == 0
        }),
{
}

/// An accepted sparse header reports the little-endian fields of the input's
/// first 28 bytes, each at its place: versions at 4 and 6, header sizes at 8
/// and 10, the block size at 12, the block and chunk totals at 16 and 20, and
/// the checksum at 24.
pub proof fn lemma_sparse_fields_come_from_their_offsets(s: Seq<u8>)
    requires
        spec_parse_sparse_header(s) is Ok,
    ensures
        ({
            let h = spec_parse_sparse_header(s).unwrap();
            &&& h.major_version == le_u16(s, 4)
            &&& h.minor_version == le_u16(s, 6)
            &&& h.file_header_size == le_u16(s, 8)
            &&& h.chunk_header_size == le_u16(s, 10)
            &&& h.block_size == le_u32(s, 12)
            &&& h.total_blocks == le_u32(s, 16)
            &&& h.total_chunks == le_u32(s, 20)
            &&& h.image_checksum == le_u32(s, 24)
        }),
{
}

} // verus!
