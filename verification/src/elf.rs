use vstd::prelude::*;
use crate::bytes::{le_u16, le_u32, le_u64, read_u16_le, read_u32_le, read_u64_le};
use crate::error::UkaError;
use crate::magic::{elf_magic, has_elf_magic};

verus! {

/// The identification and table fields of an ELF header.
#[derive(Debug, Clone, Copy, PartialEq, Eq, Structural)]
pub struct ElfHeader {
    pub class: u8,
    pub endian: u8,
    pub machine: u16,
    pub entry: u64,
    pub program_header_offset: u64,
    pub section_header_offset: u64,
    pub program_header_size: u16,
    pub program_header_count: u16,
    pub section_header_size: u16,
    pub section_header_count: u16,
    pub section_name_index: u16,
}

/// Why a table of `count` entries of `entry_size` bytes at `offset` does not fit
/// in an input of `len` bytes; an empty table always fits.
pub open spec fn table_error(offset: u64, entry_size: u16, count: u16, len: int) -> Option<
    UkaError,
> {
    if count == 0 {
        None
    } else if entry_size == 0 {
        Some(UkaError::InvalidField)
    } else if offset + entry_size * count > u64::MAX {
        Some(UkaError::RangeOverflow)
    } else if offset + entry_size * count > len {
        Some(UkaError::OutOfBounds)
    } else {
        None
    }
}

fn check_table(offset: u64, entry_size: u16, count: u16, len: usize) -> (r: Result<(), UkaError>)
    ensures
        match r {
            Ok(()) => table_error(offset, entry_size, count, len as int) is None,
            Err(e) => table_error(offset, entry_size, count, len as int) == Some(e),
        },
{
    if count == 0 {
        return Ok(());
    }
    if entry_size == 0 {
        return Err(UkaError::InvalidField);
    }
    assert(entry_size * count <= 0xffff * 0xffff) by (nonlinear_arith)
        requires
            entry_size <= 0xffff,
            count <= 0xffff,
    ;
    let end = match offset.checked_add(entry_size as u64 * count as u64) {
        Some(end) => end,
        None => return Err(UkaError::RangeOverflow),
    };
    if end > len as u64 {
        return Err(UkaError::OutOfBounds);
    }
    Ok(())
}

/// The header that `s` declares, before its tables are checked: ELF64 fields
/// for class 2, ELF32 fields (widened) for class 1.
pub open spec fn elf_fields(s: Seq<u8>) -> ElfHeader {
    if s[4] == 2 {
        ElfHeader {
            class: s[4],
            endian: s[5],
            machine: le_u16(s, 18),
            entry: le_u64(s, 24),
            program_header_offset: le_u64(s, 32),
            section_header_offset: le_u64(s, 40),
            program_header_size: le_u16(s, 54),
            program_header_count: le_u16(s, 56),
            section_header_size: le_u16(s, 58),
            section_header_count: le_u16(s, 60),
            section_name_index: le_u16(s, 62),
        }
    } else {
        ElfHeader {
            class: s[4],
            endian: s[5],
            machine: le_u16(s, 18),
            entry: le_u32(s, 24) as u64,
            program_header_offset: le_u32(s, 28) as u64,
            section_header_offset: le_u32(s, 32) as u64,
            program_header_size: le_u16(s, 42),
            program_header_count: le_u16(s, 44),
            section_header_size: le_u16(s, 46),
            section_header_count: le_u16(s, 48),
            section_name_index: le_u16(s, 50),
        }
    }
}

/// The ELF header of `s`, or why it is refused, checked in this order: a
/// little-endian ELF32 or ELF64 identification of version 1 or unset (0), a
/// full header for its class whose header-size field, where set, names that
/// size, program and section tables inside the input, and a section-name index
/// inside the section table.
pub open spec fn spec_parse_elf_header(s: Seq<u8>) -> Result<ElfHeader, UkaError> {
    let h = elf_fields(s);
    let (min_len, ehsize_off, ehsize) = if s[4] == 2 {
        (64int, 52int, 64u16)
    } else {
        (52int, 40int, 52u16)
    };
    if s.len() < 20 {
        Err(UkaError::TooSmall)
    } else if s.subrange(0, 4) != elf_magic() {
        Err(UkaError::BadMagic)
    } else if s[5] != 1 || (s[4] != 1 && s[4] != 2) {
        Err(UkaError::UnsupportedFormat)
    } else if s[6] > 1 {
        Err(UkaError::UnsupportedVersion)
    } else if s.len() < min_len {
        Err(UkaError::TooSmall)
    } else if le_u16(s, ehsize_off) != 0 && le_u16(s, ehsize_off) != ehsize {
        Err(UkaError::InvalidHeaderSize)
    } else if table_error(
        h.program_header_offset,
        h.program_header_size,
        h.program_header_count,
        s.len() as int,
    ) is Some {
        Err(
            table_error(
                h.program_header_offset,
                h.program_header_size,
                h.program_header_count,
                s.len() as int,
            ).unwrap(),
        )
    } else if table_error(
        h.section_header_offset,
        h.section_header_size,
        h.section_header_count,
        s.len() as int,
    ) is Some {
        Err(
            table_error(
                h.section_header_offset,
                h.section_header_size,
                h.section_header_count,
                s.len() as int,
            ).unwrap(),
        )
    } else if h.section_header_count != 0 && h.section_name_index >= h.section_header_count {
        Err(UkaError::InvalidField)
    } else {
        Ok(h)
    }
}

/// Parses an ELF32/ELF64 little-endian header and validates table bounds.
pub fn parse_elf_header(data: &[u8]) -> (r: Result<ElfHeader, UkaError>)
    ensures
        r == spec_parse_elf_header(data@),
{
    if data.len() < 20 {
        return Err(UkaError::TooSmall);
    }
    if !has_elf_magic(data, 0) {
        return Err(UkaError::BadMagic);
    }
    let class = data[4];
    let endian = data[5];
    if endian != 1 || (class != 1 && class != 2) {
        return Err(UkaError::UnsupportedFormat);
    }
    if data[6] > 1 {
        return Err(UkaError::UnsupportedVersion);
    }
    let machine = read_u16_le(data, 18).unwrap();
    let h = if class == 2 {
        if data.len() < 64 {
            return Err(UkaError::TooSmall);
        }
        let ehsize = read_u16_le(data, 52).unwrap();
        if ehsize != 0 && ehsize != 64 {
            return Err(UkaError::InvalidHeaderSize);
        }
        ElfHeader {
            class,
            endian,
            machine,
            entry: read_u64_le(data, 24).unwrap(),
            program_header_offset: read_u64_le(data, 32).unwrap(),
            section_header_offset: read_u64_le(data, 40).unwrap(),
            program_header_size: read_u16_le(data, 54).unwrap(),
            program_header_count: read_u16_le(data, 56).unwrap(),
            section_header_size: read_u16_le(data, 58).unwrap(),
            section_header_count: read_u16_le(data, 60).unwrap(),
            section_name_index: read_u16_le(data, 62).unwrap(),
        }
    } else {
        if data.len() < 52 {
            return Err(UkaError::TooSmall);
        }
        let ehsize = read_u16_le(data, 40).unwrap();
        if ehsize != 0 && ehsize != 52 {
            return Err(UkaError::InvalidHeaderSize);
        }
        ElfHeader {
            class,
            endian,
            machine,
            entry: read_u32_le(data, 24).unwrap() as u64,
            program_header_offset: read_u32_le(data, 28).unwrap() as u64,
            section_header_offset: read_u32_le(data, 32).unwrap() as u64,
            program_header_size: read_u16_le(data, 42).unwrap(),
            program_header_count: read_u16_le(data, 44).unwrap(),
            section_header_size: read_u16_le(data, 46).unwrap(),
            section_header_count: read_u16_le(data, 48).unwrap(),
            section_name_index: read_u16_le(data, 50).unwrap(),
        }
    };
    assert(h == elf_fields(data@));
    check_table(h.program_header_offset, h.program_header_size, h.program_header_count, data.len())?;
    check_table(h.section_header_offset, h.section_header_size, h.section_header_count, data.len())?;
    if h.section_header_count != 0 && h.section_name_index >= h.section_header_count {
        return Err(UkaError::InvalidField);
    }
    Ok(h)
}

/// An accepted ELF header declares a class of 1 or 2, little-endian data, and
/// program and section tables that lie inside the input.
pub proof fn lemma_elf_tables_inside_input(s: Seq<u8>)
    requires
        spec_parse_elf_header(s) is Ok,
    ensures
        ({
            let h = spec_parse_elf_header(s).unwrap();
            &&& h.class == 1 || h.class == 2
            &&& h.endian == 1
            &&& h.program_header_count > 0 ==> h.program_header_offset + h.program_header_size
                * h.program_header_count <= s.len()
            &&& h.section_header_count > 0 ==> h.section_header_offset + h.section_header_size
                * h.section_header_count <= s.len()
            &&& h.section_header_count > 0 ==> h.section_name_index < h.section_header_count
        }),
{
}

/// An accepted ELF header reports the fields stored in the input at the
/// offsets of its class: for ELF64 the 64-bit entry point and table offsets at
/// 24, 32 and 40 and the 16-bit table fields at 54 to 62; for ELF32 the 32-bit
/// entry point and table offsets at 24, 28 and 32 and the table fields at 42
/// to 50; the machine at 18 in both.
pub proof fn lemma_elf_fields_come_from_their_offsets(s: Seq<u8>)
    requires
        spec_parse_elf_header(s) is Ok,
    ensures
        ({
            let h = spec_parse_elf_header(s).unwrap();
            &&& h.class == s[4]
            &&& h.endian == s[5]
            &&& h.machine == le_u16(s, 18)
            &&& s[4] == 2 ==> {
                &&& h.entry == le_u64(s, 24)
                &&& h.program_header_offset == le_u64(s, 32)
                &&& h.section_header_offset == le_u64(s, 40)
                &&& h.program_header_size == le_u16(s, 54)
                &&& h.program_header_count == le_u16(s, 56)
                &&& h.section_header_size == le_u16(s, 58)
                &&& h.section_header_count == le_u16(s, 60)
                &&& h.section_name_index == le_u16(s, 62)
            }
            &&& s[4] == 1 ==> {
                &&& h.entry == le_u32(s, 24)
                &&& h.program_header_offset == le_u32(s, 28)
                &&& h.section_header_offset == le_u32(s, 32)
                &&& h.program_header_size == le_u16(s, 42)
                &&& h.program_header_count == le_u16(s, 44)
                &&& h.section_header_size == le_u16(s, 46)
                &&& h.section_header_count == le_u16(s, 48)
                &&& h.section_name_index == le_u16(s, 50)
            }
        }),
{
}

} // verus!
