use vstd::prelude::*;
use vstd::slice::{slice_subrange, slice_to_vec};
use crate::bytes::{le_u32, read_u32_le};
use crate::error::UkaError;
use crate::magic::{android_magic, has_android_magic};
use crate::model::{ImageKind, InitBootImage};

verus! {

/// The fixed page size of init_boot images; the ramdisk starts one page in.
pub const INIT_BOOT_PAGE_SIZE: usize = 4096;

/// The header size that a version 4 boot header declares.
pub const INIT_BOOT_HEADER_SIZE: u32 = 1584;

/// Where the boot signature size is stored.
pub const BOOT_SIGNATURE_SIZE_OFFSET: usize = 1580;

pub open spec fn init_kernel_size(s: Seq<u8>) -> u32 {
    le_u32(s, 8)
}

pub open spec fn init_ramdisk_size(s: Seq<u8>) -> u32 {
    le_u32(s, 12)
}

pub open spec fn init_header_size(s: Seq<u8>) -> u32 {
    le_u32(s, 20)
}

pub open spec fn init_header_version(s: Seq<u8>) -> u32 {
    le_u32(s, 40)
}

/// Why `s` is not an init_boot image, checked in this order; `None` when it is
/// one: a version 4 `ANDROID!` header of 1584 bytes, with no kernel and a
/// ramdisk that starts one page in and lies inside the input.
pub open spec fn init_boot_error(s: Seq<u8>) -> Option<UkaError> {
    if s.len() < INIT_BOOT_PAGE_SIZE {
        Some(UkaError::TooSmall)
    } else if s.subrange(0, 8) != android_magic() {
        Some(UkaError::BadMagic)
    } else if init_header_version(s) != 4 {
        Some(UkaError::UnsupportedVersion)
    } else if init_kernel_size(s) != 0 {
        Some(UkaError::InvalidField)
    } else if init_header_size(s) != INIT_BOOT_HEADER_SIZE {
        Some(UkaError::InvalidHeaderSize)
    } else if INIT_BOOT_PAGE_SIZE + init_ramdisk_size(s) > usize::MAX {
        Some(UkaError::RangeOverflow)
    } else if INIT_BOOT_PAGE_SIZE + init_ramdisk_size(s) > s.len() {
        Some(UkaError::OutOfBounds)
    } else {
        None
    }
}

/// `img` is the init_boot image that `s` holds.
pub open spec fn is_init_boot_image_of(s: Seq<u8>, img: InitBootImage) -> bool {
    &&& img.kind == ImageKind::InitBoot
    &&& img.header_version == init_header_version(s)
    &&& img.page_size == INIT_BOOT_PAGE_SIZE
    &&& img.header_size == init_header_size(s)
    &&& img.kernel_size == init_kernel_size(s)
    &&& img.ramdisk_offset == INIT_BOOT_PAGE_SIZE
    &&& img.ramdisk_size == init_ramdisk_size(s)
    &&& img.boot_signature_size == le_u32(s, BOOT_SIGNATURE_SIZE_OFFSET as int)
    &&& img.ramdisk@ == s.subrange(
        INIT_BOOT_PAGE_SIZE as int,
        INIT_BOOT_PAGE_SIZE + init_ramdisk_size(s),
    )
}

/// Parses an init_boot image (boot header version 4 without a kernel).
pub fn parse_init_boot_image(data: &[u8]) -> (r: Result<InitBootImage, UkaError>)
    ensures
        match r {
            Ok(img) => init_boot_error(data@) is None && is_init_boot_image_of(data@, img),
            Err(e) => init_boot_error(data@) == Some(e),
        },
{
    if data.len() < INIT_BOOT_PAGE_SIZE {
        return Err(UkaError::TooSmall);
    }
    if !has_android_magic(data, 0) {
        return Err(UkaError::BadMagic);
    }
    let kernel_size = read_u32_le(data, 8).unwrap();
    let ramdisk_size = read_u32_le(data, 12).unwrap();
    let header_size = read_u32_le(data, 20).unwrap();
    let header_version = read_u32_le(data, 40).unwrap();
    if header_version != 4 {
        return Err(UkaError::UnsupportedVersion);
    }
    if kernel_size != 0 {
        return Err(UkaError::InvalidField);
    }
    if header_size != INIT_BOOT_HEADER_SIZE {
        return Err(UkaError::InvalidHeaderSize);
    }
    let boot_signature_size = read_u32_le(data, BOOT_SIGNATURE_SIZE_OFFSET).unwrap();
    let ramdisk_offset = INIT_BOOT_PAGE_SIZE;
    let ramdisk_end = match ramdisk_offset.checked_add(ramdisk_size as usize) {
        Some(end) => end,
        None => return Err(UkaError::RangeOverflow),
    };
    if ramdisk_end > data.len() {
        return Err(UkaError::OutOfBounds);
    }
    Ok(InitBootImage {
        kind: ImageKind::InitBoot,
        header_version,
        page_size: INIT_BOOT_PAGE_SIZE as u32,
        header_size,
        kernel_size,
        ramdisk_offset: ramdisk_offset as u64,
        ramdisk_size,
        boot_signature_size,
        ramdisk: slice_to_vec(slice_subrange(data, ramdisk_offset, ramdisk_end)),
    })
}

/// A parsed init_boot image is a version 4 header (word at 40) of 1584 bytes
/// (word at 20) with no kernel (word at 8 is zero); its ramdisk is the
/// `ramdisk_size` bytes (word at 12) that start 4096 bytes into the input.
pub proof fn lemma_init_boot_ramdisk_comes_from_its_page(s: Seq<u8>, img: InitBootImage)
    requires
        init_boot_error(s) is None,
        is_init_boot_image_of(s, img),
    ensures
        le_u32(s, 40) == 4,
        le_u32(s, 20) == 1584,
        le_u32(s, 8) == 0,
        4096 + le_u32(s, 12) <= s.len(),
        img.ramdisk_size == le_u32(s, 12),
        img.ramdisk@ == s.subrange(4096, 4096 + le_u32(s, 12)),
        img.boot_signature_size == le_u32(s, 1580),
{
}

} // verus!
