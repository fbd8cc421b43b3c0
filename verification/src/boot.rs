use vstd::prelude::*;
use vstd::slice::{slice_subrange, slice_to_vec};
use crate::bytes::{is_pow2, is_power_of_two, le_u32, read_u32_le};
use crate::error::UkaError;
use crate::magic::{android_magic, has_android_magic};
use crate::model::{ImageKind, KernelImage};

verus! {

/// The smallest input that can hold the fields of a boot image header.
pub const BOOT_MIN_LEN: usize = 44;

/// Inputs of at least this length carry the header version field.
pub const BOOT_VERSIONED_LEN: usize = 164;

pub open spec fn boot_kernel_size(s: Seq<u8>) -> u32 {
    le_u32(s, 8)
}

pub open spec fn boot_kernel_addr(s: Seq<u8>) -> u32 {
    le_u32(s, 12)
}

pub open spec fn boot_page_size(s: Seq<u8>) -> u32 {
    le_u32(s, 36)
}

/// The header version: the field at offset 40 where the input holds a full
/// versioned header, else 0.
pub open spec fn boot_header_version(s: Seq<u8>) -> u32 {
    if s.len() >= BOOT_VERSIONED_LEN {
        le_u32(s, 40)
    } else {
        0
    }
}

/// The image kind named by a boot header version; versions above 3 are v4.
pub open spec fn boot_kind_of_version(v: u32) -> ImageKind {
    if v == 0 {
        ImageKind::BootV0
    } else if v == 1 {
        ImageKind::BootV1
    } else if v == 2 {
        ImageKind::BootV2
    } else if v == 3 {
        ImageKind::BootV3
    } else {
        ImageKind::BootV4
    }
}

/// Why `s` is not a boot image, checked in this order; `None` when it is one.
/// The kernel starts one page into the image and spans `kernel_size` bytes.
pub open spec fn boot_error(s: Seq<u8>) -> Option<UkaError> {
    if s.len() < BOOT_MIN_LEN {
        Some(UkaError::TooSmall)
    } else if s.subrange(0, 8) != android_magic() {
        Some(UkaError::BadMagic)
    } else if !is_pow2(boot_page_size(s) as nat) {
        Some(UkaError::InvalidPageSize)
    } else if boot_page_size(s) + boot_kernel_size(s) > usize::MAX {
        Some(UkaError::RangeOverflow)
    } else if boot_page_size(s) + boot_kernel_size(s) > s.len() {
        Some(UkaError::OutOfBounds)
    } else {
        None
    }
}

/// `img` is the boot image that `s` holds.
pub open spec fn is_boot_image_of(s: Seq<u8>, img: KernelImage) -> bool {
    let page = boot_page_size(s);
    let size = boot_kernel_size(s);
    &&& img.kind == boot_kind_of_version(boot_header_version(s))
    &&& img.header_version == Some(boot_header_version(s))
    &&& img.page_size == Some(page)
    &&& img.kernel_load_addr == Some(boot_kernel_addr(s) as u64)
    &&& img.kernel_offset == Some(boot_kernel_addr(s) as u64)
    &&& img.kernel_size == Some(size as u64)
    &&& img.kernel@ == s.subrange(page as int, page + size)
}

/// Parses an Android boot image header (v0-v4) and copies out its kernel.
///
/// Both `kernel_offset` and `kernel_load_addr` hold the kernel address that
/// the header records (`kernel_addr`); the kernel bytes themselves are read
/// from one page into the image.
pub fn parse_boot_image(data: &[u8]) -> (r: Result<KernelImage, UkaError>)
    ensures
        match r {
            Ok(img) => boot_error(data@) is None && is_boot_image_of(data@, img),
            Err(e) => boot_error(data@) == Some(e),
        },
{
    if data.len() < BOOT_MIN_LEN {
        return Err(UkaError::TooSmall);
    }
    if !has_android_magic(data, 0) {
        return Err(UkaError::BadMagic);
    }
    let kernel_size = read_u32_le(data, 8).unwrap();
    let kernel_addr = read_u32_le(data, 12).unwrap();
    let page_size = read_u32_le(data, 36).unwrap();
    let header_version = if data.len() >= BOOT_VERSIONED_LEN {
        read_u32_le(data, 40).unwrap()
    } else {
        0
    };
    if !is_power_of_two(page_size as u64) {
        return Err(UkaError::InvalidPageSize);
    }
    let kernel_offset = page_size as usize;
    let end = match kernel_offset.checked_add(kernel_size as usize) {
        Some(end) => end,
        None => return Err(UkaError::RangeOverflow),
    };
    if end > data.len() {
        return Err(UkaError::OutOfBounds);
    }
    let kind = match header_version {
        0 => ImageKind::BootV0,
        1 => ImageKind::BootV1,
        2 => ImageKind::BootV2,
        3 => ImageKind::BootV3,
        _ => ImageKind::BootV4,
    };
    Ok(KernelImage {
        kind,
        header_version: Some(header_version),
        page_size: Some(page_size),
        kernel_load_addr: Some(kernel_addr as u64),
        kernel_offset: Some(kernel_addr as u64),
        kernel_size: Some(kernel_size as u64),
        kernel: slice_to_vec(slice_subrange(data, kernel_offset, end)),
    })
}

/// A parsed boot image holds the `kernel_size` bytes (header word at 8) that
/// start one page (header word at 36, a power of two) into the input; it
/// reports the kernel address at 12, and the header version at 40 when the
/// input holds a full versioned header, else 0.
pub proof fn lemma_boot_kernel_comes_from_its_page(s: Seq<u8>, img: KernelImage)
    requires
        boot_error(s) is None,
        is_boot_image_of(s, img),
    ensures
        ({
            let page = le_u32(s, 36) as int;
            let size = le_u32(s, 8) as int;
            &&& is_pow2(page as nat)
            &&& page + size <= s.len()
            &&& img.kernel@ == s.subrange(page, page + size)
            &&& img.page_size == Some(le_u32(s, 36))
            &&& img.kernel_size == Some(le_u32(s, 8) as u64)
            &&& img.kernel_offset == Some(le_u32(s, 12) as u64)
            &&& img.header_version == Some(if s.len() >= 164 { le_u32(s, 40) } else { 0u32 })
        }),
{
}

} // verus!
