use vstd::prelude::*;
use vstd::slice::{slice_subrange, slice_to_vec};
use crate::bytes::{is_pow2, is_power_of_two, le_u32, le_u64, read_u32_le, read_u64_le};
use crate::error::UkaError;
use crate::magic::{has_vendor_boot_magic, vendor_boot_magic};
use crate::model::{ImageKind, VendorBootImage};

verus! {

/// The smallest header of a version 3 vendor_boot image.
pub const V3_HEADER_MIN: usize = 2112;

/// The smallest header of a version 4 vendor_boot image.
pub const V4_HEADER_MIN: usize = 2128;

/// `v` rounded up to a multiple of `a` (`a` positive).
pub open spec fn align_up(v: int, a: int) -> int {
    (v + a - 1) - (v + a - 1) % a
}

/// Rounds `value` up to a multiple of the power of two `alignment`.
fn align_up_checked(value: usize, alignment: usize) -> (r: Result<usize, UkaError>)
    ensures
        match r {
            Ok(v) => alignment > 0 && value + alignment - 1 <= usize::MAX && v == align_up(
                value as int,
                alignment as int,
            ),
            Err(e) => e == (if !is_pow2(alignment as nat) {
                UkaError::InvalidPageSize
            } else {
                UkaError::RangeOverflow
            }) && (!is_pow2(alignment as nat) || value + alignment - 1 > usize::MAX),
        },
{
    if !is_power_of_two(alignment as u64) {
        return Err(UkaError::InvalidPageSize);
    }
    match value.checked_add(alignment - 1) {
        Some(t) => Ok(t - t % alignment),
        None => Err(UkaError::RangeOverflow),
    }
}

/// Copies `size` bytes starting at `offset`.
fn copy_range(data: &[u8], offset: usize, size: usize) -> (r: Result<Vec<u8>, UkaError>)
    ensures
        match r {
            Ok(v) => offset + size <= data@.len() && v@ == data@.subrange(
                offset as int,
                offset + size,
            ),
            Err(e) => (offset + size > usize::MAX && e == UkaError::RangeOverflow) || (offset
                + size <= usize::MAX && offset + size > data@.len() && e == UkaError::OutOfBounds),
        },
{
    let end = match offset.checked_add(size) {
        Some(end) => end,
        None => return Err(UkaError::RangeOverflow),
    };
    if end > data.len() {
        return Err(UkaError::OutOfBounds);
    }
    Ok(slice_to_vec(slice_subrange(data, offset, end)))
}

pub open spec fn vb_header_version(s: Seq<u8>) -> u32 {
    le_u32(s, 8)
}

pub open spec fn vb_page_size(s: Seq<u8>) -> u32 {
    le_u32(s, 12)
}

pub open spec fn vb_ramdisk_size(s: Seq<u8>) -> u32 {
    le_u32(s, 24)
}

pub open spec fn vb_header_size(s: Seq<u8>) -> u32 {
    le_u32(s, 2096)
}

pub open spec fn vb_dtb_size(s: Seq<u8>) -> u32 {
    le_u32(s, 2100)
}

pub open spec fn vb_table_size(s: Seq<u8>) -> u32 {
    le_u32(s, 2112)
}

pub open spec fn vb_table_entries(s: Seq<u8>) -> u32 {
    le_u32(s, 2116)
}

pub open spec fn vb_table_entry_size(s: Seq<u8>) -> u32 {
    le_u32(s, 2120)
}

pub open spec fn vb_bootconfig_size(s: Seq<u8>) -> u32 {
    le_u32(s, 2124)
}

/// The smallest header that the image's version allows.
pub open spec fn vb_min_header(s: Seq<u8>) -> int {
    if vb_header_version(s) == 4 {
        V4_HEADER_MIN as int
    } else {
        V3_HEADER_MIN as int
    }
}

/// Where the vendor ramdisk starts: the header rounded up to a page.
pub open spec fn vb_ramdisk_offset(s: Seq<u8>) -> int {
    align_up(vb_header_size(s) as int, vb_page_size(s) as int)
}

/// Where the DTB starts: the end of the vendor ramdisk rounded up to a page.
pub open spec fn vb_dtb_offset(s: Seq<u8>) -> int {
    align_up(vb_ramdisk_offset(s) + vb_ramdisk_size(s), vb_page_size(s) as int)
}

/// Where the vendor ramdisk table starts (version 4).
pub open spec fn vb_table_offset(s: Seq<u8>) -> int {
    align_up(vb_dtb_offset(s) + vb_dtb_size(s), vb_page_size(s) as int)
}

/// Where the bootconfig section starts (version 4).
pub open spec fn vb_bootconfig_offset(s: Seq<u8>) -> int {
    align_up(vb_table_offset(s) + vb_table_size(s), vb_page_size(s) as int)
}

/// Why the version 4 ramdisk table of `s` is refused, checked in this order.
pub open spec fn vb_table_error(s: Seq<u8>) -> Option<UkaError> {
    let page = vb_page_size(s) as int;
    if vb_table_entry_size(s) == 0 && vb_table_entries(s) != 0 {
        Some(UkaError::InvalidField)
    } else if vb_table_entries(s) * vb_table_entry_size(s) > usize::MAX {
        Some(UkaError::RangeOverflow)
    } else if vb_table_entries(s) * vb_table_entry_size(s) > vb_table_size(s) {
        Some(UkaError::InvalidField)
    } else if vb_dtb_offset(s) + vb_dtb_size(s) + page - 1 > usize::MAX {
        Some(UkaError::RangeOverflow)
    } else if vb_table_offset(s) + vb_table_size(s) > usize::MAX {
        Some(UkaError::RangeOverflow)
    } else if vb_table_offset(s) + vb_table_size(s) + page - 1 > usize::MAX {
        Some(UkaError::RangeOverflow)
    } else {
        None
    }
}

/// Why `s` is not a vendor_boot image, checked in this order; `None` when it
/// is one. The vendor ramdisk follows the page-aligned header, the DTB follows
/// the page-aligned ramdisk, and both lie inside the input.
pub open spec fn vendor_boot_error(s: Seq<u8>) -> Option<UkaError> {
    let page = vb_page_size(s) as int;
    if s.len() < V3_HEADER_MIN || s.subrange(0, 8) != vendor_boot_magic() {
        Some(UkaError::BadMagic)
    } else if vb_header_version(s) != 3 && vb_header_version(s) != 4 {
        Some(UkaError::UnsupportedVersion)
    } else if !is_pow2(page as nat) {
        Some(UkaError::InvalidPageSize)
    } else if vb_header_size(s) < vb_min_header(s) || vb_header_size(s) > s.len() {
        Some(UkaError::InvalidHeaderSize)
    } else if vb_header_size(s) + page - 1 > usize::MAX {
        Some(UkaError::RangeOverflow)
    } else if vb_ramdisk_offset(s) + vb_ramdisk_size(s) > usize::MAX {
        Some(UkaError::RangeOverflow)
    } else if vb_ramdisk_offset(s) + vb_ramdisk_size(s) + page - 1 > usize::MAX {
        Some(UkaError::RangeOverflow)
    } else if vb_ramdisk_offset(s) + vb_ramdisk_size(s) > s.len() {
        Some(UkaError::OutOfBounds)
    } else if vb_dtb_offset(s) + vb_dtb_size(s) > usize::MAX {
        Some(UkaError::RangeOverflow)
    } else if vb_dtb_offset(s) + vb_dtb_size(s) > s.len() {
        Some(UkaError::OutOfBounds)
    } else if vb_header_version(s) == 4 {
        vb_table_error(s)
    } else {
        None
    }
}

/// `img` is the vendor_boot image that `s` holds.
pub open spec fn is_vendor_boot_image_of(s: Seq<u8>, img: VendorBootImage) -> bool {
    let v4 = vb_header_version(s) == 4;
    &&& img.kind == ImageKind::VendorBoot
    &&& img.header_version == vb_header_version(s)
    &&& img.page_size == vb_page_size(s)
    &&& img.kernel_load_addr == le_u32(s, 16) as u64
    &&& img.ramdisk_load_addr == le_u32(s, 20) as u64
    &&& img.vendor_ramdisk_offset == vb_ramdisk_offset(s)
    &&& img.vendor_ramdisk_size == vb_ramdisk_size(s) as u64
    &&& img.dtb_offset == vb_dtb_offset(s)
    &&& img.dtb_size == vb_dtb_size(s) as u64
    &&& img.dtb_load_addr == le_u64(s, 2104)
    &&& img.vendor_ramdisk_table_offset == (if v4 { Some(vb_table_offset(s) as u64) } else { None })
    &&& img.vendor_ramdisk_table_size == (if v4 { Some(vb_table_size(s) as u64) } else { None })
    &&& img.bootconfig_offset == (if v4 { Some(vb_bootconfig_offset(s) as u64) } else { None })
    &&& img.bootconfig_size == (if v4 { Some(vb_bootconfig_size(s) as u64) } else { None })
    &&& img.vendor_ramdisk@ == s.subrange(
        vb_ramdisk_offset(s),
        vb_ramdisk_offset(s) + vb_ramdisk_size(s),
    )
    &&& img.dtb@ == s.subrange(vb_dtb_offset(s), vb_dtb_offset(s) + vb_dtb_size(s))
}

/// Parses a vendor_boot image (header version 3 or 4) and copies out its vendor
/// ramdisk and DTB.
pub fn parse_vendor_boot_image(data: &[u8]) -> (r: Result<VendorBootImage, UkaError>)
    ensures
        match r {
            Ok(img) => vendor_boot_error(data@) is None && is_vendor_boot_image_of(data@, img),
            Err(e) => vendor_boot_error(data@) == Some(e),
        },
{
    let ghost s = data@;
    if data.len() < V3_HEADER_MIN || !has_vendor_boot_magic(data, 0) {
        return Err(UkaError::BadMagic);
    }
    let header_version = read_u32_le(data, 8).unwrap();
    if header_version != 3 && header_version != 4 {
        return Err(UkaError::UnsupportedVersion);
    }
    let page_size = read_u32_le(data, 12).unwrap();
    if !is_power_of_two(page_size as u64) {
        return Err(UkaError::InvalidPageSize);
    }
    let kernel_load_addr = read_u32_le(data, 16).unwrap() as u64;
    let ramdisk_load_addr = read_u32_le(data, 20).unwrap() as u64;
    let vendor_ramdisk_size = read_u32_le(data, 24).unwrap() as usize;
    let header_size = read_u32_le(data, 2096).unwrap() as usize;
    let dtb_size = read_u32_le(data, 2100).unwrap() as usize;
    let dtb_load_addr = read_u64_le(data, 2104).unwrap();

    let minimum_header = if header_version == 4 { V4_HEADER_MIN } else { V3_HEADER_MIN };
    if header_size < minimum_header || header_size > data.len() {
        return Err(UkaError::InvalidHeaderSize);
    }
    let page = page_size as usize;
    let header_end = align_up_checked(header_size, page)?;
    let ramdisk_end = match header_end.checked_add(vendor_ramdisk_size) {
        Some(end) => end,
        None => return Err(UkaError::RangeOverflow),
    };
    let dtb_offset = align_up_checked(ramdisk_end, page)?;
    let vendor_ramdisk = copy_range(data, header_end, vendor_ramdisk_size)?;
    let dtb = copy_range(data, dtb_offset, dtb_size)?;

    let (table_offset, table_size, bootconfig_offset, bootconfig_size) = if header_version == 4 {
        let table_size = read_u32_le(data, 2112).unwrap() as usize;
        let entries = read_u32_le(data, 2116).unwrap() as usize;
        let entry_size = read_u32_le(data, 2120).unwrap() as usize;
        let config_size = read_u32_le(data, 2124).unwrap() as usize;
        if entry_size == 0 && entries != 0 {
            return Err(UkaError::InvalidField);
        }
        let expected = match entries.checked_mul(entry_size) {
            Some(expected) => expected,
            None => return Err(UkaError::RangeOverflow),
        };
        if expected > table_size {
            return Err(UkaError::InvalidField);
        }
        let dtb_end = match dtb_offset.checked_add(dtb_size) {
            Some(end) => end,
            None => return Err(UkaError::RangeOverflow),
        };
        let table_offset = align_up_checked(dtb_end, page)?;
        let table_end = match table_offset.checked_add(table_size) {
            Some(end) => end,
            None => return Err(UkaError::RangeOverflow),
        };
        let config_offset = align_up_checked(table_end, page)?;
        (
            Some(table_offset as u64),
            Some(table_size as u64),
            Some(config_offset as u64),
            Some(config_size as u64),
        )
    } else {
        (None, None, None, None)
    };

    Ok(VendorBootImage {
        kind: ImageKind::VendorBoot,
        header_version,
        page_size,
        kernel_load_addr,
        ramdisk_load_addr,
        vendor_ramdisk_offset: header_end as u64,
        vendor_ramdisk_size: vendor_ramdisk_size as u64,
        dtb_offset: dtb_offset as u64,
        dtb_size: dtb_size as u64,
        dtb_load_addr,
        vendor_ramdisk_table_offset: table_offset,
        vendor_ramdisk_table_size: table_size,
        bootconfig_offset,
        bootconfig_size,
        vendor_ramdisk,
        dtb,
    })
}

/// Rounding up to a multiple of `a` gives the least multiple of `a` at or
/// above `v`.
proof fn lemma_align_up_is_least_multiple(v: int, a: int)
    requires
        0 <= v,
        0 < a,
    ensures
        align_up(v, a) % a == 0,
        v <= align_up(v, a) < v + a,
{
    let x = v + a - 1;
    vstd::arithmetic::div_mod::lemma_fundamental_div_mod(x, a);
    vstd::arithmetic::div_mod::lemma_mod_bound(x, a);
    vstd::arithmetic::div_mod::lemma_mod_multiples_basic(x / a, a);
    assert(x - x % a == a * (x / a));
    assert((x / a) * a == a * (x / a)) by (nonlinear_arith);
}

/// In a parsed vendor_boot image every section starts on a page boundary at
/// the first page at or after the end of the section before it: the vendor
/// ramdisk after the header, the DTB after the ramdisk and, for version 4, the
/// ramdisk table after the DTB and the bootconfig after the ramdisk table. No
/// section overlaps the one before it.
pub proof fn lemma_vendor_boot_sections_follow_on_pages(s: Seq<u8>, img: VendorBootImage)
    requires
        vendor_boot_error(s) is None,
        is_vendor_boot_image_of(s, img),
    ensures
        ({
            let p = img.page_size as int;
            let hdr = le_u32(s, 2096) as int;
            &&& p > 0
            &&& (img.vendor_ramdisk_offset as int) % p == 0
            &&& hdr <= img.vendor_ramdisk_offset < hdr + p
            &&& (img.dtb_offset as int) % p == 0
            &&& img.vendor_ramdisk_offset + img.vendor_ramdisk_size <= img.dtb_offset
            &&& img.dtb_offset < img.vendor_ramdisk_offset + img.vendor_ramdisk_size + p
            &&& img.header_version == 4 ==> (img.vendor_ramdisk_table_offset matches Some(t) && {
                &&& (t as int) % p == 0
                &&& img.dtb_offset + img.dtb_size <= t < img.dtb_offset + img.dtb_size + p
            })
            &&& img.header_version == 4 ==> (img.vendor_ramdisk_table_offset matches Some(t)
                && img.vendor_ramdisk_table_size matches Some(z)
                && img.bootconfig_offset matches Some(c) && {
                &&& (c as int) % p == 0
                &&& t + z <= c < t + z + p
            })
        }),
{
    let p = vb_page_size(s) as int;
    assert(p > 0);
    lemma_align_up_is_least_multiple(vb_header_size(s) as int, p);
    lemma_align_up_is_least_multiple(vb_ramdisk_offset(s) + vb_ramdisk_size(s), p);
    if vb_header_version(s) == 4 {
        lemma_align_up_is_least_multiple(vb_dtb_offset(s) + vb_dtb_size(s), p);
        lemma_align_up_is_least_multiple(vb_table_offset(s) + vb_table_size(s), p);
    }
}

/// A parsed vendor_boot image reports the header words at their places
/// (version at 8, page size at 12, load addresses at 16, 20 and 2104, vendor
/// ramdisk size at 24, DTB size at 2100, and for version 4 the ramdisk table
/// size at 2112 and the bootconfig size at 2124), and its vendor ramdisk and
/// DTB are the input's bytes at the reported offsets and sizes.
pub proof fn lemma_vendor_boot_fields_come_from_their_offsets(s: Seq<u8>, img: VendorBootImage)
    requires
        vendor_boot_error(s) is None,
        is_vendor_boot_image_of(s, img),
    ensures
        img.header_version == le_u32(s, 8),
        img.page_size == le_u32(s, 12),
        img.kernel_load_addr == le_u32(s, 16),
        img.ramdisk_load_addr == le_u32(s, 20),
        img.vendor_ramdisk_size == le_u32(s, 24),
        img.dtb_size == le_u32(s, 2100),
        img.dtb_load_addr == le_u64(s, 2104),
        img.header_version == 4 ==> img.vendor_ramdisk_table_size == Some(le_u32(s, 2112) as u64),
        img.header_version == 4 ==> img.bootconfig_size == Some(le_u32(s, 2124) as u64),
        img.header_version == 3 ==> img.vendor_ramdisk_table_offset is None
            && img.bootconfig_offset is None,
        img.vendor_ramdisk_offset + img.vendor_ramdisk_size <= s.len(),
        img.vendor_ramdisk@ == s.subrange(
            img.vendor_ramdisk_offset as int,
            img.vendor_ramdisk_offset + img.vendor_ramdisk_size,
        ),
        img.dtb_offset + img.dtb_size <= s.len(),
        img.dtb@ == s.subrange(img.dtb_offset as int, img.dtb_offset + img.dtb_size),
{
}

} // verus!
