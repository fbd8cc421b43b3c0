use vstd::prelude::*;
use crate::bytes::{holds_at, holds_pattern};

verus! {

/// `ANDROID!`, the magic of boot and init_boot images.
pub open spec fn android_magic() -> Seq<u8> {
    seq![0x41u8, 0x4Eu8, 0x44u8, 0x52u8, 0x4Fu8, 0x49u8, 0x44u8, 0x21u8]
}

/// Whether `data` holds `ANDROID!`, the magic of boot and init_boot images at `off`.
pub fn has_android_magic(data: &[u8], off: usize) -> (r: bool)
    ensures
        r == holds_at(data@, off as int, android_magic()),
{
    let pat: [u8; 8] = [0x41, 0x4E, 0x44, 0x52, 0x4F, 0x49, 0x44, 0x21];
    assert(pat@ =~= android_magic());
    holds_pattern(data, off, &pat)
}

/// `VNDRBOOT`, the magic of vendor_boot images.
pub open spec fn vendor_boot_magic() -> Seq<u8> {
    seq![0x56u8, 0x4Eu8, 0x44u8, 0x52u8, 0x42u8, 0x4Fu8, 0x4Fu8, 0x54u8]
}

/// Whether `data` holds `VNDRBOOT`, the magic of vendor_boot images at `off`.
pub fn has_vendor_boot_magic(data: &[u8], off: usize) -> (r: bool)
    ensures
        r == holds_at(data@, off as int, vendor_boot_magic()),
{
    let pat: [u8; 8] = [0x56, 0x4E, 0x44, 0x52, 0x42, 0x4F, 0x4F, 0x54];
    assert(pat@ =~= vendor_boot_magic());
    holds_pattern(data, off, &pat)
}

/// `CrAU`, the magic of payload.bin.
pub open spec fn payload_magic() -> Seq<u8> {
    seq![0x43u8, 0x72u8, 0x41u8, 0x55u8]
}

/// Whether `data` holds `CrAU`, the magic of payload.bin at `off`.
pub fn has_payload_magic(data: &[u8], off: usize) -> (r: bool)
    ensures
        r == holds_at(data@, off as int, payload_magic()),
{
    let pat: [u8; 4] = [0x43, 0x72, 0x41, 0x55];
    assert(pat@ =~= payload_magic());
    holds_pattern(data, off, &pat)
}

/// `PK\x03\x04`, a ZIP local file header.
pub open spec fn zip_local_magic() -> Seq<u8> {
    seq![0x50u8, 0x4Bu8, 0x03u8, 0x04u8]
}

/// Whether `data` holds `PK\x03\x04`, a ZIP local file header at `off`.
pub fn has_zip_local_magic(data: &[u8], off: usize) -> (r: bool)
    ensures
        r == holds_at(data@, off as int, zip_local_magic()),
{
    let pat: [u8; 4] = [0x50, 0x4B, 0x03, 0x04];
    assert(pat@ =~= zip_local_magic());
    holds_pattern(data, off, &pat)
}

/// `PK\x05\x06`, a ZIP end of central directory record.
pub open spec fn zip_end_magic() -> Seq<u8> {
    seq![0x50u8, 0x4Bu8, 0x05u8, 0x06u8]
}

/// Whether `data` holds `PK\x05\x06`, a ZIP end of central directory record at `off`.
pub fn has_zip_end_magic(data: &[u8], off: usize) -> (r: bool)
    ensures
        r == holds_at(data@, off as int, zip_end_magic()),
{
    let pat: [u8; 4] = [0x50, 0x4B, 0x05, 0x06];
    assert(pat@ =~= zip_end_magic());
    holds_pattern(data, off, &pat)
}

/// `PK\x07\x08`, a spanned ZIP archive.
pub open spec fn zip_spanned_magic() -> Seq<u8> {
    seq![0x50u8, 0x4Bu8, 0x07u8, 0x08u8]
}

/// Whether `data` holds `PK\x07\x08`, a spanned ZIP archive at `off`.
pub fn has_zip_spanned_magic(data: &[u8], off: usize) -> (r: bool)
    ensures
        r == holds_at(data@, off as int, zip_spanned_magic()),
{
    let pat: [u8; 4] = [0x50, 0x4B, 0x07, 0x08];
    assert(pat@ =~= zip_spanned_magic());
    holds_pattern(data, off, &pat)
}

/// `\x7fELF`, the ELF identification.
pub open spec fn elf_magic() -> Seq<u8> {
    seq![0x7Fu8, 0x45u8, 0x4Cu8, 0x46u8]
}

/// Whether `data` holds `\x7fELF`, the ELF identification at `off`.
pub fn has_elf_magic(data: &[u8], off: usize) -> (r: bool)
    ensures
        r == holds_at(data@, off as int, elf_magic()),
{
    let pat: [u8; 4] = [0x7F, 0x45, 0x4C, 0x46];
    assert(pat@ =~= elf_magic());
    holds_pattern(data, off, &pat)
}

/// The flattened device tree magic `0xd00dfeed` as stored (big-endian).
pub open spec fn dtb_magic() -> Seq<u8> {
    seq![0xD0u8, 0x0Du8, 0xFEu8, 0xEDu8]
}

/// Whether `data` holds the flattened device tree magic `0xd00dfeed` as stored (big-endian) at `off`.
pub fn has_dtb_magic(data: &[u8], off: usize) -> (r: bool)
    ensures
        r == holds_at(data@, off as int, dtb_magic()),
{
    let pat: [u8; 4] = [0xD0, 0x0D, 0xFE, 0xED];
    assert(pat@ =~= dtb_magic());
    holds_pattern(data, off, &pat)
}

/// The BTF magic `0xeb9f` as stored (little-endian).
pub open spec fn btf_magic() -> Seq<u8> {
    seq![0x9Fu8, 0xEBu8]
}

/// Whether `data` holds the BTF magic `0xeb9f` as stored (little-endian) at `off`.
pub fn has_btf_magic(data: &[u8], off: usize) -> (r: bool)
    ensures
        r == holds_at(data@, off as int, btf_magic()),
{
    let pat: [u8; 2] = [0x9F, 0xEB];
    assert(pat@ =~= btf_magic());
    holds_pattern(data, off, &pat)
}

/// The Android sparse magic `0xed26ff3a` as stored (little-endian).
pub open spec fn sparse_magic() -> Seq<u8> {
    seq![0x3Au8, 0xFFu8, 0x26u8, 0xEDu8]
}

/// Whether `data` holds the Android sparse magic `0xed26ff3a` as stored (little-endian) at `off`.
pub fn has_sparse_magic(data: &[u8], off: usize) -> (r: bool)
    ensures
        r == holds_at(data@, off as int, sparse_magic()),
{
    let pat: [u8; 4] = [0x3A, 0xFF, 0x26, 0xED];
    assert(pat@ =~= sparse_magic());
    holds_pattern(data, off, &pat)
}

/// `xbl_config`, the marker of Qualcomm XBL config data.
pub open spec fn xbl_config_magic() -> Seq<u8> {
    seq![0x78u8, 0x62u8, 0x6Cu8, 0x5Fu8, 0x63u8, 0x6Fu8, 0x6Eu8, 0x66u8, 0x69u8, 0x67u8]
}

/// Whether `data` holds `xbl_config`, the marker of Qualcomm XBL config data at `off`.
pub fn has_xbl_config_magic(data: &[u8], off: usize) -> (r: bool)
    ensures
        r == holds_at(data@, off as int, xbl_config_magic()),
{
    let pat: [u8; 10] = [0x78, 0x62, 0x6C, 0x5F, 0x63, 0x6F, 0x6E, 0x66, 0x69, 0x67];
    assert(pat@ =~= xbl_config_magic());
    holds_pattern(data, off, &pat)
}

/// `Linux version `, the start of the kernel version banner.
pub open spec fn linux_banner_magic() -> Seq<u8> {
    seq![0x4Cu8, 0x69u8, 0x6Eu8, 0x75u8, 0x78u8, 0x20u8, 0x76u8, 0x65u8, 0x72u8, 0x73u8, 0x69u8, 0x6Fu8, 0x6Eu8, 0x20u8]
}

/// Whether `data` holds `Linux version `, the start of the kernel version banner at `off`.
pub fn has_linux_banner_magic(data: &[u8], off: usize) -> (r: bool)
    ensures
        r == holds_at(data@, off as int, linux_banner_magic()),
{
    let pat: [u8; 14] = [0x4C, 0x69, 0x6E, 0x75, 0x78, 0x20, 0x76, 0x65, 0x72, 0x73, 0x69, 0x6F, 0x6E, 0x20];
    assert(pat@ =~= linux_banner_magic());
    holds_pattern(data, off, &pat)
}

/// `gcc version `.
pub open spec fn gcc_banner_magic() -> Seq<u8> {
    seq![0x67u8, 0x63u8, 0x63u8, 0x20u8, 0x76u8, 0x65u8, 0x72u8, 0x73u8, 0x69u8, 0x6Fu8, 0x6Eu8, 0x20u8]
}

/// Whether `data` holds `gcc version ` at `off`.
pub fn has_gcc_banner_magic(data: &[u8], off: usize) -> (r: bool)
    ensures
        r == holds_at(data@, off as int, gcc_banner_magic()),
{
    let pat: [u8; 12] = [0x67, 0x63, 0x63, 0x20, 0x76, 0x65, 0x72, 0x73, 0x69, 0x6F, 0x6E, 0x20];
    assert(pat@ =~= gcc_banner_magic());
    holds_pattern(data, off, &pat)
}

/// `clang version `.
pub open spec fn clang_banner_magic() -> Seq<u8> {
    seq![0x63u8, 0x6Cu8, 0x61u8, 0x6Eu8, 0x67u8, 0x20u8, 0x76u8, 0x65u8, 0x72u8, 0x73u8, 0x69u8, 0x6Fu8, 0x6Eu8, 0x20u8]
}

/// Whether `data` holds `clang version ` at `off`.
pub fn has_clang_banner_magic(data: &[u8], off: usize) -> (r: bool)
    ensures
        r == holds_at(data@, off as int, clang_banner_magic()),
{
    let pat: [u8; 14] = [0x63, 0x6C, 0x61, 0x6E, 0x67, 0x20, 0x76, 0x65, 0x72, 0x73, 0x69, 0x6F, 0x6E, 0x20];
    assert(pat@ =~= clang_banner_magic());
    holds_pattern(data, off, &pat)
}

/// `GNU`, the owner of GNU ELF notes.
pub open spec fn gnu_magic() -> Seq<u8> {
    seq![0x47u8, 0x4Eu8, 0x55u8]
}

/// Whether `data` holds `GNU`, the owner of GNU ELF notes at `off`.
pub fn has_gnu_magic(data: &[u8], off: usize) -> (r: bool)
    ensures
        r == holds_at(data@, off as int, gnu_magic()),
{
    let pat: [u8; 3] = [0x47, 0x4E, 0x55];
    assert(pat@ =~= gnu_magic());
    holds_pattern(data, off, &pat)
}

/// The gzip member magic.
pub open spec fn gzip_magic() -> Seq<u8> {
    seq![0x1Fu8, 0x8Bu8]
}

/// Whether `data` holds the gzip member magic at `off`.
pub fn has_gzip_magic(data: &[u8], off: usize) -> (r: bool)
    ensures
        r == holds_at(data@, off as int, gzip_magic()),
{
    let pat: [u8; 2] = [0x1F, 0x8B];
    assert(pat@ =~= gzip_magic());
    holds_pattern(data, off, &pat)
}

/// The xz stream magic.
pub open spec fn xz_magic() -> Seq<u8> {
    seq![0xFDu8, 0x37u8, 0x7Au8, 0x58u8, 0x5Au8, 0x00u8]
}

/// Whether `data` holds the xz stream magic at `off`.
pub fn has_xz_magic(data: &[u8], off: usize) -> (r: bool)
    ensures
        r == holds_at(data@, off as int, xz_magic()),
{
    let pat: [u8; 6] = [0xFD, 0x37, 0x7A, 0x58, 0x5A, 0x00];
    assert(pat@ =~= xz_magic());
    holds_pattern(data, off, &pat)
}

/// The legacy LZ4 frame magic used by Linux kernels.
pub open spec fn lz4_legacy_magic() -> Seq<u8> {
    seq![0x02u8, 0x21u8, 0x4Cu8, 0x18u8]
}

/// Whether `data` holds the legacy LZ4 frame magic used by Linux kernels at `off`.
pub fn has_lz4_legacy_magic(data: &[u8], off: usize) -> (r: bool)
    ensures
        r == holds_at(data@, off as int, lz4_legacy_magic()),
{
    let pat: [u8; 4] = [0x02, 0x21, 0x4C, 0x18];
    assert(pat@ =~= lz4_legacy_magic());
    holds_pattern(data, off, &pat)
}

/// The LZ4 frame magic.
pub open spec fn lz4_frame_magic() -> Seq<u8> {
    seq![0x04u8, 0x22u8, 0x4Du8, 0x18u8]
}

/// Whether `data` holds the LZ4 frame magic at `off`.
pub fn has_lz4_frame_magic(data: &[u8], off: usize) -> (r: bool)
    ensures
        r == holds_at(data@, off as int, lz4_frame_magic()),
{
    let pat: [u8; 4] = [0x04, 0x22, 0x4D, 0x18];
    assert(pat@ =~= lz4_frame_magic());
    holds_pattern(data, off, &pat)
}

/// The lzop file magic.
pub open spec fn lzop_magic() -> Seq<u8> {
    seq![0x89u8, 0x4Cu8, 0x5Au8, 0x4Fu8, 0x00u8, 0x0Du8, 0x0Au8, 0x1Au8, 0x0Au8]
}

/// Whether `data` holds the lzop file magic at `off`.
pub fn has_lzop_magic(data: &[u8], off: usize) -> (r: bool)
    ensures
        r == holds_at(data@, off as int, lzop_magic()),
{
    let pat: [u8; 9] = [0x89, 0x4C, 0x5A, 0x4F, 0x00, 0x0D, 0x0A, 0x1A, 0x0A];
    assert(pat@ =~= lzop_magic());
    holds_pattern(data, off, &pat)
}

/// The zstd frame magic.
pub open spec fn zstd_magic() -> Seq<u8> {
    seq![0x28u8, 0xB5u8, 0x2Fu8, 0xFDu8]
}

/// Whether `data` holds the zstd frame magic at `off`.
pub fn has_zstd_magic(data: &[u8], off: usize) -> (r: bool)
    ensures
        r == holds_at(data@, off as int, zstd_magic()),
{
    let pat: [u8; 4] = [0x28, 0xB5, 0x2F, 0xFD];
    assert(pat@ =~= zstd_magic());
    holds_pattern(data, off, &pat)
}

} // verus!
