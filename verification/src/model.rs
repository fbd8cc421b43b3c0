use vstd::prelude::*;

verus! {

/// The kind of an analyzed image.
#[derive(Debug, Clone, Copy, PartialEq, Eq, Structural)]
pub enum ImageKind {
    BootV0,
    BootV1,
    BootV2,
    BootV3,
    BootV4,
    VendorBoot,
    InitBoot,
    PayloadBin,
    OtaZip,
    RawKernel,
    Unknown,
}

/// An Android boot image with its kernel payload.
#[derive(Debug, Clone)]
pub struct KernelImage {
    pub kind: ImageKind,
    pub header_version: Option<u32>,
    pub page_size: Option<u32>,
    /// The load address that the header gives for the kernel (`kernel_addr`).
    pub kernel_load_addr: Option<u64>,
    /// The kernel address that the header records (`kernel_addr`).
    pub kernel_offset: Option<u64>,
    pub kernel_size: Option<u64>,
    pub kernel: Vec<u8>,
}

/// A vendor_boot image with its vendor ramdisk and DTB.
#[derive(Debug, Clone)]
pub struct VendorBootImage {
    pub kind: ImageKind,
    pub header_version: u32,
    pub page_size: u32,
    pub kernel_load_addr: u64,
    pub ramdisk_load_addr: u64,
    pub vendor_ramdisk_offset: u64,
    pub vendor_ramdisk_size: u64,
    pub dtb_offset: u64,
    pub dtb_size: u64,
    pub dtb_load_addr: u64,
    pub vendor_ramdisk_table_offset: Option<u64>,
    pub vendor_ramdisk_table_size: Option<u64>,
    pub bootconfig_offset: Option<u64>,
    pub bootconfig_size: Option<u64>,
    pub vendor_ramdisk: Vec<u8>,
    pub dtb: Vec<u8>,
}

/// An init_boot image with its generic ramdisk.
#[derive(Debug, Clone)]
pub struct InitBootImage {
    pub kind: ImageKind,
    pub header_version: u32,
    pub page_size: u32,
    pub header_size: u32,
    pub kernel_size: u32,
    pub ramdisk_offset: u64,
    pub ramdisk_size: u32,
    pub boot_signature_size: u32,
    pub ramdisk: Vec<u8>,
}

/// The report produced for an Android image or a raw kernel.
#[derive(Debug, Clone)]
pub struct AnalysisReport {
    pub image: ImageSummary,
    pub kernel: KernelSummary,
    pub symbols: SymbolSummary,
    pub validation: ValidationSummary,
}

#[derive(Debug, Clone)]
pub struct ImageSummary {
    pub kind: Option<ImageKind>,
    pub header_version: Option<u32>,
    pub page_size: Option<u32>,
}

#[derive(Debug, Clone)]
pub struct KernelSummary {
    pub release: Option<String>,
    pub build_id: Option<String>,
    pub architecture: Option<String>,
    pub compression: Option<String>,
}

/// Where symbols were recovered from, how many, and the heuristic confidence in
/// percent (0 to 100).
#[derive(Debug, Clone)]
pub struct SymbolSummary {
    pub source: Option<String>,
    pub count: Option<usize>,
    pub confidence_percent: u32,
}

#[derive(Debug, Clone, Copy, PartialEq, Eq, Structural)]
pub struct ValidationSummary {
    pub address_range_valid: bool,
    pub symbol_names_valid: bool,
    pub tables_consistent: bool,
}

/// A kernel payload taken out of an image, with the compression it was found in.
#[derive(Debug, Clone)]
pub struct ExtractedKernel {
    pub source: ImageKind,
    pub data: Vec<u8>,
    /// The `kernel_offset` of a boot image, 0 for a raw kernel, none for an
    /// init_boot image.
    pub source_offset: Option<u64>,
    pub compression: CompressionKind,
}

#[derive(Debug, Clone, Copy, PartialEq, Eq, Structural)]
pub enum CompressionKind {
    Uncompressed,
    Gzip,
    Xz,
    Lz4,
    Lzop,
    Zstd,
    Brotli,
    Unknown,
}

} // verus!
