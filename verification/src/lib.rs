//! Read-only analysis of Android images and Linux kernels: boot, vendor_boot
//! and init_boot images, OTA ZIP and payload.bin containers, ELF, DTB, BTF and
//! sparse headers, XBL config blobs, kernel metadata and embedded kallsyms.

pub mod analysis;
pub mod android_images;
pub mod boot;
pub mod btf;
pub mod bytes;
pub mod containers;
pub mod dtb;
pub mod elf;
pub mod error;
pub mod init_boot;
pub mod kallsyms;
pub mod kernel;
pub mod magic;
pub mod metadata;
pub mod model;
pub mod offsets;
pub mod ota_zip;
pub mod outside_calls;
pub mod payload;
pub mod report;
pub mod sparse;
pub mod text;
pub mod vendor_boot;
pub mod xbl_config;

pub use error::UkaError;
pub use model::{
    AnalysisReport, CompressionKind, ExtractedKernel, ImageKind, ImageSummary, InitBootImage,
    KernelImage, KernelSummary, SymbolSummary, ValidationSummary, VendorBootImage,
};
