use std::io::Write;
use uka_core::android_images::{detect_image_kind, detect_image_kind_strict, DetectedImageKind};
use uka_core::boot::parse_boot_image;
use uka_core::init_boot::{
    parse_init_boot_image, BOOT_SIGNATURE_SIZE_OFFSET, INIT_BOOT_HEADER_SIZE, INIT_BOOT_PAGE_SIZE,
};
use uka_core::kernel::{decompress_kernel, detect_compression, extract_kernel};
use uka_core::vendor_boot::{parse_vendor_boot_image, V3_HEADER_MIN, V4_HEADER_MIN};
use uka_core::{CompressionKind, ImageKind, UkaError};

const PAGE_SIZE: usize = INIT_BOOT_PAGE_SIZE;
const MAGIC: &[u8; 8] = b"ANDROID!";

fn align_up(value: usize, alignment: usize) -> usize {
    (value + alignment - 1) / alignment * alignment
}

fn init_image(kernel_size: u32, ramdisk_size: usize) -> Vec<u8> {
    let mut data = vec![0u8; PAGE_SIZE + ramdisk_size];
    data[..8].copy_from_slice(MAGIC);
    data[8..12].copy_from_slice(&kernel_size.to_le_bytes());
    data[12..16].copy_from_slice(&(ramdisk_size as u32).to_le_bytes());
    data[20..24].copy_from_slice(&INIT_BOOT_HEADER_SIZE.to_le_bytes());
    data[40..44].copy_from_slice(&4u32.to_le_bytes());
    data[BOOT_SIGNATURE_SIZE_OFFSET..BOOT_SIGNATURE_SIZE_OFFSET + 4]
        .copy_from_slice(&0u32.to_le_bytes());
    data[PAGE_SIZE..].fill(0xA5);
    data
}

fn vendor_image(version: u32) -> Vec<u8> {
    let page = 4096usize;
    let header = if version == 4 { V4_HEADER_MIN } else { V3_HEADER_MIN };
    let ramdisk = 8usize;
    let ramdisk_off = align_up(header, page);
    let dtb_off = align_up(ramdisk_off + ramdisk, page);
    let extra = if version == 4 { page * 2 } else { 0 };
    let mut data = vec![0u8; dtb_off + 8 + extra];
    data[..8].copy_from_slice(b"VNDRBOOT");
    data[8..12].copy_from_slice(&version.to_le_bytes());
    data[12..16].copy_from_slice(&(page as u32).to_le_bytes());
    data[16..20].copy_from_slice(&0x8000_0000u32.to_le_bytes());
    data[20..24].copy_from_slice(&0x8100_0000u32.to_le_bytes());
    data[24..28].copy_from_slice(&(ramdisk as u32).to_le_bytes());
    data[2096..2100].copy_from_slice(&(header as u32).to_le_bytes());
    data[2100..2104].copy_from_slice(&8u32.to_le_bytes());
    data[2104..2112].copy_from_slice(&0x8200_0000u64.to_le_bytes());
    if version == 4 {
        data[2112..2116].copy_from_slice(&0u32.to_le_bytes());
        data[2116..2120].copy_from_slice(&0u32.to_le_bytes());
        data[2120..2124].copy_from_slice(&0u32.to_le_bytes());
        data[2124..2128].copy_from_slice(&0u32.to_le_bytes());
    }
    data[ramdisk_off..ramdisk_off + ramdisk].fill(0xAA);
    data[dtb_off..dtb_off + 8].fill(0xD0);
    data
}

fn boot_image(version: u32, kernel: &[u8]) -> Vec<u8> {
    let page = 4096usize;
    let mut data = vec![0u8; page + kernel.len()];
    data[..8].copy_from_slice(b"ANDROID!");
    data[8..12].copy_from_slice(&(kernel.len() as u32).to_le_bytes());
    data[12..16].copy_from_slice(&0x8000_8000u32.to_le_bytes());
    data[36..40].copy_from_slice(&(page as u32).to_le_bytes());
    data[40..44].copy_from_slice(&version.to_le_bytes());
    data[page..].copy_from_slice(kernel);
    data
}

#[test]
fn rejects_unknown_magic() {
    assert!(detect_image_kind(b"XXXXXXXX").is_err());
}

#[test]
fn rejects_non_boot_data() {
    assert!(parse_boot_image(b"not an image").is_err());
}

#[test]
fn parses_init_boot_ramdisk() {
    let parsed = parse_init_boot_image(&init_image(0, 32)).unwrap();
    assert_eq!(parsed.kind, ImageKind::InitBoot);
    assert_eq!(parsed.header_version, 4);
    assert_eq!(parsed.page_size, 4096);
    assert_eq!(parsed.ramdisk_offset, 4096);
    assert_eq!(parsed.ramdisk_size, 32);
    assert_eq!(parsed.ramdisk.len(), 32);
}

#[test]
fn rejects_nonzero_kernel() {
    assert!(parse_init_boot_image(&init_image(1, 8)).is_err());
}

#[test]
fn rejects_wrong_header_version() {
    let mut data = init_image(0, 8);
    data[40..44].copy_from_slice(&3u32.to_le_bytes());
    assert!(parse_init_boot_image(&data).is_err());
}

#[test]
fn rejects_truncated_ramdisk() {
    let mut data = init_image(0, 16);
    data.truncate(data.len() - 1);
    assert!(parse_init_boot_image(&data).is_err());
}

#[test]
fn parses_v3_sections() {
    let parsed = parse_vendor_boot_image(&vendor_image(3)).unwrap();
    assert_eq!(parsed.page_size, 4096);
    assert_eq!(parsed.vendor_ramdisk.len(), 8);
    assert_eq!(parsed.dtb.len(), 8);
    assert!(parsed.vendor_ramdisk_table_offset.is_none());
}

#[test]
fn parses_v4_sections() {
    let parsed = parse_vendor_boot_image(&vendor_image(4)).unwrap();
    assert_eq!(parsed.header_version, 4);
    assert!(parsed.vendor_ramdisk_table_offset.is_some());
    assert_eq!(parsed.bootconfig_size, Some(0));
}

#[test]
fn rejects_bad_magic() {
    assert!(parse_vendor_boot_image(b"bad").is_err());
}

#[test]
fn parses_boot_image_kernel_and_layout() {
    let image = boot_image(2, b"Linux");
    let parsed = parse_boot_image(&image).unwrap();
    assert_eq!(parsed.kind, ImageKind::BootV2);
    assert_eq!(parsed.header_version, Some(2));
    assert_eq!(parsed.page_size, Some(4096));
    assert_eq!(parsed.kernel_load_addr, Some(0x8000_8000));
    assert_eq!(parsed.kernel_offset, Some(0x8000_8000));
    assert_eq!(parsed.kernel_size, Some(5));
    assert_eq!(parsed.kernel, b"Linux".to_vec());
}

#[test]
fn boot_header_versions_above_three_are_v4() {
    let image = boot_image(7, b"k");
    assert_eq!(parse_boot_image(&image).unwrap().kind, ImageKind::BootV4);
}

#[test]
fn short_boot_header_reads_as_version_zero() {
    let mut image = vec![0u8; 100];
    image[..8].copy_from_slice(b"ANDROID!");
    image[36..40].copy_from_slice(&64u32.to_le_bytes());
    image[40..44].copy_from_slice(&3u32.to_le_bytes());
    let parsed = parse_boot_image(&image).unwrap();
    assert_eq!(parsed.kind, ImageKind::BootV0);
    assert_eq!(parsed.header_version, Some(0));
}

#[test]
fn boot_errors_name_their_cause() {
    assert_eq!(parse_boot_image(&[0u8; 43]).unwrap_err(), UkaError::TooSmall);
    assert_eq!(parse_boot_image(&[0u8; 64]).unwrap_err(), UkaError::BadMagic);
    let mut image = boot_image(2, b"kernel");
    image[36..40].copy_from_slice(&3000u32.to_le_bytes());
    assert_eq!(parse_boot_image(&image).unwrap_err(), UkaError::InvalidPageSize);
    let mut image = boot_image(2, b"kernel");
    image[8..12].copy_from_slice(&7u32.to_le_bytes());
    assert_eq!(parse_boot_image(&image).unwrap_err(), UkaError::OutOfBounds);
}

#[test]
fn init_boot_errors_name_their_cause() {
    assert_eq!(parse_init_boot_image(&[0u8; 100]).unwrap_err(), UkaError::TooSmall);
    assert_eq!(parse_init_boot_image(&init_image(1, 8)).unwrap_err(), UkaError::InvalidField);
    let mut data = init_image(0, 8);
    data[20..24].copy_from_slice(&1000u32.to_le_bytes());
    assert_eq!(parse_init_boot_image(&data).unwrap_err(), UkaError::InvalidHeaderSize);
    let mut data = init_image(0, 8);
    data[40..44].copy_from_slice(&3u32.to_le_bytes());
    assert_eq!(parse_init_boot_image(&data).unwrap_err(), UkaError::UnsupportedVersion);
    let mut data = init_image(0, 16);
    data.truncate(data.len() - 1);
    assert_eq!(parse_init_boot_image(&data).unwrap_err(), UkaError::OutOfBounds);
}

#[test]
fn vendor_boot_reports_layout() {
    let parsed = parse_vendor_boot_image(&vendor_image(4)).unwrap();
    assert_eq!(parsed.kind, ImageKind::VendorBoot);
    assert_eq!(parsed.kernel_load_addr, 0x8000_0000);
    assert_eq!(parsed.ramdisk_load_addr, 0x8100_0000);
    assert_eq!(parsed.vendor_ramdisk_offset, 4096);
    assert_eq!(parsed.dtb_offset, 8192);
    assert_eq!(parsed.dtb_load_addr, 0x8200_0000);
    assert_eq!(parsed.vendor_ramdisk_table_offset, Some(12288));
    assert_eq!(parsed.vendor_ramdisk_table_size, Some(0));
    assert_eq!(parsed.bootconfig_offset, Some(12288));
    assert_eq!(parsed.vendor_ramdisk, vec![0xAA; 8]);
    assert_eq!(parsed.dtb, vec![0xD0; 8]);
}

#[test]
fn vendor_boot_errors_name_their_cause() {
    let mut data = vendor_image(3);
    data[8..12].copy_from_slice(&2u32.to_le_bytes());
    assert_eq!(parse_vendor_boot_image(&data).unwrap_err(), UkaError::UnsupportedVersion);
    let mut data = vendor_image(3);
    data[12..16].copy_from_slice(&0u32.to_le_bytes());
    assert_eq!(parse_vendor_boot_image(&data).unwrap_err(), UkaError::InvalidPageSize);
    let mut data = vendor_image(3);
    data[2096..2100].copy_from_slice(&100u32.to_le_bytes());
    assert_eq!(parse_vendor_boot_image(&data).unwrap_err(), UkaError::InvalidHeaderSize);
    let mut data = vendor_image(3);
    data[2100..2104].copy_from_slice(&9u32.to_le_bytes());
    assert_eq!(parse_vendor_boot_image(&data).unwrap_err(), UkaError::OutOfBounds);
    let mut data = vendor_image(4);
    data[2116..2120].copy_from_slice(&1u32.to_le_bytes());
    assert_eq!(parse_vendor_boot_image(&data).unwrap_err(), UkaError::InvalidField);
}

#[test]
fn detects_each_android_image_family() {
    assert_eq!(detect_image_kind(&vendor_image(3)).unwrap(), DetectedImageKind::VendorBoot);
    assert_eq!(detect_image_kind(&init_image(0, 4)).unwrap(), DetectedImageKind::InitBoot);
    assert_eq!(detect_image_kind(&boot_image(2, b"k")).unwrap(), DetectedImageKind::Boot);
    assert_eq!(detect_image_kind(b"ANDROI").unwrap_err(), UkaError::TooSmall);
    let mut broken = boot_image(2, b"k");
    broken[36..40].copy_from_slice(&0u32.to_le_bytes());
    assert_eq!(detect_image_kind(&broken).unwrap_err(), UkaError::NotValidated);
}

#[test]
fn strict_detection_names_the_parsed_kind() {
    assert_eq!(detect_image_kind_strict(&boot_image(3, b"k")).unwrap(), ImageKind::BootV3);
    assert_eq!(detect_image_kind_strict(&vendor_image(4)).unwrap(), ImageKind::VendorBoot);
    assert_eq!(detect_image_kind_strict(&init_image(0, 4)).unwrap(), ImageKind::InitBoot);
    assert_eq!(detect_image_kind_strict(b"VNDRBOOT").unwrap_err(), UkaError::BadMagic);
}

#[test]
fn extracts_boot_and_raw_kernels() {
    let image = boot_image(2, b"\x1f\x8bkernel");
    let kernel = extract_kernel(&image).unwrap();
    assert_eq!(kernel.source, ImageKind::BootV2);
    assert_eq!(kernel.data, b"\x1f\x8bkernel".to_vec());
    assert_eq!(kernel.source_offset, Some(0x8000_8000));
    assert_eq!(kernel.compression, CompressionKind::Gzip);

    let raw = extract_kernel(b"raw kernel bytes").unwrap();
    assert_eq!(raw.source, ImageKind::RawKernel);
    assert_eq!(raw.source_offset, Some(0));
    assert_eq!(raw.compression, CompressionKind::Uncompressed);

    assert_eq!(extract_kernel(b"short").unwrap_err(), UkaError::TooSmall);
    assert_eq!(extract_kernel(&vendor_image(3)).unwrap_err(), UkaError::NoKernelPayload);
    assert_eq!(extract_kernel(&init_image(0, 4)).unwrap_err(), UkaError::NoKernelPayload);
    let empty = extract_kernel(&init_image(0, 0)).unwrap();
    assert_eq!(empty.source, ImageKind::InitBoot);
    assert!(empty.data.is_empty());
}

#[test]
fn detects_compression_magic() {
    assert_eq!(detect_compression(&[0x1f, 0x8b, 0x08]), CompressionKind::Gzip);
    assert_eq!(detect_compression(&[0xfd, b'7', b'z', b'X', b'Z', 0]), CompressionKind::Xz);
    assert_eq!(detect_compression(&[0x02, 0x21, 0x4c, 0x18]), CompressionKind::Lz4);
    assert_eq!(detect_compression(&[0x04, 0x22, 0x4d, 0x18]), CompressionKind::Lz4);
    assert_eq!(
        detect_compression(&[0x89, b'L', b'Z', b'O', 0, 0x0d, 0x0a, 0x1a, 0x0a]),
        CompressionKind::Lzop
    );
    assert_eq!(detect_compression(&[0x28, 0xb5, 0x2f, 0xfd]), CompressionKind::Zstd);
    assert_eq!(detect_compression(b"plain"), CompressionKind::Uncompressed);
}

#[test]
fn decompresses_gzip_and_keeps_other_payloads() {
    let mut encoder = flate2::write::GzEncoder::new(Vec::new(), flate2::Compression::default());
    encoder.write_all(b"kernel bytes").unwrap();
    let compressed = encoder.finish().unwrap();
    assert_eq!(
        decompress_kernel(&compressed, &CompressionKind::Gzip).unwrap(),
        b"kernel bytes".to_vec()
    );
    assert_eq!(
        decompress_kernel(b"\x1f\x8bnot gzip", &CompressionKind::Gzip).unwrap_err(),
        UkaError::Decompression
    );
    assert_eq!(decompress_kernel(b"xz data", &CompressionKind::Xz).unwrap(), b"xz data".to_vec());
}
