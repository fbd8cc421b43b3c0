use uka_core::boot::parse_boot_image;
use uka_core::btf::parse_btf_header;
use uka_core::dtb::parse_dtb_header;
use uka_core::kernel::extract_kernel;
use uka_core::metadata::{detect_compiler, detect_release};
use uka_core::payload::parse_payload_header;
use uka_core::report::{analyze_image, summarize_kernel};
use uka_core::CompressionKind;
use uka_core::sparse::parse_sparse_header;

fn boot_image(version: u32, kernel: &[u8]) -> Vec<u8> {
    let page = 2048usize;
    let mut data = vec![0u8; page + kernel.len() + 16];
    data[..8].copy_from_slice(b"ANDROID!");
    data[8..12].copy_from_slice(&(kernel.len() as u32).to_le_bytes());
    data[36..40].copy_from_slice(&(page as u32).to_le_bytes());
    data[40..44].copy_from_slice(&version.to_le_bytes());
    data[page..page + kernel.len()].copy_from_slice(kernel);
    data
}

#[test]
fn extracted_kernel_is_the_parsed_kernel() {
    let image = boot_image(1, b"Linux version 4.19.0 kernel");
    let parsed = parse_boot_image(&image).unwrap();
    let extracted = extract_kernel(&image).unwrap();
    assert_eq!(extracted.data, parsed.kernel);
    assert_eq!(extracted.source, parsed.kind);
    assert_eq!(extracted.source_offset, parsed.kernel_offset);
    assert_eq!(extracted.source_offset, Some(0));
}

#[test]
fn reports_of_one_input_agree() {
    let image = boot_image(2, b"Linux version 5.10.1-android gcc version 12.3.0 ");
    let a = analyze_image(&image).unwrap();
    let b = analyze_image(&image).unwrap();
    assert_eq!(a.image.kind, b.image.kind);
    assert_eq!(a.image.header_version, b.image.header_version);
    assert_eq!(a.image.page_size, b.image.page_size);
    assert_eq!(a.kernel.release, b.kernel.release);
    assert_eq!(a.kernel.release.as_deref(), Some("5.10.1-android"));
    assert_eq!(a.kernel.build_id, b.kernel.build_id);
    assert_eq!(a.kernel.architecture, b.kernel.architecture);
    assert_eq!(a.kernel.compression, b.kernel.compression);
    assert_eq!(a.symbols.source, b.symbols.source);
    assert_eq!(a.symbols.count, b.symbols.count);
    assert_eq!(a.symbols.confidence_percent, b.symbols.confidence_percent);
    assert_eq!(a.validation, b.validation);
}

#[test]
fn release_and_compiler_are_words() {
    let release = detect_release(b"Linux version 6.6.30-gki+ (build@host)").unwrap();
    assert!(release.starts_with(|c: char| c.is_ascii_digit()));
    assert!(!release.contains(' '));
    assert_eq!(release, "6.6.30-gki+");
    let compiler = detect_compiler(b"clang version 17.0.2\0rest").unwrap();
    assert_eq!(compiler, "17.0.2");
    assert!(compiler.bytes().all(|b| b.is_ascii_graphic()));
}

#[test]
fn accepted_headers_stay_inside_their_input() {
    let mut dtb = vec![0u8; 96];
    dtb[0..4].copy_from_slice(&0xd00d_feed_u32.to_be_bytes());
    dtb[4..8].copy_from_slice(&96u32.to_be_bytes());
    dtb[8..12].copy_from_slice(&40u32.to_be_bytes());
    dtb[12..16].copy_from_slice(&72u32.to_be_bytes());
    dtb[16..20].copy_from_slice(&88u32.to_be_bytes());
    dtb[20..24].copy_from_slice(&17u32.to_be_bytes());
    dtb[24..28].copy_from_slice(&16u32.to_be_bytes());
    dtb[32..36].copy_from_slice(&24u32.to_be_bytes());
    dtb[36..40].copy_from_slice(&32u32.to_be_bytes());
    let h = parse_dtb_header(&dtb).unwrap();
    assert!(h.structure_offset + h.structure_size <= h.total_size);
    assert!(h.strings_offset + h.strings_size <= h.total_size);
    assert!(h.memory_reservation_offset < h.total_size);
    dtb[32..36].copy_from_slice(&25u32.to_be_bytes());
    assert!(parse_dtb_header(&dtb).is_err());

    let mut btf = vec![0u8; 40];
    btf[0..2].copy_from_slice(&0xeb9fu16.to_le_bytes());
    btf[2] = 1;
    btf[4..8].copy_from_slice(&24u32.to_le_bytes());
    btf[12..16].copy_from_slice(&8u32.to_le_bytes());
    btf[16..20].copy_from_slice(&8u32.to_le_bytes());
    btf[20..24].copy_from_slice(&8u32.to_le_bytes());
    let h = parse_btf_header(&btf).unwrap();
    assert!(h.header_length + h.string_offset + h.string_length <= 40);
    btf[20..24].copy_from_slice(&9u32.to_le_bytes());
    assert!(parse_btf_header(&btf).is_err());

    let mut payload = b"CrAU".to_vec();
    payload.extend_from_slice(&2u64.to_be_bytes());
    payload.extend_from_slice(&5u64.to_be_bytes());
    payload.extend_from_slice(&3u32.to_be_bytes());
    payload.extend_from_slice(&[0u8; 8]);
    let h = parse_payload_header(&payload).unwrap();
    assert_eq!(h.manifest_offset, 24);
    assert_eq!(h.metadata_signature_offset, 29);
    payload.truncate(31);
    assert!(parse_payload_header(&payload).is_err());

    let mut sparse = vec![0u8; 28];
    sparse[0..4].copy_from_slice(&0xed26ff3au32.to_le_bytes());
    sparse[4..6].copy_from_slice(&1u16.to_le_bytes());
    sparse[8..10].copy_from_slice(&28u16.to_le_bytes());
    sparse[10..12].copy_from_slice(&12u16.to_le_bytes());
    sparse[12..16].copy_from_slice(&4096u32.to_le_bytes());
    let h = parse_sparse_header(&sparse).unwrap();
    assert_eq!(h.block_size % 4, 0);
    sparse[8..10].copy_from_slice(&29u16.to_le_bytes());
    assert!(parse_sparse_header(&sparse).is_err());
}

#[test]
fn summarizes_decoded_kernel_bytes() {
    let (kernel, symbols, validation) =
        summarize_kernel(b"Linux version 5.4.1 x", &CompressionKind::Gzip);
    assert_eq!(kernel.release.as_deref(), Some("5.4.1"));
    assert_eq!(kernel.compression.as_deref(), Some("gzip"));
    assert_eq!(kernel.architecture, None);
    assert_eq!(kernel.build_id, None);
    assert_eq!(symbols.source, None);
    assert_eq!(symbols.count, None);
    assert_eq!(symbols.confidence_percent, 0);
    assert!(!validation.address_range_valid);
    assert!(!validation.tables_consistent);

    let (kernel, _, _) = summarize_kernel(b"plain", &CompressionKind::Uncompressed);
    assert_eq!(kernel.compression, None);
    assert_eq!(kernel.release, None);
    let (kernel, _, _) = summarize_kernel(b"\x7fELF\x02\x01", &CompressionKind::Xz);
    assert_eq!(kernel.compression.as_deref(), Some("xz"));
    assert_eq!(kernel.architecture, None);
}
