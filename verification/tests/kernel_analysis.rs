use std::io::Write;
use uka_core::kallsyms::{scan_candidates, validate_candidate, AddressMode, KallsymsCandidate};
use uka_core::metadata::{
    detect_architecture, detect_build_id, detect_compiler, detect_metadata, detect_release,
};
use uka_core::report::analyze_image;
use uka_core::{ImageKind, UkaError};

fn candidate() -> KallsymsCandidate {
    KallsymsCandidate {
        address_table: 0..16,
        names_table: 16..32,
        markers_table: None,
        token_table: 32..64,
        token_index: 64..576,
        num_syms: 2,
        address_mode: AddressMode::Absolute,
        confidence_percent: 75,
    }
}

#[test]
fn validates_well_formed_candidate() {
    assert!(validate_candidate(&candidate(), 1024));
}

#[test]
fn rejects_wrong_address_table_size() {
    let mut value = candidate();
    value.address_table = 0..8;
    assert!(!validate_candidate(&value, 1024));
}

#[test]
fn rejects_confidence_outside_range() {
    let mut value = candidate();
    value.confidence_percent = 110;
    assert!(!validate_candidate(&value, 1024));
}

#[test]
fn rejects_misplaced_or_empty_tables() {
    let mut value = candidate();
    value.address_mode = AddressMode::Relative;
    assert!(!validate_candidate(&value, 1024));
    value.address_table = 0..8;
    assert!(validate_candidate(&value, 1024));
    assert!(!validate_candidate(&value, 575));
    let mut value = candidate();
    value.markers_table = Some(40..40);
    assert!(!validate_candidate(&value, 1024));
    let mut value = candidate();
    value.names_table = 8..32;
    assert!(!validate_candidate(&value, 1024));
    let mut value = candidate();
    value.num_syms = 0;
    assert!(!validate_candidate(&value, 1024));
}

fn kallsyms_kernel() -> Vec<u8> {
    let mut kernel = vec![0u8; 42 + 256 * 2];
    kernel[0..8].copy_from_slice(&0x1000u64.to_le_bytes());
    kernel[8..16].copy_from_slice(&0x2000u64.to_le_bytes());
    kernel[16..20].copy_from_slice(&2u32.to_le_bytes());
    kernel[20..24].copy_from_slice(&[1, 2, 3, 0]);
    kernel[24..42].copy_from_slice(b"A\0B\0C\0D\0E\0F\0G\0H\0I\0");
    for index in 0..256usize {
        let value = (index.min(8) * 2) as u16;
        let offset = 42 + index * 2;
        kernel[offset..offset + 2].copy_from_slice(&value.to_le_bytes());
    }
    kernel
}

#[test]
fn scans_embedded_kallsyms_layout() {
    let kernel = kallsyms_kernel();
    let candidates = scan_candidates(&kernel);
    assert_eq!(candidates.len(), 1);
    let found = &candidates[0];
    assert_eq!(found.address_table, 0..16);
    assert_eq!(found.names_table, 20..26);
    assert_eq!(found.token_table, 26..42);
    assert_eq!(found.token_index, 42..554);
    assert_eq!(found.num_syms, 2);
    assert!(matches!(found.address_mode, AddressMode::Absolute));
    assert_eq!(found.confidence_percent, 75);
    assert!(validate_candidate(found, kernel.len()));
    assert!(scan_candidates(&kernel[..511]).is_empty());
    let mut decreasing = kernel.clone();
    decreasing[8..16].copy_from_slice(&0x0800u64.to_le_bytes());
    assert!(scan_candidates(&decreasing).is_empty());
}

#[test]
fn detects_elf_machine_architecture() {
    let mut elf = vec![0u8; 20];
    elf[..4].copy_from_slice(b"\x7fELF");
    elf[4] = 2;
    elf[5] = 1;
    elf[18..20].copy_from_slice(&0xb7u16.to_le_bytes());
    assert_eq!(detect_architecture(&elf), Some("aarch64"));
    elf[18..20].copy_from_slice(&0x28u16.to_le_bytes());
    elf[4] = 1;
    assert_eq!(detect_architecture(&elf), Some("arm"));
}

#[test]
fn rejects_unknown_or_truncated_elf() {
    assert_eq!(detect_architecture(&[0x7f, b'E', b'L', b'F']), None);
    let mut elf = vec![0u8; 20];
    elf[..4].copy_from_slice(b"\x7fELF");
    elf[4] = 2;
    elf[5] = 1;
    assert_eq!(detect_architecture(&elf), Some("elf"));
}

#[test]
fn detects_arm64_image_magic() {
    assert_eq!(detect_architecture(&[0xd0, 0x0b, 0xb0, 0x0d, 0]), Some("arm64-image-or-container"));
    assert_eq!(detect_architecture(b"abc"), None);
}

#[test]
fn detects_linux_release_banner() {
    let kernel = b"prefix Linux version 5.4.254-qgki-gd8141a929274 #1 SMP PREEMPT";
    assert_eq!(detect_release(kernel).as_deref(), Some("5.4.254-qgki-gd8141a929274"));
}

#[test]
fn rejects_malformed_linux_release_banner() {
    assert_eq!(detect_release(b"Linux version "), None);
    assert_eq!(detect_release(b"Linux version \xff"), None);
    assert_eq!(detect_release(b"Linux version android-kernel"), None);
    assert_eq!(detect_release(b"Linux version 5..4.254"), None);
    assert_eq!(detect_release(b"Linux version 5"), None);
    assert_eq!(detect_release(b"Linux version 5.4.254-rc1"), Some("5.4.254-rc1".to_owned()));
}

#[test]
fn release_is_the_banner_word_of_release_bytes() {
    assert_eq!(detect_release(b"Linux version 5.4.254"), Some("5.4.254".to_owned()));
    assert_eq!(detect_release(b"Linux version 5.4.254 #1"), Some("5.4.254".to_owned()));
    assert_eq!(detect_release(b"Linux version 5.4.254\0"), Some("5.4.254".to_owned()));
    assert_eq!(detect_release(b"Linux version 5.4.254\n"), Some("5.4.254".to_owned()));
    assert_eq!(detect_release(b"Linux version 5.4.254#1 "), None);
    assert_eq!(detect_release(b"Linux version .5.4 "), None);
    assert_eq!(detect_release(b"Linux version 5.4. "), None);
    assert_eq!(detect_release(b"Linux version -5.4 "), None);
    assert_eq!(detect_release(b"Linux version 5.4a-x "), None);
    assert_eq!(detect_release(b"Linux version 6.1.0+_~ok "), None);
    assert_eq!(detect_release(b"Linux version 6.1-0+_~ok "), Some("6.1-0+_~ok".to_owned()));
}

#[test]
fn detects_gnu_build_id_from_elf_note() {
    let mut elf = vec![0u8; 256];
    elf[..4].copy_from_slice(b"\x7fELF");
    elf[4] = 2;
    elf[5] = 1;
    elf[32..40].copy_from_slice(&64u64.to_le_bytes());
    elf[54..56].copy_from_slice(&56u16.to_le_bytes());
    elf[56..58].copy_from_slice(&1u16.to_le_bytes());

    elf[64..68].copy_from_slice(&4u32.to_le_bytes());
    elf[72..80].copy_from_slice(&128u64.to_le_bytes());
    elf[96..104].copy_from_slice(&36u64.to_le_bytes());

    elf[128..132].copy_from_slice(&4u32.to_le_bytes());
    elf[132..136].copy_from_slice(&20u32.to_le_bytes());
    elf[136..140].copy_from_slice(&3u32.to_le_bytes());
    elf[140..144].copy_from_slice(b"GNU\0");
    elf[144..164].copy_from_slice(&[
        0x01, 0x23, 0x45, 0x67, 0x89, 0xab, 0xcd, 0xef,
        0x10, 0x32, 0x54, 0x76, 0x98, 0xba, 0xdc, 0xfe,
        0x11, 0x22, 0x33, 0x44,
    ]);

    assert_eq!(
        detect_build_id(&elf).as_deref(),
        Some("0123456789abcdef1032547698badcfe11223344")
    );
}

#[test]
fn rejects_invalid_gnu_build_id_note() {
    let mut elf = vec![0u8; 64];
    elf[..4].copy_from_slice(b"\x7fELF");
    elf[4] = 2;
    elf[5] = 1;
    assert_eq!(detect_build_id(&elf), None);
}

#[test]
fn skips_other_notes_before_the_build_id() {
    let mut elf = vec![0u8; 256];
    elf[..4].copy_from_slice(b"\x7fELF");
    elf[4] = 1;
    elf[5] = 1;
    elf[28..32].copy_from_slice(&52u32.to_le_bytes());
    elf[42..44].copy_from_slice(&32u16.to_le_bytes());
    elf[44..46].copy_from_slice(&1u16.to_le_bytes());
    elf[52..56].copy_from_slice(&4u32.to_le_bytes());
    elf[56..60].copy_from_slice(&100u32.to_le_bytes());
    elf[68..72].copy_from_slice(&40u32.to_le_bytes());
    elf[100..104].copy_from_slice(&5u32.to_le_bytes());
    elf[104..108].copy_from_slice(&0u32.to_le_bytes());
    elf[108..112].copy_from_slice(&1u32.to_le_bytes());
    elf[112..117].copy_from_slice(b"Linux");
    elf[120..124].copy_from_slice(&4u32.to_le_bytes());
    elf[124..128].copy_from_slice(&2u32.to_le_bytes());
    elf[128..132].copy_from_slice(&3u32.to_le_bytes());
    elf[132..136].copy_from_slice(b"GNU\0");
    elf[136..138].copy_from_slice(&[0xbe, 0xef]);
    assert_eq!(detect_build_id(&elf).as_deref(), Some("beef"));
    elf[68..72].copy_from_slice(&400u32.to_le_bytes());
    assert_eq!(detect_build_id(&elf), None);
}

#[test]
fn detects_gcc_and_clang_versions() {
    assert_eq!(detect_compiler(b"built with gcc version 12.3.0 (GCC)"), Some("12.3.0".to_owned()));
    assert_eq!(detect_compiler(b"built with clang version 18.1.8"), Some("18.1.8".to_owned()));
}

#[test]
fn rejects_missing_compiler_version() {
    assert_eq!(detect_compiler(b"compiler information unavailable"), None);
    assert_eq!(detect_compiler(b"gcc version "), None);
}

#[test]
fn compiler_search_stops_at_invalid_utf8() {
    assert_eq!(detect_compiler(b"gcc version \xff clang version 18"), None);
    assert_eq!(
        detect_compiler("gcc version \u{e9} clang version 18".as_bytes()),
        Some("18".to_owned())
    );
    assert_eq!(detect_compiler(b"gcc version  clang version 17.0"), Some("17.0".to_owned()));
}

#[test]
fn combines_detected_kernel_metadata() {
    let kernel = b"Linux version 5.4.254-qgki-gd8141a929274 #1 gcc version 12.3.0";
    let metadata = detect_metadata(kernel);
    assert_eq!(metadata.release.as_deref(), Some("5.4.254-qgki-gd8141a929274"));
    assert_eq!(metadata.build_id, None);
    assert_eq!(metadata.compiler.as_deref(), Some("12.3.0"));
    assert_eq!(metadata.architecture, None);
    assert!(!metadata.btf_present);
}

#[test]
fn analyzes_raw_kernel_metadata() {
    let kernel = b"Linux version 5.4.254-qgki-gd8141a929274 #1";
    let report = analyze_image(kernel).unwrap();
    assert_eq!(report.image.kind, Some(ImageKind::RawKernel));
    assert_eq!(
        report.kernel.release.as_deref(),
        Some("5.4.254-qgki-gd8141a929274")
    );
    assert_eq!(report.kernel.compression, None);
}

#[test]
fn reports_kernel_compression() {
    let mut encoder = flate2::write::GzEncoder::new(Vec::new(), flate2::Compression::default());
    encoder.write_all(b"kernel").unwrap();
    let kernel = encoder.finish().unwrap();
    let report = analyze_image(&kernel).unwrap();
    assert_eq!(report.kernel.compression.as_deref(), Some("gzip"));
}

#[test]
fn reports_embedded_kallsyms_candidate() {
    let mut kernel = vec![0u8; 42 + 256 * 2];
    kernel[0..8].copy_from_slice(&0x1000u64.to_le_bytes());
    kernel[8..16].copy_from_slice(&0x2000u64.to_le_bytes());
    kernel[16..20].copy_from_slice(&2u32.to_le_bytes());
    kernel[20..24].copy_from_slice(&[1, 2, 3, 0]);
    kernel[24..42].copy_from_slice(b"A\0B\0C\0D\0E\0F\0G\0H\0I\0");
    for index in 0..256usize {
        let value = (index.min(8) * 2) as u16;
        let offset = 42 + index * 2;
        kernel[offset..offset + 2].copy_from_slice(&value.to_le_bytes());
    }
    let report = analyze_image(&kernel).unwrap();
    assert_eq!(report.symbols.source.as_deref(), Some("embedded-kallsyms"));
    assert_eq!(report.symbols.count, Some(2));
}

#[test]
fn analyzes_init_boot_without_kernel_payload() {
    let mut image = vec![0u8; 4096 + 4];
    image[..8].copy_from_slice(b"ANDROID!");
    image[8..12].copy_from_slice(&0u32.to_le_bytes());
    image[12..16].copy_from_slice(&4u32.to_le_bytes());
    image[20..24].copy_from_slice(&1584u32.to_le_bytes());
    image[40..44].copy_from_slice(&4u32.to_le_bytes());
    image[1580..1584].copy_from_slice(&0u32.to_le_bytes());
    image[4096..4100].copy_from_slice(b"test");
    let report = analyze_image(&image).unwrap();
    assert_eq!(report.image.kind, Some(ImageKind::InitBoot));
    assert_eq!(report.kernel.release, None);
}

#[test]
fn reports_metadata_from_compressed_kernel() {
    let mut encoder = flate2::write::GzEncoder::new(Vec::new(), flate2::Compression::default());
    encoder.write_all(b"Linux version 5.4.254-qgki-gd8141a929274 #1").unwrap();
    let compressed = encoder.finish().unwrap();
    let report = analyze_image(&compressed).unwrap();
    assert_eq!(report.kernel.compression.as_deref(), Some("gzip"));
    assert_eq!(report.kernel.release.as_deref(), Some("5.4.254-qgki-gd8141a929274"));
}

#[test]
fn reports_raw_kernel_architecture() {
    let mut kernel = vec![0x7f, b'E', b'L', b'F', 2, 1, 1, 0];
    kernel.resize(20, 0);
    kernel[18] = 0xb7;
    kernel[19] = 0x00;
    kernel.extend_from_slice(b" Linux version 5.4.254-test ");
    let report = analyze_image(&kernel).unwrap();
    assert_eq!(report.kernel.architecture.as_deref(), Some("aarch64"));
}

#[test]
fn reports_boot_image_summary_and_payload() {
    let page = 4096usize;
    let kernel = b"Linux version 6.1.0 ";
    let mut data = vec![0u8; page + kernel.len()];
    data[..8].copy_from_slice(b"ANDROID!");
    data[8..12].copy_from_slice(&(kernel.len() as u32).to_le_bytes());
    data[36..40].copy_from_slice(&(page as u32).to_le_bytes());
    data[40..44].copy_from_slice(&2u32.to_le_bytes());
    data[page..].copy_from_slice(kernel);
    let report = analyze_image(&data).unwrap();
    assert_eq!(report.image.kind, Some(ImageKind::BootV2));
    assert_eq!(report.image.header_version, Some(2));
    assert_eq!(report.image.page_size, Some(4096));
    assert_eq!(report.kernel.release.as_deref(), Some("6.1.0"));
    assert_eq!(report.symbols.count, None);
    assert!(!report.validation.address_range_valid);
}

#[test]
fn analysis_errors_name_their_cause() {
    assert_eq!(analyze_image(b"short").unwrap_err(), UkaError::TooSmall);
    assert_eq!(analyze_image(b"\x1f\x8bbroken gzip").unwrap_err(), UkaError::Decompression);
    assert_eq!(analyze_image(b"VNDRBOOT").unwrap_err(), UkaError::BadMagic);
}

#[test]
fn rejects_overlapping_tables() {
    let mut value = candidate();
    value.names_table = 16..40;
    assert!(!validate_candidate(&value, 1024));

    let mut value = candidate();
    value.token_table = 60..80;
    value.token_index = 80..592;
    value.names_table = 16..62;
    assert!(!validate_candidate(&value, 1024));

    let mut value = candidate();
    value.markers_table = Some(600..700);
    assert!(validate_candidate(&value, 1024));
    value.markers_table = Some(500..700);
    assert!(!validate_candidate(&value, 1024));
    value.markers_table = Some(10..12);
    assert!(!validate_candidate(&value, 1024));
}

#[test]
fn rejects_unreasonable_symbol_counts() {
    let mut value = candidate();
    value.num_syms = 1_000_001;
    value.address_table = 0..8_000_008;
    value.names_table = 8_000_008..8_000_016;
    value.token_table = 8_000_016..8_000_032;
    value.token_index = 8_000_032..8_000_544;
    assert!(!validate_candidate(&value, 9_000_000));
    value.num_syms = 1_000_000;
    value.address_table = 0..8_000_000;
    assert!(validate_candidate(&value, 9_000_000));
    value.num_syms = 0;
    assert!(!validate_candidate(&value, 9_000_000));
}

#[test]
fn scanned_tables_follow_one_another() {
    let kernel = kallsyms_kernel();
    for found in scan_candidates(&kernel) {
        assert!(found.num_syms >= 2);
        assert_eq!(found.names_table.start, found.address_table.end + 4);
        assert_eq!(found.names_table.end, found.token_table.start);
        assert_eq!(found.token_table.end, found.token_index.start);
        assert_eq!(found.token_index.len(), 512);
        assert!(found.markers_table.is_none());
    }
}
