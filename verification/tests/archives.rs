use std::collections::BTreeMap;
use std::io::{Cursor, Write};

use uka_core::analysis::{analyze_input, AnalysisResult};
use uka_core::offsets::{matches_kernel, validate_offset_document, KernelIdentity, OffsetDocument};
use uka_core::ota_zip::{inspect_ota_zip, summarize_ota_entries, OtaZipSummary};
use uka_core::report::analyze_ota_entry;
use uka_core::{ImageKind, UkaError};
use zip::write::SimpleFileOptions;
use zip::ZipWriter;

fn zip_with(entries: &[(&str, &[u8])]) -> Vec<u8> {
    let mut bytes = Cursor::new(Vec::new());
    {
        let mut writer = ZipWriter::new(&mut bytes);
        let options = SimpleFileOptions::default();
        for (name, content) in entries {
            writer.start_file(*name, options).unwrap();
            writer.write_all(content).unwrap();
        }
        writer.finish().unwrap();
    }
    bytes.into_inner()
}

#[test]
fn inspects_known_ota_entries() {
    let mut entries: Vec<(&str, &[u8])> = Vec::new();
    for name in [
        "payload.bin",
        "boot.img",
        "vendor_boot.img",
        "init_boot.img",
        "xbl_config.img",
        "META-INF/com/android/metadata",
    ] {
        entries.push((name, b"test"));
    }
    let bytes = zip_with(&entries);

    let summary = inspect_ota_zip(&bytes).unwrap();
    assert_eq!(summary.entries, 6);
    assert!(summary.has_payload);
    assert!(summary.has_boot);
    assert!(summary.has_vendor_boot);
    assert!(summary.has_init_boot);
    assert!(summary.has_xbl_config);
    assert_eq!(summary.metadata_entries, 1);
}

#[test]
fn rejects_truncated_zip() {
    assert!(inspect_ota_zip(b"PK").is_err());
}

#[test]
fn ota_errors_name_their_cause() {
    assert!(matches!(inspect_ota_zip(b"PK"), Err(UkaError::TooSmall)));
    assert!(matches!(
        inspect_ota_zip(b"PK\x03\x04 not really an archive"),
        Err(UkaError::Archive)
    ));
}

#[test]
fn nested_images_count_but_nested_payload_does_not() {
    let bytes = zip_with(&[
        ("images/boot.img", b"x"),
        ("firmware\\xbl_config.img", b"x"),
        ("sub/payload.bin", b"x"),
        ("notboot.img", b"x"),
        ("a/META-INF/com/android/metadata", b"x"),
        ("META-INF/com/android/metadata", b"x"),
    ]);
    let summary = inspect_ota_zip(&bytes).unwrap();
    assert_eq!(
        summary,
        OtaZipSummary {
            entries: 6,
            has_payload: false,
            has_boot: true,
            has_vendor_boot: false,
            has_init_boot: false,
            has_xbl_config: true,
            metadata_entries: 2,
        }
    );
}

#[test]
fn summarizes_entry_names_in_order() {
    let names: Vec<Vec<u8>> = vec![
        b"payload.bin".to_vec(),
        b"dir\\vendor_boot.img".to_vec(),
        b"init_boot.img".to_vec(),
    ];
    let summary = summarize_ota_entries(&names);
    assert_eq!(summary.entries, 3);
    assert!(summary.has_payload);
    assert!(!summary.has_boot);
    assert!(summary.has_vendor_boot);
    assert!(summary.has_init_boot);
    assert!(!summary.has_xbl_config);
    assert_eq!(summary.metadata_entries, 0);
    assert_eq!(summarize_ota_entries(&Vec::new()).entries, 0);
}

#[test]
fn dispatches_payload() {
    let mut data = b"CrAU".to_vec();
    data.extend_from_slice(&2u64.to_be_bytes());
    data.extend_from_slice(&0u64.to_be_bytes());
    data.extend_from_slice(&0u32.to_be_bytes());
    assert!(matches!(
        analyze_input(&data).unwrap(),
        AnalysisResult::Payload(_)
    ));
}

#[test]
fn dispatches_xbl_metadata_marker() {
    let data = b"xbl_config\0platform=sm7325\0";
    assert!(matches!(
        analyze_input(data).unwrap(),
        AnalysisResult::XblConfig(_)
    ));
}

#[test]
fn rejects_empty_input() {
    assert!(analyze_input(&[]).is_err());
}

#[test]
fn dispatches_each_recognized_kind() {
    let zip = zip_with(&[("boot.img", b"x")]);
    assert!(matches!(analyze_input(&zip).unwrap(), AnalysisResult::OtaZip(s) if s.has_boot));

    let mut elf = vec![0u8; 64];
    elf[..4].copy_from_slice(b"\x7fELF");
    elf[4] = 2;
    elf[5] = 1;
    elf[52..54].copy_from_slice(&64u16.to_le_bytes());
    assert!(matches!(analyze_input(&elf).unwrap(), AnalysisResult::Elf(_)));

    let mut dtb = vec![0u8; 40];
    dtb[..4].copy_from_slice(&[0xd0, 0x0d, 0xfe, 0xed]);
    assert!(matches!(analyze_input(&dtb), Err(_)));

    let mut btf = vec![0u8; 24];
    btf[..2].copy_from_slice(&[0x9f, 0xeb]);
    btf[2] = 1;
    btf[4..8].copy_from_slice(&24u32.to_le_bytes());
    assert!(matches!(analyze_input(&btf).unwrap(), AnalysisResult::Btf(_)));

    let mut sparse = vec![0u8; 28];
    sparse[..4].copy_from_slice(&[0x3a, 0xff, 0x26, 0xed]);
    assert!(analyze_input(&sparse).is_err());

    let marked = b"\x01\x02 some xbl_config blob";
    match analyze_input(marked).unwrap() {
        AnalysisResult::XblConfig(summary) => {
            assert_eq!(summary.size, marked.len());
            assert!(!summary.has_null_padding);
        }
        other => panic!("unexpected {other:?}"),
    }

    let kernel = b"Linux version 5.4.254-test (builder)";
    match analyze_input(kernel).unwrap() {
        AnalysisResult::Image(report) => {
            assert_eq!(report.image.kind, Some(ImageKind::RawKernel));
            assert_eq!(
                report.kernel.release.as_deref(),
                Some("5.4.254-test")
            );
        }
        other => panic!("unexpected {other:?}"),
    }
}

#[test]
fn analysis_of_empty_input_says_so() {
    assert!(matches!(analyze_input(&[]), Err(UkaError::EmptyInput)));
}

#[test]
fn analyzes_a_raw_kernel_stored_in_an_ota_entry() {
    let bytes = zip_with(&[
        ("boot.img", b"ANDROID!"),
        ("kernel", b"Linux version 6.1.0-test #1"),
    ]);
    let report = analyze_ota_entry(&bytes, "kernel").unwrap();
    assert_eq!(report.image.kind, Some(ImageKind::RawKernel));
    assert_eq!(report.kernel.release.as_deref(), Some("6.1.0-test"));
    assert!(matches!(
        analyze_ota_entry(&bytes, "missing.img"),
        Err(UkaError::Archive)
    ));
    assert!(matches!(
        analyze_ota_entry(b"not a zip", "kernel"),
        Err(UkaError::Archive)
    ));
    assert!(analyze_ota_entry(&bytes, "boot.img").is_err());
}

fn document(release: Option<&str>, build_id: Option<&str>, source: &str) -> OffsetDocument {
    let mut values = BTreeMap::new();
    values.insert("init_task".to_string(), "0xffffffc010000000".to_string());
    OffsetDocument {
        schema_version: 1,
        kernel: KernelIdentity {
            release: release.map(str::to_string),
            build_id: build_id.map(str::to_string),
        },
        source: source.to_string(),
        values,
    }
}

#[test]
fn validates_offset_documents() {
    let doc = validate_offset_document(document(None, None, "vendor dump")).unwrap();
    assert_eq!(doc.values.len(), 1);
    assert_eq!(doc.source, "vendor dump");

    let mut wrong_version = document(None, None, "vendor dump");
    wrong_version.schema_version = 2;
    assert!(matches!(
        validate_offset_document(wrong_version),
        Err(UkaError::UnsupportedVersion)
    ));
    assert!(matches!(
        validate_offset_document(document(None, None, " \t\n\u{3000}")),
        Err(UkaError::EmptySource)
    ));
    assert!(matches!(
        validate_offset_document(document(None, None, "")),
        Err(UkaError::EmptySource)
    ));
}

#[test]
fn offset_documents_match_the_kernel_they_name() {
    let open = document(None, None, "s");
    assert!(matches_kernel(&open, None, None));
    assert!(matches_kernel(&open, Some("5.4"), Some("abcd")));

    let named = document(Some("5.4.254"), Some("abcd"), "s");
    assert!(matches_kernel(&named, Some("5.4.254"), Some("abcd")));
    assert!(!matches_kernel(&named, Some("5.4.255"), Some("abcd")));
    assert!(!matches_kernel(&named, Some("5.4.254"), None));
    assert!(!matches_kernel(&named, None, Some("abcd")));

    let release_only = document(Some("5.4.254"), None, "s");
    assert!(matches_kernel(&release_only, Some("5.4.254"), Some("anything")));
    assert!(!matches_kernel(&release_only, Some("5.4"), None));
}

#[test]
fn errors_describe_themselves() {
    assert_eq!(UkaError::TooSmall.message(), "input is too small");
    assert_eq!(UkaError::EmptySource.message(), "offset document source is empty");
    assert_eq!(UkaError::Archive.message(), "ZIP archive could not be read");
}

#[test]
fn unrecognized_input_gets_the_image_analysis() {
    let data = b"Linux version 5.15.0-test (gcc)";
    let direct = uka_core::report::analyze_image(data).unwrap();
    match analyze_input(data).unwrap() {
        AnalysisResult::Image(report) => {
            assert_eq!(report.image.kind, direct.image.kind);
            assert_eq!(report.kernel.release, direct.kernel.release);
            assert_eq!(report.kernel.release.as_deref(), Some("5.15.0-test"));
        }
        other => panic!("unexpected {other:?}"),
    }
    let short = b"ANDROID";
    assert_eq!(
        analyze_input(short).unwrap_err(),
        uka_core::report::analyze_image(short).unwrap_err()
    );
}
