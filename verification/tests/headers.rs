use uka_core::btf::{parse_btf_header, BTF_MAGIC};
use uka_core::containers::{detect_container_kind, ContainerKind};
use uka_core::dtb::{parse_dtb_header, FDT_MAGIC};
use uka_core::elf::parse_elf_header;
use uka_core::payload::parse_payload_header;
use uka_core::sparse::{parse_sparse_header, SPARSE_HEADER_SIZE, SPARSE_MAGIC};
use uka_core::xbl_config::inspect_xbl_config;
use uka_core::UkaError;

const HEADER_SIZE: usize = SPARSE_HEADER_SIZE;
const MAGIC: &[u8; 4] = b"CrAU";

#[test]
fn parses_btf_header() {
    let mut data = vec![0u8; 32];
    data[0..2].copy_from_slice(&BTF_MAGIC.to_le_bytes());
    data[2] = 1;
    data[4..8].copy_from_slice(&24u32.to_le_bytes());
    data[8..12].copy_from_slice(&0u32.to_le_bytes());
    data[12..16].copy_from_slice(&4u32.to_le_bytes());
    data[16..20].copy_from_slice(&4u32.to_le_bytes());
    data[20..24].copy_from_slice(&4u32.to_le_bytes());
    assert_eq!(parse_btf_header(&data).unwrap().version, 1);
}

#[test]
fn rejects_invalid_btf_version() {
    let mut data = vec![0u8; 24];
    data[0..2].copy_from_slice(&BTF_MAGIC.to_le_bytes());
    data[2] = 2;
    data[4..8].copy_from_slice(&24u32.to_le_bytes());
    assert!(parse_btf_header(&data).is_err());
}

#[test]
fn btf_errors_name_their_cause() {
    let mut data = vec![0u8; 32];
    data[0..2].copy_from_slice(&BTF_MAGIC.to_le_bytes());
    data[2] = 1;
    data[4..8].copy_from_slice(&24u32.to_le_bytes());
    data[12..16].copy_from_slice(&9u32.to_le_bytes());
    assert_eq!(parse_btf_header(&data).unwrap_err(), UkaError::OutOfBounds);
    data[12..16].copy_from_slice(&8u32.to_le_bytes());
    assert_eq!(parse_btf_header(&data).unwrap().type_length, 8);
    data[4..8].copy_from_slice(&20u32.to_le_bytes());
    assert_eq!(parse_btf_header(&data).unwrap_err(), UkaError::InvalidHeaderSize);
    assert_eq!(parse_btf_header(&[0u8; 23]).unwrap_err(), UkaError::TooSmall);
    assert_eq!(parse_btf_header(&[0u8; 24]).unwrap_err(), UkaError::BadMagic);
}

#[test]
fn detects_payload_container() {
    assert_eq!(detect_container_kind(b"CrAU").unwrap(), ContainerKind::PayloadBin);
}

#[test]
fn detects_zip_variants() {
    assert_eq!(detect_container_kind(b"PK\x03\x04").unwrap(), ContainerKind::OtaZip);
    assert_eq!(detect_container_kind(b"PK\x05\x06").unwrap(), ContainerKind::OtaZip);
    assert_eq!(detect_container_kind(b"PK\x07\x08").unwrap(), ContainerKind::OtaZip);
}

#[test]
fn rejects_unknown_container() {
    assert_eq!(detect_container_kind(b"PK\x01\x02").unwrap_err(), UkaError::UnknownContainer);
    assert_eq!(detect_container_kind(b"CrA").unwrap_err(), UkaError::UnknownContainer);
}

#[test]
fn parses_dtb_header() {
    let mut data = vec![0u8; 64];
    data[0..4].copy_from_slice(&FDT_MAGIC.to_be_bytes());
    data[4..8].copy_from_slice(&64u32.to_be_bytes());
    data[8..12].copy_from_slice(&40u32.to_be_bytes());
    data[12..16].copy_from_slice(&48u32.to_be_bytes());
    data[16..20].copy_from_slice(&40u32.to_be_bytes());
    data[20..24].copy_from_slice(&17u32.to_be_bytes());
    data[24..28].copy_from_slice(&16u32.to_be_bytes());
    data[32..36].copy_from_slice(&8u32.to_be_bytes());
    data[36..40].copy_from_slice(&8u32.to_be_bytes());
    assert_eq!(parse_dtb_header(&data).unwrap().version, 17);
}

#[test]
fn rejects_invalid_dtb_bounds() {
    let mut data = vec![0u8; 40];
    data[0..4].copy_from_slice(&FDT_MAGIC.to_be_bytes());
    data[4..8].copy_from_slice(&40u32.to_be_bytes());
    data[20..24].copy_from_slice(&17u32.to_be_bytes());
    data[24..28].copy_from_slice(&16u32.to_be_bytes());
    data[8..12].copy_from_slice(&40u32.to_be_bytes());
    data[36..40].copy_from_slice(&8u32.to_be_bytes());
    assert!(parse_dtb_header(&data).is_err());
}

#[test]
fn dtb_errors_name_their_cause() {
    let mut data = vec![0u8; 64];
    data[0..4].copy_from_slice(&FDT_MAGIC.to_be_bytes());
    data[4..8].copy_from_slice(&64u32.to_be_bytes());
    data[8..12].copy_from_slice(&40u32.to_be_bytes());
    data[12..16].copy_from_slice(&48u32.to_be_bytes());
    data[16..20].copy_from_slice(&40u32.to_be_bytes());
    data[20..24].copy_from_slice(&16u32.to_be_bytes());
    data[24..28].copy_from_slice(&17u32.to_be_bytes());
    assert_eq!(parse_dtb_header(&data).unwrap_err(), UkaError::InvalidField);
    data[20..24].copy_from_slice(&17u32.to_be_bytes());
    data[4..8].copy_from_slice(&65u32.to_be_bytes());
    assert_eq!(parse_dtb_header(&data).unwrap_err(), UkaError::OutOfBounds);
    data[4..8].copy_from_slice(&64u32.to_be_bytes());
    data[16..20].copy_from_slice(&64u32.to_be_bytes());
    assert_eq!(parse_dtb_header(&data).unwrap_err(), UkaError::OutOfBounds);
}

#[test]
fn parses_elf64_header() {
    let mut data = vec![0u8; 64];
    data[..4].copy_from_slice(b"\x7fELF");
    data[4] = 2;
    data[5] = 1;
    data[18..20].copy_from_slice(&183u16.to_le_bytes());
    data[54..56].copy_from_slice(&56u16.to_le_bytes());
    data[56..58].copy_from_slice(&1u16.to_le_bytes());
    data[58..60].copy_from_slice(&64u16.to_le_bytes());
    data[60..62].copy_from_slice(&1u16.to_le_bytes());
    assert_eq!(parse_elf_header(&data).unwrap().machine, 183);
}

#[test]
fn rejects_bad_elf_magic() {
    assert!(parse_elf_header(&[0u8; 64]).is_err());
}

#[test]
fn rejects_invalid_elf_header_size() {
    let mut data = vec![0u8; 64];
    data[..4].copy_from_slice(b"\x7fELF");
    data[4] = 2;
    data[5] = 1;
    data[6] = 1;
    data[16..20].copy_from_slice(&1u32.to_le_bytes());
    data[52..54].copy_from_slice(&63u16.to_le_bytes());
    assert!(parse_elf_header(&data).is_err());
}

fn elf64() -> Vec<u8> {
    let mut data = vec![0u8; 64];
    data[..4].copy_from_slice(b"\x7fELF");
    data[4] = 2;
    data[5] = 1;
    data[6] = 1;
    data[18..20].copy_from_slice(&183u16.to_le_bytes());
    data[20..24].copy_from_slice(&1u32.to_le_bytes());
    data[52..54].copy_from_slice(&64u16.to_le_bytes());
    data
}

#[test]
fn elf_errors_name_their_cause() {
    let mut data = elf64();
    assert_eq!(parse_elf_header(&data).unwrap().machine, 183);
    data[52..54].copy_from_slice(&63u16.to_le_bytes());
    assert_eq!(parse_elf_header(&data).unwrap_err(), UkaError::InvalidHeaderSize);
    data[52..54].copy_from_slice(&64u16.to_le_bytes());
    data[5] = 2;
    assert_eq!(parse_elf_header(&data).unwrap_err(), UkaError::UnsupportedFormat);
    data[5] = 1;
    data[4] = 3;
    assert_eq!(parse_elf_header(&data).unwrap_err(), UkaError::UnsupportedFormat);
    data[4] = 2;
    data[40..48].copy_from_slice(&64u64.to_le_bytes());
    data[58..60].copy_from_slice(&64u16.to_le_bytes());
    data[60..62].copy_from_slice(&1u16.to_le_bytes());
    assert_eq!(parse_elf_header(&data).unwrap_err(), UkaError::OutOfBounds);
    data[40..48].copy_from_slice(&0u64.to_le_bytes());
    data[62..64].copy_from_slice(&1u16.to_le_bytes());
    assert_eq!(parse_elf_header(&data).unwrap_err(), UkaError::InvalidField);
    data[62..64].copy_from_slice(&0u16.to_le_bytes());
    let header = parse_elf_header(&data).unwrap();
    assert_eq!(header.section_header_count, 1);
    assert_eq!(header.class, 2);
    data[58..60].copy_from_slice(&0u16.to_le_bytes());
    assert_eq!(parse_elf_header(&data).unwrap_err(), UkaError::InvalidField);
    assert_eq!(parse_elf_header(&data[..40]).unwrap_err(), UkaError::TooSmall);
    assert_eq!(parse_elf_header(&data[..19]).unwrap_err(), UkaError::TooSmall);
}

#[test]
fn parses_elf32_header() {
    let mut data = vec![0u8; 52];
    data[..4].copy_from_slice(b"\x7fELF");
    data[4] = 1;
    data[5] = 1;
    data[6] = 1;
    data[18..20].copy_from_slice(&40u16.to_le_bytes());
    data[24..28].copy_from_slice(&0x8000u32.to_le_bytes());
    data[40..42].copy_from_slice(&52u16.to_le_bytes());
    let header = parse_elf_header(&data).unwrap();
    assert_eq!(header.class, 1);
    assert_eq!(header.machine, 40);
    assert_eq!(header.entry, 0x8000);
    assert_eq!(parse_elf_header(&data[..51]).unwrap_err(), UkaError::TooSmall);
}

#[test]
fn parses_payload_header() {
    let mut data = Vec::from(*MAGIC);
    data.extend_from_slice(&2u64.to_be_bytes());
    data.extend_from_slice(&3u64.to_be_bytes());
    data.extend_from_slice(&2u32.to_be_bytes());
    data.extend_from_slice(b"abcde");
    let header = parse_payload_header(&data).unwrap();
    assert_eq!(header.major_version, 2);
    assert_eq!(header.manifest_size, 3);
    assert_eq!(header.metadata_signature_size, 2);
    assert_eq!(header.metadata_signature_offset, 27);
}

#[test]
fn rejects_truncated_payload() {
    assert!(parse_payload_header(b"CrAU").is_err());
}

#[test]
fn rejects_out_of_bounds_manifest() {
    let mut data = Vec::from(*MAGIC);
    data.extend_from_slice(&2u64.to_be_bytes());
    data.extend_from_slice(&100u64.to_be_bytes());
    data.extend_from_slice(&0u32.to_be_bytes());
    assert!(parse_payload_header(&data).is_err());
}

#[test]
fn payload_errors_name_their_cause() {
    let mut data = Vec::from(*MAGIC);
    data.extend_from_slice(&0u64.to_be_bytes());
    data.extend_from_slice(&0u64.to_be_bytes());
    data.extend_from_slice(&0u32.to_be_bytes());
    assert_eq!(parse_payload_header(&data).unwrap_err(), UkaError::UnsupportedVersion);
    data[4..12].copy_from_slice(&1u64.to_be_bytes());
    data[12..20].copy_from_slice(&u64::MAX.to_be_bytes());
    assert_eq!(parse_payload_header(&data).unwrap_err(), UkaError::RangeOverflow);
    data[12..20].copy_from_slice(&0u64.to_be_bytes());
    let header = parse_payload_header(&data).unwrap();
    assert_eq!(header.manifest_offset, 24);
    assert_eq!(header.metadata_signature_offset, 24);
    data[0] = b'X';
    assert_eq!(parse_payload_header(&data).unwrap_err(), UkaError::BadMagic);
}

#[test]
fn parses_sparse_header() {
    let mut data = vec![0u8; HEADER_SIZE];
    data[0..4].copy_from_slice(&SPARSE_MAGIC.to_le_bytes());
    data[4..6].copy_from_slice(&1u16.to_le_bytes());
    data[8..10].copy_from_slice(&28u16.to_le_bytes());
    data[10..12].copy_from_slice(&12u16.to_le_bytes());
    data[12..16].copy_from_slice(&4096u32.to_le_bytes());
    data[16..20].copy_from_slice(&2u32.to_le_bytes());
    data[20..24].copy_from_slice(&1u32.to_le_bytes());
    assert_eq!(parse_sparse_header(&data).unwrap().block_size, 4096);
}

#[test]
fn rejects_bad_sparse_magic() {
    assert!(parse_sparse_header(&[0u8; HEADER_SIZE]).is_err());
}

#[test]
fn sparse_errors_name_their_cause() {
    let mut data = vec![0u8; HEADER_SIZE];
    data[0..4].copy_from_slice(&SPARSE_MAGIC.to_le_bytes());
    data[4..6].copy_from_slice(&1u16.to_le_bytes());
    data[8..10].copy_from_slice(&28u16.to_le_bytes());
    data[10..12].copy_from_slice(&12u16.to_le_bytes());
    data[12..16].copy_from_slice(&4098u32.to_le_bytes());
    assert_eq!(parse_sparse_header(&data).unwrap_err(), UkaError::InvalidField);
    data[12..16].copy_from_slice(&4096u32.to_le_bytes());
    data[10..12].copy_from_slice(&11u16.to_le_bytes());
    assert_eq!(parse_sparse_header(&data).unwrap_err(), UkaError::InvalidHeaderSize);
    data[10..12].copy_from_slice(&12u16.to_le_bytes());
    data[8..10].copy_from_slice(&32u16.to_le_bytes());
    assert_eq!(parse_sparse_header(&data).unwrap_err(), UkaError::OutOfBounds);
    data[4..6].copy_from_slice(&2u16.to_le_bytes());
    assert_eq!(parse_sparse_header(&data).unwrap_err(), UkaError::UnsupportedVersion);
}

#[test]
fn inspects_xbl_config_as_opaque_metadata() {
    let summary = inspect_xbl_config(b"key=value\0platform=sm7325\0").unwrap();
    assert_eq!(summary.size, 26);
    assert_eq!(summary.printable_strings, 2);
    assert!(summary.has_null_padding);
}

#[test]
fn rejects_empty_xbl_config() {
    assert!(inspect_xbl_config(&[]).is_err());
}

#[test]
fn counts_unterminated_and_broken_xbl_strings() {
    let summary = inspect_xbl_config(b"abc\x01def").unwrap();
    assert_eq!(summary.printable_strings, 1);
    assert!(!summary.has_null_padding);
    let summary = inspect_xbl_config(b"\0\0ab\0\x7f\0").unwrap();
    assert_eq!(summary.printable_strings, 1);
    assert!(summary.has_null_padding);
    assert_eq!(inspect_xbl_config(&[]).unwrap_err(), UkaError::EmptyInput);
}

#[test]
fn elf_identification_version_must_be_one_or_unset() {
    let mut data = vec![0u8; 64];
    data[..4].copy_from_slice(b"\x7fELF");
    data[4] = 2;
    data[5] = 1;
    data[18..20].copy_from_slice(&183u16.to_le_bytes());
    assert!(parse_elf_header(&data).is_ok());
    data[6] = 1;
    data[20..24].copy_from_slice(&1u32.to_le_bytes());
    data[52..54].copy_from_slice(&64u16.to_le_bytes());
    assert!(parse_elf_header(&data).is_ok());
    data[6] = 2;
    assert_eq!(parse_elf_header(&data).unwrap_err(), UkaError::UnsupportedVersion);
    data[6] = 1;
    data[20..24].copy_from_slice(&2u32.to_le_bytes());
    assert!(parse_elf_header(&data).is_ok());

    let mut elf32 = vec![0u8; 52];
    elf32[..4].copy_from_slice(b"\x7fELF");
    elf32[4] = 1;
    elf32[5] = 1;
    elf32[40..42].copy_from_slice(&52u16.to_le_bytes());
    assert!(parse_elf_header(&elf32).is_ok());
    elf32[20..24].copy_from_slice(&3u32.to_le_bytes());
    assert!(parse_elf_header(&elf32).is_ok());
    elf32[6] = 3;
    assert_eq!(parse_elf_header(&elf32).unwrap_err(), UkaError::UnsupportedVersion);
}
