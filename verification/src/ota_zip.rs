use vstd::prelude::*;
use crate::bytes::bytes_equal;
use crate::error::UkaError;
use crate::outside_calls::{read_zip_entry_names, zip_entry_names};

verus! {

/// What an OTA ZIP holds, by entry name.
#[derive(Debug, Clone, Copy, PartialEq, Eq, Structural)]
pub struct OtaZipSummary {
    pub entries: usize,
    pub has_payload: bool,
    pub has_boot: bool,
    pub has_vendor_boot: bool,
    pub has_init_boot: bool,
    pub has_xbl_config: bool,
    pub metadata_entries: usize,
}

/// `payload.bin`.
pub open spec fn payload_bin_name() -> Seq<u8> {
    seq![0x70u8, 0x61u8, 0x79u8, 0x6cu8, 0x6fu8, 0x61u8, 0x64u8, 0x2eu8, 0x62u8, 0x69u8, 0x6eu8]
}

/// `boot.img`.
pub open spec fn boot_img_name() -> Seq<u8> {
    seq![0x62u8, 0x6fu8, 0x6fu8, 0x74u8, 0x2eu8, 0x69u8, 0x6du8, 0x67u8]
}

/// `vendor_boot.img`.
pub open spec fn vendor_boot_img_name() -> Seq<u8> {
    seq![0x76u8, 0x65u8, 0x6eu8, 0x64u8, 0x6fu8, 0x72u8, 0x5fu8, 0x62u8, 0x6fu8, 0x6fu8, 0x74u8, 0x2eu8, 0x69u8, 0x6du8, 0x67u8]
}

/// `init_boot.img`.
pub open spec fn init_boot_img_name() -> Seq<u8> {
    seq![0x69u8, 0x6eu8, 0x69u8, 0x74u8, 0x5fu8, 0x62u8, 0x6fu8, 0x6fu8, 0x74u8, 0x2eu8, 0x69u8, 0x6du8, 0x67u8]
}

/// `xbl_config.img`.
pub open spec fn xbl_config_img_name() -> Seq<u8> {
    seq![0x78u8, 0x62u8, 0x6cu8, 0x5fu8, 0x63u8, 0x6fu8, 0x6eu8, 0x66u8, 0x69u8, 0x67u8, 0x2eu8, 0x69u8, 0x6du8, 0x67u8]
}

/// `META-INF/com/android/metadata`.
pub open spec fn ota_metadata_name() -> Seq<u8> {
    seq![0x4du8, 0x45u8, 0x54u8, 0x41u8, 0x2du8, 0x49u8, 0x4eu8, 0x46u8, 0x2fu8, 0x63u8, 0x6fu8, 0x6du8, 0x2fu8, 0x61u8, 0x6eu8, 0x64u8, 0x72u8, 0x6fu8, 0x69u8, 0x64u8, 0x2fu8, 0x6du8, 0x65u8, 0x74u8, 0x61u8, 0x64u8, 0x61u8, 0x74u8, 0x61u8]
}

fn payload_bin_bytes() -> (r: [u8; 11])
    ensures
        r@ == payload_bin_name(),
{
    let r: [u8; 11] = [0x70, 0x61, 0x79, 0x6c, 0x6f, 0x61, 0x64, 0x2e, 0x62, 0x69, 0x6e];
    assert(r@ =~= payload_bin_name());
    r
}

fn boot_img_bytes() -> (r: [u8; 8])
    ensures
        r@ == boot_img_name(),
{
    let r: [u8; 8] = [0x62, 0x6f, 0x6f, 0x74, 0x2e, 0x69, 0x6d, 0x67];
    assert(r@ =~= boot_img_name());
    r
}

fn vendor_boot_img_bytes() -> (r: [u8; 15])
    ensures
        r@ == vendor_boot_img_name(),
{
    let r: [u8; 15] = [0x76, 0x65, 0x6e, 0x64, 0x6f, 0x72, 0x5f, 0x62, 0x6f, 0x6f, 0x74, 0x2e, 0x69, 0x6d, 0x67];
    assert(r@ =~= vendor_boot_img_name());
    r
}

fn init_boot_img_bytes() -> (r: [u8; 13])
    ensures
        r@ == init_boot_img_name(),
{
    let r: [u8; 13] = [0x69, 0x6e, 0x69, 0x74, 0x5f, 0x62, 0x6f, 0x6f, 0x74, 0x2e, 0x69, 0x6d, 0x67];
    assert(r@ =~= init_boot_img_name());
    r
}

fn xbl_config_img_bytes() -> (r: [u8; 14])
    ensures
        r@ == xbl_config_img_name(),
{
    let r: [u8; 14] = [0x78, 0x62, 0x6c, 0x5f, 0x63, 0x6f, 0x6e, 0x66, 0x69, 0x67, 0x2e, 0x69, 0x6d, 0x67];
    assert(r@ =~= xbl_config_img_name());
    r
}

fn ota_metadata_bytes() -> (r: [u8; 29])
    ensures
        r@ == ota_metadata_name(),
{
    let r: [u8; 29] = [0x4d, 0x45, 0x54, 0x41, 0x2d, 0x49, 0x4e, 0x46, 0x2f, 0x63, 0x6f, 0x6d, 0x2f, 0x61, 0x6e, 0x64, 0x72, 0x6f, 0x69, 0x64, 0x2f, 0x6d, 0x65, 0x74, 0x61, 0x64, 0x61, 0x74, 0x61];
    assert(r@ =~= ota_metadata_name());
    r
}

/// An entry name with backslashes turned into slashes.
pub open spec fn normalize_name(name: Seq<u8>) -> Seq<u8> {
    name.map_values(|b: u8| if b == 0x5c { 0x2fu8 } else { b })
}

/// `name` is `file` or ends in `/` followed by `file`.
pub open spec fn names_file(name: Seq<u8>, file: Seq<u8>) -> bool {
    name == file || (name.len() > file.len() && name[name.len() - file.len() - 1] == 0x2f
        && name.subrange(name.len() - file.len(), name.len() as int) == file)
}

/// Some entry of `names` names `file` once normalized.
pub open spec fn any_names_file(names: Seq<Seq<u8>>, file: Seq<u8>) -> bool {
    exists|i: int| 0 <= i < names.len() && names_file(normalize_name(#[trigger] names[i]), file)
}

/// How many of the first `k` entries of `names` name `file` once normalized.
pub open spec fn count_names_file(names: Seq<Seq<u8>>, file: Seq<u8>, k: int) -> nat
    decreases k,
{
    if k <= 0 {
        0
    } else {
        count_names_file(names, file, k - 1) + if names_file(normalize_name(names[k - 1]), file) {
            1nat
        } else {
            0nat
        }
    }
}

/// The summary of an archive whose entries are called `names`: the entry
/// count, whether `payload.bin` stands at the top level, whether `boot.img`,
/// `vendor_boot.img`, `init_boot.img` and `xbl_config.img` stand anywhere, and
/// how many Android metadata files it holds.
pub open spec fn summary_of_names(names: Seq<Seq<u8>>) -> OtaZipSummary {
    OtaZipSummary {
        entries: names.len() as usize,
        has_payload: exists|i: int| 0 <= i < names.len() && normalize_name(#[trigger] names[i]) == payload_bin_name(),
        has_boot: any_names_file(names, boot_img_name()),
        has_vendor_boot: any_names_file(names, vendor_boot_img_name()),
        has_init_boot: any_names_file(names, init_boot_img_name()),
        has_xbl_config: any_names_file(names, xbl_config_img_name()),
        metadata_entries: count_names_file(names, ota_metadata_name(), names.len() as int) as usize,
    }
}

/// The summary of the OTA ZIP `s`, or why none is made.
pub open spec fn spec_inspect_ota_zip(s: Seq<u8>) -> Result<OtaZipSummary, UkaError> {
    if s.len() < 4 {
        Err(UkaError::TooSmall)
    } else {
        match zip_entry_names(s) {
            None => Err(UkaError::Archive),
            Some(names) => Ok(summary_of_names(names)),
        }
    }
}

fn normalize(name: &Vec<u8>) -> (r: Vec<u8>)
    ensures
        r@ == normalize_name(name@),
{
    let mut out: Vec<u8> = Vec::new();
    let mut i: usize = 0;
    while i < name.len()
        invariant
            i <= name@.len(),
            out@ =~= normalize_name(name@.subrange(0, i as int)),
        decreases name@.len() - i,
    {
        let b = name[i];
        out.push(if b == 0x5c { 0x2f } else { b });
        assert(name@.subrange(0, i + 1) =~= name@.subrange(0, i as int).push(b));
        i += 1;
    }
    assert(name@.subrange(0, name@.len() as int) =~= name@);
    out
}

fn ends_with_file(name: &[u8], file: &[u8]) -> (r: bool)
    ensures
        r == names_file(name@, file@),
{
    if bytes_equal(name, file) {
        return true;
    }
    if name.len() <= file.len() {
        return false;
    }
    let start = name.len() - file.len();
    if name[start - 1] != 0x2f {
        return false;
    }
    let mut i: usize = 0;
    while i < file.len()
        invariant
            start == name.len() - file.len(),
            i <= file@.len(),
            forall|j: int| 0 <= j < i ==> name@[start + j] == file@[j],
        decreases file@.len() - i,
    {
        if name[start + i] != file[i] {
            assert(name@.subrange(start as int, name@.len() as int)[i as int] != file@[i as int]);
            return false;
        }
        i += 1;
    }
    assert(name@.subrange(start as int, name@.len() as int) =~= file@);
    true
}

/// Inspects an OTA ZIP without executing update scripts or modifying its contents.
pub fn inspect_ota_zip(data: &[u8]) -> (r: Result<OtaZipSummary, UkaError>)
    ensures
        r == spec_inspect_ota_zip(data@),
{
    if data.len() < 4 {
        return Err(UkaError::TooSmall);
    }
    match read_zip_entry_names(data) {
        Ok(names) => Ok(summarize_ota_entries(&names)),
        Err(_) => Err(UkaError::Archive),
    }
}

/// Summarizes an archive whose entries are called `names`, in archive order.
pub fn summarize_ota_entries(names: &Vec<Vec<u8>>) -> (r: OtaZipSummary)
    ensures
        r == summary_of_names(names.deep_view()),
{
    let ghost ns = names.deep_view();
    let payload = payload_bin_bytes();
    let boot = boot_img_bytes();
    let vendor_boot = vendor_boot_img_bytes();
    let init_boot = init_boot_img_bytes();
    let xbl = xbl_config_img_bytes();
    let metadata = ota_metadata_bytes();
    let mut summary = OtaZipSummary {
        entries: names.len(),
        has_payload: false,
        has_boot: false,
        has_vendor_boot: false,
        has_init_boot: false,
        has_xbl_config: false,
        metadata_entries: 0,
    };
    let mut index: usize = 0;
    while index < names.len()
        invariant
            ns == names.deep_view(),
            ns.len() == names@.len(),
            index <= names@.len(),
            payload@ == payload_bin_name(),
            boot@ == boot_img_name(),
            vendor_boot@ == vendor_boot_img_name(),
            init_boot@ == init_boot_img_name(),
            xbl@ == xbl_config_img_name(),
            metadata@ == ota_metadata_name(),
            summary.entries == names@.len(),
            summary.has_payload == exists|i: int| 0 <= i < index && normalize_name(#[trigger] ns[i]) == payload_bin_name(),
            summary.has_boot == exists|i: int| 0 <= i < index && names_file(normalize_name(#[trigger] ns[i]), boot_img_name()),
            summary.has_vendor_boot == exists|i: int| 0 <= i < index && names_file(normalize_name(#[trigger] ns[i]), vendor_boot_img_name()),
            summary.has_init_boot == exists|i: int| 0 <= i < index && names_file(normalize_name(#[trigger] ns[i]), init_boot_img_name()),
            summary.has_xbl_config == exists|i: int| 0 <= i < index && names_file(normalize_name(#[trigger] ns[i]), xbl_config_img_name()),
            summary.metadata_entries == count_names_file(ns, ota_metadata_name(), index as int),
            summary.metadata_entries <= index,
        decreases names@.len() - index,
    {
        let name = normalize(&names[index]);
        assert(name@ == normalize_name(ns[index as int]));
        let is_payload = bytes_equal(name.as_slice(), &payload);
        let is_boot = ends_with_file(name.as_slice(), &boot);
        let is_vendor_boot = ends_with_file(name.as_slice(), &vendor_boot);
        let is_init_boot = ends_with_file(name.as_slice(), &init_boot);
        let is_xbl = ends_with_file(name.as_slice(), &xbl);
        let is_metadata = ends_with_file(name.as_slice(), &metadata);
        summary.has_payload = summary.has_payload || is_payload;
        summary.has_boot = summary.has_boot || is_boot;
        summary.has_vendor_boot = summary.has_vendor_boot || is_vendor_boot;
        summary.has_init_boot = summary.has_init_boot || is_init_boot;
        summary.has_xbl_config = summary.has_xbl_config || is_xbl;
        if is_metadata {
            summary.metadata_entries += 1;
        }
        index += 1;
    }
    assert(summary == summary_of_names(ns));
    summary
}

} // verus!
