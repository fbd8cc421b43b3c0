use vstd::prelude::*;
use crate::bytes::starts_with;
use crate::error::UkaError;
use crate::magic::{
    has_payload_magic, has_zip_end_magic, has_zip_local_magic, has_zip_spanned_magic,
    payload_magic, zip_end_magic, zip_local_magic, zip_spanned_magic,
};

verus! {

/// A container that wraps Android images.
#[derive(Debug, Clone, Copy, PartialEq, Eq, Structural)]
pub enum ContainerKind {
    OtaZip,
    PayloadBin,
}

/// `s` begins with one of the three ZIP signatures.
pub open spec fn is_zip_start(s: Seq<u8>) -> bool {
    starts_with(s, zip_local_magic()) || starts_with(s, zip_end_magic()) || starts_with(
        s,
        zip_spanned_magic(),
    )
}

/// The container that `s` is, by its leading magic.
pub open spec fn container_kind(s: Seq<u8>) -> Result<ContainerKind, UkaError> {
    if starts_with(s, payload_magic()) {
        Ok(ContainerKind::PayloadBin)
    } else if is_zip_start(s) {
        Ok(ContainerKind::OtaZip)
    } else {
        Err(UkaError::UnknownContainer)
    }
}

/// Detects an OTA ZIP or a payload.bin by its leading magic.
pub fn detect_container_kind(data: &[u8]) -> (r: Result<ContainerKind, UkaError>)
    ensures
        r == container_kind(data@),
{
    if has_payload_magic(data, 0) {
        return Ok(ContainerKind::PayloadBin);
    }
    if has_zip_local_magic(data, 0) || has_zip_end_magic(data, 0) || has_zip_spanned_magic(
        data,
        0,
    ) {
        return Ok(ContainerKind::OtaZip);
    }
    Err(UkaError::UnknownContainer)
}

} // verus!
