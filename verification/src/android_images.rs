use vstd::prelude::*;
use crate::boot::{boot_error, boot_header_version, boot_kind_of_version, parse_boot_image};
use crate::error::UkaError;
use crate::init_boot::{init_boot_error, parse_init_boot_image};
use crate::magic::{android_magic, has_android_magic, has_vendor_boot_magic, vendor_boot_magic};
use crate::model::ImageKind;
use crate::vendor_boot::{parse_vendor_boot_image, vendor_boot_error};

verus! {

/// The family of an Android image, told apart by magic and validation.
#[derive(Debug, Clone, Copy, PartialEq, Eq, Structural)]
pub enum DetectedImageKind {
    Boot,
    VendorBoot,
    InitBoot,
}

/// What `s` is detected as: `VNDRBOOT` images are vendor_boot images; an
/// `ANDROID!` image is an init_boot image when it validates as one, else a
/// boot image when it validates as one.
pub open spec fn detected_kind(s: Seq<u8>) -> Result<DetectedImageKind, UkaError> {
    if s.len() < 8 {
        Err(UkaError::TooSmall)
    } else if s.subrange(0, 8) == vendor_boot_magic() {
        Ok(DetectedImageKind::VendorBoot)
    } else if s.subrange(0, 8) != android_magic() {
        Err(UkaError::BadMagic)
    } else if init_boot_error(s) is None {
        Ok(DetectedImageKind::InitBoot)
    } else if boot_error(s) is None {
        Ok(DetectedImageKind::Boot)
    } else {
        Err(UkaError::NotValidated)
    }
}

/// Detects the family of an Android image.
pub fn detect_image_kind(data: &[u8]) -> (r: Result<DetectedImageKind, UkaError>)
    ensures
        r == detected_kind(data@),
{
    if data.len() < 8 {
        return Err(UkaError::TooSmall);
    }
    if has_vendor_boot_magic(data, 0) {
        return Ok(DetectedImageKind::VendorBoot);
    }
    if !has_android_magic(data, 0) {
        return Err(UkaError::BadMagic);
    }
    if parse_init_boot_image(data).is_ok() {
        return Ok(DetectedImageKind::InitBoot);
    }
    if parse_boot_image(data).is_ok() {
        return Ok(DetectedImageKind::Boot);
    }
    Err(UkaError::NotValidated)
}

/// The image kind of `s`, from the full parse of the detected family.
pub open spec fn strict_kind(s: Seq<u8>) -> Result<ImageKind, UkaError> {
    match detected_kind(s) {
        Err(e) => Err(e),
        Ok(DetectedImageKind::Boot) => Ok(boot_kind_of_version(boot_header_version(s))),
        Ok(DetectedImageKind::VendorBoot) => match vendor_boot_error(s) {
            Some(e) => Err(e),
            None => Ok(ImageKind::VendorBoot),
        },
        Ok(DetectedImageKind::InitBoot) => Ok(ImageKind::InitBoot),
    }
}

/// Detects the family of an Android image and parses it fully to name its kind.
pub fn detect_image_kind_strict(data: &[u8]) -> (r: Result<ImageKind, UkaError>)
    ensures
        r == strict_kind(data@),
{
    match detect_image_kind(data)? {
        DetectedImageKind::Boot => Ok(parse_boot_image(data)?.kind),
        DetectedImageKind::VendorBoot => Ok(parse_vendor_boot_image(data)?.kind),
        DetectedImageKind::InitBoot => Ok(parse_init_boot_image(data)?.kind),
    }
}

/// An image detected as a boot image parses as one, and its strict kind is one
/// of the boot kinds; one detected as init_boot parses as an init_boot image and
/// has kind `InitBoot`; the strict kind of a vendor_boot image is `VendorBoot`.
pub proof fn lemma_strict_kind_agrees_with_detection(s: Seq<u8>)
    ensures
        detected_kind(s) == Ok::<DetectedImageKind, UkaError>(DetectedImageKind::Boot) ==> {
            &&& boot_error(s) is None
            &&& init_boot_error(s) is Some
            &&& strict_kind(s) matches Ok(k) && (k == ImageKind::BootV0 || k == ImageKind::BootV1
                || k == ImageKind::BootV2 || k == ImageKind::BootV3 || k == ImageKind::BootV4)
        },
        detected_kind(s) == Ok::<DetectedImageKind, UkaError>(DetectedImageKind::InitBoot) ==> {
            &&& init_boot_error(s) is None
            &&& strict_kind(s) == Ok::<ImageKind, UkaError>(ImageKind::InitBoot)
        },
        detected_kind(s) == Ok::<DetectedImageKind, UkaError>(DetectedImageKind::VendorBoot) ==> (
        strict_kind(s) is Ok <==> vendor_boot_error(s) is None) && (strict_kind(s) is Ok
            ==> strict_kind(s) == Ok::<ImageKind, UkaError>(ImageKind::VendorBoot)),
        detected_kind(s) matches Err(e) ==> strict_kind(s) == Err::<ImageKind, UkaError>(e),
{
}

} // verus!
