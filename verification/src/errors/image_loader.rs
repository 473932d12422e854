//! Image-loading error codes: domain `CALIPTRA_API`, subdomain
//! `SUBDOMAIN_IMAGE_LOADING`, and the code numbers below.
use vstd::prelude::*;
use crate::mcu_error::{domain, packed, McuErrorCode};
use super::SUBDOMAIN_IMAGE_LOADING;

verus! {

/// The caller supplied more firmware IDs than the Caliptra command supports.
pub const FW_ID_COUNT_TOO_LARGE: u16 = 0x0001;
/// Building an image-loading mailbox request failed.
pub const REQUEST_BUILD_FAILED: u16 = 0x0002;
/// GET_IMAGE_INFO failed in Caliptra mailbox execution.
pub const GET_IMAGE_INFO_FAILED: u16 = 0x0003;
/// GET_IMAGE_INFO returned fewer bytes than the fixed response layout requires.
pub const IMAGE_INFO_RESPONSE_TOO_SHORT: u16 = 0x0004;
/// A mailbox command response did not contain the common response header.
pub const MAILBOX_RESPONSE_TOO_SHORT: u16 = 0x0005;
/// The Auth Manifest described by flash metadata is larger than supported.
pub const AUTH_MANIFEST_TOO_LARGE: u16 = 0x0006;
/// VERIFY_AUTH_MANIFEST failed in Caliptra mailbox execution.
pub const AUTH_MANIFEST_VERIFICATION_FAILED: u16 = 0x0007;
/// ACTIVATE_FIRMWARE failed in Caliptra mailbox execution.
pub const FIRMWARE_ACTIVATION_FAILED: u16 = 0x0008;
/// The flash image header could not be parsed.
pub const INVALID_FLASH_HEADER: u16 = 0x0009;
/// A flash image TOC entry could not be parsed.
pub const INVALID_IMAGE_HEADER: u16 = 0x000a;
/// The requested image ID was not found in the flash or PLDM image TOC.
pub const IMAGE_NOT_FOUND: u16 = 0x000b;
/// Image offset or address arithmetic overflowed.
pub const IMAGE_OFFSET_OVERFLOW: u16 = 0x000c;
/// The DMA transfer implementation reported a zero maximum transfer size.
pub const DMA_TRANSFER_SIZE_ZERO: u16 = 0x000d;
/// PLDM image loading observed an unexpected state transition.
pub const PLDM_UNEXPECTED_STATE: u16 = 0x000e;
/// The flash header advertised more images than the PLDM image-loader supports.
pub const PLDM_IMAGE_COUNT_TOO_LARGE: u16 = 0x000f;
/// PLDM streaming boot was started without firmware-device descriptors.
pub const PLDM_DESCRIPTORS_EMPTY: u16 = 0x0010;
/// Spawning the PLDM service task failed.
pub const PLDM_TASK_SPAWN_FAILED: u16 = 0x0011;
/// The PLDM service failed to reach the initialized state.
pub const PLDM_SERVICE_START_FAILED: u16 = 0x0012;
/// Reading streamed Auth Manifest bytes from flash failed.
pub const AUTH_MANIFEST_STREAM_FAILED: u16 = 0x0013;

/// The image-loading error with the given code number.
pub open spec fn image_error(code: u16) -> McuErrorCode {
    McuErrorCode(packed(domain::CALIPTRA_API, SUBDOMAIN_IMAGE_LOADING, code) as u32)
}

/// Builds the image-loading error with the given code number.
pub fn code(number: u16) -> (r: McuErrorCode)
    ensures
        r == image_error(number),
{
    McuErrorCode::new(domain::CALIPTRA_API, SUBDOMAIN_IMAGE_LOADING, number)
}

/// The caller supplied more firmware IDs than the Caliptra command supports.
pub fn fw_id_count_too_large() -> (r: McuErrorCode)
    ensures
        r == image_error(FW_ID_COUNT_TOO_LARGE),
{
    code(FW_ID_COUNT_TOO_LARGE)
}

/// Building an image-loading mailbox request failed.
pub fn request_build_failed() -> (r: McuErrorCode)
    ensures
        r == image_error(REQUEST_BUILD_FAILED),
{
    code(REQUEST_BUILD_FAILED)
}

/// GET_IMAGE_INFO failed in Caliptra mailbox execution.
pub fn get_image_info_failed() -> (r: McuErrorCode)
    ensures
        r == image_error(GET_IMAGE_INFO_FAILED),
{
    code(GET_IMAGE_INFO_FAILED)
}

/// GET_IMAGE_INFO returned fewer bytes than the fixed response layout requires.
pub fn image_info_response_too_short() -> (r: McuErrorCode)
    ensures
        r == image_error(IMAGE_INFO_RESPONSE_TOO_SHORT),
{
    code(IMAGE_INFO_RESPONSE_TOO_SHORT)
}

/// A mailbox command response did not contain the common response header.
pub fn mailbox_response_too_short() -> (r: McuErrorCode)
    ensures
        r == image_error(MAILBOX_RESPONSE_TOO_SHORT),
{
    code(MAILBOX_RESPONSE_TOO_SHORT)
}

/// The Auth Manifest described by flash metadata is larger than supported.
pub fn auth_manifest_too_large() -> (r: McuErrorCode)
    ensures
        r == image_error(AUTH_MANIFEST_TOO_LARGE),
{
    code(AUTH_MANIFEST_TOO_LARGE)
}

/// VERIFY_AUTH_MANIFEST failed in Caliptra mailbox execution.
pub fn auth_manifest_verification_failed() -> (r: McuErrorCode)
    ensures
        r == image_error(AUTH_MANIFEST_VERIFICATION_FAILED),
{
    code(AUTH_MANIFEST_VERIFICATION_FAILED)
}

/// ACTIVATE_FIRMWARE failed in Caliptra mailbox execution.
pub fn firmware_activation_failed() -> (r: McuErrorCode)
    ensures
        r == image_error(FIRMWARE_ACTIVATION_FAILED),
{
    code(FIRMWARE_ACTIVATION_FAILED)
}

/// The flash image header could not be parsed.
pub fn invalid_flash_header() -> (r: McuErrorCode)
    ensures
        r == image_error(INVALID_FLASH_HEADER),
{
    code(INVALID_FLASH_HEADER)
}

/// A flash image TOC entry could not be parsed.
pub fn invalid_image_header() -> (r: McuErrorCode)
    ensures
        r == image_error(INVALID_IMAGE_HEADER),
{
    code(INVALID_IMAGE_HEADER)
}

/// The requested image ID was not found in the flash or PLDM image TOC.
pub fn image_not_found() -> (r: McuErrorCode)
    ensures
        r == image_error(IMAGE_NOT_FOUND),
{
    code(IMAGE_NOT_FOUND)
}

/// Image offset or address arithmetic overflowed.
pub fn image_offset_overflow() -> (r: McuErrorCode)
    ensures
        r == image_error(IMAGE_OFFSET_OVERFLOW),
{
    code(IMAGE_OFFSET_OVERFLOW)
}

/// The DMA transfer implementation reported a zero maximum transfer size.
pub fn dma_transfer_size_zero() -> (r: McuErrorCode)
    ensures
        r == image_error(DMA_TRANSFER_SIZE_ZERO),
{
    code(DMA_TRANSFER_SIZE_ZERO)
}

/// PLDM image loading observed an unexpected state transition.
pub fn pldm_unexpected_state() -> (r: McuErrorCode)
    ensures
        r == image_error(PLDM_UNEXPECTED_STATE),
{
    code(PLDM_UNEXPECTED_STATE)
}

/// The flash header advertised more images than the PLDM image-loader supports.
pub fn pldm_image_count_too_large() -> (r: McuErrorCode)
    ensures
        r == image_error(PLDM_IMAGE_COUNT_TOO_LARGE),
{
    code(PLDM_IMAGE_COUNT_TOO_LARGE)
}

/// PLDM streaming boot was started without firmware-device descriptors.
pub fn pldm_descriptors_empty() -> (r: McuErrorCode)
    ensures
        r == image_error(PLDM_DESCRIPTORS_EMPTY),
{
    code(PLDM_DESCRIPTORS_EMPTY)
}

/// Spawning the PLDM service task failed.
pub fn pldm_task_spawn_failed() -> (r: McuErrorCode)
    ensures
        r == image_error(PLDM_TASK_SPAWN_FAILED),
{
    code(PLDM_TASK_SPAWN_FAILED)
}

/// The PLDM service failed to reach the initialized state.
pub fn pldm_service_start_failed() -> (r: McuErrorCode)
    ensures
        r == image_error(PLDM_SERVICE_START_FAILED),
{
    code(PLDM_SERVICE_START_FAILED)
}

/// Reading streamed Auth Manifest bytes from flash failed.
pub fn auth_manifest_stream_failed() -> (r: McuErrorCode)
    ensures
        r == image_error(AUTH_MANIFEST_STREAM_FAILED),
{
    code(AUTH_MANIFEST_STREAM_FAILED)
}

/// Image-loading errors never carry the reserved domain.
pub proof fn lemma_image_errors_not_reserved(number: u16)
    ensures
        crate::mcu_error::domain_of(image_error(number).0) == domain::CALIPTRA_API,
        crate::mcu_error::domain_of(image_error(number).0) != domain::RESERVED,
{
    crate::mcu_error::lemma_new_fields_roundtrip(domain::CALIPTRA_API, SUBDOMAIN_IMAGE_LOADING, number);
}

/// Image-loading errors with different code numbers are different error codes.
pub proof fn lemma_image_errors_distinct(a: u16, b: u16)
    requires
        a != b,
    ensures
        image_error(a) != image_error(b),
{
}

} // verus!
