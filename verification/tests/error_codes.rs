use mcu_caliptra_api_lite::errors::image_loader::{
    code, dma_transfer_size_zero, fw_id_count_too_large, image_not_found, AUTH_MANIFEST_STREAM_FAILED, FW_ID_COUNT_TOO_LARGE, IMAGE_NOT_FOUND,
};
use mcu_caliptra_api_lite::errors::SUBDOMAIN_IMAGE_LOADING;
use mcu_caliptra_api_lite::mcu_error::codes::{
    bad_alignment, internal_bug, invariant_violated, mailbox_busy, not_implemented, out_of_memory,
};
use mcu_caliptra_api_lite::mcu_error::domain;
use mcu_caliptra_api_lite::mcu_error::McuErrorCode;

#[test]
fn new_packs_fields() {
    let e = McuErrorCode::new(0x08, 0x01, 0x000b);
    assert_eq!(e.0, 0x0801_000b);
    assert_eq!(e.as_u32(), 0x0801_000b);
}

#[test]
fn fields_round_trip() {
    let e = McuErrorCode::new(0xAB, 0xCD, 0xEF12);
    assert_eq!(e.domain(), 0xAB);
    assert_eq!(e.subdomain(), 0xCD);
    assert_eq!(e.code(), 0xEF12);
    let back = McuErrorCode::new(e.domain(), e.subdomain(), e.code());
    assert_eq!(back, e);
}

#[test]
fn every_value_decomposes() {
    for raw in [0u32, 1, 0xFFFF_FFFF, 0x1234_5678, 0x00FF_0000, 0xFF00_0000] {
        let e = McuErrorCode(raw);
        assert_eq!(McuErrorCode::new(e.domain(), e.subdomain(), e.code()), e);
    }
}

#[test]
fn kernel_passthrough() {
    let e = McuErrorCode::kernel(0x0007);
    assert_eq!(e.0, 0x0100_0007);
    assert!(e.is_kernel());
    assert_eq!(e.as_kernel(), Some(0x0007));
}

#[test]
fn non_kernel_is_not_passthrough() {
    let e = McuErrorCode::new(domain::SPDM, 0x01, 0x0007);
    assert!(!e.is_kernel());
    assert_eq!(e.as_kernel(), None);
    let max = McuErrorCode::kernel(0xFFFF);
    assert_eq!(max.as_kernel(), Some(0xFFFF));
}

#[test]
fn into_u32() {
    let v: u32 = McuErrorCode(0x0801_0003).into();
    assert_eq!(v, 0x0801_0003);
    assert_eq!(u32::from(McuErrorCode(42)), 42);
}

#[test]
fn generic_codes() {
    assert_eq!(out_of_memory().0, 0x1000_0001);
    assert_eq!(bad_alignment().0, 0x1000_0002);
    assert_eq!(internal_bug().0, 0xFF00_0001);
    assert_eq!(not_implemented().0, 0xFF00_0002);
    assert_eq!(invariant_violated().0, 0xFF00_0003);
    assert_eq!(mailbox_busy().0, 0x0600_0001);
}

#[test]
fn image_loading_codes() {
    assert_eq!(SUBDOMAIN_IMAGE_LOADING, 0x01);
    assert_eq!(code(FW_ID_COUNT_TOO_LARGE).0, 0x0801_0001);
    assert_eq!(code(IMAGE_NOT_FOUND).0, 0x0801_000b);
    assert_eq!(code(AUTH_MANIFEST_STREAM_FAILED).0, 0x0801_0013);
    assert_eq!(code(IMAGE_NOT_FOUND).domain(), domain::CALIPTRA_API);
    assert_ne!(code(IMAGE_NOT_FOUND), code(FW_ID_COUNT_TOO_LARGE));
    assert_eq!(fw_id_count_too_large(), code(FW_ID_COUNT_TOO_LARGE));
    assert_eq!(image_not_found().0, 0x0801_000b);
    assert_eq!(dma_transfer_size_zero().0, 0x0801_000d);
}

#[test]
fn library_codes_avoid_reserved_domain() {
    for e in [out_of_memory(), bad_alignment(), internal_bug(), not_implemented(), invariant_violated(), mailbox_busy(), McuErrorCode::kernel(0), code(0), code(FW_ID_COUNT_TOO_LARGE)] {
        assert_ne!(e.domain(), domain::RESERVED);
    }
}
