use mcu_caliptra_api_lite::errors::image_loader::{
    auth_manifest_stream_failed, code, AUTH_MANIFEST_STREAM_FAILED, FW_ID_COUNT_TOO_LARGE, GET_IMAGE_INFO_FAILED, IMAGE_INFO_RESPONSE_TOO_SHORT,
    IMAGE_OFFSET_OVERFLOW,
};
use mcu_caliptra_api_lite::image_loader::activate::{
    activate_firmware_request, ACTIVATE_FIRMWARE_REQ_SIZE, MAX_FW_ID_COUNT,
};
use mcu_caliptra_api_lite::image_loader::auth_manifest::{
    auth_manifest_request_header, bytesum_step, FlashMailboxPayloadStream,
};
use mcu_caliptra_api_lite::image_loader::image_info::{
    convert_dma_cptra_addr_to_mcu_addr, get_image_info_request, parse_image_info,
    GET_IMAGE_INFO_RSP_SIZE,
};
use mcu_caliptra_api_lite::mcu_error::codes::mailbox_busy;
use mcu_caliptra_api_lite::mcu_error::{McuErrorCode, McuResult};
use mcu_caliptra_api_lite::wire::{
    calc_checksum, mailbox_step, read_u32_le, u32_to_le_bytes, wrapping_byte_sum, write_u32_le,
    MailboxStep,
};

fn byte_total(cmd: u32, data: &[u8]) -> u32 {
    let mut s = 0u32;
    for b in cmd.to_le_bytes() {
        s = s.wrapping_add(b as u32);
    }
    for b in data {
        s = s.wrapping_add(*b as u32);
    }
    s
}

#[test]
fn le_encoding() {
    assert_eq!(u32_to_le_bytes(0x1234_5678), [0x78, 0x56, 0x34, 0x12]);
    let buf = [0u8, 0x78, 0x56, 0x34, 0x12, 9];
    assert_eq!(read_u32_le(&buf, 1), 0x1234_5678);
    let mut v = vec![0xAAu8; 8];
    write_u32_le(&mut v, 2, 0xDEAD_BEEF);
    assert_eq!(v, vec![0xAA, 0xAA, 0xEF, 0xBE, 0xAD, 0xDE, 0xAA, 0xAA]);
}

#[test]
fn byte_sum_wraps() {
    assert_eq!(wrapping_byte_sum(0, &[1, 2, 3]), 6);
    assert_eq!(wrapping_byte_sum(0xFFFF_FFFF, &[2]), 1);
    assert_eq!(wrapping_byte_sum(7, &[]), 7);
}

#[test]
fn checksum_cancels_sum() {
    let data = [1u8, 2, 3, 4, 0xFF];
    let cmd = 0x4142_4344;
    let c = calc_checksum(cmd, &data);
    assert_eq!(c, 0u32.wrapping_sub(0x41 + 0x42 + 0x43 + 0x44 + 1 + 2 + 3 + 4 + 0xFF));
    assert_eq!(c.wrapping_add(byte_total(cmd, &data)), 0);
}

#[test]
fn mailbox_retry_decision() {
    let fail = code(GET_IMAGE_INFO_FAILED);
    let ok: McuResult<usize> = Ok(80);
    assert_eq!(mailbox_step(ok, fail), MailboxStep::Done(80));
    let busy: McuResult<usize> = Err(mailbox_busy());
    assert_eq!(mailbox_step(busy, fail), MailboxStep::Retry);
    let other: McuResult<usize> = Err(McuErrorCode(0x0600_0002));
    assert_eq!(mailbox_step(other, fail), MailboxStep::Fail(fail));
}

/// Drives a command over a scripted sequence of mailbox answers, as the
/// image loader does, returning the executions made and how it ended.
fn run_script(answers: &[McuResult<usize>]) -> (usize, MailboxStep<usize>) {
    let fail = code(GET_IMAGE_INFO_FAILED);
    let mut executions = 0;
    for a in answers {
        executions += 1;
        match mailbox_step(*a, fail) {
            MailboxStep::Retry => continue,
            other => return (executions, other),
        }
    }
    (executions, MailboxStep::Retry)
}

#[test]
fn busy_answers_only_delay() {
    let busy: McuResult<usize> = Err(mailbox_busy());
    let script = [busy, busy, busy, Ok(80), Ok(1)];
    assert_eq!(run_script(&script), (4, MailboxStep::Done(80)));
    assert_eq!(run_script(&[Ok(80)]), (1, MailboxStep::Done(80)));
    let failing = [busy, Err(McuErrorCode(7)), Ok(80)];
    assert_eq!(run_script(&failing), (2, MailboxStep::Fail(code(GET_IMAGE_INFO_FAILED))));
}

#[test]
fn image_info_request_layout() {
    let cmd = 0x494D_4530;
    let req = get_image_info_request(cmd, 0x0102_0304);
    assert_eq!(&req[4..], &[0x04, 0x03, 0x02, 0x01]);
    let checksum = u32::from_le_bytes([req[0], req[1], req[2], req[3]]);
    assert_eq!(checksum, calc_checksum(cmd, &req[4..]));
    assert_eq!(checksum.wrapping_add(byte_total(cmd, &req[4..])), 0);
}

#[test]
fn image_info_too_short() {
    let rsp = [0u8; GET_IMAGE_INFO_RSP_SIZE - 1];
    assert_eq!(parse_image_info(&rsp).err(), Some(code(IMAGE_INFO_RESPONSE_TOO_SHORT)));
    assert_eq!(parse_image_info(&[]).err(), Some(code(IMAGE_INFO_RESPONSE_TOO_SHORT)));
}

#[test]
fn image_info_fields() {
    let mut rsp = [0u8; GET_IMAGE_INFO_RSP_SIZE];
    rsp[8..12].copy_from_slice(&0x1111_2222u32.to_le_bytes());
    rsp[12..16].copy_from_slice(&0xFFFF_FFFFu32.to_le_bytes());
    rsp[16..20].copy_from_slice(&0x0000_0001u32.to_le_bytes());
    rsp[20..24].copy_from_slice(&0x8000_0000u32.to_le_bytes());
    for i in 0..48 {
        rsp[32 + i] = i as u8 + 1;
    }
    let info = parse_image_info(&rsp).unwrap();
    assert_eq!(info.component_id, 0x1111_2222);
    assert_eq!(info.load_address_high, 1);
    assert_eq!(info.load_address_low, 0x8000_0000);
    assert_eq!(info.load_address(), 0x1_8000_0000);
    assert_eq!(info.digest[0], 1);
    assert_eq!(info.digest[47], 48);
    let loaded = info.loaded(4096);
    assert_eq!(loaded.image_size, 4096);
    assert_eq!(loaded.measurement, info.digest);
    // A longer response is accepted too.
    let long = [0u8; 100];
    assert!(parse_image_info(&long).is_ok());
}

#[test]
fn address_translation() {
    let ok: Result<u64, ()> = Ok(0x2000);
    assert_eq!(convert_dma_cptra_addr_to_mcu_addr(ok), Ok(0x2000));
    let bad: Result<u64, ()> = Err(());
    assert_eq!(convert_dma_cptra_addr_to_mcu_addr(bad), Err(code(IMAGE_OFFSET_OVERFLOW)));
}

#[test]
fn activate_too_many_ids() {
    let ids = vec![1u32; MAX_FW_ID_COUNT + 1];
    assert_eq!(activate_firmware_request(1, &ids).err(), Some(code(FW_ID_COUNT_TOO_LARGE)));
}

#[test]
fn activate_layout() {
    let cmd = 0x4143_5446;
    let ids = [0x0000_0002u32, 0x0A0B_0C0D];
    let req = activate_firmware_request(cmd, &ids).unwrap();
    assert_eq!(req.len(), ACTIVATE_FIRMWARE_REQ_SIZE);
    assert_eq!(req.len(), 528);
    assert_eq!(&req[4..8], &[2, 0, 0, 0]);
    assert_eq!(&req[8..12], &[2, 0, 0, 0]);
    assert_eq!(&req[12..16], &[0x0D, 0x0C, 0x0B, 0x0A]);
    assert!(req[16..].iter().all(|b| *b == 0));
    let checksum = u32::from_le_bytes([req[0], req[1], req[2], req[3]]);
    assert_eq!(checksum.wrapping_add(byte_total(cmd, &req[4..])), 0);
}

#[test]
fn activate_full_and_empty() {
    let ids: Vec<u32> = (0..MAX_FW_ID_COUNT as u32).collect();
    let req = activate_firmware_request(7, &ids).unwrap();
    assert_eq!(&req[4..8], &[128, 0, 0, 0]);
    assert_eq!(&req[8 + 127 * 4..8 + 128 * 4], &[127, 0, 0, 0]);
    let empty = activate_firmware_request(7, &[]).unwrap();
    assert!(empty[4..].iter().all(|b| *b == 0));
    assert_eq!(u32::from_le_bytes([empty[0], empty[1], empty[2], empty[3]]), calc_checksum(7, &empty[4..]));
}

#[test]
fn auth_manifest_header_checksum() {
    let cmd = 0x4154_564D;
    let payload = [5u8, 6, 7, 200, 201];
    let header = auth_manifest_request_header(cmd, payload.len() as u32, wrapping_byte_sum(0, &payload));
    assert_eq!(&header[4..], &[5, 0, 0, 0]);
    let mut whole = header[4..].to_vec();
    whole.extend_from_slice(&payload);
    let checksum = u32::from_le_bytes([header[0], header[1], header[2], header[3]]);
    assert_eq!(checksum, calc_checksum(cmd, &whole));
}

#[test]
fn bytesum_pass_steps() {
    let buffer = [1u8, 2, 3, 250];
    assert_eq!(bytesum_step::<()>(10, Ok(3), &buffer), Ok(Some(16)));
    assert_eq!(bytesum_step::<()>(10, Ok(0), &buffer), Ok(None));
    assert_eq!(bytesum_step(0xFFFF_FFFF, Ok::<usize, ()>(4), &buffer), Ok(Some(255)));
    assert_eq!(bytesum_step(10, Err::<usize, ()>(()), &buffer), Err(code(AUTH_MANIFEST_STREAM_FAILED)));
    assert_eq!(auth_manifest_stream_failed(), code(AUTH_MANIFEST_STREAM_FAILED));
}

#[test]
fn payload_stream_varying_buffers() {
    let mut s = FlashMailboxPayloadStream::new(1000, 10);
    let mut reads = Vec::new();
    for b in [3usize, 1, 4, 100, 5] {
        let n = s.next_read_len(b);
        reads.push((s.cursor, n));
        s.advance(n);
    }
    assert_eq!(reads, vec![(1000, 3), (1003, 1), (1004, 4), (1008, 2), (1010, 0)]);
}

#[test]
fn payload_stream_reads_region() {
    let mut s = FlashMailboxPayloadStream::new(100, 600);
    assert_eq!(s.size(), 600);
    let mut total = 0;
    let mut reads = Vec::new();
    loop {
        let n = s.next_read_len(256);
        if n == 0 {
            break;
        }
        reads.push((s.cursor, n));
        s.advance(n);
        total += n;
    }
    assert_eq!(total, 600);
    assert_eq!(reads, vec![(100, 256), (356, 256), (612, 88)]);
    s.reset();
    assert_eq!(s.cursor, 100);
    assert_eq!(s.next_read_len(1000), 600);
    assert_eq!(s.next_read_len(0), 0);
}
