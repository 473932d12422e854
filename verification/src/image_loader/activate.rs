//! ACTIVATE_FIRMWARE: the request that activates a set of firmware images.
use vstd::prelude::*;
use crate::errors::image_loader::{code, image_error, FW_ID_COUNT_TOO_LARGE};
use crate::mcu_error::{McuErrorCode, McuResult};
use crate::wire::{
    byte_sum, calc_checksum, checksum_of, le_bytes, le_u32_at, lemma_checksum_cancels,
    lemma_le_roundtrip, u32_to_le_bytes, wrap32, write_u32_le,
};

verus! {

/// Maximum number of firmware IDs in a single ACTIVATE_FIRMWARE command.
pub const MAX_FW_ID_COUNT: usize = 128;

/// Size of the request after its checksum: fw_id_count(4) + fw_ids(128 * 4)
/// + mcu_fw_image_size(4) + flags(4).
pub const ACTIVATE_FIRMWARE_BODY_SIZE: usize = 4 + MAX_FW_ID_COUNT * 4 + 4 + 4;

/// Size of the whole request: checksum(4) and the body.
pub const ACTIVATE_FIRMWARE_REQ_SIZE: usize = 4 + ACTIVATE_FIRMWARE_BODY_SIZE;

/// The request body for the given firmware IDs: the count, then each ID,
/// little-endian, and zero in every other byte (image size and flags).
pub open spec fn activate_request_body(ids: Seq<u32>) -> Seq<u8> {
    Seq::new(
        ACTIVATE_FIRMWARE_BODY_SIZE as nat,
        |j: int|
            if j < 4 {
                le_bytes(ids.len() as u32)[j]
            } else if j < 4 + 4 * ids.len() {
                le_bytes(ids[(j - 4) / 4])[(j - 4) % 4]
            } else {
                0u8
            },
    )
}

/// The whole request: the checksum over the body, then the body.
pub open spec fn activate_request(cmd: u32, ids: Seq<u32>) -> Seq<u8> {
    le_bytes(checksum_of(cmd, activate_request_body(ids))) + activate_request_body(ids)
}

/// Builds the ACTIVATE_FIRMWARE request for `fw_id_list` under command
/// `cmd`. More IDs than the command carries are refused.
pub fn activate_firmware_request(cmd: u32, fw_id_list: &[u32]) -> (r: McuResult<Vec<u8>>)
    ensures
        fw_id_list@.len() > MAX_FW_ID_COUNT ==> r == Err::<Vec<u8>, McuErrorCode>(
            image_error(FW_ID_COUNT_TOO_LARGE),
        ),
        fw_id_list@.len() <= MAX_FW_ID_COUNT ==> (r matches Ok(req) && req@ == activate_request(
            cmd,
            fw_id_list@,
        )),
        fw_id_list@.len() <= MAX_FW_ID_COUNT ==> (r matches Ok(req) && {
            &&& req@.len() == ACTIVATE_FIRMWARE_REQ_SIZE
            &&& le_u32_at(req@, 4) == fw_id_list@.len()
            &&& forall|i: int|
                0 <= i < fw_id_list@.len() ==> le_u32_at(req@, 8 + 4 * i) == #[trigger] fw_id_list@[i]
            &&& forall|j: int|
                8 + 4 * fw_id_list@.len() <= j < ACTIVATE_FIRMWARE_REQ_SIZE ==> #[trigger] req@[j]
                    == 0u8
            &&& wrap32(le_u32_at(req@, 0) + byte_sum(le_bytes(cmd)) + byte_sum(
                req@.subrange(4, ACTIVATE_FIRMWARE_REQ_SIZE as int),
            )) == 0
        }),
{
    if fw_id_list.len() > MAX_FW_ID_COUNT {
        return Err(code(FW_ID_COUNT_TOO_LARGE));
    }
    let n = fw_id_list.len();
    let ghost ids = fw_id_list@;
    let ghost spec_body = activate_request_body(ids);
    let mut body: Vec<u8> = Vec::new();
    while body.len() < ACTIVATE_FIRMWARE_BODY_SIZE
        invariant
            body@.len() <= ACTIVATE_FIRMWARE_BODY_SIZE,
            forall|j: int| 0 <= j < body@.len() ==> body@[j] == 0u8,
        decreases ACTIVATE_FIRMWARE_BODY_SIZE - body@.len(),
    {
        body.push(0u8);
    }
    write_u32_le(&mut body, 0, n as u32);
    let mut i: usize = 0;
    while i < n
        invariant
            n == ids.len(),
            n <= MAX_FW_ID_COUNT,
            ids == fw_id_list@,
            spec_body == activate_request_body(ids),
            i <= n,
            body@.len() == ACTIVATE_FIRMWARE_BODY_SIZE,
            forall|j: int| 0 <= j < 4 + 4 * i ==> body@[j] == spec_body[j],
            forall|j: int| 4 + 4 * i <= j < ACTIVATE_FIRMWARE_BODY_SIZE ==> body@[j] == 0u8,
        decreases n - i,
    {
        let ghost before = body@;
        let at = 4 + 4 * i;
        write_u32_le(&mut body, at, fw_id_list[i]);
        assert forall|j: int| 0 <= j < 4 + 4 * (i + 1) implies body@[j] == spec_body[j] by {
            if j >= at {
                let k = j - at;
                assert((j - 4) / 4 == i as int && (j - 4) % 4 == k) by (nonlinear_arith)
                    requires
                        0 <= k < 4,
                        j == 4 + 4 * i + k,
                ;
                assert(body@[j] == le_bytes(ids[i as int])[k]);
            } else {
                assert(body@[j] == before[j]);
            }
        }
        i = i + 1;
    }
    assert(body@ =~= spec_body);
    let checksum = calc_checksum(cmd, body.as_slice());
    let sum = u32_to_le_bytes(checksum);
    let mut req: Vec<u8> = Vec::new();
    req.push(sum[0]);
    req.push(sum[1]);
    req.push(sum[2]);
    req.push(sum[3]);
    let mut k: usize = 0;
    while k < body.len()
        invariant
            body@ == spec_body,
            body@.len() == ACTIVATE_FIRMWARE_BODY_SIZE,
            k <= body@.len(),
            req@ == le_bytes(checksum) + body@.subrange(0, k as int),
        decreases body@.len() - k,
    {
        req.push(body[k]);
        assert(body@.subrange(0, k + 1) =~= body@.subrange(0, k as int).push(body@[k as int]));
        k = k + 1;
    }
    assert(body@.subrange(0, body@.len() as int) =~= body@);
    proof {
        lemma_activate_request_reads_back(cmd, ids);
    }
    Ok(req)
}

/// The request carries the count and each firmware ID where the mailbox
/// reads them, and its checksum cancels the byte sum of the command and the
/// rest of the request.
pub proof fn lemma_activate_request_reads_back(cmd: u32, ids: Seq<u32>)
    requires
        ids.len() <= MAX_FW_ID_COUNT,
    ensures
        activate_request(cmd, ids).len() == ACTIVATE_FIRMWARE_REQ_SIZE,
        le_u32_at(activate_request(cmd, ids), 4) == ids.len(),
        forall|i: int| 0 <= i < ids.len() ==> le_u32_at(activate_request(cmd, ids), 8 + 4 * i) == #[trigger] ids[i],
        forall|j: int|
            8 + 4 * ids.len() <= j < ACTIVATE_FIRMWARE_REQ_SIZE ==> #[trigger] activate_request(cmd, ids)[j]
                == 0u8,
        wrap32(le_u32_at(activate_request(cmd, ids), 0) + byte_sum(le_bytes(cmd)) + byte_sum(
            activate_request(cmd, ids).subrange(4, ACTIVATE_FIRMWARE_REQ_SIZE as int),
        )) == 0,
{
    let body = activate_request_body(ids);
    let c = checksum_of(cmd, body);
    let req = activate_request(cmd, ids);
    lemma_le_roundtrip(c);
    lemma_le_roundtrip(ids.len() as u32);
    assert(le_u32_at(req, 0) == le_u32_at(le_bytes(c), 0));
    assert(le_u32_at(req, 4) == le_u32_at(le_bytes(ids.len() as u32), 0));
    assert forall|i: int| 0 <= i < ids.len() implies le_u32_at(req, 8 + 4 * i) == #[trigger] ids[i] by {
        lemma_le_roundtrip(ids[i]);
        assert forall|k: int| 0 <= k < 4 implies req[8 + 4 * i + k] == le_bytes(ids[i])[k] by {
            assert((4 + 4 * i + k - 4) / 4 == i && (4 + 4 * i + k - 4) % 4 == k) by (nonlinear_arith)
                requires
                    0 <= k < 4,
                    0 <= i,
            ;
            assert(req[8 + 4 * i + k] == body[4 + 4 * i + k]);
        }
        assert(le_u32_at(req, 8 + 4 * i) == le_u32_at(le_bytes(ids[i]), 0));
    }
    assert forall|j: int| 8 + 4 * ids.len() <= j < ACTIVATE_FIRMWARE_REQ_SIZE implies #[trigger] req[j]
        == 0u8 by {
        assert(req[j] == body[j - 4]);
    }
    assert(req.subrange(4, ACTIVATE_FIRMWARE_REQ_SIZE as int) =~= body);
    lemma_checksum_cancels(cmd, body);
}

} // verus!
