//! GET_IMAGE_INFO: request layout, response parsing and the loaded-image
//! record built from it.
use vstd::prelude::*;
use crate::errors::image_loader::{code, image_error, IMAGE_INFO_RESPONSE_TOO_SHORT, IMAGE_OFFSET_OVERFLOW};
use crate::mcu_error::{McuErrorCode, McuResult};
use crate::wire::{
    byte_sum, lemma_checksum_cancels, lemma_le_roundtrip, wrap32, calc_checksum, checksum_of, le_bytes, le_u32_at, read_u32_le, u32_to_le_bytes,
    MBOX_RESP_HEADER_SIZE,
};

verus! {

/// Size of an image measurement digest.
pub const IMAGE_MEASUREMENT_DIGEST_SIZE: usize = 48;

/// Size of the GET_IMAGE_INFO request: checksum(4) + fw_id(4).
pub const GET_IMAGE_INFO_REQ_SIZE: usize = 8;

/// Size of the GET_IMAGE_INFO response: header(8) + component_id(4) +
/// flags(4) + load address high(4) + load address low(4) + staging address
/// high(4) + staging address low(4) + digest(48).
pub const GET_IMAGE_INFO_RSP_SIZE: usize = 80;

/// Offset of the component id in the response, after the common mailbox
/// response header.
pub const IMG_INFO_COMPONENT_ID_OFF: usize = MBOX_RESP_HEADER_SIZE;
/// Offset of the high word of the load address in the response.
pub const IMG_INFO_LOAD_ADDR_HIGH_OFF: usize = MBOX_RESP_HEADER_SIZE + 8;
/// Offset of the low word of the load address in the response.
pub const IMG_INFO_LOAD_ADDR_LOW_OFF: usize = MBOX_RESP_HEADER_SIZE + 12;
/// Offset of the measurement digest in the response.
pub const IMG_INFO_DIGEST_OFF: usize = MBOX_RESP_HEADER_SIZE + 24;

/// An image that has been loaded, with its measurement.
#[derive(Debug, Clone, Copy, PartialEq, Eq)]
pub struct LoadedImage {
    pub image_size: u32,
    pub measurement: [u8; IMAGE_MEASUREMENT_DIGEST_SIZE],
}

/// The fields of a GET_IMAGE_INFO response that image loading needs.
#[derive(Debug, Clone, Copy)]
pub struct ImageInfo {
    pub component_id: u32,
    pub load_address_high: u32,
    pub load_address_low: u32,
    pub digest: [u8; IMAGE_MEASUREMENT_DIGEST_SIZE],
}

/// The 64-bit load address made of its high and low words.
pub open spec fn load_address_of(high: u32, low: u32) -> int {
    high as int * 0x1_0000_0000 + low as int
}

/// The GET_IMAGE_INFO request for `image_id` under command `cmd`: the
/// checksum over the id, then the id, both little-endian.
pub open spec fn image_info_request(cmd: u32, image_id: u32) -> Seq<u8> {
    le_bytes(checksum_of(cmd, le_bytes(image_id))) + le_bytes(image_id)
}

/// Builds the GET_IMAGE_INFO request for `image_id` under command `cmd`.
pub fn get_image_info_request(cmd: u32, image_id: u32) -> (r: [u8; GET_IMAGE_INFO_REQ_SIZE])
    ensures
        r@ == image_info_request(cmd, image_id),
{
    let id = u32_to_le_bytes(image_id);
    let checksum = calc_checksum(cmd, &id);
    let sum = u32_to_le_bytes(checksum);
    let r = [sum[0], sum[1], sum[2], sum[3], id[0], id[1], id[2], id[3]];
    assert(r@ =~= image_info_request(cmd, image_id));
    r
}

/// Parses the fields image loading needs out of a GET_IMAGE_INFO response.
/// A response shorter than the fixed layout is refused.
pub fn parse_image_info(rsp: &[u8]) -> (r: McuResult<ImageInfo>)
    ensures
        rsp@.len() < GET_IMAGE_INFO_RSP_SIZE ==> r == Err::<ImageInfo, _>(
            image_error(IMAGE_INFO_RESPONSE_TOO_SHORT),
        ),
        rsp@.len() >= GET_IMAGE_INFO_RSP_SIZE ==> (r matches Ok(info) && {
            &&& info.component_id == le_u32_at(rsp@, IMG_INFO_COMPONENT_ID_OFF as int)
            &&& info.load_address_high == le_u32_at(rsp@, IMG_INFO_LOAD_ADDR_HIGH_OFF as int)
            &&& info.load_address_low == le_u32_at(rsp@, IMG_INFO_LOAD_ADDR_LOW_OFF as int)
            &&& info.digest@ == rsp@.subrange(
                IMG_INFO_DIGEST_OFF as int,
                IMG_INFO_DIGEST_OFF + IMAGE_MEASUREMENT_DIGEST_SIZE,
            )
        }),
{
    if rsp.len() < GET_IMAGE_INFO_RSP_SIZE {
        return Err(code(IMAGE_INFO_RESPONSE_TOO_SHORT));
    }
    let component_id = read_u32_le(rsp, IMG_INFO_COMPONENT_ID_OFF);
    let load_address_high = read_u32_le(rsp, IMG_INFO_LOAD_ADDR_HIGH_OFF);
    let load_address_low = read_u32_le(rsp, IMG_INFO_LOAD_ADDR_LOW_OFF);
    let mut digest = [0u8; IMAGE_MEASUREMENT_DIGEST_SIZE];
    let mut i: usize = 0;
    while i < IMAGE_MEASUREMENT_DIGEST_SIZE
        invariant
            i <= IMAGE_MEASUREMENT_DIGEST_SIZE,
            rsp@.len() >= GET_IMAGE_INFO_RSP_SIZE,
            digest@.len() == IMAGE_MEASUREMENT_DIGEST_SIZE,
            forall|j: int| 0 <= j < i ==> digest@[j] == rsp@[IMG_INFO_DIGEST_OFF + j],
        decreases IMAGE_MEASUREMENT_DIGEST_SIZE - i,
    {
        digest[i] = rsp[IMG_INFO_DIGEST_OFF + i];
        i = i + 1;
    }
    assert(digest@ =~= rsp@.subrange(
        IMG_INFO_DIGEST_OFF as int,
        IMG_INFO_DIGEST_OFF + IMAGE_MEASUREMENT_DIGEST_SIZE,
    ));
    Ok(ImageInfo { component_id, load_address_high, load_address_low, digest })
}

impl ImageInfo {
    /// The 64-bit load address: the high word above the low word.
    pub fn load_address(&self) -> (r: u64)
        ensures
            r == load_address_of(self.load_address_high, self.load_address_low),
            r % 0x1_0000_0000 == self.load_address_low,
            r / 0x1_0000_0000 == self.load_address_high,
    {
        let high = self.load_address_high as u64;
        let low = self.load_address_low as u64;
        let r = (high << 32u64) | low;
        assert(r == high * 0x1_0000_0000 + low) by (bit_vector)
            requires
                high <= 0xffff_ffff,
                low <= 0xffff_ffff,
                r == (high << 32u64) | low,
        ;
        r
    }

    /// The record of this image once `image_size` bytes of it are loaded.
    pub fn loaded(&self, image_size: u32) -> (r: LoadedImage)
        ensures
            r.image_size == image_size,
            r.measurement@ == self.digest@,
    {
        LoadedImage { image_size, measurement: self.digest }
    }
}

/// Maps the outcome of translating a Caliptra AXI address into the MCU AXI
/// address space: a failed translation is an address overflow.
pub fn convert_dma_cptra_addr_to_mcu_addr<E>(translated: Result<u64, E>) -> (r: McuResult<u64>)
    ensures
        match translated {
            Ok(a) => r == Ok::<u64, McuErrorCode>(a),
            Err(_) => r == Err::<u64, McuErrorCode>(image_error(IMAGE_OFFSET_OVERFLOW)),
        },
{
    match translated {
        Ok(a) => Ok(a),
        Err(_) => Err(code(IMAGE_OFFSET_OVERFLOW)),
    }
}

/// The request carries the image id where the mailbox reads it, and its
/// checksum cancels the byte sum of the command and the id.
pub proof fn lemma_image_info_request_reads_back(cmd: u32, image_id: u32)
    ensures
        image_info_request(cmd, image_id).len() == GET_IMAGE_INFO_REQ_SIZE,
        le_u32_at(image_info_request(cmd, image_id), 4) == image_id,
        wrap32(le_u32_at(image_info_request(cmd, image_id), 0) + byte_sum(le_bytes(cmd)) + byte_sum(
            image_info_request(cmd, image_id).subrange(4, 8),
        )) == 0,
{
    let c = checksum_of(cmd, le_bytes(image_id));
    let req = image_info_request(cmd, image_id);
    lemma_le_roundtrip(c);
    lemma_le_roundtrip(image_id);
    assert(req.subrange(4, 8) =~= le_bytes(image_id));
    assert(req.subrange(0, 4) =~= le_bytes(c));
    assert(le_u32_at(req, 0) == le_u32_at(le_bytes(c), 0));
    assert(le_u32_at(req, 4) == le_u32_at(le_bytes(image_id), 0));
    lemma_checksum_cancels(cmd, le_bytes(image_id));
}

/// The 64-bit load address keeps each word in its place: its low 32 bits
/// are the low word and its high 32 bits the high word, for every pair of
/// words; with a zero high word it is the low word itself.
pub proof fn lemma_load_address_words(high: u32, low: u32)
    ensures
        0 <= load_address_of(high, low) <= u64::MAX,
        load_address_of(high, low) % 0x1_0000_0000 == low,
        load_address_of(high, low) / 0x1_0000_0000 == high,
        high == 0 ==> load_address_of(high, low) == low,
{
    let x = load_address_of(high, low);
    assert(x % 0x1_0000_0000 == low && x / 0x1_0000_0000 == high) by (nonlinear_arith)
        requires
            x == high * 0x1_0000_0000 + low,
            0 <= low < 0x1_0000_0000,
            0 <= high,
    ;
}

} // verus!
