//! VERIFY_AUTH_MANIFEST: the request header sent ahead of a manifest that is
//! streamed from flash, and the cursor over that stream.
use vstd::prelude::*;
use crate::errors::image_loader::{auth_manifest_stream_failed, image_error, AUTH_MANIFEST_STREAM_FAILED};
use crate::mcu_error::{McuErrorCode, McuResult};
use crate::wire::{
    byte_sum, checksum_of, le_bytes, lemma_byte_sum_concat, lemma_byte_sum_four, u32_to_le_bytes,
    wrap32, wrapping_byte_sum,
};

verus! {

/// Size of the VERIFY_AUTH_MANIFEST request header: checksum(4) + manifest
/// size(4).
pub const AUTH_MANIFEST_REQ_HEADER_SIZE: usize = 8;

/// The checksum field of the request header, given the wrapped byte sum of
/// the streamed manifest.
pub open spec fn auth_manifest_checksum(cmd: u32, manifest_size: u32, payload_bytesum: u32) -> u32 {
    wrap32(-(payload_bytesum + byte_sum(le_bytes(cmd)) + byte_sum(le_bytes(manifest_size))))
}

/// Builds the VERIFY_AUTH_MANIFEST request header for a manifest of
/// `manifest_size` bytes whose bytes sum (wrapping) to `payload_bytesum`:
/// the checksum over command, header and manifest, then the size.
pub fn auth_manifest_request_header(cmd: u32, manifest_size: u32, payload_bytesum: u32) -> (r: [u8;
    AUTH_MANIFEST_REQ_HEADER_SIZE])
    ensures
        r@ == le_bytes(auth_manifest_checksum(cmd, manifest_size, payload_bytesum)) + le_bytes(
            manifest_size,
        ),
{
    let size = u32_to_le_bytes(manifest_size);
    let mut req_header = [0u8, 0u8, 0u8, 0u8, size[0], size[1], size[2], size[3]];
    let cmd_bytes = u32_to_le_bytes(cmd);
    let s = wrapping_byte_sum(payload_bytesum, &cmd_bytes);
    let t = wrapping_byte_sum(s, &req_header);
    proof {
        lemma_byte_sum_four(le_bytes(manifest_size));
        lemma_byte_sum_concat(seq![0u8, 0u8, 0u8, 0u8], le_bytes(manifest_size));
        lemma_byte_sum_four(seq![0u8, 0u8, 0u8, 0u8]);
        assert(req_header@ =~= seq![0u8, 0u8, 0u8, 0u8] + le_bytes(manifest_size));
        let a = byte_sum(le_bytes(cmd));
        let b = byte_sum(le_bytes(manifest_size));
        assert(t == wrap32(payload_bytesum + a + b)) by (nonlinear_arith)
            requires
                s == wrap32(payload_bytesum + a),
                t == wrap32(s + b),
        ;
    }
    let checksum = 0u32.wrapping_sub(t);
    proof {
        let x = payload_bytesum + byte_sum(le_bytes(cmd)) + byte_sum(le_bytes(manifest_size));
        assert(checksum == wrap32(-x)) by (nonlinear_arith)
            requires
                t == wrap32(x),
                checksum == vstd::wrapping::u32_specs::wrapping_sub(0, t),
        ;
    }
    let sum = u32_to_le_bytes(checksum);
    req_header[0] = sum[0];
    req_header[1] = sum[1];
    req_header[2] = sum[2];
    req_header[3] = sum[3];
    assert(req_header@ =~= le_bytes(checksum) + le_bytes(manifest_size));
    req_header
}

/// When the payload byte sum is that of the manifest that follows, the
/// header's checksum is the ordinary mailbox checksum of the command over
/// the size field and the manifest: streaming the manifest changes nothing
/// of what the mailbox checks.
pub proof fn lemma_auth_manifest_checksum_is_mailbox_checksum(
    cmd: u32,
    manifest_size: u32,
    payload: Seq<u8>,
)
    ensures
        auth_manifest_checksum(cmd, manifest_size, wrap32(byte_sum(payload))) == checksum_of(
            cmd,
            le_bytes(manifest_size) + payload,
        ),
{
    lemma_byte_sum_concat(le_bytes(manifest_size), payload);
    let p = byte_sum(payload);
    let a = byte_sum(le_bytes(cmd));
    let b = byte_sum(le_bytes(manifest_size));
    assert(wrap32(-(wrap32(p) + a + b)) == wrap32(-(a + (b + p)))) by (nonlinear_arith);
}

/// A cursor over a region of flash that is streamed into the mailbox: the
/// region starts at `offset` and holds `len` bytes; `cursor` is the flash
/// offset of the next byte to read.
pub struct FlashMailboxPayloadStream {
    pub offset: usize,
    pub cursor: usize,
    pub len: usize,
}

impl FlashMailboxPayloadStream {
    /// The number of bytes of the region that are left to read.
    pub open spec fn remaining(&self) -> int {
        if self.cursor - self.offset >= self.len {
            0
        } else {
            self.len - (self.cursor - self.offset)
        }
    }

    /// The number of bytes the next read into a buffer of `buffer_len`
    /// bytes takes.
    pub open spec fn spec_read_len(&self, buffer_len: usize) -> int {
        if self.remaining() <= buffer_len {
            self.remaining()
        } else {
            buffer_len as int
        }
    }

    /// The cursor lies within the region or at its end.
    pub open spec fn in_bounds(&self) -> bool {
        self.offset <= self.cursor && self.cursor - self.offset <= self.len
    }

    /// The stream once a read into a buffer of `buffer_len` bytes is done.
    pub open spec fn after_read(self, buffer_len: usize) -> FlashMailboxPayloadStream {
        FlashMailboxPayloadStream {
            cursor: (self.cursor + self.spec_read_len(buffer_len)) as usize,
            ..self
        }
    }

    /// The reads made into buffers of the given lengths, in turn: for each,
    /// the flash offset it reads from and the number of bytes it takes.
    pub open spec fn reads(self, buffer_lens: Seq<usize>) -> Seq<(int, int)>
        decreases buffer_lens.len(),
    {
        if buffer_lens.len() == 0 {
            Seq::empty()
        } else {
            seq![(self.cursor as int, self.spec_read_len(buffer_lens[0]))] + self.after_read(
                buffer_lens[0],
            ).reads(buffer_lens.drop_first())
        }
    }

    /// A stream over `len` bytes of flash from `starting_offset`, at its start.
    pub fn new(starting_offset: usize, len: usize) -> (r: Self)
        ensures
            r.offset == starting_offset,
            r.cursor == starting_offset,
            r.len == len,
            r.in_bounds(),
            r.remaining() == len,
    {
        FlashMailboxPayloadStream { offset: starting_offset, cursor: starting_offset, len }
    }

    /// Moves the cursor back to the start of the region.
    pub fn reset(&mut self)
        ensures
            final(self).offset == old(self).offset,
            final(self).len == old(self).len,
            final(self).cursor == old(self).offset,
            final(self).in_bounds(),
            final(self).remaining() == old(self).len,
    {
        self.cursor = self.offset;
    }

    /// The size of the region.
    pub fn size(&self) -> (r: usize)
        ensures
            r == self.len,
    {
        self.len
    }

    /// The number of bytes the next read into a buffer of `buffer_len`
    /// bytes takes: none once the region is exhausted, else as many as are
    /// left, at most the buffer's length.
    pub fn next_read_len(&self, buffer_len: usize) -> (r: usize)
        requires
            self.offset <= self.cursor,
        ensures
            r == self.spec_read_len(buffer_len),
    {
        let consumed = self.cursor - self.offset;
        if consumed >= self.len {
            return 0;
        }
        let left = self.len - consumed;
        if left < buffer_len {
            left
        } else {
            buffer_len
        }
    }

    /// Records that `n` bytes were read at the cursor.
    pub fn advance(&mut self, n: usize)
        requires
            old(self).offset <= old(self).cursor,
            n <= old(self).remaining(),
            old(self).cursor + n <= usize::MAX,
        ensures
            final(self).offset == old(self).offset,
            final(self).len == old(self).len,
            final(self).cursor == old(self).cursor + n,
            final(self).remaining() == old(self).remaining() - n,
            old(self).in_bounds() ==> final(self).in_bounds(),
    {
        self.cursor = self.cursor + n;
    }
}

/// The number of bytes taken by a sequence of reads.
pub open spec fn read_total(reads: Seq<(int, int)>) -> int
    decreases reads.len(),
{
    if reads.len() == 0 {
        0
    } else {
        reads[0].1 + read_total(reads.drop_first())
    }
}

proof fn lemma_read_total_prefix(x: (int, int), rest: Seq<(int, int)>, i: int)
    requires
        0 <= i <= rest.len(),
    ensures
        read_total((seq![x] + rest).take(i + 1)) == x.1 + read_total(rest.take(i)),
{
    assert((seq![x] + rest).take(i + 1).drop_first() =~= rest.take(i));
}

/// A read keeps the cursor within the region or at its end.
pub proof fn lemma_read_keeps_bounds(s: FlashMailboxPayloadStream, buffer_len: usize)
    requires
        s.in_bounds(),
        s.offset + s.len <= usize::MAX,
    ensures
        s.after_read(buffer_len).in_bounds(),
        s.after_read(buffer_len).remaining() == s.remaining() - s.spec_read_len(buffer_len),
{
}

/// Reading the stream into non-empty buffers of any lengths delivers its
/// region in order: each read starts where the ones before it ended, the
/// first at the cursor; no read goes past the region; a read takes nothing
/// exactly when the region is used up, and never more than its buffer; and
/// once there have been as many reads as bytes were left, the reads have
/// taken all of them. From a reset stream, that is the whole region.
pub proof fn lemma_reads_deliver_region(s: FlashMailboxPayloadStream, buffer_lens: Seq<usize>)
    requires
        s.in_bounds(),
        s.offset + s.len <= usize::MAX,
        forall|i: int| 0 <= i < buffer_lens.len() ==> #[trigger] buffer_lens[i] > 0,
    ensures
        s.reads(buffer_lens).len() == buffer_lens.len(),
        forall|i: int|
            0 <= i < buffer_lens.len() ==> (#[trigger] s.reads(buffer_lens)[i]).0 == s.cursor
                + read_total(s.reads(buffer_lens).take(i)),
        forall|i: int|
            0 <= i < buffer_lens.len() ==> read_total(s.reads(buffer_lens).take(i)) + (
            #[trigger] s.reads(buffer_lens)[i]).1 <= s.remaining(),
        forall|i: int|
            0 <= i < buffer_lens.len() ==> ((#[trigger] s.reads(buffer_lens)[i]).1 == 0
                <==> read_total(s.reads(buffer_lens).take(i)) == s.remaining()),
        forall|i: int|
            0 <= i < buffer_lens.len() ==> (#[trigger] s.reads(buffer_lens)[i]).1 <= buffer_lens[i],
        buffer_lens.len() >= s.remaining() ==> read_total(s.reads(buffer_lens)) == s.remaining(),
        s.cursor == s.offset ==> s.remaining() == s.len,
    decreases buffer_lens.len(),
{
    let r = s.reads(buffer_lens);
    if buffer_lens.len() > 0 {
        let b = buffer_lens[0];
        let n = s.spec_read_len(b);
        let t = s.after_read(b);
        let rest = buffer_lens.drop_first();
        lemma_read_keeps_bounds(s, b);
        assert forall|i: int| 0 <= i < rest.len() implies #[trigger] rest[i] > 0 by {
            assert(rest[i] == buffer_lens[i + 1]);
        }
        lemma_reads_deliver_region(t, rest);
        let tr = t.reads(rest);
        assert(r =~= seq![(s.cursor as int, n)] + tr);
        assert(r.drop_first() =~= tr);
        assert(r.take(0) =~= Seq::<(int, int)>::empty());
        assert forall|i: int| 0 <= i < buffer_lens.len() implies {
            &&& (#[trigger] r[i]).0 == s.cursor + read_total(r.take(i))
            &&& read_total(r.take(i)) + r[i].1 <= s.remaining()
            &&& (r[i].1 == 0 <==> read_total(r.take(i)) == s.remaining())
            &&& r[i].1 <= buffer_lens[i]
        } by {
            if i > 0 {
                lemma_read_total_prefix((s.cursor as int, n), tr, i - 1);
                assert(r.take(i) =~= (seq![(s.cursor as int, n)] + tr).take(i));
                assert(r[i] == tr[i - 1]);
                assert(rest[i - 1] == buffer_lens[i]);
            }
        }
        if buffer_lens.len() >= s.remaining() {
            if s.remaining() > 0 {
                assert(n >= 1);
            }
        }
    }
}

/// What the byte-sum pass over a streamed manifest does with the outcome of
/// one read into `buffer`: a failed read is an error of the manifest
/// stream; a read of nothing ends the pass with the sum so far; a read of
/// `n` bytes adds the buffer's first `n` bytes to the sum and goes on.
pub fn bytesum_step<E>(sum: u32, read: Result<usize, E>, buffer: &[u8]) -> (r: McuResult<Option<u32>>)
    requires
        read matches Ok(n) ==> n <= buffer@.len(),
    ensures
        match read {
            Err(_) => r == Err::<Option<u32>, McuErrorCode>(image_error(AUTH_MANIFEST_STREAM_FAILED)),
            Ok(n) => if n == 0 {
                r == Ok::<Option<u32>, McuErrorCode>(None)
            } else {
                r == Ok::<Option<u32>, McuErrorCode>(
                    Some(wrap32(sum + byte_sum(buffer@.subrange(0, n as int)))),
                )
            },
        },
{
    match read {
        Err(_) => Err(auth_manifest_stream_failed()),
        Ok(n) => {
            if n == 0 {
                Ok(None)
            } else {
                let chunk = vstd::slice::slice_subrange(buffer, 0, n);
                Ok(Some(wrapping_byte_sum(sum, chunk)))
            }
        },
    }
}

/// Summing the manifest chunk by chunk, with wrapping, gives the wrapped
/// byte sum of the chunks put together.
pub proof fn lemma_bytesum_chunks(sum: u32, first: Seq<u8>, second: Seq<u8>)
    ensures
        wrap32(wrap32(sum + byte_sum(first)) + byte_sum(second)) == wrap32(sum + byte_sum(first + second)),
{
    lemma_byte_sum_concat(first, second);
    let a = byte_sum(first);
    let b = byte_sum(second);
    assert(wrap32(wrap32(sum + a) + b) == wrap32(sum + (a + b))) by (nonlinear_arith);
}

} // verus!
