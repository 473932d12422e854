//! Loading an image from flash to its load address in DMA transfers of at
//! most the transfer engine's maximum size.
use vstd::prelude::*;
use crate::errors::image_loader::{code, image_error, DMA_TRANSFER_SIZE_ZERO, IMAGE_OFFSET_OVERFLOW};
use crate::mcu_error::{McuErrorCode, McuResult};

verus! {

/// One DMA transfer: `length` bytes from flash offset `src_offset` to the
/// bus address `dest_addr`.
#[derive(Copy, Clone, PartialEq, Eq, Structural, Debug)]
pub struct DmaChunk {
    pub src_offset: usize,
    pub dest_addr: u64,
    pub length: usize,
}

/// The progress of an image load: the bytes left, and where the next
/// transfer reads from and writes to.
#[derive(Copy, Clone, Debug)]
pub struct ImageTransfer {
    pub max_xfer: usize,
    pub remaining: usize,
    pub current_offset: usize,
    pub current_address: u64,
}

impl ImageTransfer {
    /// The length of the next transfer: what is left, at most the maximum.
    pub open spec fn spec_chunk_len(self) -> usize {
        if self.remaining < self.max_xfer {
            self.remaining
        } else {
            self.max_xfer
        }
    }

    /// The next transfer.
    pub open spec fn spec_chunk(self) -> DmaChunk {
        DmaChunk {
            src_offset: self.current_offset,
            dest_addr: self.current_address,
            length: self.spec_chunk_len(),
        }
    }

    /// The progress once the next transfer is done.
    pub open spec fn spec_advanced(self) -> ImageTransfer {
        ImageTransfer {
            remaining: (self.remaining - self.spec_chunk_len()) as usize,
            current_offset: (self.current_offset + self.spec_chunk_len()) as usize,
            current_address: (self.current_address + self.spec_chunk_len()) as u64,
            ..self
        }
    }

    /// Every transfer still to be made, in order.
    pub open spec fn plan(self) -> Seq<DmaChunk>
        decreases self.remaining,
    {
        if self.remaining == 0 || self.max_xfer == 0 {
            Seq::empty()
        } else {
            seq![self.spec_chunk()] + self.spec_advanced().plan()
        }
    }

    /// Starts the load of `img_size` bytes from flash offset `offset` to
    /// `load_address`, in transfers of at most `max_xfer` bytes. A zero
    /// maximum is refused.
    pub fn new(load_address: u64, offset: usize, img_size: usize, max_xfer: usize) -> (r: McuResult<
        Self,
    >)
        ensures
            max_xfer == 0 ==> r == Err::<Self, McuErrorCode>(image_error(DMA_TRANSFER_SIZE_ZERO)),
            max_xfer != 0 ==> (r matches Ok(t) && t.max_xfer == max_xfer && t.remaining == img_size
                && t.current_offset == offset && t.current_address == load_address),
    {
        if max_xfer == 0 {
            return Err(code(DMA_TRANSFER_SIZE_ZERO));
        }
        Ok(ImageTransfer {
            max_xfer,
            remaining: img_size,
            current_offset: offset,
            current_address: load_address,
        })
    }

    /// The next transfer to make, or `None` once the whole image is loaded.
    pub fn next_chunk(&self) -> (r: Option<DmaChunk>)
        ensures
            r == (if self.remaining == 0 {
                None
            } else {
                Some(self.spec_chunk())
            }),
    {
        if self.remaining == 0 {
            return None;
        }
        let length = if self.remaining < self.max_xfer {
            self.remaining
        } else {
            self.max_xfer
        };
        Some(DmaChunk { src_offset: self.current_offset, dest_addr: self.current_address, length })
    }

    /// Records that the transfer `next_chunk` returned was made. The next
    /// flash offset or bus address overflowing is an error.
    pub fn advance(&mut self) -> (r: McuResult<()>)
        requires
            old(self).remaining > 0,
        ensures
            final(self).max_xfer == old(self).max_xfer,
            final(self).remaining == old(self).remaining - old(self).spec_chunk_len(),
            r is Ok <==> (old(self).current_offset + old(self).spec_chunk_len() <= usize::MAX
                && old(self).current_address + old(self).spec_chunk_len() <= u64::MAX),
            r is Ok ==> *final(self) == old(self).spec_advanced(),
            r is Err ==> r == Err::<(), McuErrorCode>(image_error(IMAGE_OFFSET_OVERFLOW)),
            old(self).current_offset + old(self).spec_chunk_len() > usize::MAX ==> final(self).current_offset
                == old(self).current_offset && final(self).current_address == old(self).current_address,
            (old(self).current_offset + old(self).spec_chunk_len() <= usize::MAX
                && old(self).current_address + old(self).spec_chunk_len() > u64::MAX)
                ==> final(self).current_offset == old(self).current_offset + old(self).spec_chunk_len()
                && final(self).current_address == old(self).current_address,
    {
        let transfer_size = if self.remaining < self.max_xfer {
            self.remaining
        } else {
            self.max_xfer
        };
        self.remaining = self.remaining - transfer_size;
        self.current_offset = match self.current_offset.checked_add(transfer_size) {
            Some(v) => v,
            None => return Err(code(IMAGE_OFFSET_OVERFLOW)),
        };
        self.current_address = match self.current_address.checked_add(transfer_size as u64) {
            Some(v) => v,
            None => return Err(code(IMAGE_OFFSET_OVERFLOW)),
        };
        Ok(())
    }
}

/// How a load from this point ends when every transfer succeeds: each
/// transfer is followed by advancing past it, which fails on the first
/// flash offset or bus address that overflows.
pub open spec fn load_outcome(t: ImageTransfer) -> Result<(), McuErrorCode>
    decreases t.remaining,
{
    if t.remaining == 0 || t.max_xfer == 0 {
        Ok(())
    } else if t.current_offset + t.spec_chunk_len() > usize::MAX || t.current_address
        + t.spec_chunk_len() > u64::MAX {
        Err(image_error(IMAGE_OFFSET_OVERFLOW))
    } else {
        load_outcome(t.spec_advanced())
    }
}

/// A whole load fails with an overflow exactly when something is left to
/// load and its end lies past the last flash offset or the last bus
/// address; otherwise every transfer is made and the load succeeds.
pub proof fn lemma_load_overflows_iff_end_overflows(t: ImageTransfer)
    requires
        t.max_xfer > 0,
    ensures
        load_outcome(t) == (if t.remaining > 0 && (t.current_offset + t.remaining > usize::MAX
            || t.current_address + t.remaining > u64::MAX) {
            Err::<(), McuErrorCode>(image_error(IMAGE_OFFSET_OVERFLOW))
        } else {
            Ok(())
        }),
    decreases t.remaining,
{
    if t.remaining > 0 {
        let n = t.spec_chunk_len();
        if !(t.current_offset + n > usize::MAX || t.current_address + n > u64::MAX) {
            let u = t.spec_advanced();
            assert(u.current_offset + u.remaining == t.current_offset + t.remaining);
            assert(u.current_address + u.remaining == t.current_address + t.remaining);
            lemma_load_overflows_iff_end_overflows(u);
        }
    }
}

/// The total length of a sequence of transfers.
pub open spec fn total_len(chunks: Seq<DmaChunk>) -> int
    decreases chunks.len(),
{
    if chunks.len() == 0 {
        0
    } else {
        chunks[0].length + total_len(chunks.drop_first())
    }
}

/// The transfers of a load cover the image exactly: none is empty or longer
/// than the maximum, each starts in flash and on the bus where the one
/// before it ended, the first at the load's current position, and together
/// they move every byte that is left.
pub proof fn lemma_transfer_plan_covers_image(t: ImageTransfer)
    requires
        t.max_xfer > 0,
        t.current_offset + t.remaining <= usize::MAX,
        t.current_address + t.remaining <= u64::MAX,
    ensures
        total_len(t.plan()) == t.remaining,
        t.plan().len() > 0 ==> t.plan()[0].src_offset == t.current_offset && t.plan()[0].dest_addr
            == t.current_address,
        forall|i: int|
            0 <= i < t.plan().len() ==> 0 < (#[trigger] t.plan()[i]).length <= t.max_xfer,
        forall|i: int|
            0 <= i < t.plan().len() - 1 ==> (#[trigger] t.plan()[i + 1]).src_offset == t.plan()[i].src_offset
                + t.plan()[i].length && t.plan()[i + 1].dest_addr == t.plan()[i].dest_addr
                + t.plan()[i].length,
    decreases t.remaining,
{
    if t.remaining > 0 {
        let u = t.spec_advanced();
        lemma_transfer_plan_covers_image(u);
        let p = t.plan();
        assert(p.drop_first() =~= u.plan());
        assert forall|i: int| 0 <= i < p.len() implies 0 < (#[trigger] p[i]).length <= t.max_xfer by {
            if i > 0 {
                assert(p[i] == u.plan()[i - 1]);
            }
        }
        assert forall|i: int| 0 <= i < p.len() - 1 implies (#[trigger] p[i + 1]).src_offset
            == p[i].src_offset + p[i].length && p[i + 1].dest_addr == p[i].dest_addr
            + p[i].length by {
            assert(p[i + 1] == u.plan()[i]);
            if i > 0 {
                assert(p[i] == u.plan()[i - 1]);
            }
        }
    }
}

} // verus!
