//! Streaming an image through a PLDM firmware update.
//!
//! Two tasks share a state and a download context. The image-loading task
//! asks for a region of the firmware package (the flash header, one table
//! of contents entry, or an image) by setting the context and a
//! `Downloading*` state; the PLDM firmware-device task asks the update
//! agent for that region, stores what arrives, and marks the state
//! complete. The decisions of both sides are here, as transitions of the
//! state and the context.
use vstd::prelude::*;
use crate::errors::image_loader::{
    code, image_error, INVALID_FLASH_HEADER, PLDM_DESCRIPTORS_EMPTY, PLDM_IMAGE_COUNT_TOO_LARGE,
    PLDM_TASK_SPAWN_FAILED, PLDM_UNEXPECTED_STATE,
};
use crate::image_loader::toc::{ImageEntry, TocSearch, TocStep};
use crate::mcu_error::{McuErrorCode, McuResult};

verus! {

/// The largest number of images a package may describe for PLDM loading.
pub const MAX_IMAGE_COUNT: usize = 127;

/// Where the shared download stands.
#[derive(Copy, Clone, PartialEq, Eq, Structural, Debug)]
pub enum State {
    NotRunning,
    Initializing,
    Initialized,
    DownloadingHeader,
    HeaderDownloadComplete,
    DownloadingToc,
    TocDownloadComplete,
    ImageDownloadReady,
    DownloadingImage,
    ImageDownloadComplete,
}

/// A download step that failed; the firmware device reports it to the
/// update agent as a firmware download error.
#[derive(Copy, Clone, PartialEq, Eq, Structural, Debug)]
pub struct FwDownloadError;

/// The shared download context; `R` is the verification result the image
/// loader reports once it has checked the image.
pub struct DownloadContext<R> {
    /// Length of the region being downloaded.
    pub total_length: usize,
    /// Package offset where the region starts.
    pub initial_offset: usize,
    /// Package offset of the next byte to ask for.
    pub current_offset: usize,
    /// Bytes received for the region so far.
    pub total_downloaded: usize,
    /// Length of the last request made to the update agent.
    pub last_requested_length: usize,
    /// Bus address an image is loaded to.
    pub load_address: u64,
    /// The flash header, as downloaded.
    pub header: Vec<u8>,
    /// The table of contents entry last downloaded.
    pub image_info: Vec<u8>,
    /// Set once the image-loading side has finished with the download.
    pub download_complete: bool,
    /// The verification result the image loader reported.
    pub verify_result: R,
}

/// The download context as plain values.
pub struct DownloadView {
    pub total_length: usize,
    pub initial_offset: usize,
    pub current_offset: usize,
    pub total_downloaded: usize,
    pub last_requested_length: usize,
    pub load_address: u64,
    pub header: Seq<u8>,
    pub image_info: Seq<u8>,
    pub download_complete: bool,
}

impl<R> View for DownloadContext<R> {
    type V = DownloadView;

    open spec fn view(&self) -> DownloadView {
        DownloadView {
            total_length: self.total_length,
            initial_offset: self.initial_offset,
            current_offset: self.current_offset,
            total_downloaded: self.total_downloaded,
            last_requested_length: self.last_requested_length,
            load_address: self.load_address,
            header: self.header@,
            image_info: self.image_info@,
            download_complete: self.download_complete,
        }
    }
}

/// The number of bytes of `data` that fit in `dst_len` bytes from `start`.
pub open spec fn prefix_copy_len(dst_len: int, start: int, data_len: int) -> int {
    if dst_len - start < data_len {
        dst_len - start
    } else {
        data_len
    }
}

/// `dst` with as much of `data` as fits written from `start`; `None` when
/// `start` lies beyond the end of `dst`.
pub open spec fn copy_prefix(dst: Seq<u8>, start: int, data: Seq<u8>) -> Option<Seq<u8>> {
    if start > dst.len() {
        None
    } else {
        let n = prefix_copy_len(dst.len() as int, start, data.len() as int);
        Some(dst.subrange(0, start) + data.subrange(0, n) + dst.subrange(start + n, dst.len() as int))
    }
}

/// Writes as much of `data` as fits into `dst` from `start`. A start beyond
/// the end of `dst` is an error and leaves it unchanged.
pub fn copy_prefix_chunk(dst: &mut Vec<u8>, start: usize, data: &[u8]) -> (r: Result<(), FwDownloadError>)
    ensures
        copy_prefix(old(dst)@, start as int, data@) matches Some(d) ==> r is Ok && final(dst)@ == d,
        copy_prefix(old(dst)@, start as int, data@) is None ==> r is Err && final(dst)@ == old(dst)@,
{
    let len = dst.len();
    if start > len {
        return Err(FwDownloadError);
    }
    let remaining = len - start;
    let copy_len = if remaining < data.len() {
        remaining
    } else {
        data.len()
    };
    let ghost before = dst@;
    let mut i: usize = 0;
    while i < copy_len
        invariant
            i <= copy_len,
            copy_len <= data@.len(),
            start + copy_len <= len,
            len == before.len(),
            dst@.len() == len,
            forall|j: int| 0 <= j < start ==> dst@[j] == before[j],
            forall|j: int| start <= j < start + i ==> dst@[j] == data@[j - start],
            forall|j: int| start + i <= j < len ==> dst@[j] == before[j],
        decreases copy_len - i,
    {
        dst.set(start + i, data[i]);
        i = i + 1;
    }
    assert(dst@ =~= before.subrange(0, start as int) + data@.subrange(0, copy_len as int)
        + before.subrange(start + copy_len, len as int));
    Ok(())
}

impl State {
    /// The state a download of this kind reaches once every byte arrived.
    pub open spec fn completed(self) -> State {
        match self {
            State::DownloadingHeader => State::HeaderDownloadComplete,
            State::DownloadingToc => State::TocDownloadComplete,
            State::DownloadingImage => State::ImageDownloadComplete,
            other => other,
        }
    }

    /// A region is being downloaded.
    pub open spec fn is_downloading(self) -> bool {
        ||| self == State::DownloadingHeader
        ||| self == State::DownloadingToc
        ||| self == State::DownloadingImage
    }
}

impl DownloadView {
    /// The context once a download of `total_length` bytes from
    /// `initial_offset` is set up.
    pub open spec fn begun(self, initial_offset: usize, total_length: usize) -> DownloadView {
        DownloadView {
            total_length,
            initial_offset,
            current_offset: initial_offset,
            total_downloaded: 0,
            ..self
        }
    }

    /// The context once `data` arrived in state `state`, and what the
    /// arrival asks for: `Some((load_address, offset))` when the data goes
    /// by DMA to `offset` bytes past the load address.
    pub open spec fn accepted(self, state: State, data: Seq<u8>) -> (DownloadView, Result<
        Option<(u64, usize)>,
        FwDownloadError,
    >) {
        if self.total_downloaded + data.len() > usize::MAX {
            (self, Err(FwDownloadError))
        } else {
            let v = DownloadView {
                total_downloaded: (self.total_downloaded + data.len()) as usize,
                ..self
            };
            if self.current_offset < self.initial_offset {
                (v, Err(FwDownloadError))
            } else {
                let start = self.current_offset - self.initial_offset;
                if state == State::DownloadingHeader {
                    match copy_prefix(self.header, start, data) {
                        Some(h) => (DownloadView { header: h, ..v }, Ok(None)),
                        None => (v, Err(FwDownloadError)),
                    }
                } else if state == State::DownloadingToc {
                    match copy_prefix(self.image_info, start, data) {
                        Some(e) => (DownloadView { image_info: e, ..v }, Ok(None)),
                        None => (v, Err(FwDownloadError)),
                    }
                } else if state == State::DownloadingImage {
                    (v, Ok(Some((self.load_address, start as usize))))
                } else {
                    (v, Ok(None))
                }
            }
        }
    }

    /// The context and state once a chunk of `data_len` bytes was stored,
    /// and whether the PLDM side then hands control to the image loader.
    pub open spec fn finished(self, state: State, data_len: usize) -> (DownloadView, State, Result<
        bool,
        FwDownloadError,
    >) {
        if self.total_downloaded >= self.total_length {
            (
                self,
                state.completed(),
                Ok(state == State::DownloadingToc || state == State::DownloadingImage),
            )
        } else if self.current_offset + data_len > usize::MAX {
            (self, state, Err(FwDownloadError))
        } else {
            (
                DownloadView {
                    current_offset: (self.current_offset + data_len) as usize,
                    ..self
                },
                state,
                Ok(false),
            )
        }
    }

    /// The length of the next request: what is left of the region, within
    /// the baseline and the maximum transfer sizes; the baseline once more
    /// than the region arrived.
    pub open spec fn request_length(self, baseline: usize, max: usize) -> usize {
        if self.total_downloaded > self.total_length {
            baseline
        } else {
            let remaining = self.total_length - self.total_downloaded;
            if remaining < baseline {
                baseline
            } else if remaining > max {
                max
            } else {
                remaining as usize
            }
        }
    }
}

impl<R> DownloadContext<R> {
    /// A context with buffers of the flash header's and of a table of
    /// contents entry's sizes, all zero.
    pub fn new(header_size: usize, entry_size: usize, verify_result: R) -> (r: Self)
        ensures
            r.verify_result == verify_result,
            r@.total_length == 0,
            r@.initial_offset == 0,
            r@.current_offset == 0,
            r@.total_downloaded == 0,
            r@.last_requested_length == 0,
            r@.load_address == 0,
            r@.header == Seq::new(header_size as nat, |i: int| 0u8),
            r@.image_info == Seq::new(entry_size as nat, |i: int| 0u8),
            !r@.download_complete,
    {
        let mut header: Vec<u8> = Vec::new();
        while header.len() < header_size
            invariant
                header@.len() <= header_size,
                forall|i: int| 0 <= i < header@.len() ==> header@[i] == 0u8,
            decreases header_size - header@.len(),
        {
            header.push(0u8);
        }
        let mut image_info: Vec<u8> = Vec::new();
        while image_info.len() < entry_size
            invariant
                image_info@.len() <= entry_size,
                forall|i: int| 0 <= i < image_info@.len() ==> image_info@[i] == 0u8,
            decreases entry_size - image_info@.len(),
        {
            image_info.push(0u8);
        }
        assert(header@ =~= Seq::new(header_size as nat, |i: int| 0u8));
        assert(image_info@ =~= Seq::new(entry_size as nat, |i: int| 0u8));
        DownloadContext {
            total_length: 0,
            initial_offset: 0,
            current_offset: 0,
            total_downloaded: 0,
            last_requested_length: 0,
            load_address: 0,
            header,
            image_info,
            download_complete: false,
            verify_result,
        }
    }

    /// The image loader is done with the download and reports how the
    /// image verified.
    pub fn finalize(&mut self, verify_result: R)
        ensures
            final(self)@ == (DownloadView { download_complete: true, ..old(self)@ }),
            final(self).verify_result == verify_result,
    {
        self.download_complete = true;
        self.verify_result = verify_result;
    }

    /// Sets up the download of `total_length` bytes from `initial_offset`.
    pub fn begin(&mut self, initial_offset: usize, total_length: usize)
        ensures
            final(self)@ == old(self)@.begun(initial_offset, total_length),
            final(self).verify_result == old(self).verify_result,
    {
        self.total_length = total_length;
        self.initial_offset = initial_offset;
        self.current_offset = initial_offset;
        self.total_downloaded = 0;
    }

    /// Sets up the download of an image of `size` bytes at package offset
    /// `offset`, to be loaded at `load_address`.
    pub fn begin_image(&mut self, load_address: u64, offset: u32, size: u32)
        ensures
            final(self)@ == (DownloadView {
                load_address,
                ..old(self)@.begun(offset as usize, size as usize)
            }),
            final(self).verify_result == old(self).verify_result,
    {
        self.begin(offset as usize, size as usize);
        self.load_address = load_address;
    }

    /// Records `data` that arrived in state `state`: counts it, and stores
    /// it in the header or entry buffer when one of those is downloaded.
    /// For an image, returns the load address and the offset into the image
    /// the data goes to by DMA.
    pub fn accept_data(&mut self, state: State, data: &[u8]) -> (r: Result<Option<(u64, usize)>, FwDownloadError>)
        ensures
            (final(self)@, r) == old(self)@.accepted(state, data@),
            final(self).verify_result == old(self).verify_result,
    {
        self.total_downloaded = match self.total_downloaded.checked_add(data.len()) {
            Some(v) => v,
            None => return Err(FwDownloadError),
        };
        let start = match self.current_offset.checked_sub(self.initial_offset) {
            Some(v) => v,
            None => return Err(FwDownloadError),
        };
        if state == State::DownloadingHeader {
            match copy_prefix_chunk(&mut self.header, start, data) {
                Ok(()) => {},
                Err(e) => return Err(e),
            }
        } else if state == State::DownloadingToc {
            match copy_prefix_chunk(&mut self.image_info, start, data) {
                Ok(()) => {},
                Err(e) => return Err(e),
            }
        } else if state == State::DownloadingImage {
            return Ok(Some((self.load_address, start)));
        }
        Ok(None)
    }

    /// After a chunk of `data_len` bytes was stored: once the whole region
    /// arrived, marks the download complete and says whether to hand
    /// control to the image loader; otherwise moves to the next offset.
    pub fn finish_data(&mut self, state: &mut State, data_len: usize) -> (r: Result<bool, FwDownloadError>)
        ensures
            (final(self)@, *final(state), r) == old(self)@.finished(*old(state), data_len),
            final(self).verify_result == old(self).verify_result,
    {
        if self.total_downloaded >= self.total_length {
            if *state == State::DownloadingHeader {
                *state = State::HeaderDownloadComplete;
                Ok(false)
            } else if *state == State::DownloadingToc {
                *state = State::TocDownloadComplete;
                Ok(true)
            } else if *state == State::DownloadingImage {
                *state = State::ImageDownloadComplete;
                Ok(true)
            } else {
                Ok(false)
            }
        } else {
            self.current_offset = match self.current_offset.checked_add(data_len) {
                Some(v) => v,
                None => return Err(FwDownloadError),
            };
            Ok(false)
        }
    }

    /// The offset and length of the next request to the update agent; the
    /// length is remembered as the last one requested.
    pub fn next_request(&mut self, baseline: usize, max: usize) -> (r: (usize, usize))
        requires
            baseline <= max,
        ensures
            r == (old(self)@.current_offset, old(self)@.request_length(baseline, max)),
            baseline <= r.1 <= max,
            (old(self)@.total_downloaded <= old(self)@.total_length && baseline <= old(self)@.total_length
                - old(self)@.total_downloaded <= max) ==> r.1 == old(self)@.total_length
                - old(self)@.total_downloaded,
            final(self)@ == (DownloadView {
                last_requested_length: old(self)@.request_length(baseline, max),
                ..old(self)@
            }),
            final(self).verify_result == old(self).verify_result,
    {
        let length = if self.total_downloaded > self.total_length {
            baseline
        } else {
            let remaining = self.total_length - self.total_downloaded;
            if remaining < baseline {
                baseline
            } else if remaining > max {
                max
            } else {
                remaining
            }
        };
        self.last_requested_length = length;
        (self.current_offset, length)
    }
}

/// The bus address `offset` bytes past `load_address`; an overflow is an
/// error.
pub fn dma_destination(load_address: u64, offset: usize) -> (r: Result<u64, FwDownloadError>)
    ensures
        load_address + offset <= u64::MAX ==> r == Ok::<u64, FwDownloadError>((load_address + offset) as u64),
        load_address + offset > u64::MAX ==> r is Err,
{
    match load_address.checked_add(offset as u64) {
        Some(v) => Ok(v),
        None => Err(FwDownloadError),
    }
}

/// Copies the device's identifiers into the slots the caller provides, as
/// many as fit, and returns how many identifiers the device has.
pub fn copy_identifiers<T: Copy>(identifiers: &[T], slots: &mut [T]) -> (r: usize)
    ensures
        r == identifiers@.len(),
        final(slots)@.len() == old(slots)@.len(),
        forall|i: int|
            0 <= i < old(slots)@.len() ==> #[trigger] final(slots)@[i] == (if i < identifiers@.len() {
                identifiers@[i]
            } else {
                old(slots)@[i]
            }),
{
    let mut i: usize = 0;
    while i < identifiers.len()
        invariant
            i <= identifiers@.len(),
            slots@.len() == old(slots)@.len(),
            forall|j: int|
                0 <= j < slots@.len() ==> #[trigger] slots@[j] == (if j < i && j < identifiers@.len() {
                    identifiers@[j]
                } else {
                    old(slots)@[j]
                }),
        decreases identifiers@.len() - i,
    {
        if i < slots.len() {
            slots[i] = identifiers[i];
        }
        i = i + 1;
    }
    identifiers.len()
}

/// The PLDM side is asked where to download from: entering the service
/// completes initialization, and a finished header or a located image hand
/// control to the image loader first. Returns whether to hand it over.
pub fn offset_query_transition(state: &mut State) -> (r: bool)
    ensures
        *old(state) == State::Initializing ==> *final(state) == State::Initialized && r,
        *old(state) != State::Initializing ==> *final(state) == *old(state) && r == (*old(state)
            == State::HeaderDownloadComplete || *old(state) == State::ImageDownloadReady),
{
    if *state == State::Initializing {
        *state = State::Initialized;
        true
    } else {
        *state == State::HeaderDownloadComplete || *state == State::ImageDownloadReady
    }
}

/// The transfer size agreed with the update agent: its proposal, at most
/// the largest firmware data transfer.
pub fn get_xfer_size(ua_transfer_size: usize, max_fw_data_size: usize) -> (r: usize)
    ensures
        r == (if ua_transfer_size < max_fw_data_size {
            ua_transfer_size
        } else {
            max_fw_data_size
        }),
{
    if ua_transfer_size < max_fw_data_size {
        ua_transfer_size
    } else {
        max_fw_data_size
    }
}

/// A component smaller than a flash header and one table of contents entry
/// cannot hold a package: its prerequisites are not met. The combined size
/// is taken as a `u32`, truncated as a cast does.
pub fn component_too_small(comp_image_size: Option<u32>, header_size: usize, entry_size: usize) -> (r:
    bool)
    requires
        header_size + entry_size <= usize::MAX,
    ensures
        r == (comp_image_size matches Some(size) && size < (header_size + entry_size) as u32),
{
    match comp_image_size {
        Some(size) => size < (entry_size + header_size) as u32,
        None => false,
    }
}

/// What the image loader does to bring the PLDM service up.
#[derive(Copy, Clone, PartialEq, Eq, Structural, Debug)]
pub enum InitStep {
    /// The service is already running.
    AlreadyRunning,
    /// Start the service task.
    Spawn,
    /// Starting the service failed with this error.
    Fail(McuErrorCode),
}

/// The first step of initialization: a stopped service is marked
/// initializing and, given descriptors to announce, started.
pub fn initialize_step(state: &mut State, descriptor_count: usize) -> (r: InitStep)
    ensures
        *old(state) != State::NotRunning ==> r == InitStep::AlreadyRunning && *final(state) == *old(state),
        *old(state) == State::NotRunning ==> *final(state) == State::Initializing && r == (if descriptor_count == 0 {
            InitStep::Fail(image_error(PLDM_DESCRIPTORS_EMPTY))
        } else {
            InitStep::Spawn
        }),
{
    if *state == State::NotRunning {
        *state = State::Initializing;
        if descriptor_count == 0 {
            InitStep::Fail(code(PLDM_DESCRIPTORS_EMPTY))
        } else {
            InitStep::Spawn
        }
    } else {
        InitStep::AlreadyRunning
    }
}

/// A failure to start the service task is reported as such.
pub fn spawn_outcome<E>(spawned: Result<(), E>) -> (r: McuResult<()>)
    ensures
        spawned is Ok ==> r == Ok::<(), McuErrorCode>(()),
        spawned is Err ==> r == Err::<(), McuErrorCode>(image_error(PLDM_TASK_SPAWN_FAILED)),
{
    match spawned {
        Ok(()) => Ok(()),
        Err(_) => Err(code(PLDM_TASK_SPAWN_FAILED)),
    }
}

/// Checks, once the image loader is woken, that the download reached the
/// state it waited for; any other state is reported as `failure`.
pub fn require_state(actual: State, expected: State, failure: McuErrorCode) -> (r: McuResult<()>)
    ensures
        r == (if actual == expected {
            Ok::<(), McuErrorCode>(())
        } else {
            Err(failure)
        }),
{
    if actual == expected {
        Ok(())
    } else {
        Err(failure)
    }
}

/// Checks the downloaded flash header: the download must be complete, the
/// header readable (its image count is `None` otherwise), and the count of
/// images within what PLDM loading supports. Returns the count.
pub fn header_downloaded(state: State, image_count: Option<usize>) -> (r: McuResult<usize>)
    ensures
        state != State::HeaderDownloadComplete ==> r == Err::<usize, McuErrorCode>(image_error(PLDM_UNEXPECTED_STATE)),
        state == State::HeaderDownloadComplete ==> r == (match image_count {
            None => Err(image_error(INVALID_FLASH_HEADER)),
            Some(n) => if n > MAX_IMAGE_COUNT {
                Err(image_error(PLDM_IMAGE_COUNT_TOO_LARGE))
            } else {
                Ok::<usize, McuErrorCode>(n)
            },
        }),
{
    if state != State::HeaderDownloadComplete {
        return Err(code(PLDM_UNEXPECTED_STATE));
    }
    match image_count {
        None => Err(code(INVALID_FLASH_HEADER)),
        Some(n) => {
            if n > MAX_IMAGE_COUNT {
                Err(code(PLDM_IMAGE_COUNT_TOO_LARGE))
            } else {
                Ok(n)
            }
        },
    }
}

/// A table of contents entry finished downloading: it is handed to the
/// search. The component's entry makes the image ready to download;
/// another component's entry sends the download back for the next entry;
/// an unreadable entry leaves the state as it is.
pub fn toc_entry_downloaded(state: &mut State, search: &mut TocSearch, entry: Option<ImageEntry>) -> (r: TocStep)
    requires
        old(search).index < old(search).image_count,
    ensures
        r == old(search).spec_on_entry(entry),
        *final(search) == old(search).spec_after(entry),
        *final(state) == (match entry {
            None => *old(state),
            Some(e) => if e.identifier == old(search).component_id {
                State::ImageDownloadReady
            } else {
                State::DownloadingToc
            },
        }),
{
    let found = match entry {
        Some(e) => e.identifier == search.component_id,
        None => false,
    };
    let r = search.on_entry(entry);
    if entry.is_some() {
        *state = if found {
            State::ImageDownloadReady
        } else {
            State::DownloadingToc
        };
    }
    r
}

/// A download in progress asks next for the byte right after those that
/// arrived.
pub open spec fn tracks_progress(v: DownloadView) -> bool {
    &&& v.initial_offset <= v.current_offset
    &&& v.current_offset - v.initial_offset == v.total_downloaded
}

/// Setting up a download starts it at its first byte, with nothing arrived.
pub proof fn lemma_begin_tracks_progress(v: DownloadView, initial_offset: usize, total_length: usize)
    ensures
        tracks_progress(v.begun(initial_offset, total_length)),
        v.begun(initial_offset, total_length).total_downloaded == 0,
{
}

/// Each chunk that is stored either completes the download, exactly when
/// the bytes that arrived reach the region's length, moving the state to
/// its completed form; or leaves the state as it is and asks next for the
/// byte right after the chunk. An image chunk goes to the load address
/// plus the number of bytes that arrived before it.
pub proof fn lemma_chunk_progress(v: DownloadView, state: State, data: Seq<u8>)
    requires
        state.is_downloading(),
        tracks_progress(v),
        v.total_downloaded < v.total_length,
    ensures
        ({
            let (v1, r1) = v.accepted(state, data);
            let (v2, s2, r2) = v1.finished(state, data.len() as usize);
            &&& r1 is Ok ==> v1.total_downloaded == v.total_downloaded + data.len()
            &&& (r1 is Ok && state == State::DownloadingImage) ==> r1 == Ok::<
                Option<(u64, usize)>,
                FwDownloadError,
            >(Some((v.load_address, v.total_downloaded)))
            &&& (r1 is Ok && r2 is Ok) ==> {
                if v.total_downloaded + data.len() >= v.total_length {
                    s2 == state.completed() && s2 != state
                } else {
                    s2 == state && tracks_progress(v2) && v2.total_downloaded < v2.total_length
                }
            }
        }),
{
}

/// The first bytes of `buf` are those of `received`, as far as both go.
pub open spec fn holds_prefix(buf: Seq<u8>, received: Seq<u8>) -> bool {
    forall|i: int| 0 <= i < received.len() && i < buf.len() ==> #[trigger] buf[i] == received[i]
}

/// The header and entry buffers hold the start of what arrived: when a
/// buffer holds the bytes received so far, it holds them and the new chunk
/// once the chunk is stored, and keeps its size.
pub proof fn lemma_buffer_holds_download(v: DownloadView, state: State, received: Seq<u8>, data: Seq<u8>)
    requires
        state == State::DownloadingHeader || state == State::DownloadingToc,
        tracks_progress(v),
        v.total_downloaded == received.len(),
        state == State::DownloadingHeader ==> holds_prefix(v.header, received),
        state == State::DownloadingToc ==> holds_prefix(v.image_info, received),
    ensures
        ({
            let (v1, r1) = v.accepted(state, data);
            r1 is Ok ==> {
                &&& state == State::DownloadingHeader ==> holds_prefix(v1.header, received + data)
                    && v1.header.len() == v.header.len()
                &&& state == State::DownloadingToc ==> holds_prefix(v1.image_info, received + data)
                    && v1.image_info.len() == v.image_info.len()
            }
        }),
{
    let (v1, r1) = v.accepted(state, data);
    if r1 is Ok {
        let start = received.len() as int;
        let all = received + data;
        if state == State::DownloadingHeader {
            assert forall|i: int| 0 <= i < all.len() && i < v1.header.len() implies #[trigger] v1.header[i] == all[i] by {
                if i < start {
                    assert(v1.header[i] == v.header[i]);
                } else {
                    assert(v1.header[i] == data[i - start]);
                }
            }
        } else {
            assert forall|i: int| 0 <= i < all.len() && i < v1.image_info.len() implies #[trigger] v1.image_info[i] == all[i] by {
                if i < start {
                    assert(v1.image_info[i] == v.image_info[i]);
                } else {
                    assert(v1.image_info[i] == data[i - start]);
                }
            }
        }
    }
}

/// A chunk written into a buffer from a start within the buffer is always
/// stored: the bytes before the start stay, as much of the chunk as fits
/// follows them, the bytes after it stay, and the buffer keeps its size. A
/// start past the end of the buffer is refused.
pub proof fn lemma_copy_prefix_stores_what_fits(dst: Seq<u8>, start: int, data: Seq<u8>)
    requires
        0 <= start,
    ensures
        start > dst.len() ==> copy_prefix(dst, start, data) is None,
        start <= dst.len() ==> (copy_prefix(dst, start, data) matches Some(d) && {
            &&& d.len() == dst.len()
            &&& forall|i: int| 0 <= i < start ==> #[trigger] d[i] == dst[i]
            &&& forall|i: int|
                start <= i < dst.len() && i < start + data.len() ==> #[trigger] d[i] == data[i
                    - start]
            &&& forall|i: int| start + data.len() <= i < dst.len() ==> #[trigger] d[i] == dst[i]
        }),
{
}

/// A header or table-of-contents chunk that starts within its buffer is
/// always accepted, whatever its length: the counters move by its length,
/// as much of it as fits is stored at the start, the rest of the buffer is
/// kept, and the other buffer is untouched. Only an overflowing counter, a
/// position before the region's start, or a start past the end of the
/// buffer is an error.
pub proof fn lemma_buffer_chunk_accepted(v: DownloadView, state: State, data: Seq<u8>)
    requires
        state == State::DownloadingHeader || state == State::DownloadingToc,
    ensures
        ({
            let (v1, r) = v.accepted(state, data);
            let buf = if state == State::DownloadingHeader { v.header } else { v.image_info };
            let buf1 = if state == State::DownloadingHeader { v1.header } else { v1.image_info };
            let start = v.current_offset - v.initial_offset;
            &&& (r is Err <==> (v.total_downloaded + data.len() > usize::MAX || v.current_offset
                < v.initial_offset || start > buf.len()))
            &&& r is Ok ==> {
                &&& r == Ok::<Option<(u64, usize)>, FwDownloadError>(None)
                &&& v1.total_downloaded == v.total_downloaded + data.len()
                &&& v1.current_offset == v.current_offset
                &&& v1.initial_offset == v.initial_offset
                &&& v1.total_length == v.total_length
                &&& buf1.len() == buf.len()
                &&& forall|i: int| 0 <= i < start ==> #[trigger] buf1[i] == buf[i]
                &&& forall|i: int|
                    start <= i < buf.len() && i < start + data.len() ==> #[trigger] buf1[i]
                        == data[i - start]
                &&& forall|i: int| start + data.len() <= i < buf.len() ==> #[trigger] buf1[i] == buf[i]
                &&& state == State::DownloadingHeader ==> v1.image_info == v.image_info
                &&& state == State::DownloadingToc ==> v1.header == v.header
            }
        }),
{
    if v.total_downloaded + data.len() <= usize::MAX && v.current_offset >= v.initial_offset {
        let start = v.current_offset - v.initial_offset;
        if state == State::DownloadingHeader {
            lemma_copy_prefix_stores_what_fits(v.header, start, data);
        } else {
            lemma_copy_prefix_stores_what_fits(v.image_info, start, data);
        }
    }
}

/// The length asked of the update agent always lies between the baseline
/// and the maximum transfer size; it is what is left of the region whenever
/// that lies between them, the maximum when more is left, and the baseline
/// when less is left or more than the region already arrived.
pub proof fn lemma_request_length_bounds(v: DownloadView, baseline: usize, max: usize)
    requires
        baseline <= max,
    ensures
        baseline <= v.request_length(baseline, max) <= max,
        v.total_downloaded <= v.total_length && baseline <= v.total_length - v.total_downloaded <= max
            ==> v.request_length(baseline, max) == v.total_length - v.total_downloaded,
        v.total_downloaded <= v.total_length && v.total_length - v.total_downloaded > max
            ==> v.request_length(baseline, max) == max,
        (v.total_downloaded > v.total_length || v.total_length - v.total_downloaded < baseline)
            ==> v.request_length(baseline, max) == baseline,
{
}

} // verus!
