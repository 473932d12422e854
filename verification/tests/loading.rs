use mcu_caliptra_api_lite::errors::image_loader::{
    code, DMA_TRANSFER_SIZE_ZERO, IMAGE_NOT_FOUND, IMAGE_OFFSET_OVERFLOW, INVALID_FLASH_HEADER,
    INVALID_IMAGE_HEADER, PLDM_DESCRIPTORS_EMPTY, PLDM_IMAGE_COUNT_TOO_LARGE,
    PLDM_SERVICE_START_FAILED, PLDM_TASK_SPAWN_FAILED, PLDM_UNEXPECTED_STATE,
};
use mcu_caliptra_api_lite::image_loader::pldm::{
    component_too_small, copy_prefix_chunk, dma_destination, get_xfer_size, header_downloaded,
    initialize_step, offset_query_transition, require_state, spawn_outcome, toc_entry_downloaded,
    DownloadContext, FwDownloadError, InitStep, State,
};
use mcu_caliptra_api_lite::image_loader::toc::{ImageEntry, TocSearch, TocStep};
use mcu_caliptra_api_lite::image_loader::transfer::{DmaChunk, ImageTransfer};

fn entry(identifier: u32, offset: u32, size: u32) -> ImageEntry {
    ImageEntry { identifier, offset, size }
}

#[test]
fn toc_finds_first_match() {
    let mut s = TocSearch::new(16, 12, 3, 7);
    assert_eq!(s.next(), TocStep::Read(16));
    assert_eq!(s.on_entry(Some(entry(1, 100, 10))), TocStep::Read(28));
    assert_eq!(s.on_entry(Some(entry(7, 200, 20))), TocStep::Found(200, 20));
}

#[test]
fn toc_not_found() {
    let mut s = TocSearch::new(16, 12, 2, 7);
    assert_eq!(s.next(), TocStep::Read(16));
    assert_eq!(s.on_entry(Some(entry(1, 0, 0))), TocStep::Read(28));
    assert_eq!(s.on_entry(Some(entry(2, 0, 0))), TocStep::Fail(code(IMAGE_NOT_FOUND)));
    let empty = TocSearch::new(16, 12, 0, 7);
    assert_eq!(empty.next(), TocStep::Fail(code(IMAGE_NOT_FOUND)));
}

#[test]
fn toc_invalid_entry_and_overflow() {
    let mut s = TocSearch::new(16, 12, 2, 7);
    assert_eq!(s.on_entry(None), TocStep::Fail(code(INVALID_IMAGE_HEADER)));
    let mut big = TocSearch::new(usize::MAX - 20, 12, 3, 7);
    assert_eq!(big.next(), TocStep::Read(usize::MAX - 20));
    assert_eq!(big.on_entry(Some(entry(1, 0, 0))), TocStep::Read(usize::MAX - 8));
    assert_eq!(big.on_entry(Some(entry(1, 0, 0))), TocStep::Fail(code(IMAGE_OFFSET_OVERFLOW)));
    let mul = TocSearch { header_size: 0, entry_size: usize::MAX, image_count: 3, component_id: 1, index: 2 };
    assert_eq!(mul.next(), TocStep::Fail(code(IMAGE_OFFSET_OVERFLOW)));
}

#[test]
fn toc_from_header() {
    assert_eq!(TocSearch::for_header(None, 16, 12, 1).err(), Some(code(INVALID_FLASH_HEADER)));
    let s = TocSearch::for_header(Some(4), 16, 12, 1).unwrap();
    assert_eq!(s.image_count, 4);
    assert_eq!(s.index, 0);
}

#[test]
fn transfer_chunks_cover_image() {
    assert_eq!(ImageTransfer::new(0x1000, 0, 10, 0).err(), Some(code(DMA_TRANSFER_SIZE_ZERO)));
    let mut t = ImageTransfer::new(0x8000_0000, 64, 250, 100).unwrap();
    let mut chunks = Vec::new();
    while let Some(c) = t.next_chunk() {
        chunks.push(c);
        t.advance().unwrap();
    }
    assert_eq!(
        chunks,
        vec![
            DmaChunk { src_offset: 64, dest_addr: 0x8000_0000, length: 100 },
            DmaChunk { src_offset: 164, dest_addr: 0x8000_0064, length: 100 },
            DmaChunk { src_offset: 264, dest_addr: 0x8000_00C8, length: 50 },
        ]
    );
    let empty = ImageTransfer::new(0, 0, 0, 4).unwrap();
    assert_eq!(empty.next_chunk(), None);
}

#[test]
fn transfer_overflow() {
    let mut t = ImageTransfer::new(u64::MAX - 5, 0, 10, 10).unwrap();
    assert!(t.next_chunk().is_some());
    assert_eq!(t.advance(), Err(code(IMAGE_OFFSET_OVERFLOW)));
    let mut u = ImageTransfer::new(0, usize::MAX - 5, 10, 10).unwrap();
    assert_eq!(u.advance(), Err(code(IMAGE_OFFSET_OVERFLOW)));
}

#[test]
fn prefix_copy() {
    let mut dst = vec![0u8; 6];
    assert_eq!(copy_prefix_chunk(&mut dst, 2, &[1, 2, 3]), Ok(()));
    assert_eq!(dst, vec![0, 0, 1, 2, 3, 0]);
    assert_eq!(copy_prefix_chunk(&mut dst, 4, &[9, 9, 9, 9]), Ok(()));
    assert_eq!(dst, vec![0, 0, 1, 2, 9, 9]);
    assert_eq!(copy_prefix_chunk(&mut dst, 6, &[5]), Ok(()));
    assert_eq!(dst, vec![0, 0, 1, 2, 9, 9]);
    assert_eq!(copy_prefix_chunk(&mut dst, 7, &[5]), Err(FwDownloadError));
    assert_eq!(dst, vec![0, 0, 1, 2, 9, 9]);
}

#[test]
fn header_download_in_chunks() {
    let mut ctx: DownloadContext<u8> = DownloadContext::new(8, 4, 0);
    let mut state = State::DownloadingHeader;
    ctx.begin(0, 8);
    assert_eq!(ctx.next_request(3, 5), (0, 5));
    assert_eq!(ctx.last_requested_length, 5);
    assert_eq!(ctx.accept_data(state, &[1, 2, 3, 4, 5]), Ok(None));
    assert_eq!(ctx.finish_data(&mut state, 5), Ok(false));
    assert_eq!(state, State::DownloadingHeader);
    assert_eq!(ctx.current_offset, 5);
    // Three bytes are left, which is the baseline.
    assert_eq!(ctx.next_request(3, 5), (5, 3));
    assert_eq!(ctx.accept_data(state, &[6, 7, 8]), Ok(None));
    assert_eq!(ctx.finish_data(&mut state, 3), Ok(false));
    assert_eq!(state, State::HeaderDownloadComplete);
    assert_eq!(ctx.header, vec![1, 2, 3, 4, 5, 6, 7, 8]);
    assert_eq!(ctx.current_offset, 5);
}

#[test]
fn request_length_bounds() {
    let mut ctx: DownloadContext<u8> = DownloadContext::new(8, 4, 0);
    ctx.begin(100, 1000);
    assert_eq!(ctx.next_request(32, 512), (100, 512));
    ctx.total_downloaded = 990;
    assert_eq!(ctx.next_request(32, 512).1, 32);
    ctx.total_downloaded = 1001;
    assert_eq!(ctx.next_request(32, 512).1, 32);
    ctx.total_downloaded = 600;
    assert_eq!(ctx.next_request(32, 512).1, 400);
}

#[test]
fn toc_entry_download() {
    let mut ctx: DownloadContext<u8> = DownloadContext::new(8, 4, 0);
    let mut state = State::DownloadingToc;
    ctx.begin(8, 4);
    assert_eq!(ctx.accept_data(state, &[9, 8, 7, 6, 5, 4]), Ok(None));
    assert_eq!(ctx.image_info, vec![9, 8, 7, 6]);
    assert_eq!(ctx.finish_data(&mut state, 6), Ok(true));
    assert_eq!(state, State::TocDownloadComplete);

    let mut search = TocSearch::new(8, 4, 2, 5);
    assert_eq!(search.next(), TocStep::Read(8));
    assert_eq!(toc_entry_downloaded(&mut state, &mut search, Some(entry(3, 0, 0))), TocStep::Read(12));
    assert_eq!(state, State::DownloadingToc);
    state = State::TocDownloadComplete;
    assert_eq!(toc_entry_downloaded(&mut state, &mut search, Some(entry(5, 40, 50))), TocStep::Found(40, 50));
    assert_eq!(state, State::ImageDownloadReady);
    let mut bad_state = State::TocDownloadComplete;
    let mut s2 = TocSearch::new(8, 4, 2, 5);
    assert_eq!(toc_entry_downloaded(&mut bad_state, &mut s2, None), TocStep::Fail(code(INVALID_IMAGE_HEADER)));
    assert_eq!(bad_state, State::TocDownloadComplete);
}

#[test]
fn image_download_goes_by_dma() {
    let mut ctx: DownloadContext<u8> = DownloadContext::new(8, 4, 0);
    let mut state = State::DownloadingImage;
    ctx.begin_image(0x4000_0000, 256, 10);
    assert_eq!(ctx.accept_data(state, &[0; 6]), Ok(Some((0x4000_0000, 0))));
    assert_eq!(ctx.finish_data(&mut state, 6), Ok(false));
    assert_eq!(ctx.current_offset, 262);
    assert_eq!(ctx.accept_data(state, &[0; 6]), Ok(Some((0x4000_0000, 6))));
    assert_eq!(ctx.finish_data(&mut state, 6), Ok(true));
    assert_eq!(state, State::ImageDownloadComplete);
    assert_eq!(dma_destination(0x4000_0000, 6), Ok(0x4000_0006));
    assert_eq!(dma_destination(u64::MAX, 1), Err(FwDownloadError));
}

#[test]
fn download_errors() {
    let mut ctx: DownloadContext<u8> = DownloadContext::new(2, 4, 0);
    ctx.begin(0, 8);
    ctx.current_offset = 5;
    assert_eq!(ctx.accept_data(State::DownloadingHeader, &[1]), Err(FwDownloadError));
    assert_eq!(ctx.total_downloaded, 1);
    ctx.initial_offset = 6;
    assert_eq!(ctx.accept_data(State::DownloadingImage, &[1]), Err(FwDownloadError));
    ctx.total_downloaded = usize::MAX;
    assert_eq!(ctx.accept_data(State::DownloadingImage, &[1]), Err(FwDownloadError));
    let mut c2: DownloadContext<u8> = DownloadContext::new(2, 4, 0);
    c2.begin(usize::MAX, 8);
    let mut st = State::DownloadingImage;
    assert_eq!(c2.finish_data(&mut st, 1), Err(FwDownloadError));
}

#[test]
fn finalize_records_result() {
    let mut ctx: DownloadContext<u8> = DownloadContext::new(2, 4, 0);
    assert!(!ctx.download_complete);
    ctx.finalize(3);
    assert!(ctx.download_complete);
    assert_eq!(ctx.verify_result, 3);
}

#[test]
fn offset_query_states() {
    let mut s = State::Initializing;
    assert!(offset_query_transition(&mut s));
    assert_eq!(s, State::Initialized);
    let mut h = State::HeaderDownloadComplete;
    assert!(offset_query_transition(&mut h));
    assert_eq!(h, State::HeaderDownloadComplete);
    let mut r = State::ImageDownloadReady;
    assert!(offset_query_transition(&mut r));
    let mut d = State::DownloadingToc;
    assert!(!offset_query_transition(&mut d));
    assert_eq!(d, State::DownloadingToc);
}

#[test]
fn service_start() {
    let mut s = State::NotRunning;
    assert_eq!(initialize_step(&mut s, 2), InitStep::Spawn);
    assert_eq!(s, State::Initializing);
    let mut e = State::NotRunning;
    assert_eq!(initialize_step(&mut e, 0), InitStep::Fail(code(PLDM_DESCRIPTORS_EMPTY)));
    let mut r = State::DownloadingToc;
    assert_eq!(initialize_step(&mut r, 0), InitStep::AlreadyRunning);
    assert_eq!(r, State::DownloadingToc);
    assert_eq!(spawn_outcome::<u8>(Ok(())), Ok(()));
    assert_eq!(spawn_outcome(Err(1u8)), Err(code(PLDM_TASK_SPAWN_FAILED)));
    let failed = code(PLDM_SERVICE_START_FAILED);
    assert_eq!(require_state(State::Initialized, State::Initialized, failed), Ok(()));
    assert_eq!(require_state(State::NotRunning, State::Initialized, failed), Err(failed));
}

#[test]
fn header_checks() {
    assert_eq!(header_downloaded(State::DownloadingHeader, Some(1)), Err(code(PLDM_UNEXPECTED_STATE)));
    assert_eq!(header_downloaded(State::HeaderDownloadComplete, None), Err(code(INVALID_FLASH_HEADER)));
    assert_eq!(header_downloaded(State::HeaderDownloadComplete, Some(128)), Err(code(PLDM_IMAGE_COUNT_TOO_LARGE)));
    assert_eq!(header_downloaded(State::HeaderDownloadComplete, Some(127)), Ok(127));
}

#[test]
fn component_and_transfer_size() {
    assert!(component_too_small(Some(10), 16, 16));
    assert!(component_too_small(Some(31), 16, 16));
    assert!(!component_too_small(Some(32), 16, 16));
    assert!(!component_too_small(None, 16, 16));
    assert_eq!(get_xfer_size(4096, 1024), 1024);
    assert_eq!(get_xfer_size(64, 1024), 64);
}

/// Runs a whole load, counting transfers, as the flash loader does.
fn run_load(load_address: u64, offset: usize, size: usize, max: usize) -> (usize, Result<(), mcu_caliptra_api_lite::mcu_error::McuErrorCode>) {
    let mut t = match ImageTransfer::new(load_address, offset, size, max) {
        Ok(t) => t,
        Err(e) => return (0, Err(e)),
    };
    let mut transfers = 0;
    while t.next_chunk().is_some() {
        transfers += 1;
        if let Err(e) = t.advance() {
            return (transfers, Err(e));
        }
    }
    (transfers, Ok(()))
}

#[test]
fn whole_load_overflow() {
    // The end of the image lies past the last bus address: the third
    // transfer fails.
    assert_eq!(run_load(u64::MAX - 25, 0, 30, 10), (3, Err(code(IMAGE_OFFSET_OVERFLOW))));
    // Ending exactly at the last address is fine.
    assert_eq!(run_load(u64::MAX - 30, 0, 30, 10), (3, Ok(())));
    assert_eq!(run_load(0, usize::MAX - 15, 20, 10), (2, Err(code(IMAGE_OFFSET_OVERFLOW))));
    // Nothing to load never overflows.
    assert_eq!(run_load(u64::MAX, usize::MAX, 0, 10), (0, Ok(())));
}
