//! Error codes of this crate, within the `CALIPTRA_API` domain.
use vstd::prelude::*;

pub mod image_loader;

verus! {

/// Image-loading errors under the `CALIPTRA_API` domain.
pub const SUBDOMAIN_IMAGE_LOADING: u8 = 0x01;

} // verus!
