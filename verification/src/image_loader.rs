//! Image loading through the Caliptra mailbox: request layouts, response
//! parsing, table-of-contents search, DMA chunking and the PLDM streaming
//! download state machine.

pub mod image_info;
pub mod activate;
pub mod auth_manifest;
pub mod toc;
pub mod transfer;
pub mod pldm;
