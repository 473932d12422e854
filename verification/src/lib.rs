//! Caliptra mailbox image-loading primitives and the unified MCU error code,
//! with their decisions and byte layouts stated and proved.

pub mod mcu_error;
pub mod errors;
pub mod wire;
pub mod image_loader;
