# mcu_caliptra_api_lite

Image loading through the Caliptra mailbox for the MCU runtime, and the
unified MCU error code, with their decisions and byte layouts specified and
proved with Verus.

- `src/mcu_error`: the 32-bit error code (domain, subdomain, code), the
  domain registry and the cross-cutting codes.
- `src/errors`: the image-loading error codes.
- `src/wire.rs`: little-endian words, the mailbox checksum and the retry
  decision taken on each mailbox execution.
- `src/image_loader`: GET_IMAGE_INFO, ACTIVATE_FIRMWARE and
  VERIFY_AUTH_MANIFEST requests and responses, the table-of-contents search,
  DMA chunking of an image load, and the state machine shared by the image
  loader and the PLDM firmware-device task.
- `app/`: the flash, DMA, mailbox and PLDM plumbing (async tasks, syscalls,
  trait impls) that drives the library.
- `tests/`: tests of the library on concrete values.
