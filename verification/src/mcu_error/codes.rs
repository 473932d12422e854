//! Cross-cutting error codes whose meaning does not depend on the caller.
use vstd::prelude::*;
use super::{domain_of, lemma_new_fields_roundtrip, packed, McuErrorCode};
use super::domain;

verus! {

/// The value that [`out_of_memory`] returns.
pub open spec fn spec_out_of_memory() -> McuErrorCode {
    McuErrorCode(packed(domain::MEMORY, 0, 0x0001) as u32)
}

/// The value that [`bad_alignment`] returns.
pub open spec fn spec_bad_alignment() -> McuErrorCode {
    McuErrorCode(packed(domain::MEMORY, 0, 0x0002) as u32)
}

/// The value that [`internal_bug`] returns.
pub open spec fn spec_internal_bug() -> McuErrorCode {
    McuErrorCode(packed(domain::INTERNAL, 0, 0x0001) as u32)
}

/// The value that [`not_implemented`] returns.
pub open spec fn spec_not_implemented() -> McuErrorCode {
    McuErrorCode(packed(domain::INTERNAL, 0, 0x0002) as u32)
}

/// The value that [`invariant_violated`] returns.
pub open spec fn spec_invariant_violated() -> McuErrorCode {
    McuErrorCode(packed(domain::INTERNAL, 0, 0x0003) as u32)
}

/// The value that [`mailbox_busy`] returns.
pub open spec fn spec_mailbox_busy() -> McuErrorCode {
    McuErrorCode(packed(domain::MAILBOX, 0, 0x0001) as u32)
}

/// The allocator pool was exhausted.
pub fn out_of_memory() -> (r: McuErrorCode)
    ensures
        r == spec_out_of_memory(),
{
    McuErrorCode::new(domain::MEMORY, 0, 0x0001)
}

/// An allocation request had an unsupported alignment requirement.
pub fn bad_alignment() -> (r: McuErrorCode)
    ensures
        r == spec_bad_alignment(),
{
    McuErrorCode::new(domain::MEMORY, 0, 0x0002)
}

/// A program invariant was violated; this indicates a bug.
pub fn internal_bug() -> (r: McuErrorCode)
    ensures
        r == spec_internal_bug(),
{
    McuErrorCode::new(domain::INTERNAL, 0, 0x0001)
}

/// The code path is a stub.
pub fn not_implemented() -> (r: McuErrorCode)
    ensures
        r == spec_not_implemented(),
{
    McuErrorCode::new(domain::INTERNAL, 0, 0x0002)
}

/// A non-local invariant (such as an unexpected state) was hit.
pub fn invariant_violated() -> (r: McuErrorCode)
    ensures
        r == spec_invariant_violated(),
{
    McuErrorCode::new(domain::INTERNAL, 0, 0x0003)
}

/// The Caliptra mailbox was busy; the caller should retry.
pub fn mailbox_busy() -> (r: McuErrorCode)
    ensures
        r == spec_mailbox_busy(),
{
    McuErrorCode::new(domain::MAILBOX, 0, 0x0001)
}

/// None of these codes, nor any kernel passthrough, carries the reserved
/// domain.
pub proof fn lemma_codes_not_reserved(kernel_error: u16)
    ensures
        domain_of(spec_out_of_memory().0) != domain::RESERVED,
        domain_of(spec_bad_alignment().0) != domain::RESERVED,
        domain_of(spec_internal_bug().0) != domain::RESERVED,
        domain_of(spec_not_implemented().0) != domain::RESERVED,
        domain_of(spec_invariant_violated().0) != domain::RESERVED,
        domain_of(spec_mailbox_busy().0) != domain::RESERVED,
        domain_of(packed(domain::KERNEL, 0, kernel_error) as u32) != domain::RESERVED,
{
    lemma_new_fields_roundtrip(domain::MEMORY, 0, 0x0001);
    lemma_new_fields_roundtrip(domain::MEMORY, 0, 0x0002);
    lemma_new_fields_roundtrip(domain::INTERNAL, 0, 0x0001);
    lemma_new_fields_roundtrip(domain::INTERNAL, 0, 0x0002);
    lemma_new_fields_roundtrip(domain::INTERNAL, 0, 0x0003);
    lemma_new_fields_roundtrip(domain::MAILBOX, 0, 0x0001);
    lemma_new_fields_roundtrip(domain::KERNEL, 0, kernel_error);
}

} // verus!
