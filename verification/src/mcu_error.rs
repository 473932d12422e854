//! Unified runtime-userspace error code.
//!
//! The code is a `u32` laid out as `domain` (bits 31..24), `subdomain`
//! (bits 23..16) and `code` (bits 15..0).
use vstd::prelude::*;

pub mod domain;
pub mod codes;

verus! {

/// Unified runtime-userspace error code.
#[derive(Copy, Clone, PartialEq, Eq, Structural, Hash, Debug)]
pub struct McuErrorCode(pub u32);

/// Result type shared by every userspace API.
pub type McuResult<T> = Result<T, McuErrorCode>;

/// The numeric value of the code with the given three fields.
pub open spec fn packed(domain: u8, subdomain: u8, code: u16) -> int {
    domain as int * 0x100_0000 + subdomain as int * 0x1_0000 + code as int
}

/// Bits 31..24 of a raw code.
pub open spec fn domain_of(raw: u32) -> u8 {
    (raw as int / 0x100_0000) as u8
}

/// Bits 23..16 of a raw code.
pub open spec fn subdomain_of(raw: u32) -> u8 {
    ((raw as int / 0x1_0000) % 0x100) as u8
}

/// Bits 15..0 of a raw code.
pub open spec fn code_of(raw: u32) -> u16 {
    (raw as int % 0x1_0000) as u16
}

impl McuErrorCode {
    /// Constructs an error code from `(domain, subdomain, code)`.
    pub fn new(domain: u8, subdomain: u8, code: u16) -> (r: Self)
        ensures
            r.0 == packed(domain, subdomain, code),
    {
        let d = domain as u32;
        let s = subdomain as u32;
        let c = code as u32;
        let v = (d << 24u32) | (s << 16u32) | c;
        assert(v == d * 0x100_0000 + s * 0x1_0000 + c) by (bit_vector)
            requires
                d < 256,
                s < 256,
                c < 0x1_0000,
                v == (d << 24u32) | (s << 16u32) | c,
        ;
        McuErrorCode(v)
    }

    /// Domain byte (bits 31..24).
    pub fn domain(self) -> (r: u8)
        ensures
            r == domain_of(self.0),
    {
        let v = self.0;
        let r = v >> 24u32;
        assert(r == v / 0x100_0000) by (bit_vector)
            requires
                r == v >> 24u32,
        ;
        r as u8
    }

    /// Subdomain byte (bits 23..16).
    pub fn subdomain(self) -> (r: u8)
        ensures
            r == subdomain_of(self.0),
    {
        let v = self.0;
        let r = (v >> 16u32) & 0xffu32;
        assert(r == (v / 0x1_0000) % 0x100) by (bit_vector)
            requires
                r == (v >> 16u32) & 0xffu32,
        ;
        r as u8
    }

    /// Code (bits 15..0).
    pub fn code(self) -> (r: u16)
        ensures
            r == code_of(self.0),
    {
        let v = self.0;
        let r = v & 0xffffu32;
        assert(r == v % 0x1_0000) by (bit_vector)
            requires
                r == v & 0xffffu32,
        ;
        r as u16
    }

    /// Raw 32-bit representation.
    pub fn as_u32(self) -> (r: u32)
        ensures
            r == self.0,
    {
        self.0
    }

    /// Wraps a kernel syscall error value.
    pub fn kernel(e: u16) -> (r: Self)
        ensures
            r.0 == packed(domain::KERNEL, 0, e),
    {
        Self::new(domain::KERNEL, 0, e)
    }

    /// `true` if this error came from the kernel-syscall boundary.
    pub fn is_kernel(self) -> (r: bool)
        ensures
            r == (domain_of(self.0) == domain::KERNEL),
    {
        self.domain() == domain::KERNEL
    }

    /// The kernel error value, if this error is a kernel passthrough.
    pub fn as_kernel(self) -> (r: Option<u16>)
        ensures
            r == (if domain_of(self.0) == domain::KERNEL {
                Some(code_of(self.0))
            } else {
                None::<u16>
            }),
    {
        if self.is_kernel() {
            Some(self.code())
        } else {
            None
        }
    }
}


/// A code built from three fields gives back each of them: its domain, its
/// subdomain and its code are the ones it was built from.
pub proof fn lemma_new_fields_roundtrip(domain: u8, subdomain: u8, code: u16)
    ensures
        0 <= packed(domain, subdomain, code) <= u32::MAX,
        domain_of(packed(domain, subdomain, code) as u32) == domain,
        subdomain_of(packed(domain, subdomain, code) as u32) == subdomain,
        code_of(packed(domain, subdomain, code) as u32) == code,
{
}

/// Every 32-bit value is the code built from its own domain, subdomain and
/// code, so the three fields determine the code and nothing is lost.
pub proof fn lemma_fields_determine_code(raw: u32)
    ensures
        packed(domain_of(raw), subdomain_of(raw), code_of(raw)) == raw,
{
}

/// A kernel passthrough is recognised as one and gives back the kernel
/// error value it wraps.
pub proof fn lemma_kernel_roundtrip(e: u16)
    ensures
        domain_of(packed(domain::KERNEL, 0, e) as u32) == domain::KERNEL,
        code_of(packed(domain::KERNEL, 0, e) as u32) == e,
{
    lemma_new_fields_roundtrip(domain::KERNEL, 0, e);
}

/// Codes outside the kernel domain are never taken for kernel passthroughs.
pub proof fn lemma_non_kernel_domain(domain: u8, subdomain: u8, code: u16)
    requires
        domain != domain::KERNEL,
    ensures
        domain_of(packed(domain, subdomain, code) as u32) != domain::KERNEL,
{
    lemma_new_fields_roundtrip(domain, subdomain, code);
}

impl From<McuErrorCode> for u32 {
    fn from(e: McuErrorCode) -> (r: u32) {
        e.0
    }
}

impl vstd::std_specs::convert::FromSpecImpl<McuErrorCode> for u32 {
    open spec fn obeys_from_spec() -> bool {
        true
    }

    open spec fn from_spec(e: McuErrorCode) -> u32 {
        e.0
    }
}

} // verus!
