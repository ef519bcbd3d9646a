use vstd::prelude::*;

verus! {

/// Errors reported by the address space and the vCPU engine.
#[derive(Debug, Clone, Copy, PartialEq, Eq, Structural)]
pub enum AxError {
    /// A misaligned or out-of-range address or size argument.
    InvalidInput,
    /// The target range overlaps an area that is already mapped.
    AlreadyExists,
    /// An access targets a virtual address with no current mapping.
    BadAddress,
    /// The frame allocator is exhausted.
    NoMemory,
    /// The hardware lacks the virtualization extension.
    Unsupported,
    /// The guest issued an undecodable or unimplemented hypercall.
    MalformedGuestRequest,
    /// A trap cause for which the engine has no policy.
    UnhandledTrap { scause: usize, sepc: usize, stval: usize },
}

/// The result type of the library's fallible operations.
pub type AxResult<T = ()> = Result<T, AxError>;

} // verus!
