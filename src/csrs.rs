//! Bits of the host and guest control/status registers that the engine edits.
use vstd::prelude::*;

verus! {

/// `hstatus.SPV`: the hart was virtualized before the trap, so `sret` enters the guest.
pub const HSTATUS_SPV: usize = 0x80;
/// `hstatus.SPVP`: hypervisor loads and stores act with the guest's supervisor privilege.
pub const HSTATUS_SPVP: usize = 0x100;
/// `sstatus.SPP`: the previous privilege was supervisor.
pub const SSTATUS_SPP: usize = 0x100;

/// Supervisor software interrupt.
pub const SUPERVISOR_SOFT: usize = 0x2;
/// Supervisor timer interrupt.
pub const SUPERVISOR_TIMER: usize = 0x20;
/// Supervisor external interrupt.
pub const SUPERVISOR_EXTERNAL: usize = 0x200;
/// Virtual supervisor software interrupt.
pub const VIRTUAL_SUPERVISOR_SOFT: usize = 0x4;
/// Virtual supervisor timer interrupt.
pub const VIRTUAL_SUPERVISOR_TIMER: usize = 0x40;
/// Virtual supervisor external interrupt.
pub const VIRTUAL_SUPERVISOR_EXTERNAL: usize = 0x400;

/// Instruction address misaligned.
pub const EXC_INST_ADDR_MISALIGN: usize = 0x1;
/// Breakpoint.
pub const EXC_BREAKPOINT: usize = 0x8;
/// Environment call from U-mode or VU-mode.
pub const EXC_ENV_CALL_FROM_U_OR_VU: usize = 0x100;
/// Instruction page fault.
pub const EXC_INST_PAGE_FAULT: usize = 0x1000;
/// Load page fault.
pub const EXC_LOAD_PAGE_FAULT: usize = 0x2000;
/// Store page fault.
pub const EXC_STORE_PAGE_FAULT: usize = 0x8000;
/// Illegal instruction.
pub const EXC_ILLEGAL_INST: usize = 0x4;

/// Exception code: environment call from VS-mode.
pub const CAUSE_VIRTUAL_SUPERVISOR_ENV_CALL: usize = 10;
/// Exception code: load guest-page fault.
pub const CAUSE_LOAD_GUEST_PAGE_FAULT: usize = 21;
/// Exception code: store guest-page fault.
pub const CAUSE_STORE_GUEST_PAGE_FAULT: usize = 23;
/// Interrupt code: supervisor timer.
pub const CAUSE_SUPERVISOR_TIMER: usize = 5;
/// Interrupt code: supervisor external.
pub const CAUSE_SUPERVISOR_EXTERNAL: usize = 9;

/// The values that host (H)S-level setup writes to the delegation and
/// interrupt registers.
#[derive(Debug, Clone, Copy, PartialEq, Eq, Structural)]
pub struct HostCsrSetup {
    /// Synchronous exceptions delegated to the guest.
    pub hedeleg: usize,
    /// Interrupts delegated to the guest.
    pub hideleg: usize,
    /// Pending virtual interrupts to clear.
    pub hvip_clear: usize,
    /// Counters the guest may read.
    pub hcounteren: usize,
    /// Host interrupts to enable.
    pub sie: usize,
}

/// The register values that put the host's (H)S-level registers in a
/// reasonable state before any guest runs.
pub fn setup_csrs() -> (r: HostCsrSetup)
    ensures
        r.hedeleg == EXC_INST_ADDR_MISALIGN | EXC_BREAKPOINT | EXC_ENV_CALL_FROM_U_OR_VU
            | EXC_INST_PAGE_FAULT | EXC_LOAD_PAGE_FAULT | EXC_STORE_PAGE_FAULT | EXC_ILLEGAL_INST,
        r.hideleg == VIRTUAL_SUPERVISOR_TIMER | VIRTUAL_SUPERVISOR_EXTERNAL
            | VIRTUAL_SUPERVISOR_SOFT,
        r.hvip_clear == r.hideleg,
        r.hcounteren == 0xffff_ffff,
        r.sie == SUPERVISOR_EXTERNAL | SUPERVISOR_SOFT | SUPERVISOR_TIMER,
{
    let virt = VIRTUAL_SUPERVISOR_TIMER | VIRTUAL_SUPERVISOR_EXTERNAL | VIRTUAL_SUPERVISOR_SOFT;
    HostCsrSetup {
        hedeleg: EXC_INST_ADDR_MISALIGN | EXC_BREAKPOINT | EXC_ENV_CALL_FROM_U_OR_VU
            | EXC_INST_PAGE_FAULT | EXC_LOAD_PAGE_FAULT | EXC_STORE_PAGE_FAULT | EXC_ILLEGAL_INST,
        hideleg: virt,
        hvip_clear: virt,
        hcounteren: 0xffff_ffff,
        sie: SUPERVISOR_EXTERNAL | SUPERVISOR_SOFT | SUPERVISOR_TIMER,
    }
}

/// The host registers that decide who receives the supervisor timer
/// interrupt: `sie` (host enable) and `hvip` (virtual interrupts pending for
/// the guest).
#[derive(Debug, Clone, Copy, PartialEq, Eq, Structural)]
pub struct InterruptCsrs {
    pub sie: usize,
    pub hvip: usize,
}

impl InterruptCsrs {
    /// The timer belongs to the guest: its virtual timer interrupt is pending
    /// and the host's own timer interrupt is disabled.
    pub open spec fn timer_to_guest(self) -> InterruptCsrs {
        InterruptCsrs {
            sie: self.sie & !SUPERVISOR_TIMER,
            hvip: self.hvip | VIRTUAL_SUPERVISOR_TIMER,
        }
    }

    /// The timer belongs to the host: the guest's virtual timer interrupt is
    /// cleared and the host's timer interrupt is enabled.
    pub open spec fn timer_to_host(self) -> InterruptCsrs {
        InterruptCsrs {
            sie: self.sie | SUPERVISOR_TIMER,
            hvip: self.hvip & !VIRTUAL_SUPERVISOR_TIMER,
        }
    }

    /// Whether the guest owns the timer.
    pub open spec fn guest_owns_timer(self) -> bool {
        self.hvip & VIRTUAL_SUPERVISOR_TIMER != 0 && self.sie & SUPERVISOR_TIMER == 0
    }

    /// Whether the host owns the timer.
    pub open spec fn host_owns_timer(self) -> bool {
        self.hvip & VIRTUAL_SUPERVISOR_TIMER == 0 && self.sie & SUPERVISOR_TIMER != 0
    }

    /// Hands the timer to the guest.
    pub fn give_timer_to_guest(&mut self)
        ensures
            *final(self) == old(self).timer_to_guest(),
    {
        self.sie = self.sie & !SUPERVISOR_TIMER;
        self.hvip = self.hvip | VIRTUAL_SUPERVISOR_TIMER;
    }

    /// Hands the timer back to the host.
    pub fn give_timer_to_host(&mut self)
        ensures
            *final(self) == old(self).timer_to_host(),
    {
        self.sie = self.sie | SUPERVISOR_TIMER;
        self.hvip = self.hvip & !VIRTUAL_SUPERVISOR_TIMER;
    }
}

/// Timer delegation: classifying a host timer interrupt leaves the guest
/// owning the timer, whatever the registers held; a later set-timer call
/// hands it back to the host.
pub proof fn lemma_timer_delegation(c: InterruptCsrs)
    ensures
        c.timer_to_guest().guest_owns_timer(),
        c.timer_to_guest().timer_to_host().host_owns_timer(),
        c.timer_to_host().host_owns_timer(),
{
    let (s, h) = (c.sie, c.hvip);
    assert((h | 64usize) & 64usize != 0 && (s & !32usize) & 32usize == 0) by (bit_vector);
    assert(((h | 64usize) & !64usize) & 64usize == 0 && ((s & !32usize) | 32usize) & 32usize != 0)
        by (bit_vector);
    assert((h & !64usize) & 64usize == 0 && (s | 32usize) & 32usize != 0) by (bit_vector);
}

} // verus!
