//! The RISC-V virtual CPU: its register file and the classification of every
//! exit from the guest.
//!
//! Entering the guest, reading the trap registers and talking to the firmware
//! are the host's work; this module decides what each exit means and how the
//! guest's state changes.
use crate::csrs::{
    InterruptCsrs, CAUSE_LOAD_GUEST_PAGE_FAULT, CAUSE_STORE_GUEST_PAGE_FAULT,
    CAUSE_SUPERVISOR_EXTERNAL, CAUSE_SUPERVISOR_TIMER, CAUSE_VIRTUAL_SUPERVISOR_ENV_CALL,
    HSTATUS_SPV, HSTATUS_SPVP, SSTATUS_SPP, SUPERVISOR_TIMER,
};
use crate::error::{AxError, AxResult};
use crate::flags::MappingFlags;
use crate::regs::{GeneralPurposeRegisters, GprIndex};
use crate::sbi::{
    decode, BaseFunction, PmuFunction, RemoteFenceFunction, SbiMessage, SbiRet,
};
use vstd::prelude::*;

verus! {

/// Guest physical address.
pub type GuestPhysAddr = usize;

/// Host physical address.
pub type HostPhysAddr = usize;

/// The width of an ecall instruction, by which a serviced call advances the guest's pc.
pub const ECALL_INSTR_LEN: usize = 4;

/// Hypervisor GPR and CSR state which must be saved/restored when entering/exiting virtualization.
#[derive(Debug, Clone, Copy)]
pub struct HypervisorCpuState {
    pub gprs: GeneralPurposeRegisters,
    pub sstatus: usize,
    pub scounteren: usize,
    pub stvec: usize,
    pub sscratch: usize,
}

/// Guest GPR and CSR state which must be saved/restored when exiting/entering virtualization.
#[derive(Debug, Clone, Copy)]
pub struct GuestCpuState {
    pub gprs: GeneralPurposeRegisters,
    pub sstatus: usize,
    pub hstatus: usize,
    pub scounteren: usize,
    pub sepc: usize,
}

/// The CSRs that are only in effect when virtualization is enabled (V=1) and
/// must be saved and restored whenever we switch between VMs.
#[derive(Debug, Clone, Copy, PartialEq, Eq, Structural)]
pub struct GuestVsCsrs {
    pub htimedelta: usize,
    pub vsstatus: usize,
    pub vsie: usize,
    pub vstvec: usize,
    pub vsscratch: usize,
    pub vsepc: usize,
    pub vscause: usize,
    pub vstval: usize,
    pub vsatp: usize,
    pub vstimecmp: usize,
}

/// Virtualized HS-level CSRs that are used to emulate (part of) the
/// hypervisor extension for the guest.
#[derive(Debug, Clone, Copy, PartialEq, Eq, Structural)]
pub struct GuestVirtualHsCsrs {
    pub hie: usize,
    pub hgeie: usize,
    pub hgatp: usize,
}

/// CSRs written on an exit from virtualization that are used by the
/// hypervisor to determine the cause of the trap.
#[derive(Debug, Clone, Copy, PartialEq, Eq, Structural)]
pub struct VmCpuTrapState {
    pub scause: usize,
    pub stval: usize,
    pub htval: usize,
    pub htinst: usize,
}

/// (v)CPU register state that must be saved or restored when entering/exiting
/// a VM or switching between VMs.
#[derive(Debug, Clone, Copy)]
pub struct VmCpuRegisters {
    pub hyp_regs: HypervisorCpuState,
    pub guest_regs: GuestCpuState,
    pub vs_csrs: GuestVsCsrs,
    pub virtual_hs_csrs: GuestVirtualHsCsrs,
    pub trap_csrs: VmCpuTrapState,
}

impl VmCpuRegisters {
    /// `self` and `o` agree on everything but the guest's general-purpose
    /// registers and pc.
    pub open spec fn agrees_except_gprs_pc(self, o: VmCpuRegisters) -> bool {
        &&& self.hyp_regs == o.hyp_regs
        &&& self.vs_csrs == o.vs_csrs
        &&& self.virtual_hs_csrs == o.virtual_hs_csrs
        &&& self.trap_csrs == o.trap_csrs
        &&& self.guest_regs.sstatus == o.guest_regs.sstatus
        &&& self.guest_regs.hstatus == o.guest_regs.hstatus
        &&& self.guest_regs.scounteren == o.guest_regs.scounteren
    }

    /// Every register zero.
    pub open spec fn zeroed(&self) -> bool {
        &&& self.hyp_regs.gprs@ == Seq::new(32, |i: int| 0usize)
        &&& self.hyp_regs.sstatus == 0 && self.hyp_regs.scounteren == 0
        &&& self.hyp_regs.stvec == 0 && self.hyp_regs.sscratch == 0
        &&& self.guest_regs.gprs@ == Seq::new(32, |i: int| 0usize)
        &&& self.guest_regs.sstatus == 0 && self.guest_regs.hstatus == 0
        &&& self.guest_regs.scounteren == 0 && self.guest_regs.sepc == 0
        &&& self.vs_csrs == GuestVsCsrs {
            htimedelta: 0,
            vsstatus: 0,
            vsie: 0,
            vstvec: 0,
            vsscratch: 0,
            vsepc: 0,
            vscause: 0,
            vstval: 0,
            vsatp: 0,
            vstimecmp: 0,
        }
        &&& self.virtual_hs_csrs == GuestVirtualHsCsrs { hie: 0, hgeie: 0, hgatp: 0 }
        &&& self.trap_csrs == VmCpuTrapState { scause: 0, stval: 0, htval: 0, htinst: 0 }
    }

    /// A register file with every register zero.
    pub fn new() -> (r: VmCpuRegisters)
        ensures
            r.zeroed(),
    {
        VmCpuRegisters {
            hyp_regs: HypervisorCpuState {
                gprs: GeneralPurposeRegisters::new(),
                sstatus: 0,
                scounteren: 0,
                stvec: 0,
                sscratch: 0,
            },
            guest_regs: GuestCpuState {
                gprs: GeneralPurposeRegisters::new(),
                sstatus: 0,
                hstatus: 0,
                scounteren: 0,
                sepc: 0,
            },
            vs_csrs: GuestVsCsrs {
                htimedelta: 0,
                vsstatus: 0,
                vsie: 0,
                vstvec: 0,
                vsscratch: 0,
                vsepc: 0,
                vscause: 0,
                vstval: 0,
                vsatp: 0,
                vstimecmp: 0,
            },
            virtual_hs_csrs: GuestVirtualHsCsrs { hie: 0, hgeie: 0, hgatp: 0 },
            trap_csrs: VmCpuTrapState { scause: 0, stval: 0, htval: 0, htinst: 0 },
        }
    }
}

/// The architecture dependent configuration of a vCPU.
#[derive(Clone, Copy, Debug, Default)]
pub struct VCpuConfig {}

/// The width of an access.
///
/// Note that the term "word" here refers to 16-bit data, as in the x86 architecture.
#[derive(Debug, Clone, Copy, PartialEq, Eq, PartialOrd, Ord, Structural)]
pub enum AccessWidth {
    /// 8-bit access.
    Byte,
    /// 16-bit access.
    Word,
    /// 32-bit access.
    Dword,
    /// 64-bit access.
    Qword,
}

/// The port number of an I/O operation.
pub type Port = u16;

/// Why the guest stopped running, as reported to the driving loop.
#[derive(Debug, Clone, Copy)]
pub enum AxVCpuExitReason {
    /// The instruction executed by the vcpu performs a hypercall.
    Hypercall { nr: u64, args: [u64; 6] },
    /// The instruction executed by the vcpu performs a MMIO read operation.
    MmioRead { addr: GuestPhysAddr, width: AccessWidth, reg: usize, reg_width: AccessWidth },
    /// The instruction executed by the vcpu performs a MMIO write operation.
    MmioWrite { addr: GuestPhysAddr, width: AccessWidth, data: u64 },
    /// The instruction executed by the vcpu performs a I/O read operation.
    IoRead { port: Port, width: AccessWidth },
    /// The instruction executed by the vcpu performs a I/O write operation.
    IoWrite { port: Port, width: AccessWidth, data: u64 },
    /// An external interrupt happened.
    ExternalInterrupt { vector: u64 },
    /// A nested page fault happened.
    NestedPageFault { addr: GuestPhysAddr, access_flags: MappingFlags },
    /// The vcpu is halted.
    Halt,
    /// The vcpu is powered off.
    CpuDown,
    /// The whole system should be powered off.
    SystemDown,
    /// Nothing special happened, the vcpu has handled the exit itself.
    Nothing,
    /// The vcpu could not be run due to a failure during entry.
    FailEntry { hardware_entry_failure_reason: u64 },
}

/// What the host does after an exit is classified.
#[derive(Debug, Clone, Copy)]
pub enum VmExit {
    /// The exit is settled; report the reason to the driving loop.
    Exit(AxVCpuExitReason),
    /// The guest's call must be forwarded to the firmware, and its answer
    /// handed to `complete_sbi_call`.
    SbiCall(SbiMessage),
}

/// Whether a trap cause is an interrupt, and its code.
pub open spec fn scause_parts(scause: usize) -> (bool, int) {
    if scause > usize::MAX / 2 {
        (true, scause - (usize::MAX / 2 + 1))
    } else {
        (false, scause as int)
    }
}

/// The guest-physical address of a guest-page fault: `htval` holds it
/// shifted right by two, `stval` its two low bits.
pub open spec fn fault_gpa(trap: VmCpuTrapState) -> usize {
    (trap.htval << 2usize) | (trap.stval & 3usize)
}

/// Whether the trap is the host's supervisor timer interrupt.
pub open spec fn is_timer_irq(trap: VmCpuTrapState) -> bool {
    scause_parts(trap.scause) == (true, CAUSE_SUPERVISOR_TIMER as int)
}

/// What an exit with trap registers `trap` means, for a guest whose
/// general-purpose registers are `gprs` and whose pc is `sepc`.
pub open spec fn classify(gprs: Seq<usize>, sepc: usize, trap: VmCpuTrapState) -> AxResult<VmExit> {
    let (irq, code) = scause_parts(trap.scause);
    if !irq && code == CAUSE_VIRTUAL_SUPERVISOR_ENV_CALL {
        match decode(gprs.subrange(10, 18)) {
            None => Err(AxError::MalformedGuestRequest),
            Some(SbiMessage::Reset(_)) => Ok(VmExit::Exit(AxVCpuExitReason::SystemDown)),
            Some(m) => Ok(VmExit::SbiCall(m)),
        }
    } else if irq && code == CAUSE_SUPERVISOR_TIMER {
        Ok(VmExit::Exit(AxVCpuExitReason::Nothing))
    } else if irq && code == CAUSE_SUPERVISOR_EXTERNAL {
        Ok(VmExit::Exit(AxVCpuExitReason::ExternalInterrupt { vector: 0 }))
    } else if !irq && (code == CAUSE_LOAD_GUEST_PAGE_FAULT || code == CAUSE_STORE_GUEST_PAGE_FAULT) {
        Ok(
            VmExit::Exit(
                AxVCpuExitReason::NestedPageFault {
                    addr: fault_gpa(trap),
                    access_flags: MappingFlags { bits: 0 },
                },
            ),
        )
    } else {
        Err(AxError::UnhandledTrap { scause: trap.scause, sepc, stval: trap.stval })
    }
}

/// The guest's registers after the firmware answered `ret` to the forwarded
/// call `msg`: only `a0` and `a1` may change, as each call kind documents.
pub open spec fn sbi_result_regs(g: Seq<usize>, msg: SbiMessage, ret: SbiRet) -> Seq<usize> {
    match msg {
        SbiMessage::Base(BaseFunction::GetSepcificationVersion) => g.update(
            11,
            spec_version_word(ret.value),
        ).update(10, 0),
        SbiMessage::Base(_) => g.update(11, ret.value).update(10, 0),
        SbiMessage::GetChar => g.update(10, ret.value),
        SbiMessage::RemoteFence(_) => g.update(10, ret.error).update(11, ret.value),
        SbiMessage::PMU(PmuFunction::GetNumCounters) => g.update(10, 0).update(11, ret.value),
        SbiMessage::PMU(_) => g.update(10, ret.error).update(11, ret.value),
        _ => g,
    }
}

/// The specification version that the firmware reported as the word `raw`,
/// as the guest receives it: the major version (bits 30..24 of `raw`) shifted
/// to bit 24, above the minor version (bits 23..0).
pub open spec fn spec_version_word(raw: usize) -> usize {
    (((raw >> 24usize) & 0x7fusize) << 24usize) | (raw & 0xff_ffffusize)
}

/// `pc` advanced by `len` bytes, wrapping as the hardware's pc does.
pub open spec fn pc_after(pc: usize, len: usize) -> usize {
    if pc + len <= usize::MAX {
        (pc + len) as usize
    } else {
        (pc + len - usize::MAX - 1) as usize
    }
}

/// A virtual CPU within a guest.
#[derive(Debug, Clone, Copy)]
pub struct RISCVVCpu {
    /// The register file that the entry/exit trampoline saves and restores.
    pub regs: VmCpuRegisters,
    /// The host interrupt registers that decide who receives the timer.
    pub irq: InterruptCsrs,
}

impl RISCVVCpu {
    /// A vCPU for a host whose `hstatus`, `sstatus`, `sie` and `hvip` hold the
    /// given values. The guest's `hstatus` gets SPV (so that `sret` enters the
    /// guest) and SPVP (so that the host's hypervisor loads and stores act
    /// with the guest's privilege); its `sstatus` gets SPP (the guest starts
    /// in supervisor mode). The host no longer takes the timer interrupt.
    pub fn init(hstatus: usize, sstatus: usize, sie: usize, hvip: usize) -> (r: RISCVVCpu)
        ensures
            r.regs.guest_regs.hstatus == hstatus | HSTATUS_SPV | HSTATUS_SPVP,
            r.regs.guest_regs.sstatus == sstatus | SSTATUS_SPP,
            (VmCpuRegisters {
                guest_regs: GuestCpuState { hstatus: 0, sstatus: 0, ..r.regs.guest_regs },
                ..r.regs
            }).zeroed(),
            r.irq == (InterruptCsrs { sie: sie & !SUPERVISOR_TIMER, hvip }),
    {
        let mut regs = VmCpuRegisters::new();
        regs.guest_regs.hstatus = hstatus | HSTATUS_SPV | HSTATUS_SPVP;
        regs.guest_regs.sstatus = sstatus | SSTATUS_SPP;
        RISCVVCpu { regs, irq: InterruptCsrs { sie: sie & !SUPERVISOR_TIMER, hvip } }
    }

    /// Sets the guest's pc for the next entry.
    pub fn set_entry(&mut self, entry: GuestPhysAddr) -> (r: AxResult)
        ensures
            r is Ok,
            final(self).regs.guest_regs.sepc == entry,
            final(self).regs.guest_regs.gprs == old(self).regs.guest_regs.gprs,
            final(self).regs.agrees_except_gprs_pc(old(self).regs),
            final(self).irq == old(self).irq,
    {
        self.regs.guest_regs.sepc = entry;
        Ok(())
    }

    /// Records the root of the guest-physical translation: `hgatp` selects the
    /// Sv39x4 mode (8 in the top four bits) and holds the root's page number. The host then writes it
    /// to the hardware register and flushes the guest's translations.
    pub fn set_ept_root(&mut self, ept_root: HostPhysAddr) -> (r: AxResult)
        ensures
            r is Ok,
            final(self).regs.virtual_hs_csrs.hgatp == ((0x8000_0000_0000_0000u64) as usize) | (ept_root >> 12usize),
            final(self).regs.virtual_hs_csrs.hie == old(self).regs.virtual_hs_csrs.hie,
            final(self).regs.virtual_hs_csrs.hgeie == old(self).regs.virtual_hs_csrs.hgeie,
            final(self).regs.hyp_regs == old(self).regs.hyp_regs,
            final(self).regs.guest_regs == old(self).regs.guest_regs,
            final(self).regs.vs_csrs == old(self).regs.vs_csrs,
            final(self).regs.trap_csrs == old(self).regs.trap_csrs,
            final(self).irq == old(self).irq,
    {
        self.regs.virtual_hs_csrs.hgatp = ((0x8000_0000_0000_0000u64) as usize) | (ept_root >> 12usize);
        Ok(())
    }

    /// Gets one of the vCPU's general purpose registers.
    pub fn get_gpr(&self, index: GprIndex) -> (r: usize)
        ensures
            r == self.regs.guest_regs.gprs@[index.num()],
    {
        self.regs.guest_regs.gprs.reg(index)
    }

    /// Sets one of the vCPU's general purpose registers.
    pub fn set_gpr_from_gpr_index(&mut self, index: GprIndex, val: usize)
        ensures
            final(self).regs.guest_regs.gprs@ == (if index == GprIndex::Zero {
                old(self).regs.guest_regs.gprs@
            } else {
                old(self).regs.guest_regs.gprs@.update(index.num(), val)
            }),
            final(self).regs.guest_regs.sepc == old(self).regs.guest_regs.sepc,
            final(self).regs.agrees_except_gprs_pc(old(self).regs),
            final(self).irq == old(self).irq,
    {
        self.regs.guest_regs.gprs.set_reg(index, val);
    }

    /// Advances the guest's pc by `instr_len` bytes.
    pub fn advance_pc(&mut self, instr_len: usize)
        ensures
            final(self).regs.guest_regs.sepc == pc_after(old(self).regs.guest_regs.sepc, instr_len),
            final(self).regs.guest_regs.gprs == old(self).regs.guest_regs.gprs,
            final(self).regs.agrees_except_gprs_pc(old(self).regs),
            final(self).irq == old(self).irq,
    {
        self.regs.guest_regs.sepc = self.regs.guest_regs.sepc.wrapping_add(instr_len);
    }

    /// Gets the vCPU's registers.
    pub fn regs(&mut self) -> (r: &mut VmCpuRegisters)
        ensures
            *r == old(self).regs,
            final(self).regs == *final(r),
            final(self).irq == old(self).irq,
    {
        &mut self.regs
    }
}

impl RISCVVCpu {
    /// Classifies the exit whose trap registers read `trap`, after recording
    /// them. A guest ecall is decoded from `a0..a7`: a reset ends the VM,
    /// any other supported call goes to the firmware, and anything else is
    /// malformed. A host timer interrupt hands the timer to the guest and
    /// resumes it; an external interrupt is reported upward; a guest-page
    /// fault is reported with its guest-physical address; any other cause
    /// has no policy and is an unhandled trap.
    pub fn vmexit_handler(&mut self, trap: VmCpuTrapState) -> (r: AxResult<VmExit>)
        ensures
            r == classify(old(self).regs.guest_regs.gprs@, old(self).regs.guest_regs.sepc, trap),
            final(self).regs.trap_csrs == trap,
            final(self).regs.hyp_regs == old(self).regs.hyp_regs,
            final(self).regs.guest_regs == old(self).regs.guest_regs,
            final(self).regs.vs_csrs == old(self).regs.vs_csrs,
            final(self).regs.virtual_hs_csrs == old(self).regs.virtual_hs_csrs,
            final(self).irq == (if is_timer_irq(trap) {
                old(self).irq.timer_to_guest()
            } else {
                old(self).irq
            }),
    {
        self.regs.trap_csrs = trap;
        let (irq, code) = decode_scause(trap.scause);
        if !irq && code == CAUSE_VIRTUAL_SUPERVISOR_ENV_CALL {
            let a = self.regs.guest_regs.gprs.a_regs();
            match SbiMessage::from_regs(&a) {
                Ok(SbiMessage::Reset(_)) => Ok(VmExit::Exit(AxVCpuExitReason::SystemDown)),
                Ok(m) => Ok(VmExit::SbiCall(m)),
                Err(e) => Err(e),
            }
        } else if irq && code == CAUSE_SUPERVISOR_TIMER {
            self.irq.give_timer_to_guest();
            Ok(VmExit::Exit(AxVCpuExitReason::Nothing))
        } else if irq && code == CAUSE_SUPERVISOR_EXTERNAL {
            Ok(VmExit::Exit(AxVCpuExitReason::ExternalInterrupt { vector: 0 }))
        } else if !irq && (code == CAUSE_LOAD_GUEST_PAGE_FAULT || code
            == CAUSE_STORE_GUEST_PAGE_FAULT) {
            let addr = (trap.htval << 2usize) | (trap.stval & 3usize);
            Ok(
                VmExit::Exit(
                    AxVCpuExitReason::NestedPageFault { addr, access_flags: MappingFlags::empty() },
                ),
            )
        } else {
            Err(
                AxError::UnhandledTrap {
                    scause: trap.scause,
                    sepc: self.regs.guest_regs.sepc,
                    stval: trap.stval,
                },
            )
        }
    }

    /// Finishes the forwarded call `msg`, which the firmware answered with
    /// `ret`: writes the answer to the registers that the call kind returns
    /// in, hands the timer back to the host after a set-timer call, and moves
    /// the guest's pc past the ecall. A reset never returns to the guest.
    pub fn complete_sbi_call(&mut self, msg: SbiMessage, ret: SbiRet) -> (r: AxVCpuExitReason)
        ensures
            final(self).regs.guest_regs.gprs@ == sbi_result_regs(
                old(self).regs.guest_regs.gprs@,
                msg,
                ret,
            ),
            final(self).regs.guest_regs.sepc == (if msg is Reset {
                old(self).regs.guest_regs.sepc
            } else {
                pc_after(old(self).regs.guest_regs.sepc, ECALL_INSTR_LEN)
            }),
            final(self).regs.agrees_except_gprs_pc(old(self).regs),
            final(self).irq == (if msg is SetTimer {
                old(self).irq.timer_to_host()
            } else {
                old(self).irq
            }),
            r == (if msg is Reset {
                AxVCpuExitReason::SystemDown
            } else {
                AxVCpuExitReason::Nothing
            }),
    {
        match msg {
            SbiMessage::Base(f) => {
                let _ = self.handle_base_function(f, ret);
            },
            SbiMessage::GetChar => {
                self.set_gpr_from_gpr_index(GprIndex::A0, ret.value);
            },
            SbiMessage::PutChar(_) => {},
            SbiMessage::SetTimer(_) => {
                self.irq.give_timer_to_host();
            },
            SbiMessage::Reset(_) => {
                return AxVCpuExitReason::SystemDown;
            },
            SbiMessage::RemoteFence(f) => {
                let _ = self.handle_rfnc_function(f, ret);
            },
            SbiMessage::PMU(f) => {
                let _ = self.handle_pmu_function(f, ret);
            },
        }
        self.advance_pc(ECALL_INSTR_LEN);
        AxVCpuExitReason::Nothing
    }

    /// Returns a base-extension answer: the value in `a1` (for the
    /// specification version, rebuilt from the firmware's version word),
    /// success in `a0`.
    fn handle_base_function(&mut self, base: BaseFunction, ret: SbiRet) -> (r: AxResult)
        ensures
            r is Ok,
            final(self).regs.guest_regs.gprs@ == old(self).regs.guest_regs.gprs@.update(
                11,
                if base is GetSepcificationVersion {
                    spec_version_word(ret.value)
                } else {
                    ret.value
                },
            ).update(10, 0),
            final(self).regs.guest_regs.sepc == old(self).regs.guest_regs.sepc,
            final(self).regs.agrees_except_gprs_pc(old(self).regs),
            final(self).irq == old(self).irq,
    {
        match base {
            BaseFunction::GetSepcificationVersion => {
                let raw = ret.value;
                let major = (raw >> 24usize) & 0x7fusize;
                let minor = raw & 0xff_ffffusize;
                self.set_gpr_from_gpr_index(GprIndex::A1, (major << 24usize) | minor);
            },
            BaseFunction::GetImplementationID
            | BaseFunction::GetImplementationVersion
            | BaseFunction::ProbeSbiExtension(_)
            | BaseFunction::GetMachineVendorID
            | BaseFunction::GetMachineArchitectureID
            | BaseFunction::GetMachineImplementationID => {
                self.set_gpr_from_gpr_index(GprIndex::A1, ret.value);
            },
        }
        self.set_gpr_from_gpr_index(GprIndex::A0, 0);
        Ok(())
    }

    /// Returns a remote-fence answer: the error in `a0`, the value in `a1`.
    fn handle_rfnc_function(&mut self, rfnc: RemoteFenceFunction, ret: SbiRet) -> (r: AxResult)
        ensures
            r is Ok,
            final(self).regs.guest_regs.gprs@ == old(self).regs.guest_regs.gprs@.update(
                10,
                ret.error,
            ).update(11, ret.value),
            final(self).regs.guest_regs.sepc == old(self).regs.guest_regs.sepc,
            final(self).regs.agrees_except_gprs_pc(old(self).regs),
            final(self).irq == old(self).irq,
    {
        self.set_gpr_from_gpr_index(GprIndex::A0, 0);
        match rfnc {
            RemoteFenceFunction::FenceI { .. } | RemoteFenceFunction::RemoteSFenceVMA { .. } => {
                self.set_gpr_from_gpr_index(GprIndex::A0, ret.error);
                self.set_gpr_from_gpr_index(GprIndex::A1, ret.value);
            },
        }
        proof {
            let g = old(self).regs.guest_regs.gprs@;
            assert(g.update(10, 0usize).update(10, ret.error).update(11, ret.value) =~= g.update(
                10,
                ret.error,
            ).update(11, ret.value));
        }
        Ok(())
    }

    /// Returns a performance-monitoring answer: the counter count in `a1`
    /// with success in `a0`, or the firmware's error and value.
    fn handle_pmu_function(&mut self, pmu: PmuFunction, ret: SbiRet) -> (r: AxResult)
        ensures
            r is Ok,
            final(self).regs.guest_regs.gprs@ == (if pmu is GetNumCounters {
                old(self).regs.guest_regs.gprs@.update(10, 0).update(11, ret.value)
            } else {
                old(self).regs.guest_regs.gprs@.update(10, ret.error).update(11, ret.value)
            }),
            final(self).regs.guest_regs.sepc == old(self).regs.guest_regs.sepc,
            final(self).regs.agrees_except_gprs_pc(old(self).regs),
            final(self).irq == old(self).irq,
    {
        self.set_gpr_from_gpr_index(GprIndex::A0, 0);
        match pmu {
            PmuFunction::GetNumCounters => {
                self.set_gpr_from_gpr_index(GprIndex::A1, ret.value);
            },
            PmuFunction::GetCounterInfo(_) | PmuFunction::StopCounter { .. } => {
                self.set_gpr_from_gpr_index(GprIndex::A0, ret.error);
                self.set_gpr_from_gpr_index(GprIndex::A1, ret.value);
                proof {
                    let g = old(self).regs.guest_regs.gprs@;
                    assert(g.update(10, 0usize).update(10, ret.error).update(11, ret.value)
                        =~= g.update(10, ret.error).update(11, ret.value));
                }
            },
        }
        Ok(())
    }
}

/// Splits a trap cause into its interrupt bit and its code.
fn decode_scause(scause: usize) -> (r: (bool, usize))
    ensures
        r.0 == scause_parts(scause).0,
        r.1 as int == scause_parts(scause).1,
{
    if scause > usize::MAX / 2 {
        (true, scause - (usize::MAX / 2 + 1))
    } else {
        (false, scause)
    }
}

/// A serviced call changes no guest register but `a0` and `a1`, and the
/// register file keeps its size.
pub proof fn lemma_sbi_call_touches_only_a0_a1(g: Seq<usize>, msg: SbiMessage, ret: SbiRet)
    requires
        g.len() == 32,
    ensures
        sbi_result_regs(g, msg, ret).len() == 32,
        forall|i: int|
            0 <= i < 32 && i != 10 && i != 11 ==> #[trigger] sbi_result_regs(g, msg, ret)[i]
                == g[i],
{
}

/// Per-CPU state of the hypervisor.
#[derive(Debug, Clone, Copy)]
pub struct RISCVPerCpu {}

impl RISCVPerCpu {
    /// The per-CPU state of CPU `cpu_id`; the host applies `setup_csrs` to
    /// the hardware before any guest runs.
    pub fn new(cpu_id: usize) -> (r: AxResult<RISCVPerCpu>)
        ensures
            r is Ok,
    {
        Ok(RISCVPerCpu {})
    }

    /// Enables virtualization on this CPU, given whether the capability probe
    /// found the hypervisor extension; without it virtualization is
    /// unsupported, which callers must treat as fatal.
    pub fn hardware_enable(&mut self, has_hardware_support: bool) -> (r: AxResult)
        ensures
            r == (if has_hardware_support {
                Ok(())
            } else {
                Err(AxError::Unsupported)
            }),
    {
        if has_hardware_support {
            Ok(())
        } else {
            Err(AxError::Unsupported)
        }
    }
}

} // verus!