use vmcore::csrs::{
    setup_csrs, InterruptCsrs, HSTATUS_SPV, HSTATUS_SPVP, SSTATUS_SPP, SUPERVISOR_TIMER,
    VIRTUAL_SUPERVISOR_TIMER,
};
use vmcore::error::AxError;
use vmcore::regs::GprIndex;
use vmcore::sbi::{
    BaseFunction, PmuFunction, RemoteFenceFunction, ResetFunction, SbiMessage, SbiRet, EID_BASE,
    EID_CONSOLE_GETCHAR, EID_CONSOLE_PUTCHAR, EID_PMU, EID_RFNC, EID_SET_TIMER, EID_SRST,
    EID_TIME,
};
use vmcore::vcpu::{AxVCpuExitReason, RISCVPerCpu, RISCVVCpu, VmCpuTrapState, VmExit};

const INTERRUPT: usize = 1 << (usize::BITS - 1);

fn trap(scause: usize) -> VmCpuTrapState {
    VmCpuTrapState { scause, stval: 0, htval: 0, htinst: 0 }
}

fn vcpu_with_call(eid: usize, fid: usize, args: [usize; 6]) -> RISCVVCpu {
    let mut v = RISCVVCpu::init(0, 0, SUPERVISOR_TIMER, 0);
    v.set_entry(0x8020_0000).unwrap();
    let a = [
        GprIndex::A0,
        GprIndex::A1,
        GprIndex::A2,
        GprIndex::A3,
        GprIndex::A4,
        GprIndex::A5,
    ];
    for (r, val) in a.iter().zip(args.iter()) {
        v.set_gpr_from_gpr_index(*r, *val);
    }
    v.set_gpr_from_gpr_index(GprIndex::A6, fid);
    v.set_gpr_from_gpr_index(GprIndex::A7, eid);
    v
}

fn ecall(v: &mut RISCVVCpu) -> Result<VmExit, AxError> {
    v.vmexit_handler(trap(10))
}

#[test]
fn init_sets_guest_mode_bits() {
    let v = RISCVVCpu::init(0x2_0000_0000, 0x6000, 0x222, 0x40);
    assert_eq!(v.regs.guest_regs.hstatus, 0x2_0000_0000 | HSTATUS_SPV | HSTATUS_SPVP);
    assert_eq!(v.regs.guest_regs.sstatus, 0x6000 | SSTATUS_SPP);
    assert_eq!(v.irq, InterruptCsrs { sie: 0x202, hvip: 0x40 });
    assert_eq!(v.regs.guest_regs.sepc, 0);
}

#[test]
fn registers_read_back_and_zero_stays_zero() {
    let mut v = RISCVVCpu::init(0, 0, 0, 0);
    v.set_gpr_from_gpr_index(GprIndex::T6, 77);
    v.set_gpr_from_gpr_index(GprIndex::Zero, 5);
    assert_eq!(v.get_gpr(GprIndex::T6), 77);
    assert_eq!(v.get_gpr(GprIndex::Zero), 0);
    v.regs().guest_regs.sepc = 0x100;
    v.advance_pc(2);
    assert_eq!(v.regs.guest_regs.sepc, 0x102);
    v.regs.guest_regs.sepc = usize::MAX - 1;
    v.advance_pc(4);
    assert_eq!(v.regs.guest_regs.sepc, 2);
}

#[test]
fn ept_root_goes_to_hgatp() {
    let mut v = RISCVVCpu::init(0, 0, 0, 0);
    v.set_ept_root(0x8020_3000).unwrap();
    assert_eq!(v.regs.virtual_hs_csrs.hgatp, (8usize << 60) | 0x80203);
}

#[test]
fn base_call_is_forwarded_and_completed() {
    let mut v = vcpu_with_call(EID_BASE, 0, [9, 9, 0, 0, 0, 0]);
    v.set_gpr_from_gpr_index(GprIndex::S1, 123);
    let before = v.regs.guest_regs.gprs.0;
    let exit = ecall(&mut v).unwrap();
    let msg = match exit {
        VmExit::SbiCall(m) => m,
        _ => panic!("expected a forwarded call"),
    };
    assert_eq!(msg, SbiMessage::Base(BaseFunction::GetSepcificationVersion));
    let r = v.complete_sbi_call(msg, SbiRet { error: 0, value: (2 << 24) | 0 });
    assert!(matches!(r, AxVCpuExitReason::Nothing));
    assert_eq!(v.regs.guest_regs.sepc, 0x8020_0004);
    assert_eq!(v.get_gpr(GprIndex::A0), 0);
    assert_eq!(v.get_gpr(GprIndex::A1), 2 << 24);
    let after = v.regs.guest_regs.gprs.0;
    for i in 0..32 {
        if i != 10 && i != 11 {
            assert_eq!(before[i], after[i]);
        }
    }
    assert_eq!(v.regs.trap_csrs.scause, 10);
}

#[test]
fn getchar_and_putchar() {
    let mut v = vcpu_with_call(EID_CONSOLE_GETCHAR, 0, [0; 6]);
    let m = match ecall(&mut v).unwrap() {
        VmExit::SbiCall(m) => m,
        _ => panic!(),
    };
    assert_eq!(m, SbiMessage::GetChar);
    v.complete_sbi_call(m, SbiRet { error: 0, value: b'x' as usize });
    assert_eq!(v.get_gpr(GprIndex::A0), b'x' as usize);

    let mut v = vcpu_with_call(EID_CONSOLE_PUTCHAR, 0, [b'h' as usize, 0, 0, 0, 0, 0]);
    let m = match ecall(&mut v).unwrap() {
        VmExit::SbiCall(m) => m,
        _ => panic!(),
    };
    assert_eq!(m, SbiMessage::PutChar(b'h' as usize));
    v.complete_sbi_call(m, SbiRet { error: 0, value: 0 });
    assert_eq!(v.get_gpr(GprIndex::A0), b'h' as usize);
    assert_eq!(v.regs.guest_regs.sepc, 0x8020_0004);
}

#[test]
fn timer_interrupt_goes_to_guest_until_set_timer() {
    let mut v = RISCVVCpu::init(0, 0, SUPERVISOR_TIMER | 0x200, 0);
    v.irq.sie |= SUPERVISOR_TIMER;
    let exit = v.vmexit_handler(trap(INTERRUPT | 5)).unwrap();
    assert!(matches!(exit, VmExit::Exit(AxVCpuExitReason::Nothing)));
    assert_eq!(v.irq.hvip & VIRTUAL_SUPERVISOR_TIMER, VIRTUAL_SUPERVISOR_TIMER);
    assert_eq!(v.irq.sie & SUPERVISOR_TIMER, 0);
    assert_eq!(v.irq.sie & 0x200, 0x200);
    assert_eq!(v.regs.guest_regs.sepc, 0);

    for (j, r) in [GprIndex::A0, GprIndex::A6, GprIndex::A7].iter().enumerate() {
        v.set_gpr_from_gpr_index(*r, [5000, 0, EID_TIME][j]);
    }
    let m = match ecall(&mut v).unwrap() {
        VmExit::SbiCall(m) => m,
        _ => panic!(),
    };
    assert_eq!(m, SbiMessage::SetTimer(5000));
    assert_eq!(v.irq.hvip & VIRTUAL_SUPERVISOR_TIMER, VIRTUAL_SUPERVISOR_TIMER);
    v.complete_sbi_call(m, SbiRet { error: 0, value: 0 });
    assert_eq!(v.irq.hvip & VIRTUAL_SUPERVISOR_TIMER, 0);
    assert_eq!(v.irq.sie & SUPERVISOR_TIMER, SUPERVISOR_TIMER);
    assert_eq!(v.regs.guest_regs.sepc, 4);
}

#[test]
fn legacy_set_timer_decodes() {
    let mut v = vcpu_with_call(EID_SET_TIMER, 7, [42, 0, 0, 0, 0, 0]);
    assert!(matches!(ecall(&mut v).unwrap(), VmExit::SbiCall(SbiMessage::SetTimer(42))));
}

#[test]
fn external_interrupt_is_reported() {
    let mut v = RISCVVCpu::init(0, 0, 0, 0);
    let before = v.irq;
    let exit = v.vmexit_handler(trap(INTERRUPT | 9)).unwrap();
    assert!(matches!(exit, VmExit::Exit(AxVCpuExitReason::ExternalInterrupt { vector: 0 })));
    assert_eq!(v.irq, before);
}

#[test]
fn guest_page_faults_report_the_address() {
    let mut v = RISCVVCpu::init(0, 0, 0, 0);
    for cause in [21usize, 23] {
        let t = VmCpuTrapState { scause: cause, stval: 0x1234_5677, htval: 0x2000_0400, htinst: 0 };
        match v.vmexit_handler(t).unwrap() {
            VmExit::Exit(AxVCpuExitReason::NestedPageFault { addr, access_flags }) => {
                assert_eq!(addr, 0x8000_1003);
                assert!(access_flags.is_empty());
            }
            _ => panic!("expected a nested page fault"),
        }
        assert_eq!(v.regs.trap_csrs, t);
    }
}

#[test]
fn other_causes_are_unhandled() {
    let mut v = RISCVVCpu::init(0, 0, 0, 0);
    v.set_entry(0x8020_0010).unwrap();
    let t = VmCpuTrapState { scause: 2, stval: 0xdead, htval: 0, htinst: 0 };
    assert_eq!(
        v.vmexit_handler(t).unwrap_err(),
        AxError::UnhandledTrap { scause: 2, sepc: 0x8020_0010, stval: 0xdead }
    );
    assert!(v.vmexit_handler(trap(INTERRUPT | 1)).is_err());
}

#[test]
fn malformed_calls_are_rejected() {
    let mut v = vcpu_with_call(0x4853_4D, 0, [0; 6]);
    assert_eq!(ecall(&mut v).unwrap_err(), AxError::MalformedGuestRequest);
    let mut v = vcpu_with_call(EID_BASE, 7, [0; 6]);
    assert_eq!(ecall(&mut v).unwrap_err(), AxError::MalformedGuestRequest);
    let mut v = vcpu_with_call(EID_PMU, 2, [0; 6]);
    assert_eq!(ecall(&mut v).unwrap_err(), AxError::MalformedGuestRequest);
    assert_eq!(v.regs.guest_regs.sepc, 0x8020_0000);
}

#[test]
fn reset_shuts_the_system_down() {
    let mut v = vcpu_with_call(EID_SRST, 0, [0, 1, 0, 0, 0, 0]);
    let exit = ecall(&mut v).unwrap();
    assert!(matches!(exit, VmExit::Exit(AxVCpuExitReason::SystemDown)));
    assert_eq!(v.regs.guest_regs.sepc, 0x8020_0000);
    let r = v.complete_sbi_call(
        SbiMessage::Reset(ResetFunction::Reset { reset_type: 0, reason: 1 }),
        SbiRet { error: 0, value: 0 },
    );
    assert!(matches!(r, AxVCpuExitReason::SystemDown));
    assert_eq!(v.regs.guest_regs.sepc, 0x8020_0000);
}

#[test]
fn remote_fence_and_pmu_answers() {
    let mut v = vcpu_with_call(EID_RFNC, 1, [1, 0, 0x1000, 0x2000, 0, 0]);
    let m = match ecall(&mut v).unwrap() {
        VmExit::SbiCall(m) => m,
        _ => panic!(),
    };
    assert_eq!(
        m,
        SbiMessage::RemoteFence(RemoteFenceFunction::RemoteSFenceVMA {
            hart_mask: 1,
            hart_mask_base: 0,
            start_addr: 0x1000,
            size: 0x2000
        })
    );
    v.complete_sbi_call(m, SbiRet { error: usize::MAX - 1, value: 3 });
    assert_eq!(v.get_gpr(GprIndex::A0), usize::MAX - 1);
    assert_eq!(v.get_gpr(GprIndex::A1), 3);

    let mut v = vcpu_with_call(EID_PMU, 0, [0; 6]);
    let m = match ecall(&mut v).unwrap() {
        VmExit::SbiCall(m) => m,
        _ => panic!(),
    };
    assert_eq!(m, SbiMessage::PMU(PmuFunction::GetNumCounters));
    v.complete_sbi_call(m, SbiRet { error: 9, value: 16 });
    assert_eq!(v.get_gpr(GprIndex::A0), 0);
    assert_eq!(v.get_gpr(GprIndex::A1), 16);

    let mut v = vcpu_with_call(EID_PMU, 4, [3, 4, 5, 0, 0, 0]);
    let m = match ecall(&mut v).unwrap() {
        VmExit::SbiCall(m) => m,
        _ => panic!(),
    };
    assert_eq!(
        m,
        SbiMessage::PMU(PmuFunction::StopCounter { counter_index: 3, counter_mask: 4, stop_flags: 5 })
    );
    v.complete_sbi_call(m, SbiRet { error: 9, value: 16 });
    assert_eq!(v.get_gpr(GprIndex::A0), 9);
}

#[test]
fn hardware_enable_needs_the_extension() {
    let mut p = RISCVPerCpu::new(0).unwrap();
    assert!(p.hardware_enable(true).is_ok());
    assert_eq!(p.hardware_enable(false).unwrap_err(), AxError::Unsupported);
}

#[test]
fn setup_values() {
    let s = setup_csrs();
    assert_eq!(s.hedeleg, 0xb10d);
    assert_eq!(s.hideleg, 0x444);
    assert_eq!(s.hvip_clear, 0x444);
    assert_eq!(s.hcounteren, 0xffff_ffff);
    assert_eq!(s.sie, 0x222);
}

#[test]
fn spec_version_is_rebuilt_from_the_raw_word() {
    let mut v = vcpu_with_call(EID_BASE, 0, [0; 6]);
    let m = match ecall(&mut v).unwrap() {
        VmExit::SbiCall(m) => m,
        _ => panic!(),
    };
    v.complete_sbi_call(m, SbiRet { error: 0, value: 0x8100_0003 });
    assert_eq!(v.get_gpr(GprIndex::A1), 0x0100_0003);
    assert_eq!(v.get_gpr(GprIndex::A0), 0);
}

#[test]
fn other_base_answers_pass_through() {
    let mut v = vcpu_with_call(EID_BASE, 4, [0; 6]);
    let m = match ecall(&mut v).unwrap() {
        VmExit::SbiCall(m) => m,
        _ => panic!(),
    };
    assert_eq!(m, SbiMessage::Base(BaseFunction::GetMachineVendorID));
    v.complete_sbi_call(m, SbiRet { error: 5, value: 0x8100_0003 });
    assert_eq!(v.get_gpr(GprIndex::A1), 0x8100_0003);
    assert_eq!(v.get_gpr(GprIndex::A0), 0);
}
