//! Decoding of the guest's supervisor binary interface (SBI) calls.
//!
//! A call passes the extension id in `a7`, the function id in `a6` and its
//! arguments in `a0` to `a5`.
use crate::error::{AxError, AxResult};
use vstd::prelude::*;

verus! {

/// Legacy extension: program the timer.
pub const EID_SET_TIMER: usize = 0x00;
/// Legacy extension: write a character to the console.
pub const EID_CONSOLE_PUTCHAR: usize = 0x01;
/// Legacy extension: read a character from the console.
pub const EID_CONSOLE_GETCHAR: usize = 0x02;
/// Base extension.
pub const EID_BASE: usize = 0x10;
/// Timer extension ("TIME").
pub const EID_TIME: usize = 0x54494D45;
/// Remote fence extension ("RFNC").
pub const EID_RFNC: usize = 0x52464E43;
/// System reset extension ("SRST").
pub const EID_SRST: usize = 0x53525354;
/// Performance monitoring extension ("PMU").
pub const EID_PMU: usize = 0x504D55;

/// What the firmware answered to a forwarded call: an error code and a value.
#[derive(Debug, Clone, Copy, PartialEq, Eq, Structural)]
pub struct SbiRet {
    pub error: usize,
    pub value: usize,
}

/// Functions of the base extension.
#[derive(Debug, Clone, Copy, PartialEq, Eq, Structural)]
pub enum BaseFunction {
    GetSepcificationVersion,
    GetImplementationID,
    GetImplementationVersion,
    ProbeSbiExtension(usize),
    GetMachineVendorID,
    GetMachineArchitectureID,
    GetMachineImplementationID,
}

/// Functions of the system reset extension.
#[derive(Debug, Clone, Copy, PartialEq, Eq, Structural)]
pub enum ResetFunction {
    Reset { reset_type: usize, reason: usize },
}

/// Functions of the remote fence extension.
#[derive(Debug, Clone, Copy, PartialEq, Eq, Structural)]
pub enum RemoteFenceFunction {
    FenceI { hart_mask: usize, hart_mask_base: usize },
    RemoteSFenceVMA { hart_mask: usize, hart_mask_base: usize, start_addr: usize, size: usize },
}

/// Functions of the performance monitoring extension.
#[derive(Debug, Clone, Copy, PartialEq, Eq, Structural)]
pub enum PmuFunction {
    GetNumCounters,
    GetCounterInfo(usize),
    StopCounter { counter_index: usize, counter_mask: usize, stop_flags: usize },
}

/// A decoded SBI call.
#[derive(Debug, Clone, Copy, PartialEq, Eq, Structural)]
pub enum SbiMessage {
    Base(BaseFunction),
    PutChar(usize),
    GetChar,
    SetTimer(usize),
    Reset(ResetFunction),
    RemoteFence(RemoteFenceFunction),
    PMU(PmuFunction),
}

/// The base-extension function that function id `fid` names with argument `a0`.
pub open spec fn base_of(fid: usize, a0: usize) -> Option<BaseFunction> {
    if fid == 0 {
        Some(BaseFunction::GetSepcificationVersion)
    } else if fid == 1 {
        Some(BaseFunction::GetImplementationID)
    } else if fid == 2 {
        Some(BaseFunction::GetImplementationVersion)
    } else if fid == 3 {
        Some(BaseFunction::ProbeSbiExtension(a0))
    } else if fid == 4 {
        Some(BaseFunction::GetMachineVendorID)
    } else if fid == 5 {
        Some(BaseFunction::GetMachineArchitectureID)
    } else if fid == 6 {
        Some(BaseFunction::GetMachineImplementationID)
    } else {
        None
    }
}

/// The message that the argument registers `a0..a7` encode, if any.
pub open spec fn decode(a: Seq<usize>) -> Option<SbiMessage> {
    let (eid, fid) = (a[7], a[6]);
    if eid == EID_SET_TIMER || (eid == EID_TIME && fid == 0) {
        Some(SbiMessage::SetTimer(a[0]))
    } else if eid == EID_CONSOLE_PUTCHAR {
        Some(SbiMessage::PutChar(a[0]))
    } else if eid == EID_CONSOLE_GETCHAR {
        Some(SbiMessage::GetChar)
    } else if eid == EID_BASE {
        match base_of(fid, a[0]) {
            Some(f) => Some(SbiMessage::Base(f)),
            None => None,
        }
    } else if eid == EID_SRST && fid == 0 {
        Some(SbiMessage::Reset(ResetFunction::Reset { reset_type: a[0], reason: a[1] }))
    } else if eid == EID_RFNC && fid == 0 {
        Some(
            SbiMessage::RemoteFence(
                RemoteFenceFunction::FenceI { hart_mask: a[0], hart_mask_base: a[1] },
            ),
        )
    } else if eid == EID_RFNC && fid == 1 {
        Some(
            SbiMessage::RemoteFence(
                RemoteFenceFunction::RemoteSFenceVMA {
                    hart_mask: a[0],
                    hart_mask_base: a[1],
                    start_addr: a[2],
                    size: a[3],
                },
            ),
        )
    } else if eid == EID_PMU && fid == 0 {
        Some(SbiMessage::PMU(PmuFunction::GetNumCounters))
    } else if eid == EID_PMU && fid == 1 {
        Some(SbiMessage::PMU(PmuFunction::GetCounterInfo(a[0])))
    } else if eid == EID_PMU && fid == 4 {
        Some(
            SbiMessage::PMU(
                PmuFunction::StopCounter { counter_index: a[0], counter_mask: a[1], stop_flags: a[2] },
            ),
        )
    } else {
        None
    }
}

impl BaseFunction {
    /// Decodes a base-extension call from its function id and first argument.
    pub fn from_regs(fid: usize, a0: usize) -> (r: AxResult<BaseFunction>)
        ensures
            r == (match base_of(fid, a0) {
                Some(f) => Ok(f),
                None => Err(AxError::MalformedGuestRequest),
            }),
    {
        match fid {
            0 => Ok(BaseFunction::GetSepcificationVersion),
            1 => Ok(BaseFunction::GetImplementationID),
            2 => Ok(BaseFunction::GetImplementationVersion),
            3 => Ok(BaseFunction::ProbeSbiExtension(a0)),
            4 => Ok(BaseFunction::GetMachineVendorID),
            5 => Ok(BaseFunction::GetMachineArchitectureID),
            6 => Ok(BaseFunction::GetMachineImplementationID),
            _ => Err(AxError::MalformedGuestRequest),
        }
    }
}

impl SbiMessage {
    /// Decodes the call that the argument registers `a0..a7` encode; a call
    /// of an extension or function that is not implemented is malformed.
    pub fn from_regs(a: &[usize; 8]) -> (r: AxResult<SbiMessage>)
        ensures
            r == (match decode(a@) {
                Some(m) => Ok(m),
                None => Err(AxError::MalformedGuestRequest),
            }),
    {
        let eid = a[7];
        let fid = a[6];
        if eid == EID_SET_TIMER || (eid == EID_TIME && fid == 0) {
            Ok(SbiMessage::SetTimer(a[0]))
        } else if eid == EID_CONSOLE_PUTCHAR {
            Ok(SbiMessage::PutChar(a[0]))
        } else if eid == EID_CONSOLE_GETCHAR {
            Ok(SbiMessage::GetChar)
        } else if eid == EID_BASE {
            match BaseFunction::from_regs(fid, a[0]) {
                Ok(f) => Ok(SbiMessage::Base(f)),
                Err(e) => Err(e),
            }
        } else if eid == EID_SRST && fid == 0 {
            Ok(SbiMessage::Reset(ResetFunction::Reset { reset_type: a[0], reason: a[1] }))
        } else if eid == EID_RFNC && fid == 0 {
            Ok(
                SbiMessage::RemoteFence(
                    RemoteFenceFunction::FenceI { hart_mask: a[0], hart_mask_base: a[1] },
                ),
            )
        } else if eid == EID_RFNC && fid == 1 {
            Ok(
                SbiMessage::RemoteFence(
                    RemoteFenceFunction::RemoteSFenceVMA {
                        hart_mask: a[0],
                        hart_mask_base: a[1],
                        start_addr: a[2],
                        size: a[3],
                    },
                ),
            )
        } else if eid == EID_PMU && fid == 0 {
            Ok(SbiMessage::PMU(PmuFunction::GetNumCounters))
        } else if eid == EID_PMU && fid == 1 {
            Ok(SbiMessage::PMU(PmuFunction::GetCounterInfo(a[0])))
        } else if eid == EID_PMU && fid == 4 {
            Ok(
                SbiMessage::PMU(
                    PmuFunction::StopCounter {
                        counter_index: a[0],
                        counter_mask: a[1],
                        stop_flags: a[2],
                    },
                ),
            )
        } else {
            Err(AxError::MalformedGuestRequest)
        }
    }
}

} // verus!
