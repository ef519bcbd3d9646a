//! Guest address-space management and a RISC-V hypervisor vCPU exit engine.
//!
//! The address-space side keeps an ordered, disjoint set of memory areas over a
//! page table and a model of physical memory; the vCPU side holds the guest
//! register file and classifies every trap back to the host.
use vstd::prelude::*;

pub mod addr;
pub mod area;
pub mod aspace;
pub mod bump;
pub mod csrs;
pub mod error;
pub mod flags;
pub mod mem;
pub mod paging;
pub mod rand;
pub mod regs;
pub mod sbi;
pub mod vcpu;
pub mod vmdev;
