//! The guest's general-purpose register file.
use vstd::prelude::*;

verus! {

/// The number of general-purpose registers.
pub const GPR_COUNT: usize = 32;

/// A general-purpose register, named by its ABI name.
#[derive(Debug, Clone, Copy, PartialEq, Eq, Structural)]
pub enum GprIndex {
    Zero,
    RA,
    SP,
    GP,
    TP,
    T0,
    T1,
    T2,
    S0,
    S1,
    A0,
    A1,
    A2,
    A3,
    A4,
    A5,
    A6,
    A7,
    S2,
    S3,
    S4,
    S5,
    S6,
    S7,
    S8,
    S9,
    S10,
    S11,
    T3,
    T4,
    T5,
    T6,
}

impl GprIndex {
    /// The register's number `xN`.
    pub open spec fn num(self) -> int {
        match self {
            GprIndex::Zero => 0,
            GprIndex::RA => 1,
            GprIndex::SP => 2,
            GprIndex::GP => 3,
            GprIndex::TP => 4,
            GprIndex::T0 => 5,
            GprIndex::T1 => 6,
            GprIndex::T2 => 7,
            GprIndex::S0 => 8,
            GprIndex::S1 => 9,
            GprIndex::A0 => 10,
            GprIndex::A1 => 11,
            GprIndex::A2 => 12,
            GprIndex::A3 => 13,
            GprIndex::A4 => 14,
            GprIndex::A5 => 15,
            GprIndex::A6 => 16,
            GprIndex::A7 => 17,
            GprIndex::S2 => 18,
            GprIndex::S3 => 19,
            GprIndex::S4 => 20,
            GprIndex::S5 => 21,
            GprIndex::S6 => 22,
            GprIndex::S7 => 23,
            GprIndex::S8 => 24,
            GprIndex::S9 => 25,
            GprIndex::S10 => 26,
            GprIndex::S11 => 27,
            GprIndex::T3 => 28,
            GprIndex::T4 => 29,
            GprIndex::T5 => 30,
            GprIndex::T6 => 31,
        }
    }

    /// The register's number `xN`.
    pub fn index(self) -> (r: usize)
        ensures
            r == self.num(),
            r < GPR_COUNT,
    {
        match self {
            GprIndex::Zero => 0,
            GprIndex::RA => 1,
            GprIndex::SP => 2,
            GprIndex::GP => 3,
            GprIndex::TP => 4,
            GprIndex::T0 => 5,
            GprIndex::T1 => 6,
            GprIndex::T2 => 7,
            GprIndex::S0 => 8,
            GprIndex::S1 => 9,
            GprIndex::A0 => 10,
            GprIndex::A1 => 11,
            GprIndex::A2 => 12,
            GprIndex::A3 => 13,
            GprIndex::A4 => 14,
            GprIndex::A5 => 15,
            GprIndex::A6 => 16,
            GprIndex::A7 => 17,
            GprIndex::S2 => 18,
            GprIndex::S3 => 19,
            GprIndex::S4 => 20,
            GprIndex::S5 => 21,
            GprIndex::S6 => 22,
            GprIndex::S7 => 23,
            GprIndex::S8 => 24,
            GprIndex::S9 => 25,
            GprIndex::S10 => 26,
            GprIndex::S11 => 27,
            GprIndex::T3 => 28,
            GprIndex::T4 => 29,
            GprIndex::T5 => 30,
            GprIndex::T6 => 31,
        }
    }
}

/// The 32 general-purpose registers, indexed by register number.
#[derive(Debug, Clone, Copy)]
pub struct GeneralPurposeRegisters(pub [usize; 32]);

impl GeneralPurposeRegisters {
    pub open spec fn view(&self) -> Seq<usize> {
        self.0@
    }

    /// All registers zero.
    pub fn new() -> (r: GeneralPurposeRegisters)
        ensures
            r@ == Seq::new(32, |i: int| 0usize),
    {
        let r = GeneralPurposeRegisters([0usize; 32]);
        assert(r@ =~= Seq::new(32, |i: int| 0usize));
        r
    }

    /// The value of register `index`.
    pub fn reg(&self, index: GprIndex) -> (r: usize)
        ensures
            r == self@[index.num()],
    {
        self.0[index.index()]
    }

    /// Writes register `index`; writes to `zero` are discarded, as the
    /// hardware discards them.
    pub fn set_reg(&mut self, index: GprIndex, val: usize)
        ensures
            final(self)@ == (if index == GprIndex::Zero {
                old(self)@
            } else {
                old(self)@.update(index.num(), val)
            }),
    {
        if index != GprIndex::Zero {
            self.0[index.index()] = val;
        }
    }

    /// The argument registers `a0` to `a7`, in order.
    pub fn a_regs(&self) -> (r: [usize; 8])
        ensures
            r@ == self@.subrange(10, 18),
    {
        let r = [
            self.0[10],
            self.0[11],
            self.0[12],
            self.0[13],
            self.0[14],
            self.0[15],
            self.0[16],
            self.0[17],
        ];
        assert(r@ =~= self@.subrange(10, 18));
        r
    }
}

} // verus!
