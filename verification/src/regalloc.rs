//! Where the values of a function live.

use crate::mir::ValueId;
use vstd::prelude::*;

verus! {

/// A machine register: the general-purpose one of that name, or for a floating-point value
/// the vector register of the same number.
#[derive(Debug, Clone, Copy, PartialEq, Eq, Structural)]
pub enum Reg {
    Rax,
    Rcx,
    Rdx,
    Rbx,
    Rsi,
    Rdi,
    R8,
    R9,
    R10,
    R11,
    R12,
    R13,
    R14,
    R15,
}

impl Reg {
    #[verifier::allow_in_spec]
    pub fn name_8(self) -> &'static str
        returns
            (match self {
                Reg::Rax => "al",
                Reg::Rcx => "cl",
                Reg::Rdx => "dl",
                Reg::Rbx => "bl",
                Reg::Rsi => "sil",
                Reg::Rdi => "dil",
                Reg::R8 => "r8b",
                Reg::R9 => "r9b",
                Reg::R10 => "r10b",
                Reg::R11 => "r11b",
                Reg::R12 => "r12b",
                Reg::R13 => "r13b",
                Reg::R14 => "r14b",
                Reg::R15 => "r15b",
            }),
    {
        match self {
            Reg::Rax => "al",
            Reg::Rcx => "cl",
            Reg::Rdx => "dl",
            Reg::Rbx => "bl",
            Reg::Rsi => "sil",
            Reg::Rdi => "dil",
            Reg::R8 => "r8b",
            Reg::R9 => "r9b",
            Reg::R10 => "r10b",
            Reg::R11 => "r11b",
            Reg::R12 => "r12b",
            Reg::R13 => "r13b",
            Reg::R14 => "r14b",
            Reg::R15 => "r15b",
        }
    }

    #[verifier::allow_in_spec]
    pub fn name_16(self) -> &'static str
        returns
            (match self {
                Reg::Rax => "ax",
                Reg::Rcx => "cx",
                Reg::Rdx => "dx",
                Reg::Rbx => "bx",
                Reg::Rsi => "si",
                Reg::Rdi => "di",
                Reg::R8 => "r8w",
                Reg::R9 => "r9w",
                Reg::R10 => "r10w",
                Reg::R11 => "r11w",
                Reg::R12 => "r12w",
                Reg::R13 => "r13w",
                Reg::R14 => "r14w",
                Reg::R15 => "r15w",
            }),
    {
        match self {
            Reg::Rax => "ax",
            Reg::Rcx => "cx",
            Reg::Rdx => "dx",
            Reg::Rbx => "bx",
            Reg::Rsi => "si",
            Reg::Rdi => "di",
            Reg::R8 => "r8w",
            Reg::R9 => "r9w",
            Reg::R10 => "r10w",
            Reg::R11 => "r11w",
            Reg::R12 => "r12w",
            Reg::R13 => "r13w",
            Reg::R14 => "r14w",
            Reg::R15 => "r15w",
        }
    }

    #[verifier::allow_in_spec]
    pub fn name_32(self) -> &'static str
        returns
            (match self {
                Reg::Rax => "eax",
                Reg::Rcx => "ecx",
                Reg::Rdx => "edx",
                Reg::Rbx => "ebx",
                Reg::Rsi => "esi",
                Reg::Rdi => "edi",
                Reg::R8 => "r8d",
                Reg::R9 => "r9d",
                Reg::R10 => "r10d",
                Reg::R11 => "r11d",
                Reg::R12 => "r12d",
                Reg::R13 => "r13d",
                Reg::R14 => "r14d",
                Reg::R15 => "r15d",
            }),
    {
        match self {
            Reg::Rax => "eax",
            Reg::Rcx => "ecx",
            Reg::Rdx => "edx",
            Reg::Rbx => "ebx",
            Reg::Rsi => "esi",
            Reg::Rdi => "edi",
            Reg::R8 => "r8d",
            Reg::R9 => "r9d",
            Reg::R10 => "r10d",
            Reg::R11 => "r11d",
            Reg::R12 => "r12d",
            Reg::R13 => "r13d",
            Reg::R14 => "r14d",
            Reg::R15 => "r15d",
        }
    }

    #[verifier::allow_in_spec]
    pub fn name_64(self) -> &'static str
        returns
            (match self {
                Reg::Rax => "rax",
                Reg::Rcx => "rcx",
                Reg::Rdx => "rdx",
                Reg::Rbx => "rbx",
                Reg::Rsi => "rsi",
                Reg::Rdi => "rdi",
                Reg::R8 => "r8",
                Reg::R9 => "r9",
                Reg::R10 => "r10",
                Reg::R11 => "r11",
                Reg::R12 => "r12",
                Reg::R13 => "r13",
                Reg::R14 => "r14",
                Reg::R15 => "r15",
            }),
    {
        match self {
            Reg::Rax => "rax",
            Reg::Rcx => "rcx",
            Reg::Rdx => "rdx",
            Reg::Rbx => "rbx",
            Reg::Rsi => "rsi",
            Reg::Rdi => "rdi",
            Reg::R8 => "r8",
            Reg::R9 => "r9",
            Reg::R10 => "r10",
            Reg::R11 => "r11",
            Reg::R12 => "r12",
            Reg::R13 => "r13",
            Reg::R14 => "r14",
            Reg::R15 => "r15",
        }
    }

    #[verifier::allow_in_spec]
    pub fn name_vector(self) -> &'static str
        returns
            (match self {
                Reg::Rax => "xmm0",
                Reg::Rcx => "xmm1",
                Reg::Rdx => "xmm2",
                Reg::Rbx => "xmm3",
                Reg::Rsi => "xmm6",
                Reg::Rdi => "xmm7",
                Reg::R8 => "xmm8",
                Reg::R9 => "xmm9",
                Reg::R10 => "xmm10",
                Reg::R11 => "xmm11",
                Reg::R12 => "xmm12",
                Reg::R13 => "xmm13",
                Reg::R14 => "xmm14",
                Reg::R15 => "xmm15",
            }),
    {
        match self {
            Reg::Rax => "xmm0",
            Reg::Rcx => "xmm1",
            Reg::Rdx => "xmm2",
            Reg::Rbx => "xmm3",
            Reg::Rsi => "xmm6",
            Reg::Rdi => "xmm7",
            Reg::R8 => "xmm8",
            Reg::R9 => "xmm9",
            Reg::R10 => "xmm10",
            Reg::R11 => "xmm11",
            Reg::R12 => "xmm12",
            Reg::R13 => "xmm13",
            Reg::R14 => "xmm14",
            Reg::R15 => "xmm15",
        }
    }
}

/// The registers a function must leave as it found them, apart from the frame pointer.
pub open spec fn callee_saved() -> Seq<Reg> {
    seq![Reg::Rbx, Reg::R12, Reg::R13, Reg::R14, Reg::R15]
}

/// Where a value lives: in a register, or in the frame at an offset from its base.
#[derive(Debug, Clone, Copy, PartialEq, Eq, Structural)]
pub enum Location {
    Register(Reg),
    Stack(i32),
}

/// The places of a function's values, by their number, and the bytes its frame takes.
#[derive(Debug)]
pub struct Allocation {
    pub locations: Vec<Location>,
    pub frame_size: u32,
}

impl Allocation {
    pub open spec fn has(self, id: ValueId) -> bool {
        id.0 < self.locations@.len()
    }

    /// Whether some value lives in the register.
    pub open spec fn uses(self, reg: Reg) -> bool {
        self.locations@.contains(Location::Register(reg))
    }

    pub fn location_of(&self, id: ValueId) -> (location: Location)
        requires
            self.has(id),
        ensures
            location == self.locations@[id.0 as int],
    {
        self.locations[id.0 as usize]
    }

    pub fn uses_register(&self, reg: Reg) -> (used: bool)
        ensures
            used == self.uses(reg),
    {
        let mut i: usize = 0;
        while i < self.locations.len()
            invariant
                i <= self.locations@.len(),
                forall|k: int| 0 <= k < i ==> self.locations@[k] != Location::Register(reg),
            decreases self.locations@.len() - i,
        {
            if self.locations[i] == Location::Register(reg) {
                assert(self.locations@[i as int] == Location::Register(reg));
                return true;
            }
            i = i + 1;
        }
        false
    }
}

} // verus!
