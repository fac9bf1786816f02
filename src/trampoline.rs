//! The prolog relocator: it copies the first instructions of a target into
//! position-independent code that can run anywhere, rewriting every operand
//! that depends on where the instruction resides.
//!
//! The instructions are decoded by the caller, one at a time, at the address
//! that the builder asks for; the builder decides what each one becomes.

use crate::error::Error;
use crate::pic::CodeEmitter;
use crate::thunk::{self, Thunk, JumpAbs, CallAbs, JccAbs, UnsafeThunk};
use vstd::prelude::*;

verus! {

/// The longest x86 instruction, in bytes.
pub const MAX_INSTRUCTION_LEN: usize = 15;

/// True if a trampoline for this margin fits the address space: it holds at
/// most `margin + 14` bytes of prolog, each byte relocated into at most
/// sixteen, and a final fourteen-byte jump.
pub open spec fn margin_fits(margin: int) -> bool {
    16 * (margin + 15) + 14 <= usize::MAX
}

/// The class of an instruction's mnemonic, as far as relocation cares.
#[derive(PartialEq, Eq, Structural, Clone, Copy, Debug)]
pub enum Mnemonic {
    /// `ret`.
    Return,
    /// An unconditional `jmp`.
    Jump,
    /// A `call`.
    Call,
    /// `loop`, `loope`, `loopne`, `jecxz` or `jcxz`: branches without a long form.
    Loop,
    /// Any other instruction, conditional jumps included.
    Other,
}

/// A decoded instruction.
#[derive(Debug)]
pub struct Instruction {
    address: usize,
    bytes: Vec<u8>,
    mnemonic: Mnemonic,
    rip_displacement: Option<i32>,
    rip_offset: usize,
    branch_displacement: Option<i32>,
}

impl Instruction {
    pub closed spec fn spec_address(&self) -> int {
        self.address as int
    }

    pub closed spec fn spec_bytes(&self) -> Seq<u8> {
        self.bytes@
    }

    pub closed spec fn spec_mnemonic(&self) -> Mnemonic {
        self.mnemonic
    }

    pub closed spec fn spec_rip_displacement(&self) -> Option<i32> {
        self.rip_displacement
    }

    /// Where the RIP-relative displacement starts within the bytes.
    pub closed spec fn spec_rip_offset(&self) -> int {
        self.rip_offset as int
    }

    pub closed spec fn spec_branch_displacement(&self) -> Option<i32> {
        self.branch_displacement
    }

    pub open spec fn spec_len(&self) -> int {
        self.spec_bytes().len() as int
    }

    pub open spec fn spec_next_address(&self) -> int {
        self.spec_address() + self.spec_len()
    }

    /// What a decoder can produce: one to fifteen bytes that lie in the
    /// address space, and a RIP-relative operand only with its four
    /// displacement bytes among them.
    pub open spec fn wf(&self) -> bool {
        &&& 1 <= self.spec_len() <= 15
        &&& self.spec_next_address() <= usize::MAX
        &&& (self.spec_rip_displacement() is Some ==> self.spec_rip_offset() + 4 <= self.spec_len())
    }

    /// Describes a decoded instruction; `rip_offset` is where the four bytes
    /// of a RIP-relative displacement start. `None` if the description cannot
    /// be that of an instruction (no bytes, more than fifteen, a RIP-relative
    /// displacement outside the bytes, or an end beyond the address space).
    pub fn new(
        address: usize,
        bytes: Vec<u8>,
        mnemonic: Mnemonic,
        rip_displacement: Option<i32>,
        rip_offset: usize,
        branch_displacement: Option<i32>,
    ) -> (r: Option<Instruction>)
        ensures
            r is Some <==> {
                &&& 1 <= bytes@.len() <= 15
                &&& address + bytes@.len() <= usize::MAX
                &&& (rip_displacement is Some ==> rip_offset + 4 <= bytes@.len())
            },
            r matches Some(i) ==> {
                &&& i.wf()
                &&& i.spec_address() == address
                &&& i.spec_bytes() == bytes@
                &&& i.spec_mnemonic() == mnemonic
                &&& i.spec_rip_displacement() == rip_displacement
                &&& i.spec_rip_offset() == rip_offset
                &&& i.spec_branch_displacement() == branch_displacement
            },
    {
        let len = bytes.len();
        if len == 0 || len > MAX_INSTRUCTION_LEN || address > usize::MAX - len {
            return None;
        }
        if rip_displacement.is_some() && (rip_offset > len || len - rip_offset < 4) {
            return None;
        }
        Some(Instruction { address, bytes, mnemonic, rip_displacement, rip_offset, branch_displacement })
    }

    /// Returns the instruction's address.
    pub fn address(&self) -> (r: usize)
        ensures
            r == self.spec_address(),
    {
        self.address
    }

    /// Returns the next instruction's address.
    pub fn next_instruction_address(&self) -> (r: usize)
        requires
            self.wf(),
        ensures
            r == self.spec_next_address(),
    {
        self.address + self.bytes.len()
    }

    /// Returns where a RIP-relative displacement starts within the bytes.
    pub fn rip_operand_offset(&self) -> (r: usize)
        ensures
            r == self.spec_rip_offset(),
    {
        self.rip_offset
    }

    /// Returns the instruction's relative branch displacement, if any.
    pub fn relative_branch_displacement(&self) -> (r: Option<i32>)
        ensures
            r == self.spec_branch_displacement(),
    {
        self.branch_displacement
    }

    /// Returns the instruction's RIP-relative operand displacement, if any.
    pub fn rip_operand_displacement(&self) -> (r: Option<i32>)
        ensures
            r == self.spec_rip_displacement(),
    {
        self.rip_displacement
    }

    /// Returns true if this instruction is any kind of loop.
    pub fn is_loop(&self) -> (r: bool)
        ensures
            r == (self.spec_mnemonic() == Mnemonic::Loop),
    {
        self.mnemonic == Mnemonic::Loop
    }

    /// Returns true if this instruction is an unconditional jump.
    pub fn is_unconditional_jump(&self) -> (r: bool)
        ensures
            r == (self.spec_mnemonic() == Mnemonic::Jump),
    {
        self.mnemonic == Mnemonic::Jump
    }

    /// Returns true if this instruction is a function call.
    pub fn is_call(&self) -> (r: bool)
        ensures
            r == (self.spec_mnemonic() == Mnemonic::Call),
    {
        self.mnemonic == Mnemonic::Call
    }

    /// Returns true if this instruction is a return.
    pub fn is_return(&self) -> (r: bool)
        ensures
            r == (self.spec_mnemonic() == Mnemonic::Return),
    {
        self.mnemonic == Mnemonic::Return
    }

    /// Returns the instruction's bytes.
    pub fn as_slice(&self) -> (r: &[u8])
        ensures
            r@ == self.spec_bytes(),
    {
        self.bytes.as_slice()
    }

    /// Returns a copy of the instruction's bytes.
    pub fn to_vec(&self) -> (r: Vec<u8>)
        ensures
            r@ == self.spec_bytes(),
    {
        self.bytes.clone()
    }

    /// Returns the size of the instruction in bytes.
    pub fn len(&self) -> (r: usize)
        ensures
            r == self.spec_len(),
    {
        self.bytes.len()
    }
}

/// True if `t` copies `bytes` verbatim.
pub open spec fn copies(t: Thunk, bytes: Seq<u8>) -> bool {
    t matches Thunk::Code(code) && code@ == bytes
}

/// The index of the primary opcode: the first byte that is not the `0F`
/// escape.
pub open spec fn is_primary_opcode_index(bytes: Seq<u8>, k: int) -> bool {
    0 <= k < bytes.len() && bytes[k] != 0x0F && forall|j: int| 0 <= j < k ==> bytes[j] == 0x0F
}

/// A trampoline: the relocated prolog of a target as position-independent
/// code.
#[derive(Debug)]
pub struct Trampoline {
    emitter: CodeEmitter,
    prolog_size: usize,
}

impl Trampoline {
    pub closed spec fn spec_emitter(&self) -> CodeEmitter {
        self.emitter
    }

    pub closed spec fn spec_prolog_size(&self) -> int {
        self.prolog_size as int
    }

    /// Returns a reference to the trampoline's code emitter.
    pub fn emitter(&self) -> (r: &CodeEmitter)
        ensures
            *r == self.spec_emitter(),
    {
        &self.emitter
    }

    /// Returns the size of the prolog (i.e. the number of disassembled bytes).
    pub fn prolog_size(&self) -> (r: usize)
        ensures
            r == self.spec_prolog_size(),
    {
        self.prolog_size
    }
}

/// A trampoline builder: a state machine that is handed the target's
/// instructions one at a time.
pub struct Builder {
    /// The target the trampoline is adapted for.
    pub target: usize,
    /// The preferred minimum amount of bytes disassembled.
    pub margin: usize,
    /// Target destination of a branch that stays inside the prolog.
    pub branch_address: Option<usize>,
    /// Total amount of bytes disassembled.
    pub total_bytes_disassembled: usize,
    /// Whether disassembling has finished or not.
    pub finished: bool,
    /// The code relocated so far.
    pub emitter: CodeEmitter,
}

impl Builder {
    /// The state that the builder keeps between instructions.
    pub open spec fn wf(&self) -> bool {
        &&& self.emitter.wf()
        &&& 1 <= self.margin
        &&& margin_fits(self.margin as int)
        &&& self.total_bytes_disassembled <= self.margin + 14
        &&& self.emitter.spec_len() <= 16 * self.total_bytes_disassembled + if self.finished {
            14int
        } else {
            0
        }
        &&& self.target + self.total_bytes_disassembled <= usize::MAX
        &&& !self.finished ==> self.total_bytes_disassembled < self.margin
    }

    /// The address of the next instruction to hand over.
    pub open spec fn spec_next_address(&self) -> int {
        self.target + self.total_bytes_disassembled
    }

    /// True if `ins` lies before the destination of an internal branch.
    pub open spec fn in_branch(branch: Option<usize>, ins: Instruction) -> bool {
        branch matches Some(b) && ins.spec_address() < b
    }

    /// The absolute destination of a relative branch.
    /// The absolute destination of a relative branch, wrapping around the
    /// address space as the processor does.
    pub open spec fn destination(ins: Instruction, displacement: i32) -> int {
        (ins.spec_next_address() + displacement) % (usize::MAX as int + 1)
    }

    /// True if `dest` lies in the first `margin` bytes of the target.
    pub open spec fn in_prolog(&self, dest: int) -> bool {
        self.target <= dest < self.target + self.margin
    }

    /// Returns a trampoline builder.
    pub fn new(target: usize, margin: usize) -> (r: Builder)
        requires
            1 <= margin,
            margin_fits(margin as int),
        ensures
            r.wf(),
            r.target == target,
            r.margin == margin,
            r.branch_address is None,
            r.total_bytes_disassembled == 0,
            !r.finished,
            r.emitter@.len() == 0,
    {
        Builder {
            target,
            margin,
            branch_address: None,
            total_bytes_disassembled: 0,
            finished: false,
            emitter: CodeEmitter::new(),
        }
    }

    /// Returns the address at which the next instruction must be decoded.
    pub fn next_address(&self) -> (r: usize)
        requires
            self.wf(),
        ensures
            r == self.spec_next_address(),
    {
        self.target + self.total_bytes_disassembled
    }

    /// Returns whether disassembling has finished.
    pub fn is_finished(&self) -> (r: bool)
        ensures
            r == self.finished,
    {
        self.finished
    }

    /// Returns whether an instruction is inside an internal branch.
    fn is_instruction_in_branch(&self, instruction: &Instruction) -> (r: bool)
        ensures
            r == Self::in_branch(self.branch_address, *instruction),
    {
        match self.branch_address {
            Some(offset) => instruction.address() < offset,
            None => false,
        }
    }

    /// Handles an instruction with a RIP-relative operand: its displacement
    /// is rewritten unless the referent lies inside the copied prolog.
    fn handle_rip_relative_instruction(&mut self, instruction: &Instruction, displacement: i32) -> (r: Thunk)
        requires
            instruction.wf(),
        ensures
            final(self).finished == (instruction.spec_mnemonic() == Mnemonic::Jump),
            final(self).target == old(self).target,
            final(self).margin == old(self).margin,
            final(self).branch_address == old(self).branch_address,
            final(self).total_bytes_disassembled == old(self).total_bytes_disassembled,
            final(self).emitter == old(self).emitter,
            if -(old(self).total_bytes_disassembled + instruction.spec_len()) <= displacement < 0 {
                copies(r, instruction.spec_bytes())
            } else {
                r matches Thunk::Relocated(t) && t.address == instruction.spec_address()
                    && t.bytes@ == instruction.spec_bytes() && t.offset == instruction.spec_rip_offset()
                    && t.displacement == displacement
            },
    {
        self.finished = instruction.is_unconditional_jump();
        let consumed = self.total_bytes_disassembled as i128 + instruction.len() as i128;
        if (displacement as i128) < 0 && (displacement as i128) >= -consumed {
            return Thunk::Code(instruction.to_vec());
        }
        Thunk::Relocated(
            UnsafeThunk {
                address: instruction.address(),
                bytes: instruction.to_vec(),
                offset: instruction.rip_operand_offset(),
                displacement,
            },
        )
    }

    /// Handles a relative branch (e.g. `call`, `loop`, `jne`).
    fn handle_relative_branch(&mut self, instruction: &Instruction, displacement: i32) -> (r: Result<Thunk, Error>)
        requires
            instruction.wf(),
        ensures
            final(self).target == old(self).target,
            final(self).margin == old(self).margin,
            final(self).total_bytes_disassembled == old(self).total_bytes_disassembled,
            final(self).emitter == old(self).emitter,
            r matches Ok(t) ==> t.spec_len() <= 16,
            ({
                let dest = Self::destination(*instruction, displacement);
                let m = instruction.spec_mnemonic();
                if m == Mnemonic::Call {
                    r == Ok::<Thunk, Error>(Thunk::AbsoluteCall(CallAbs { destination: dest as usize }))
                        && *final(self) == *old(self)
                } else if old(self).in_prolog(dest) {
                    r matches Ok(t) && copies(t, instruction.spec_bytes())
                        && final(self).branch_address == Some(dest as usize)
                        && final(self).finished == old(self).finished
                } else if m == Mnemonic::Loop {
                    r == Err::<Thunk, Error>(Error::UnsupportedInstruction) && *final(self) == *old(self)
                } else if m == Mnemonic::Jump {
                    r == Ok::<Thunk, Error>(Thunk::AbsoluteJump(JumpAbs { destination: dest as usize }))
                        && final(self).branch_address == old(self).branch_address
                        && final(self).finished == !Self::in_branch(old(self).branch_address, *instruction)
                } else {
                    let bytes = instruction.spec_bytes();
                    &&& final(self).branch_address == old(self).branch_address
                    &&& final(self).finished == old(self).finished
                    &&& (forall|k: int| 0 <= k < bytes.len() ==> bytes[k] == 0x0F) ==> r == Err::<Thunk, Error>(Error::InvalidCode)
                    &&& forall|k: int| is_primary_opcode_index(bytes, k) ==> r == Ok::<Thunk, Error>(
                        Thunk::AbsoluteConditional(JccAbs { destination: dest as usize, condition: bytes[k] & 0x0F }),
                    )
                }
            }),
    {
        let next = instruction.next_instruction_address();
        let dest_wide: i128 = next as i128 + displacement as i128;
        let space: i128 = usize::MAX as i128 + 1;
        // The destination wraps around the address space
        let dest_wrapped: i128 = if dest_wide < 0 {
            dest_wide + space
        } else if dest_wide >= space {
            dest_wide - space
        } else {
            dest_wide
        };
        assert(dest_wrapped as int == Self::destination(*instruction, displacement)) by {
            let x = instruction.spec_next_address() + displacement;
            let m = usize::MAX as int + 1;
            if x < 0 {
                vstd::arithmetic::div_mod::lemma_mod_add_multiples_vanish(x, m);
                vstd::arithmetic::div_mod::lemma_small_mod((x + m) as nat, m as nat);
            } else if x >= m {
                vstd::arithmetic::div_mod::lemma_mod_sub_multiples_vanish(x, m);
                vstd::arithmetic::div_mod::lemma_small_mod((x - m) as nat, m as nat);
            } else {
                vstd::arithmetic::div_mod::lemma_small_mod(x as nat, m as nat);
            }
        }
        let destination = dest_wrapped as usize;
        if instruction.is_call() {
            // Calls are not an issue since they return to the original address
            return Ok(thunk::call_abs(destination));
        }
        let target = self.target;
        if destination >= target && destination - target < self.margin {
            // A branch inside the copied prolog can be copied as it is
            self.branch_address = Some(destination);
            Ok(Thunk::Code(instruction.to_vec()))
        } else if instruction.is_loop() {
            // Loops (e.g. 'loopnz', 'jecxz') to the outside have no long form
            Err(Error::UnsupportedInstruction)
        } else if instruction.is_unconditional_jump() {
            // Outside of an internal branch, a jump away ends the function
            self.finished = !self.is_instruction_in_branch(instruction);
            Ok(thunk::jmp_abs(destination))
        } else {
            // A conditional jump: its condition is the low nibble of the
            // primary opcode, which a long form prefixes with 0x0F
            let bytes = instruction.as_slice();
            let mut k: usize = 0;
            while k < bytes.len()
                invariant
                    0 <= k <= bytes@.len(),
                    bytes@ == instruction.spec_bytes(),
                    forall|j: int| 0 <= j < k ==> bytes@[j] == 0x0F,
                    destination == Self::destination(*instruction, displacement),
                    !old(self).in_prolog(destination as int),
                    *self == *old(self),
                    0 <= Self::destination(*instruction, displacement) <= usize::MAX,
                    instruction.spec_mnemonic() != Mnemonic::Call,
                    instruction.spec_mnemonic() != Mnemonic::Loop,
                    instruction.spec_mnemonic() != Mnemonic::Jump,
                decreases bytes@.len() - k,
            {
                if bytes[k] != 0x0F {
                    let opcode: u8 = bytes[k];
                    let condition: u8 = opcode & 0x0F;
                    assert(condition < 16) by (bit_vector)
                        requires condition == opcode & 0x0F;
                    proof {
                        assert(is_primary_opcode_index(bytes@, k as int));
                        assert(bytes@[k as int] != 0x0F);
                        assert forall|k2: int| is_primary_opcode_index(bytes@, k2) implies k2 == k by {
                            if k2 < k {
                            } else if k2 > k {
                                assert(bytes@[k as int] == 0x0F);
                            }
                        }
                    }
                    return Ok(thunk::jcc_abs(destination, condition));
                }
                k = k + 1;
            }
            Err(Error::InvalidCode)
        }
    }

    /// Decides what an instruction becomes in the trampoline.
    fn process_instruction(&mut self, instruction: &Instruction) -> (r: Result<Thunk, Error>)
        requires
            instruction.wf(),
        ensures
            final(self).target == old(self).target,
            final(self).margin == old(self).margin,
            final(self).total_bytes_disassembled == old(self).total_bytes_disassembled,
            final(self).emitter == old(self).emitter,
            match r {
                Ok(t) => {
                    &&& old(self).failure(*instruction) is None
                    &&& old(self).relocated_as(*instruction, t)
                    &&& t.spec_len() == old(self).relocated_len(*instruction)
                    &&& final(self).branch_address == old(self).next_branch(*instruction)
                    &&& final(self).finished == old(self).ends(*instruction)
                },
                Err(e) => old(self).failure(*instruction) == Some(e),
            },
    {
        if let Some(displacement) = instruction.rip_operand_displacement() {
            return Ok(self.handle_rip_relative_instruction(instruction, displacement));
        } else if let Some(displacement) = instruction.relative_branch_displacement() {
            let r = self.handle_relative_branch(instruction, displacement);
            proof {
                let bytes = instruction.spec_bytes();
                let dest = Self::destination(*instruction, displacement);
                if instruction.spec_mnemonic() != Mnemonic::Call
                    && !old(self).in_prolog(dest) && instruction.spec_mnemonic() != Mnemonic::Loop
                    && instruction.spec_mnemonic() != Mnemonic::Jump
                    && !(forall|k: int| 0 <= k < bytes.len() ==> bytes[k] == 0x0F) {
                    let k = choose|k: int| 0 <= k < bytes.len() && bytes[k] != 0x0F;
                    lemma_first_non_escape(bytes, k);
                    let p = choose|p: int| is_primary_opcode_index(bytes, p);
                    assert(is_primary_opcode_index(bytes, p));
                }
            }
            return r;
        } else if instruction.is_return() {
            // Outside of an internal branch, a return ends the function
            self.finished = !self.is_instruction_in_branch(instruction);
        }
        // No position-dependent operand: the bytes are copied as they are
        Ok(Thunk::Code(instruction.to_vec()))
    }

    /// The error that an instruction raises when it is relocated, if any.
    pub open spec fn failure(&self, ins: Instruction) -> Option<Error> {
        match ins.spec_rip_displacement() {
            Some(_) => None,
            None => match ins.spec_branch_displacement() {
                None => None,
                Some(d) => {
                    let dest = Self::destination(ins, d);
                    let m = ins.spec_mnemonic();
                    let bytes = ins.spec_bytes();
                    if m == Mnemonic::Call || self.in_prolog(dest) {
                        None
                    } else if m == Mnemonic::Loop {
                        Some(Error::UnsupportedInstruction)
                    } else if m == Mnemonic::Jump {
                        None
                    } else if forall|k: int| 0 <= k < bytes.len() ==> bytes[k] == 0x0F {
                        Some(Error::InvalidCode)
                    } else {
                        None
                    }
                },
            },
        }
    }

    /// True if `t` is what an instruction that raises no error becomes.
    pub open spec fn relocated_as(&self, ins: Instruction, t: Thunk) -> bool {
        let bytes = ins.spec_bytes();
        match ins.spec_rip_displacement() {
            Some(d) => if -(self.total_bytes_disassembled + ins.spec_len()) <= d < 0 {
                copies(t, bytes)
            } else {
                t matches Thunk::Relocated(u) && u.address == ins.spec_address() && u.bytes@ == bytes
                    && u.offset == ins.spec_rip_offset() && u.displacement == d
            },
            None => match ins.spec_branch_displacement() {
                None => copies(t, bytes),
                Some(d) => {
                    let dest = Self::destination(ins, d);
                    let m = ins.spec_mnemonic();
                    if m == Mnemonic::Call {
                        t == Thunk::AbsoluteCall(CallAbs { destination: dest as usize })
                    } else if self.in_prolog(dest) {
                        copies(t, bytes)
                    } else if m == Mnemonic::Jump {
                        t == Thunk::AbsoluteJump(JumpAbs { destination: dest as usize })
                    } else {
                        forall|k: int| #[trigger] is_primary_opcode_index(bytes, k) ==> t == Thunk::AbsoluteConditional(
                            JccAbs { destination: dest as usize, condition: bytes[k] & 0x0F },
                        )
                    }
                },
            },
        }
    }

    /// The length of what an instruction that raises no error becomes.
    pub open spec fn relocated_len(&self, ins: Instruction) -> nat {
        match ins.spec_rip_displacement() {
            Some(_) => ins.spec_len() as nat,
            None => match ins.spec_branch_displacement() {
                None => ins.spec_len() as nat,
                Some(d) => {
                    let m = ins.spec_mnemonic();
                    if m == Mnemonic::Call {
                        16
                    } else if self.in_prolog(Self::destination(ins, d)) {
                        ins.spec_len() as nat
                    } else if m == Mnemonic::Jump {
                        14
                    } else {
                        16
                    }
                },
            },
        }
    }

    /// The internal branch destination known after an instruction.
    pub open spec fn next_branch(&self, ins: Instruction) -> Option<usize> {
        match (ins.spec_rip_displacement(), ins.spec_branch_displacement()) {
            (None, Some(d)) => {
                let dest = Self::destination(ins, d);
                if ins.spec_mnemonic() != Mnemonic::Call && self.in_prolog(dest) {
                    Some(dest as usize)
                } else {
                    self.branch_address
                }
            },
            _ => self.branch_address,
        }
    }

    /// True if the function ends with an instruction: a return or a jump
    /// away that no internal branch skips, or a jump through a RIP-relative
    /// operand.
    pub open spec fn ends(&self, ins: Instruction) -> bool {
        let m = ins.spec_mnemonic();
        match (ins.spec_rip_displacement(), ins.spec_branch_displacement()) {
            (Some(_), _) => m == Mnemonic::Jump,
            (None, Some(d)) => if m == Mnemonic::Jump && !self.in_prolog(Self::destination(ins, d)) {
                !Self::in_branch(self.branch_address, ins)
            } else {
                self.finished
            },
            (None, None) => if m == Mnemonic::Return {
                !Self::in_branch(self.branch_address, ins)
            } else {
                self.finished
            },
        }
    }

    /// Hands the builder the instruction decoded at `next_address`, or
    /// `None` if nothing could be decoded there.
    ///
    /// The instruction is relocated and appended. Once `margin` bytes have
    /// been consumed and the function did not end, a jump to the first
    /// instruction after the prolog is appended and the builder finishes.
    pub fn step(&mut self, instruction: Option<Instruction>) -> (r: Result<(), Error>)
        requires
            old(self).wf(),
            !old(self).finished,
            instruction matches Some(i) ==> i.wf() && i.spec_address() == old(self).spec_next_address(),
        ensures
            instruction is None ==> r == Err::<(), Error>(Error::InvalidCode),
            instruction matches Some(ins) ==> ({
                let pre = *old(self);
                let n = pre.emitter@.len();
                let consumed = pre.total_bytes_disassembled + ins.spec_len();
                let next = ins.spec_next_address();
                let ends = pre.ends(ins);
                match pre.failure(ins) {
                    Some(e) => r == Err::<(), Error>(e),
                    None => if Self::in_branch(pre.next_branch(ins), ins) && pre.relocated_len(ins)
                        != ins.spec_len() {
                        r == Err::<(), Error>(Error::UnsupportedInstruction)
                    } else {
                        &&& r is Ok
                        &&& final(self).wf()
                        &&& final(self).target == pre.target
                        &&& final(self).margin == pre.margin
                        &&& final(self).total_bytes_disassembled == consumed
                        &&& final(self).branch_address == pre.next_branch(ins)
                        &&& final(self).finished == (ends || consumed >= pre.margin)
                        &&& final(self).emitter@.take(n as int) == pre.emitter@
                        &&& pre.relocated_as(ins, final(self).emitter@[n as int])
                        &&& if !ends && consumed >= pre.margin {
                            &&& final(self).emitter@.len() == n + 2
                            &&& final(self).emitter@[n + 1int] == Thunk::AbsoluteJump(
                                JumpAbs { destination: next as usize },
                            )
                        } else {
                            final(self).emitter@.len() == n + 1
                        }
                    },
                }
            }),
    {
        let instruction = match instruction {
            Some(instruction) => instruction,
            None => return Err(Error::InvalidCode),
        };
        let ghost pre = *self;
        let thunk = self.process_instruction(&instruction)?;
        self.total_bytes_disassembled = self.total_bytes_disassembled + instruction.len();

        // A branch into the copied code would land on the wrong instruction
        // if the code before its destination changed length.
        if self.is_instruction_in_branch(&instruction) && instruction.len() != thunk.len() {
            return Err(Error::UnsupportedInstruction);
        }
        self.emitter.add_thunk(thunk);

        // Enough bytes for the margin: jump to the first instruction after
        // the prolog.
        if self.total_bytes_disassembled >= self.margin && !self.finished {
            self.emitter.add_thunk(thunk::jmp_abs(instruction.next_instruction_address()));
            self.finished = true;
        }
        proof {
            let n = pre.emitter@.len();
            assert(self.emitter@.take(n as int) =~= pre.emitter@);
        }
        Ok(())
    }

    /// Returns the trampoline once the builder has finished.
    pub fn build(self) -> (r: Trampoline)
        requires
            self.finished,
        ensures
            r.spec_emitter() == self.emitter,
            r.spec_prolog_size() == self.total_bytes_disassembled,
    {
        Trampoline { emitter: self.emitter, prolog_size: self.total_bytes_disassembled }
    }
}

/// An instruction without position-dependent operands is copied as it is:
/// wherever the trampoline is placed, its code there is the instruction's
/// bytes.
pub proof fn lemma_plain_instruction_kept(b: Builder, ins: Instruction, t: Thunk, base: int)
    requires
        ins.spec_rip_displacement() is None,
        ins.spec_branch_displacement() is None,
        b.relocated_as(ins, t),
    ensures
        t.spec_generate(base) == ins.spec_bytes(),
        t.spec_len() == ins.spec_len(),
{
}

/// A RIP-relative operand that points outside the copied prolog still
/// addresses the same byte after relocation: placed at `base`, the copy's
/// displacement reaches the referent of the original from the copy's end,
/// and every other byte of the instruction is kept.
pub proof fn lemma_rip_referent_kept(b: Builder, ins: Instruction, t: Thunk, base: int)
    requires
        ins.wf(),
        b.relocated_as(ins, t),
        ins.spec_rip_displacement() matches Some(d) && !(-(b.total_bytes_disassembled
            + ins.spec_len()) <= d < 0),
        t.emittable_at(base),
    ensures
        ({
            let d = ins.spec_rip_displacement().unwrap();
            let referent = ins.spec_next_address() + d;
            let len = ins.spec_len();
            let offset = ins.spec_rip_offset();
            t.spec_generate(base) == ins.spec_bytes().subrange(0, offset) + thunk::rel32_bytes(
                referent - (base + len),
            ) + ins.spec_bytes().subrange(offset + 4, len)
        }),
{
}

/// A branch that leaves the copied prolog keeps its destination: a call or an
/// unconditional jump becomes an absolute one to the same address.
pub proof fn lemma_branch_destination_kept(b: Builder, ins: Instruction, t: Thunk)
    requires
        ins.spec_rip_displacement() is None,
        ins.spec_branch_displacement() matches Some(d) && !b.in_prolog(Builder::destination(ins, d)),
        ins.spec_mnemonic() == Mnemonic::Call || ins.spec_mnemonic() == Mnemonic::Jump,
        b.relocated_as(ins, t),
    ensures
        ({
            let dest = Builder::destination(ins, ins.spec_branch_displacement().unwrap());
            if ins.spec_mnemonic() == Mnemonic::Call {
                t.spec_generate(0) == (CallAbs { destination: dest as usize }).spec_generate()
            } else {
                t.spec_generate(0) == (JumpAbs { destination: dest as usize }).spec_generate()
            }
        }),
{
}

/// The first byte that is not the `0F` escape is the primary opcode.
proof fn lemma_first_non_escape(bytes: Seq<u8>, k: int)
    requires
        0 <= k < bytes.len(),
        bytes[k] != 0x0F,
    ensures
        exists|p: int| is_primary_opcode_index(bytes, p),
    decreases k,
{
    if forall|j: int| 0 <= j < k ==> bytes[j] == 0x0F {
        assert(is_primary_opcode_index(bytes, k));
    } else {
        let j = choose|j: int| 0 <= j < k && bytes[j] != 0x0F;
        lemma_first_non_escape(bytes, j);
    }
}

} // verus!
