//! Encoders for the x86 and x86-64 branch instructions used by trampolines,
//! relays and patches.
//!
//! Each encoder yields a thunk: a piece of code whose length is known up
//! front and whose bytes depend on the address at which it is placed.

use vstd::prelude::*;

verus! {

/// The furthest distance between a branch and its destination (2 GiB).
pub const DETOUR_RANGE: usize = 0x8000_0000;

/// The size of a relative long jump (`jmp rel32`), and thus the minimum prolog.
pub const JUMP_REL32_SIZE: usize = 5;

/// The size of a relative short jump (`jmp rel8`).
pub const JUMP_REL8_SIZE: usize = 2;

/// The size of a conditional relative long jump (`jcc rel32`).
pub const JCC_REL32_SIZE: usize = 6;

/// The size of an absolute jump through an inline pointer.
pub const JUMP_ABS_SIZE: usize = 14;

/// The size of an absolute call through an inline pointer.
pub const CALL_ABS_SIZE: usize = 16;

/// The size of an absolute conditional jump.
pub const JCC_ABS_SIZE: usize = 16;

/// The bytes `0x00`, `0x90` (`nop`) and `0xCC` (`int3`), used as code padding.
pub open spec fn is_padding_byte(b: u8) -> bool {
    b == 0x00 || b == 0x90 || b == 0xCC
}

/// The `n` low bytes of `v`, least significant first.
pub open spec fn le_bytes(v: nat, n: nat) -> Seq<u8>
    decreases n,
{
    if n == 0 {
        seq![]
    } else {
        seq![(v % 256) as u8] + le_bytes(v / 256, (n - 1) as nat)
    }
}

/// True if a displacement can be held by a signed 32-bit operand.
pub open spec fn within_range(displacement: int) -> bool {
    -0x8000_0000 <= displacement < 0x8000_0000
}

/// The four bytes of a signed 32-bit displacement, in two's complement.
pub open spec fn rel32_bytes(displacement: int) -> Seq<u8> {
    le_bytes(
        if displacement < 0 {
            (displacement + 0x1_0000_0000) as nat
        } else {
            displacement as nat
        },
        4,
    )
}

/// The eight bytes of an absolute address.
pub open spec fn abs64_bytes(address: int) -> Seq<u8> {
    le_bytes(address as nat, 8)
}

/// The displacement that a branch of `size` bytes at `source` needs to reach
/// `destination`: it is taken from the end of the instruction.
pub open spec fn branch_displacement(source: int, destination: int, size: int) -> int {
    destination - (source + size)
}

/// The encoding of `n` bytes has `n` bytes.
pub proof fn lemma_le_bytes_len(v: nat, n: nat)
    ensures
        le_bytes(v, n).len() == n,
    decreases n,
{
    if n > 0 {
        lemma_le_bytes_len(v / 256, (n - 1) as nat);
    }
}

/// Returns true if the displacement fits a signed 32-bit operand.
pub fn is_within_range(displacement: i64) -> (r: bool)
    ensures
        r == within_range(displacement as int),
{
    let range = DETOUR_RANGE as i64;
    -range <= displacement && displacement < range
}

/// Encodes the four low bytes of `v`, least significant first.
fn encode_u32(v: u64) -> (r: Vec<u8>)
    requires
        v < 0x1_0000_0000,
    ensures
        r@ == le_bytes(v as nat, 4),
{
    reveal_with_fuel(le_bytes, 5);
    let mut out: Vec<u8> = Vec::new();
    let mut cur: u64 = v;
    out.push((cur % 256) as u8);
    cur = cur / 256;
    out.push((cur % 256) as u8);
    cur = cur / 256;
    out.push((cur % 256) as u8);
    cur = cur / 256;
    out.push((cur % 256) as u8);
    assert(out@ =~= le_bytes(v as nat, 4));
    out
}

/// Encodes all eight bytes of `v`, least significant first.
fn encode_u64(v: u64) -> (r: Vec<u8>)
    ensures
        r@ == le_bytes(v as nat, 8),
{
    reveal_with_fuel(le_bytes, 9);
    let mut out: Vec<u8> = Vec::new();
    let mut cur: u64 = v;
    let mut i: usize = 0;
    while i < 8
        invariant
            0 <= i <= 8,
            out@ + le_bytes(cur as nat, (8 - i) as nat) == le_bytes(v as nat, 8),
        decreases 8 - i,
    {
        let ghost before = out@;
        assert(le_bytes(cur as nat, (8 - i) as nat) == seq![(cur % 256) as u8] + le_bytes(
            (cur / 256) as nat,
            (8 - i - 1) as nat,
        ));
        out.push((cur % 256) as u8);
        assert(out@ + le_bytes((cur / 256) as nat, (8 - i - 1) as nat) =~= before + le_bytes(
            cur as nat,
            (8 - i) as nat,
        ));
        cur = cur / 256;
        i = i + 1;
    }
    assert(le_bytes(cur as nat, 0) =~= seq![]);
    assert(out@ =~= le_bytes(v as nat, 8));
    out
}

/// Encodes a signed displacement that fits 32 bits, in two's complement.
fn encode_rel32(displacement: i128) -> (r: Vec<u8>)
    requires
        within_range(displacement as int),
    ensures
        r@ == rel32_bytes(displacement as int),
{
    let value: u64 = if displacement < 0 {
        (displacement + 0x1_0000_0000) as u64
    } else {
        displacement as u64
    };
    encode_u32(value)
}

/// Calculates the relative displacement for an instruction of
/// `instruction_size` bytes at `source` that branches to `destination`.
fn calculate_displacement(source: usize, destination: usize, instruction_size: usize) -> (r: i128)
    ensures
        r as int == branch_displacement(source as int, destination as int, instruction_size as int),
{
    destination as i128 - (source as i128 + instruction_size as i128)
}

/// A relative long jump (`E9 rel32`) or call (`E8 rel32`).
#[derive(Debug)]
pub struct JumpRel {
    pub destination: usize,
    pub is_jump: bool,
}

impl JumpRel {
    pub open spec fn opcode(&self) -> u8 {
        if self.is_jump {
            0xE9
        } else {
            0xE8
        }
    }

    pub open spec fn emittable_at(&self, base: int) -> bool {
        within_range(branch_displacement(base, self.destination as int, 5))
    }

    pub open spec fn spec_generate(&self, base: int) -> Seq<u8> {
        seq![self.opcode()] + rel32_bytes(branch_displacement(base, self.destination as int, 5))
    }

    /// Generates the instruction for use at `base`.
    pub fn generate(&self, base: usize) -> (r: Vec<u8>)
        requires
            self.emittable_at(base as int),
        ensures
            r@ == self.spec_generate(base as int),
    {
        let mut code: Vec<u8> = Vec::new();
        code.push(if self.is_jump { 0xE9u8 } else { 0xE8u8 });
        let mut operand = encode_rel32(
            calculate_displacement(base, self.destination, JUMP_REL32_SIZE),
        );
        code.append(&mut operand);
        code
    }
}

/// A conditional relative long jump (`0F 8<cc> rel32`).
#[derive(Debug)]
pub struct JccRel {
    pub destination: usize,
    pub condition: u8,
}

impl JccRel {
    pub open spec fn emittable_at(&self, base: int) -> bool {
        within_range(branch_displacement(base, self.destination as int, 6))
    }

    pub open spec fn spec_generate(&self, base: int) -> Seq<u8> {
        seq![0x0Fu8, 0x80u8 | self.condition] + rel32_bytes(
            branch_displacement(base, self.destination as int, 6),
        )
    }

    /// Generates the instruction for use at `base`.
    pub fn generate(&self, base: usize) -> (r: Vec<u8>)
        requires
            self.emittable_at(base as int),
        ensures
            r@ == self.spec_generate(base as int),
    {
        let mut code: Vec<u8> = Vec::new();
        code.push(0x0F);
        code.push(0x80u8 | self.condition);
        let mut operand = encode_rel32(
            calculate_displacement(base, self.destination, JCC_REL32_SIZE),
        );
        code.append(&mut operand);
        code
    }
}

/// A relative short jump (`EB rel8`), whose displacement is taken from the
/// start of the instruction.
#[derive(Debug)]
pub struct JumpShort {
    pub displacement: i8,
}

impl JumpShort {
    pub open spec fn operand(&self) -> u8 {
        let d = self.displacement - 2;
        if d < 0 {
            (d + 256) as u8
        } else {
            d as u8
        }
    }

    pub open spec fn spec_generate(&self) -> Seq<u8> {
        seq![0xEBu8, self.operand()]
    }

    /// Generates the instruction; it does not depend on its address.
    pub fn generate(&self) -> (r: Vec<u8>)
        requires
            self.displacement >= -126,
        ensures
            r@ == self.spec_generate(),
    {
        let d: i16 = self.displacement as i16 - 2;
        let operand: u8 = if d < 0 {
            (d + 256) as u8
        } else {
            d as u8
        };
        let mut code: Vec<u8> = Vec::new();
        code.push(0xEB);
        code.push(operand);
        code
    }
}

/// An absolute jump through an inline pointer (`jmp [rip+0]; dq destination`).
#[derive(Debug)]
pub struct JumpAbs {
    pub destination: usize,
}

impl JumpAbs {
    pub open spec fn spec_generate(&self) -> Seq<u8> {
        seq![0xFFu8, 0x25u8, 0x00u8, 0x00u8, 0x00u8, 0x00u8] + abs64_bytes(
            self.destination as int,
        )
    }

    /// Generates the instruction; it does not depend on its address.
    pub fn generate(&self) -> (r: Vec<u8>)
        ensures
            r@ == self.spec_generate(),
    {
        let mut code: Vec<u8> = vec![0xFF, 0x25, 0x00, 0x00, 0x00, 0x00];
        let mut address = encode_u64(self.destination as u64);
        code.append(&mut address);
        code
    }
}

/// An absolute call through an inline pointer, followed by a short jump over
/// the pointer (`call [rip+2]; jmp +8; dq destination`).
#[derive(Debug)]
pub struct CallAbs {
    pub destination: usize,
}

impl CallAbs {
    pub open spec fn spec_generate(&self) -> Seq<u8> {
        seq![0xFFu8, 0x15u8, 0x02u8, 0x00u8, 0x00u8, 0x00u8, 0xEBu8, 0x08u8] + abs64_bytes(
            self.destination as int,
        )
    }

    /// Generates the instruction; it does not depend on its address.
    pub fn generate(&self) -> (r: Vec<u8>)
        ensures
            r@ == self.spec_generate(),
    {
        let mut code: Vec<u8> = vec![0xFF, 0x15, 0x02, 0x00, 0x00, 0x00, 0xEB, 0x08];
        let mut address = encode_u64(self.destination as u64);
        code.append(&mut address);
        code
    }
}

/// An absolute conditional jump: a short jump on the inverted condition over
/// an absolute jump (`j!cc +14; jmp [rip+0]; dq destination`).
#[derive(Debug)]
pub struct JccAbs {
    pub destination: usize,
    pub condition: u8,
}

impl JccAbs {
    pub open spec fn spec_generate(&self) -> Seq<u8> {
        seq![0x71u8 ^ self.condition, 0x0Eu8, 0xFFu8, 0x25u8, 0x00u8, 0x00u8, 0x00u8, 0x00u8]
            + abs64_bytes(self.destination as int)
    }

    /// Generates the instruction; it does not depend on its address.
    pub fn generate(&self) -> (r: Vec<u8>)
        ensures
            r@ == self.spec_generate(),
    {
        let mut code: Vec<u8> = vec![0x71u8 ^ self.condition, 0x0E, 0xFF, 0x25, 0x00, 0x00, 0x00, 0x00];
        let mut address = encode_u64(self.destination as u64);
        code.append(&mut address);
        code
    }
}

/// An instruction whose RIP-relative displacement, held in its last four
/// bytes, is rewritten for the address at which the copy is placed.
///
/// `address` is where the instruction originally resides and `displacement`
/// its original operand, so the referent is kept whatever the new address.
#[derive(Debug)]
pub struct UnsafeThunk {
    pub address: usize,
    pub bytes: Vec<u8>,
    pub offset: usize,
    pub displacement: i32,
}

impl UnsafeThunk {
    /// The displacement that addresses the original referent from `base`.
    pub open spec fn adjusted(&self, base: int) -> int {
        self.address - base + self.displacement
    }

    pub open spec fn emittable_at(&self, base: int) -> bool {
        self.offset + 4 <= self.bytes.len() && within_range(self.adjusted(base))
    }

    /// The instruction with its four displacement bytes, at `offset`,
    /// replaced by the adjusted displacement.
    pub open spec fn spec_generate(&self, base: int) -> Seq<u8> {
        self.bytes@.subrange(0, self.offset as int) + rel32_bytes(self.adjusted(base))
            + self.bytes@.subrange(self.offset + 4, self.bytes.len() as int)
    }

    /// Generates the relocated instruction for use at `base`.
    pub fn generate(&self, base: usize) -> (r: Vec<u8>)
        requires
            self.emittable_at(base as int),
        ensures
            r@ == self.spec_generate(base as int),
    {
        let mut code: Vec<u8> = Vec::new();
        let mut i: usize = 0;
        while i < self.offset
            invariant
                self.offset + 4 <= self.bytes.len(),
                0 <= i <= self.offset,
                code@ == self.bytes@.subrange(0, i as int),
            decreases self.offset - i,
        {
            code.push(self.bytes[i]);
            i = i + 1;
            assert(code@ =~= self.bytes@.subrange(0, i as int));
        }
        let adjusted: i128 = self.address as i128 - base as i128 + self.displacement as i128;
        let mut operand = encode_rel32(adjusted);
        code.append(&mut operand);
        let ghost head = code@;
        let mut j: usize = self.offset + 4;
        while j < self.bytes.len()
            invariant
                self.offset + 4 <= j <= self.bytes.len(),
                code@ == head + self.bytes@.subrange(self.offset + 4, j as int),
            decreases self.bytes.len() - j,
        {
            code.push(self.bytes[j]);
            j = j + 1;
            assert(code@ =~= head + self.bytes@.subrange(self.offset + 4, j as int));
        }
        code
    }
}

/// A piece of position-independent code: its length is fixed, its bytes are
/// a function of the address at which it is placed.
#[derive(Debug)]
pub enum Thunk {
    /// Bytes that are correct at any address.
    Code(Vec<u8>),
    /// A relative long jump or call.
    Relative(JumpRel),
    /// A conditional relative long jump.
    Conditional(JccRel),
    /// A relative short jump.
    Short(JumpShort),
    /// An absolute jump.
    AbsoluteJump(JumpAbs),
    /// An absolute call.
    AbsoluteCall(CallAbs),
    /// An absolute conditional jump.
    AbsoluteConditional(JccAbs),
    /// An instruction with a rewritten RIP-relative operand.
    Relocated(UnsafeThunk),
}

impl Thunk {
    /// The number of bytes that the thunk generates.
    pub open spec fn spec_len(&self) -> nat {
        match self {
            Thunk::Code(bytes) => bytes.len() as nat,
            Thunk::Relative(_) => 5,
            Thunk::Conditional(_) => 6,
            Thunk::Short(_) => 2,
            Thunk::AbsoluteJump(_) => 14,
            Thunk::AbsoluteCall(_) => 16,
            Thunk::AbsoluteConditional(_) => 16,
            Thunk::Relocated(t) => t.bytes.len() as nat,
        }
    }

    /// True if the thunk's operands can be encoded at `base`.
    pub open spec fn emittable_at(&self, base: int) -> bool {
        match self {
            Thunk::Relative(t) => t.emittable_at(base),
            Thunk::Conditional(t) => t.emittable_at(base),
            Thunk::Short(t) => t.displacement >= -126,
            Thunk::Relocated(t) => t.emittable_at(base),
            _ => true,
        }
    }

    /// The bytes that the thunk generates at `base`.
    pub open spec fn spec_generate(&self, base: int) -> Seq<u8> {
        match self {
            Thunk::Code(bytes) => bytes@,
            Thunk::Relative(t) => t.spec_generate(base),
            Thunk::Conditional(t) => t.spec_generate(base),
            Thunk::Short(t) => t.spec_generate(),
            Thunk::AbsoluteJump(t) => t.spec_generate(),
            Thunk::AbsoluteCall(t) => t.spec_generate(),
            Thunk::AbsoluteConditional(t) => t.spec_generate(),
            Thunk::Relocated(t) => t.spec_generate(base),
        }
    }

    /// Generates the code for use at `base`.
    pub fn generate(&self, base: usize) -> (r: Vec<u8>)
        requires
            self.emittable_at(base as int),
        ensures
            r@ == self.spec_generate(base as int),
            r@.len() == self.spec_len(),
    {
        proof {
            self.lemma_generate_len(base as int);
        }
        match self {
            Thunk::Code(bytes) => bytes.clone(),
            Thunk::Relative(t) => t.generate(base),
            Thunk::Conditional(t) => t.generate(base),
            Thunk::Short(t) => t.generate(),
            Thunk::AbsoluteJump(t) => t.generate(),
            Thunk::AbsoluteCall(t) => t.generate(),
            Thunk::AbsoluteConditional(t) => t.generate(),
            Thunk::Relocated(t) => t.generate(base),
        }
    }

    /// Returns the number of bytes that the thunk generates.
    pub fn len(&self) -> (r: usize)
        ensures
            r as nat == self.spec_len(),
    {
        match self {
            Thunk::Code(bytes) => bytes.len(),
            Thunk::Relative(_) => JUMP_REL32_SIZE,
            Thunk::Conditional(_) => JCC_REL32_SIZE,
            Thunk::Short(_) => JUMP_REL8_SIZE,
            Thunk::AbsoluteJump(_) => JUMP_ABS_SIZE,
            Thunk::AbsoluteCall(_) => CALL_ABS_SIZE,
            Thunk::AbsoluteConditional(_) => JCC_ABS_SIZE,
            Thunk::Relocated(t) => t.bytes.len(),
        }
    }

    /// A thunk generates exactly as many bytes as its length, wherever it is
    /// placed.
    pub proof fn lemma_generate_len(&self, base: int)
        requires
            self.emittable_at(base),
        ensures
            self.spec_generate(base).len() == self.spec_len(),
    {
        lemma_le_bytes_len(0, 4);
        match self {
            Thunk::Relative(t) => {
                let d = branch_displacement(base, t.destination as int, 5);
                lemma_le_bytes_len(if d < 0 { (d + 0x1_0000_0000) as nat } else { d as nat }, 4);
            },
            Thunk::Conditional(t) => {
                let d = branch_displacement(base, t.destination as int, 6);
                lemma_le_bytes_len(if d < 0 { (d + 0x1_0000_0000) as nat } else { d as nat }, 4);
            },
            Thunk::AbsoluteJump(t) => {
                lemma_le_bytes_len(t.destination as nat, 8);
            },
            Thunk::AbsoluteCall(t) => {
                lemma_le_bytes_len(t.destination as nat, 8);
            },
            Thunk::AbsoluteConditional(t) => {
                lemma_le_bytes_len(t.destination as nat, 8);
            },
            Thunk::Relocated(t) => {
                let d = t.adjusted(base);
                lemma_le_bytes_len(if d < 0 { (d + 0x1_0000_0000) as nat } else { d as nat }, 4);
            },
            _ => {},
        }
    }
}

/// Returns a no-op instruction.
pub fn nop() -> (r: Thunk)
    ensures
        r.spec_len() == 1,
        forall|base: int| r.emittable_at(base) && #[trigger] r.spec_generate(base) == seq![0x90u8],
{
    let r = Thunk::Code(vec![0x90u8]);
    assert(r.spec_generate(0) =~= seq![0x90u8]);
    r
}

/// Constructs a relative call.
pub fn call_rel32(destination: usize) -> (r: Thunk)
    ensures
        r == Thunk::Relative(JumpRel { destination, is_jump: false }),
{
    Thunk::Relative(JumpRel { destination, is_jump: false })
}

/// Constructs a relative jump.
pub fn jmp_rel32(destination: usize) -> (r: Thunk)
    ensures
        r == Thunk::Relative(JumpRel { destination, is_jump: true }),
{
    Thunk::Relative(JumpRel { destination, is_jump: true })
}

/// Constructs a conditional relative jump; `condition` is the low nibble of
/// the jump's opcode.
pub fn jcc_rel32(destination: usize, condition: u8) -> (r: Thunk)
    requires
        condition < 16,
    ensures
        r == Thunk::Conditional(JccRel { destination, condition }),
{
    Thunk::Conditional(JccRel { destination, condition })
}

/// Constructs a relative short jump; `displacement` is taken from the start
/// of the instruction.
pub fn jmp_rel8(displacement: i8) -> (r: Thunk)
    requires
        displacement >= -126,
    ensures
        r == Thunk::Short(JumpShort { displacement }),
{
    Thunk::Short(JumpShort { displacement })
}

/// Constructs an absolute jump.
pub fn jmp_abs(destination: usize) -> (r: Thunk)
    ensures
        r == Thunk::AbsoluteJump(JumpAbs { destination }),
{
    Thunk::AbsoluteJump(JumpAbs { destination })
}

/// Constructs an absolute call.
pub fn call_abs(destination: usize) -> (r: Thunk)
    ensures
        r == Thunk::AbsoluteCall(CallAbs { destination }),
{
    Thunk::AbsoluteCall(CallAbs { destination })
}

/// Constructs an absolute conditional jump; `condition` is the low nibble of
/// the original jump's opcode.
pub fn jcc_abs(destination: usize, condition: u8) -> (r: Thunk)
    requires
        condition < 16,
    ensures
        r == Thunk::AbsoluteConditional(JccAbs { destination, condition }),
{
    Thunk::AbsoluteConditional(JccAbs { destination, condition })
}

} // verus!
