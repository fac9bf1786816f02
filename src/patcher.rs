//! The inline patcher: it chooses the bytes of the target to overwrite and
//! prepares the redirect that replaces them.

use crate::error::Error;
use crate::pic::{emitted, total_len, CodeEmitter};
use crate::thunk::{
    self, is_padding_byte, within_range, JumpRel, JumpShort, Thunk, JUMP_REL32_SIZE, JUMP_REL8_SIZE,
};
use vstd::prelude::*;

verus! {

/// True if every byte is code padding.
pub open spec fn all_padding(bytes: Seq<u8>) -> bool {
    forall|i: int| 0 <= i < bytes.len() ==> is_padding_byte(#[trigger] bytes[i])
}

/// True if a patch of `patch_size` bytes fits at the target: the prolog
/// holds it, or padding follows the prolog up to its end. `head` holds the
/// target's first bytes.
pub open spec fn patchable(head: Seq<u8>, prolog_size: int, patch_size: int) -> bool {
    prolog_size >= patch_size || all_padding(head.subrange(prolog_size, patch_size))
}

/// The redirect of a patch area of `len` bytes at `address` to `detour`:
/// a long jump, and in a hot patch a short jump back onto it.
pub open spec fn redirect_code(address: int, detour: int, len: int) -> Seq<u8> {
    let jump = JumpRel { destination: detour as usize, is_jump: true };
    if len > 5 {
        jump.spec_generate(address) + (JumpShort { displacement: -5i8 }).spec_generate()
    } else {
        jump.spec_generate(address)
    }
}

/// How a target is patched.
#[derive(PartialEq, Eq, Structural, Clone, Copy, Debug)]
pub enum PatchKind {
    /// A long jump over the target's first five bytes.
    Direct,
    /// A long jump in the five bytes of padding before the target, reached
    /// by a short jump over the target's first two bytes.
    HotPatch,
}

/// The layout that a target with this prolog and these first bytes gets, if
/// any.
pub open spec fn spec_patch_kind(head: Seq<u8>, prolog_size: int) -> Option<PatchKind> {
    if patchable(head, prolog_size, 5) {
        Some(PatchKind::Direct)
    } else if patchable(head, prolog_size, 2) {
        Some(PatchKind::HotPatch)
    } else {
        None
    }
}

/// A patcher of a target's prolog.
///
/// It holds the patch area's address, its original bytes, the redirect that
/// replaces them, and the bytes that the area holds now.
#[derive(Debug)]
pub struct Patcher {
    address: usize,
    original_prolog: Vec<u8>,
    detour_prolog: Vec<u8>,
    area: Vec<u8>,
    patched: bool,
}

impl Patcher {
    pub closed spec fn spec_address(&self) -> int {
        self.address as int
    }

    pub closed spec fn spec_original(&self) -> Seq<u8> {
        self.original_prolog@
    }

    pub closed spec fn spec_redirect(&self) -> Seq<u8> {
        self.detour_prolog@
    }

    pub closed spec fn spec_area(&self) -> Seq<u8> {
        self.area@
    }

    pub closed spec fn spec_patched(&self) -> bool {
        self.patched
    }

    /// The original bytes, the redirect and the area have one length, and
    /// the area holds the redirect exactly when the target is patched.
    pub open spec fn wf(&self) -> bool {
        &&& self.spec_original().len() == self.spec_redirect().len()
        &&& self.spec_area().len() == self.spec_original().len()
        &&& self.spec_area() == if self.spec_patched() {
            self.spec_redirect()
        } else {
            self.spec_original()
        }
    }

    /// Returns the default size of a patch: a relative long jump.
    pub fn default_patch_size() -> (r: usize)
        ensures
            r == 5,
    {
        JUMP_REL32_SIZE
    }

    /// Returns the size of the patch area.
    pub fn patch_size(&self) -> (r: usize)
        ensures
            r == self.spec_area().len(),
    {
        self.area.len()
    }

    /// Returns true if the slice only contains code padding.
    pub fn is_code_padding(buffer: &[u8]) -> (r: bool)
        ensures
            r == all_padding(buffer@),
    {
        let mut i: usize = 0;
        while i < buffer.len()
            invariant
                0 <= i <= buffer@.len(),
                forall|j: int| 0 <= j < i ==> is_padding_byte(#[trigger] buffer@[j]),
            decreases buffer@.len() - i,
        {
            let b = buffer[i];
            if !(b == 0x00 || b == 0x90 || b == 0xCC) {
                assert(!is_padding_byte(buffer@[i as int]));
                return false;
            }
            i = i + 1;
        }
        true
    }

    /// Returns whether a patch of `patch_size` bytes fits at a target whose
    /// first bytes are `head`.
    pub fn is_patchable(head: &[u8], prolog_size: usize, patch_size: usize) -> (r: bool)
        requires
            patch_size <= head@.len(),
        ensures
            r == patchable(head@, prolog_size as int, patch_size as int),
    {
        if prolog_size >= patch_size {
            // If the whole patch fits it's good to go!
            return true;
        }
        // Otherwise the inline patch relies on padding after the prolog
        let mut i: usize = prolog_size;
        while i < patch_size
            invariant
                prolog_size <= i <= patch_size,
                patch_size <= head@.len(),
                forall|j: int| prolog_size <= j < i ==> is_padding_byte(#[trigger] head@[j]),
            decreases patch_size - i,
        {
            let b = head[i];
            if !(b == 0x00 || b == 0x90 || b == 0xCC) {
                assert(head@.subrange(prolog_size as int, patch_size as int)[i - prolog_size] == b);
                return false;
            }
            i = i + 1;
        }
        assert forall|j: int| 0 <= j < patch_size - prolog_size implies is_padding_byte(
            #[trigger] head@.subrange(prolog_size as int, patch_size as int)[j],
        ) by {
            assert(head@.subrange(prolog_size as int, patch_size as int)[j] == head@[prolog_size + j]);
        }
        true
    }

    /// Decides how a target whose first bytes are `head` and whose prolog
    /// has `prolog_size` bytes is patched.
    pub fn patch_kind(head: &[u8], prolog_size: usize) -> (r: Result<PatchKind, Error>)
        requires
            head@.len() >= 5,
        ensures
            match spec_patch_kind(head@, prolog_size as int) {
                Some(k) => r == Ok::<PatchKind, Error>(k),
                None => r == Err::<PatchKind, Error>(Error::NoPatchArea),
            },
    {
        if Self::is_patchable(head, prolog_size, JUMP_REL32_SIZE) {
            Ok(PatchKind::Direct)
        } else if Self::is_patchable(head, prolog_size, JUMP_REL8_SIZE) {
            Ok(PatchKind::HotPatch)
        } else {
            Err(Error::NoPatchArea)
        }
    }

    /// Creates the redirect code for a patch area of `area_len` bytes.
    pub fn hook_template(detour: usize, area_len: usize) -> (r: CodeEmitter)
        requires
            area_len == 5 || area_len == 7,
        ensures
            r.wf(),
            r.spec_len() == area_len,
            r@ == if area_len > 5 {
                seq![
                    Thunk::Relative(JumpRel { destination: detour, is_jump: true }),
                    Thunk::Short(JumpShort { displacement: -5i8 }),
                ]
            } else {
                seq![Thunk::Relative(JumpRel { destination: detour, is_jump: true })]
            },
    {
        let mut emitter = CodeEmitter::new();

        // Both hot patch and normal detours use a relative long jump
        emitter.add_thunk(thunk::jmp_rel32(detour));

        // The hot patch relies on a short jump to get to the long jump
        if area_len > JUMP_REL32_SIZE {
            emitter.add_thunk(thunk::jmp_rel8(-5));
        }
        proof {
            if area_len > 5 {
                assert(emitter@ =~= seq![
                    Thunk::Relative(JumpRel { destination: detour, is_jump: true }),
                    Thunk::Short(JumpShort { displacement: -5i8 }),
                ]);
            } else {
                assert(emitter@ =~= seq![Thunk::Relative(JumpRel { destination: detour, is_jump: true })]);
            }
        }
        emitter
    }

    /// Creates a patcher that redirects `target` to `detour`.
    ///
    /// `head` holds the target's first five bytes and `prolog_size` is the
    /// number of bytes that the trampoline relocated. `preceding` holds the
    /// five bytes before the target, if they could be read, and
    /// `preceding_executable` whether they are executable; they are only
    /// looked at for a hot patch.
    ///
    /// Fails with `NoPatchArea` where neither layout fits, where the long
    /// jump at the patch area cannot reach `detour`, or where the area would
    /// end beyond the address space.
    pub fn new(
        target: usize,
        detour: usize,
        prolog_size: usize,
        head: &[u8],
        preceding: &[u8],
        preceding_executable: bool,
    ) -> (r: Result<Patcher, Error>)
        requires
            head@.len() == 5,
        ensures
            ({
                let kind = spec_patch_kind(head@, prolog_size as int);
                let hot = kind == Some(PatchKind::HotPatch);
                let address: int = if hot { target - 5 } else { target as int };
                let len: int = if hot { 7 } else { 5 };
                if kind is None {
                    r == Err::<Patcher, Error>(Error::NoPatchArea)
                } else if hot && !(preceding@.len() == 5 && all_padding(preceding@) && preceding_executable
                    && target >= 5) {
                    r == Err::<Patcher, Error>(Error::NoPatchArea)
                } else if !within_range(detour - (address + 5)) || address + len > usize::MAX {
                    r == Err::<Patcher, Error>(Error::NoPatchArea)
                } else {
                    r matches Ok(p) && {
                        &&& p.wf()
                        &&& !p.spec_patched()
                        &&& p.spec_address() == address
                        &&& p.spec_original() == if hot {
                            preceding@ + head@.subrange(0, 2)
                        } else {
                            head@
                        }
                        &&& p.spec_redirect() == redirect_code(address, detour as int, len)
                    }
                }
            }),
    {
        // Calculate the patch area (i.e. if a short or long jump should be used)
        let kind = Self::patch_kind(head, prolog_size)?;
        let (address, original) = match kind {
            PatchKind::Direct => {
                // The range is from the start of the function to the end of the jump
                (target, copy_bytes(head))
            },
            PatchKind::HotPatch => {
                // A short jump relies on a hot patch area before the function
                // that consists of padding, enough for a long jump, and is
                // executable
                if preceding.len() != JUMP_REL32_SIZE || !Self::is_code_padding(preceding)
                    || !preceding_executable || target < JUMP_REL32_SIZE {
                    return Err(Error::NoPatchArea);
                }
                let mut original = copy_bytes(preceding);
                original.push(head[0]);
                original.push(head[1]);
                proof {
                    assert(original@ =~= preceding@ + head@.subrange(0, 2));
                }
                (target - JUMP_REL32_SIZE, original)
            },
        };
        let displacement = detour as i128 - (address as i128 + 5);
        if displacement < -0x8000_0000 || displacement >= 0x8000_0000 || address > usize::MAX
            - original.len() {
            return Err(Error::NoPatchArea);
        }
        let emitter = Self::hook_template(detour, original.len());
        proof {
            reveal_with_fuel(emitted, 3);
            reveal_with_fuel(total_len, 3);
            reveal_with_fuel(crate::pic::emittable, 3);
            assert(emitter.emittable_at(address as int));
        }
        let detour_prolog = emitter.emit(address);
        proof {
            reveal_with_fuel(emitted, 3);
            reveal_with_fuel(total_len, 3);
            let len: int = original.len() as int;
            if len > 5 {
                assert(emitter@.drop_last().drop_last() =~= Seq::<Thunk>::empty());
                assert(emitter@.drop_last() =~= seq![Thunk::Relative(JumpRel { destination: detour, is_jump: true })]);
            } else {
                assert(emitter@.drop_last() =~= Seq::<Thunk>::empty());
            }
            assert(detour_prolog@ =~= redirect_code(address as int, detour as int, len));
        }
        let area = original.clone();
        Ok(Patcher { address, original_prolog: original, detour_prolog, area, patched: false })
    }

    /// Returns the address of the patch area.
    pub fn address(&self) -> (r: usize)
        ensures
            r == self.spec_address(),
    {
        self.address
    }

    /// Returns the bytes that the patch area holds now.
    pub fn area(&self) -> (r: &[u8])
        ensures
            r@ == self.spec_area(),
    {
        self.area.as_slice()
    }

    /// Returns whether the target is patched or not.
    pub fn is_patched(&self) -> (r: bool)
        ensures
            r == self.spec_patched(),
    {
        self.patched
    }

    /// Either patches or unpatches the target: the area takes the redirect
    /// or the original bytes.
    pub fn toggle(&mut self, enable: bool)
        requires
            old(self).wf(),
        ensures
            final(self).wf(),
            final(self).spec_patched() == enable,
            final(self).spec_address() == old(self).spec_address(),
            final(self).spec_original() == old(self).spec_original(),
            final(self).spec_redirect() == old(self).spec_redirect(),
            final(self).spec_area() == if enable {
                old(self).spec_redirect()
            } else {
                old(self).spec_original()
            },
    {
        // Copy either the detour or the original bytes of the function
        self.area = if enable {
            self.detour_prolog.clone()
        } else {
            self.original_prolog.clone()
        };
        self.patched = enable;
    }
}

/// Copies a slice of bytes into a vector.
fn copy_bytes(bytes: &[u8]) -> (r: Vec<u8>)
    ensures
        r@ == bytes@,
{
    let mut out: Vec<u8> = Vec::new();
    let mut i: usize = 0;
    while i < bytes.len()
        invariant
            0 <= i <= bytes@.len(),
            out@ == bytes@.subrange(0, i as int),
        decreases bytes@.len() - i,
    {
        out.push(bytes[i]);
        i = i + 1;
        assert(out@ =~= bytes@.subrange(0, i as int));
    }
    assert(out@ =~= bytes@);
    out
}

/// The original bytes, the redirect and the patch area have one length, and
/// after the patch is toggled off the area holds the original bytes again.
pub proof fn lemma_patcher_restores(p: Patcher)
    requires
        p.wf(),
    ensures
        p.spec_original().len() == p.spec_redirect().len(),
        p.spec_redirect().len() == p.spec_area().len(),
        !p.spec_patched() ==> p.spec_area() == p.spec_original(),
{
}

} // verus!
