//! The detour: a trampoline, an optional relay and a patcher, with the
//! enabled flag that says which bytes the target holds.

use crate::error::Error;
use crate::memory::{range_end, range_start, ExecutableMemory, ProximityAllocator};
use crate::patcher::Patcher;
use crate::pic::{emitted, CodeEmitter};
use crate::trampoline::Trampoline;
use crate::thunk::{self, JumpAbs, Thunk, DETOUR_RANGE, JUMP_REL32_SIZE};
use vstd::prelude::*;

verus! {

/// Returns the preferred prolog size for the target: a relative long jump.
pub fn prolog_margin(target: usize) -> (r: usize)
    ensures
        r == 5,
{
    JUMP_REL32_SIZE
}

/// True if a detour lies 2 GiB or more away from its target.
pub open spec fn needs_relay(target: int, detour: int) -> bool {
    !(-0x8000_0000 < detour - target < 0x8000_0000)
}

/// Creates a relay, required for detours 2 GiB or more away from the target:
/// an absolute jump to the detour, to be placed where a relative jump from
/// the target reaches it.
pub fn relay_builder(target: usize, detour: usize) -> (r: Option<CodeEmitter>)
    ensures
        !needs_relay(target as int, detour as int) ==> r is None,
        needs_relay(target as int, detour as int) ==> (r matches Some(e) && e.wf() && e@ == seq![
            Thunk::AbsoluteJump(JumpAbs { destination: detour }),
        ]),
{
    let distance = detour as i128 - target as i128;
    if -0x8000_0000 < distance && distance < 0x8000_0000 {
        None
    } else {
        let mut emitter = CodeEmitter::new();
        emitter.add_thunk(thunk::jmp_abs(detour));
        proof {
            assert(emitter@ =~= seq![Thunk::AbsoluteJump(JumpAbs { destination: detour })]);
        }
        Some(emitter)
    }
}

/// Checks that a target and its detour differ.
pub fn check_distinct(target: usize, detour: usize) -> (r: Result<(), Error>)
    ensures
        target == detour ==> r == Err::<(), Error>(Error::SameAddress),
        target != detour ==> r is Ok,
{
    if target == detour {
        Err(Error::SameAddress)
    } else {
        Ok(())
    }
}

/// Validates the addresses of a new detour: they must differ, and both be
/// executable. `target_executable` and `detour_executable` are the answers
/// of the queries of their regions, in that order.
pub fn check_addresses(
    target: usize,
    detour: usize,
    target_executable: Result<bool, Error>,
    detour_executable: Result<bool, Error>,
) -> (r: Result<(), Error>)
    ensures
        target == detour ==> r == Err::<(), Error>(Error::SameAddress),
        target != detour ==> match (target_executable, detour_executable) {
            (Err(e), _) => r == Err::<(), Error>(e),
            (Ok(false), _) => r == Err::<(), Error>(Error::NotExecutable),
            (Ok(true), Err(e)) => r == Err::<(), Error>(e),
            (Ok(true), Ok(false)) => r == Err::<(), Error>(Error::NotExecutable),
            (Ok(true), Ok(true)) => r is Ok,
        },
{
    if target == detour {
        return Err(Error::SameAddress);
    }
    if !target_executable? || !detour_executable? {
        return Err(Error::NotExecutable);
    }
    Ok(())
}

/// The address that the patch jumps to: the relay if there is one, else
/// the detour itself.
pub fn effective_destination(relay: &Option<ExecutableMemory>, detour: usize) -> (r: usize)
    ensures
        relay matches Some(m) ==> r == m.spec_base(),
        relay is None ==> r == detour,
{
    match relay {
        Some(memory) => memory.address(),
        None => detour,
    }
}

/// Gives back the memory of a detour whose construction failed part way:
/// the relay and the trampoline, whichever were allocated, so that the
/// allocator keeps no slice of it.
pub fn abandon(
    allocator: &mut ProximityAllocator,
    relay: Option<ExecutableMemory>,
    trampoline: Option<ExecutableMemory>,
)
    requires
        old(allocator).wf(),
    ensures
        final(allocator).wf(),
        final(allocator).spec_max_distance() == old(allocator).spec_max_distance(),
        relay is None && trampoline is None ==> final(allocator).spec_pools() == old(allocator).spec_pools(),
        final(allocator).spec_pools().len() <= old(allocator).spec_pools().len(),
{
    if let Some(memory) = trampoline {
        allocator.release(memory);
    }
    if let Some(memory) = relay {
        allocator.release(memory);
    }
}

/// What a detour is, as far as its users can tell: whether it is enabled,
/// the patch area's address, the bytes the area holds, its original bytes and
/// its redirect, where the trampoline lies and the code written there.
pub ghost struct DetourState {
    pub enabled: bool,
    pub address: int,
    pub area: Seq<u8>,
    pub original: Seq<u8>,
    pub redirect: Seq<u8>,
    pub trampoline: int,
    pub trampoline_code: Seq<u8>,
}

impl DetourState {
    /// The state after the detour is enabled (`true`) or disabled.
    pub open spec fn toggled(self, enabled: bool) -> DetourState {
        DetourState {
            enabled,
            area: if enabled {
                self.redirect
            } else {
                self.original
            },
            ..self
        }
    }
}

/// An inline detour of a target.
pub struct Detour {
    trampoline: ExecutableMemory,
    relay: Option<ExecutableMemory>,
    patcher: Patcher,
    enabled: bool,
}

impl Detour {
    pub closed spec fn view(&self) -> DetourState {
        DetourState {
            enabled: self.enabled,
            address: self.patcher.spec_address(),
            area: self.patcher.spec_area(),
            original: self.patcher.spec_original(),
            redirect: self.patcher.spec_redirect(),
            trampoline: self.trampoline.spec_base(),
            trampoline_code: self.trampoline.spec_code(),
        }
    }

    /// The patcher agrees with the flag, and the area holds the redirect
    /// exactly when the detour is enabled.
    pub closed spec fn wf(&self) -> bool {
        &&& self.patcher.wf()
        &&& self.patcher.spec_patched() == self.enabled
    }

    /// True if memory at `base` of `len` bytes lies within 2 GiB of `target`.
    pub open spec fn near(target: int, base: int, len: int) -> bool {
        range_start(target, DETOUR_RANGE as int) <= base && base + len <= range_end(
            target,
            DETOUR_RANGE as int,
        )
    }

    /// Assembles a detour of `target` from the memory that holds its
    /// relocated prolog `code`, its relay and its patcher; it starts
    /// disabled.
    pub fn new(
        target: usize,
        code: &Trampoline,
        trampoline: ExecutableMemory,
        relay: Option<ExecutableMemory>,
        patcher: Patcher,
    ) -> (r: Detour)
        requires
            patcher.wf(),
            !patcher.spec_patched(),
            trampoline.spec_base() > 0,
            Self::near(target as int, trampoline.spec_base(), trampoline.spec_len()),
            trampoline.spec_code() == emitted(code.spec_emitter()@, trampoline.spec_base()),
        ensures
            r.wf(),
            !r@.enabled,
            r@.address == patcher.spec_address(),
            r@.original == patcher.spec_original(),
            r@.redirect == patcher.spec_redirect(),
            r@.area == patcher.spec_original(),
            r@.trampoline == trampoline.spec_base(),
            r@.trampoline > 0,
            Self::near(target as int, r@.trampoline, trampoline.spec_len()),
            r@.trampoline_code == emitted(code.spec_emitter()@, r@.trampoline),
    {
        Detour { trampoline, relay, patcher, enabled: false }
    }

    /// Returns whether the detour is enabled or not.
    pub fn is_enabled(&self) -> (r: bool)
        ensures
            r == self@.enabled,
    {
        self.enabled
    }

    /// Returns the address of the trampoline, through which the target's
    /// original code can be called.
    pub fn trampoline(&self) -> (r: usize)
        ensures
            r == self@.trampoline,
    {
        self.trampoline.address()
    }

    /// Returns the code written at the trampoline.
    pub fn trampoline_code(&self) -> (r: &[u8])
        ensures
            r@ == self@.trampoline_code,
    {
        self.trampoline.code()
    }

    /// Returns the address of the patch area.
    pub fn patch_address(&self) -> (r: usize)
        ensures
            r == self@.address,
    {
        self.patcher.address()
    }

    /// Returns the bytes that the patch area holds.
    pub fn area(&self) -> (r: &[u8])
        ensures
            r@ == self@.area,
    {
        self.patcher.area()
    }

    /// Enables or disables the detour. Toggling into the state the detour
    /// is in changes nothing.
    pub fn toggle(&mut self, enabled: bool)
        requires
            old(self).wf(),
        ensures
            final(self).wf(),
            final(self)@ == old(self)@.toggled(enabled),
    {
        if self.enabled == enabled {
            return;
        }
        // Copy either the detour or the original bytes of the function
        self.patcher.toggle(enabled);
        self.enabled = enabled;
    }

    /// Enables the detour.
    pub fn enable(&mut self)
        requires
            old(self).wf(),
        ensures
            final(self).wf(),
            final(self)@ == old(self)@.toggled(true),
    {
        self.toggle(true)
    }

    /// Disables the detour.
    pub fn disable(&mut self)
        requires
            old(self).wf(),
        ensures
            final(self).wf(),
            final(self)@ == old(self)@.toggled(false),
    {
        self.toggle(false)
    }

    /// Takes a disabled detour apart, giving back its trampoline and relay.
    pub fn into_memory(self) -> (r: (ExecutableMemory, Option<ExecutableMemory>))
        requires
            !self@.enabled,
        ensures
            r.0.spec_base() == self@.trampoline,
    {
        (self.trampoline, self.relay)
    }
}

/// Enabling an enabled detour, or disabling a disabled one, changes nothing:
/// toggling twice into one state is toggling once.
pub proof fn lemma_toggle_idempotent(d: DetourState, enabled: bool)
    ensures
        d.toggled(enabled).toggled(enabled) == d.toggled(enabled),
{
}

/// Disabling a detour, as dropping it does, puts the target's original bytes
/// back in the patch area.
pub proof fn lemma_disable_restores(d: DetourState)
    ensures
        d.toggled(false).area == d.original,
        !d.toggled(false).enabled,
{
}

} // verus!
