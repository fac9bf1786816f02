//! Position-independent code: a sequence of thunks whose bytes are produced
//! once the address of the code is known.

use crate::thunk::Thunk;
use vstd::prelude::*;

verus! {

/// The total length of a sequence of thunks.
pub open spec fn total_len(thunks: Seq<Thunk>) -> nat
    decreases thunks.len(),
{
    if thunks.len() == 0 {
        0
    } else {
        total_len(thunks.drop_last()) + thunks.last().spec_len()
    }
}

/// True if every thunk can be encoded at the address it gets when the
/// sequence is placed at `base`, and the code fits the address space.
pub open spec fn emittable(thunks: Seq<Thunk>, base: int) -> bool
    decreases thunks.len(),
{
    if thunks.len() == 0 {
        true
    } else {
        emittable(thunks.drop_last(), base) && thunks.last().emittable_at(
            base + total_len(thunks.drop_last()),
        )
    }
}

/// The code of a sequence of thunks placed at `base`: each thunk is generated
/// at `base` plus the lengths of the thunks before it.
pub open spec fn emitted(thunks: Seq<Thunk>, base: int) -> Seq<u8>
    decreases thunks.len(),
{
    if thunks.len() == 0 {
        seq![]
    } else {
        emitted(thunks.drop_last(), base) + thunks.last().spec_generate(
            base + total_len(thunks.drop_last()),
        )
    }
}

/// The code of an emittable sequence is exactly as long as the sequence.
pub proof fn lemma_emitted_len(thunks: Seq<Thunk>, base: int)
    requires
        emittable(thunks, base),
    ensures
        emitted(thunks, base).len() == total_len(thunks),
    decreases thunks.len(),
{
    if thunks.len() > 0 {
        lemma_emitted_len(thunks.drop_last(), base);
        thunks.last().lemma_generate_len(base + total_len(thunks.drop_last()));
    }
}

/// The total length only grows along a sequence.
pub proof fn lemma_total_len_prefix(thunks: Seq<Thunk>, i: int)
    requires
        0 <= i <= thunks.len(),
    ensures
        total_len(thunks.take(i)) <= total_len(thunks),
    decreases thunks.len(),
{
    if i < thunks.len() {
        assert(thunks.drop_last().take(i) =~= thunks.take(i));
        lemma_total_len_prefix(thunks.drop_last(), i);
    } else {
        assert(thunks.take(i) =~= thunks);
    }
}

/// An interface for generating PIC.
#[derive(Debug)]
pub struct CodeEmitter {
    thunks: Vec<Thunk>,
}

impl CodeEmitter {
    /// The thunks, in order.
    pub closed spec fn view(&self) -> Seq<Thunk> {
        self.thunks@
    }

    /// The emitter's length fits the address space.
    pub open spec fn wf(&self) -> bool {
        total_len(self@) <= usize::MAX
    }

    /// The number of bytes that the emitter generates.
    pub open spec fn spec_len(&self) -> nat {
        total_len(self@)
    }

    /// True if the code can be generated for use at `base`.
    pub open spec fn emittable_at(&self, base: int) -> bool {
        emittable(self@, base) && base + self.spec_len() <= usize::MAX
    }

    /// Constructs a new code emitter.
    pub fn new() -> (r: Self)
        ensures
            r@ == Seq::<Thunk>::empty(),
            r.wf(),
    {
        CodeEmitter { thunks: Vec::new() }
    }

    /// Adds a position-independent code segment.
    pub fn add_thunk(&mut self, thunk: Thunk)
        requires
            old(self).spec_len() + thunk.spec_len() <= usize::MAX,
        ensures
            final(self)@ == old(self)@.push(thunk),
            final(self).spec_len() == old(self).spec_len() + thunk.spec_len(),
            final(self).wf(),
    {
        self.thunks.push(thunk);
        proof {
            assert(self@.drop_last() =~= old(self)@);
        }
    }

    /// Returns the total size of all code segments.
    pub fn len(&self) -> (r: usize)
        requires
            self.wf(),
        ensures
            r as nat == self.spec_len(),
    {
        let mut sum: usize = 0;
        let mut i: usize = 0;
        while i < self.thunks.len()
            invariant
                0 <= i <= self@.len(),
                self.wf(),
                sum as nat == total_len(self@.take(i as int)),
            decreases self@.len() - i,
        {
            proof {
                assert(self@.take(i as int + 1).drop_last() =~= self@.take(i as int));
                lemma_total_len_prefix(self@, i as int + 1);
            }
            sum = sum + self.thunks[i].len();
            i = i + 1;
        }
        proof {
            assert(self@.take(i as int) =~= self@);
        }
        sum
    }

    /// Returns true if the code can be generated for use at `base`.
    pub fn is_emittable_at(&self, base: usize) -> (r: bool)
        requires
            self.wf(),
        ensures
            r == self.emittable_at(base as int),
    {
        let len = self.len();
        if len > usize::MAX - base {
            return false;
        }
        let mut address: usize = base;
        let mut i: usize = 0;
        while i < self.thunks.len()
            invariant
                0 <= i <= self@.len(),
                self.wf(),
                base + total_len(self@) <= usize::MAX,
                address as int == base + total_len(self@.take(i as int)),
                emittable(self@.take(i as int), base as int),
            decreases self@.len() - i,
        {
            let thunk = &self.thunks[i];
            proof {
                assert(self@.take(i as int + 1).drop_last() =~= self@.take(i as int));
                lemma_total_len_prefix(self@, i as int + 1);
            }
            if !thunk_emittable_at(thunk, address) {
                proof {
                    if emittable(self@, base as int) {
                        lemma_emittable_prefix(self@, base as int, i as int + 1);
                    }
                }
                return false;
            }
            address = address + thunk.len();
            i = i + 1;
        }
        proof {
            assert(self@.take(i as int) =~= self@);
        }
        true
    }

    /// Generates code for use at the specified address.
    pub fn emit(&self, base: usize) -> (r: Vec<u8>)
        requires
            self.wf(),
            self.emittable_at(base as int),
        ensures
            r@ == emitted(self@, base as int),
            r@.len() == self.spec_len(),
    {
        let mut result: Vec<u8> = Vec::new();
        let mut address: usize = base;
        let mut i: usize = 0;
        while i < self.thunks.len()
            invariant
                0 <= i <= self@.len(),
                self.wf(),
                self.emittable_at(base as int),
                address as int == base + total_len(self@.take(i as int)),
                result@ == emitted(self@.take(i as int), base as int),
            decreases self@.len() - i,
        {
            proof {
                assert(self@.take(i as int + 1).drop_last() =~= self@.take(i as int));
                lemma_total_len_prefix(self@, i as int + 1);
                lemma_emittable_prefix(self@, base as int, i as int + 1);
            }
            let thunk = &self.thunks[i];
            let mut code = thunk.generate(address);
            result.append(&mut code);
            address = address + thunk.len();
            i = i + 1;
        }
        proof {
            assert(self@.take(i as int) =~= self@);
            lemma_emitted_len(self@, base as int);
        }
        result
    }
}

/// Returns true if a thunk's operands can be encoded at `base`.
fn thunk_emittable_at(thunk: &Thunk, base: usize) -> (r: bool)
    ensures
        r == thunk.emittable_at(base as int),
{
    match thunk {
        Thunk::Relative(t) => {
            let d = t.destination as i128 - (base as i128 + 5);
            -0x8000_0000 <= d && d < 0x8000_0000
        },
        Thunk::Conditional(t) => {
            let d = t.destination as i128 - (base as i128 + 6);
            -0x8000_0000 <= d && d < 0x8000_0000
        },
        Thunk::Short(t) => t.displacement >= -126,
        Thunk::Relocated(t) => {
            let d = t.address as i128 - base as i128 + t.displacement as i128;
            t.offset <= t.bytes.len() && t.bytes.len() - t.offset >= 4 && -0x8000_0000 <= d
                && d < 0x8000_0000
        },
        _ => true,
    }
}

/// A prefix of an emittable sequence is emittable.
proof fn lemma_emittable_prefix(thunks: Seq<Thunk>, base: int, i: int)
    requires
        0 <= i <= thunks.len(),
        emittable(thunks, base),
    ensures
        emittable(thunks.take(i), base),
    decreases thunks.len(),
{
    if i < thunks.len() {
        assert(thunks.drop_last().take(i) =~= thunks.take(i));
        lemma_emittable_prefix(thunks.drop_last(), base, i);
    } else {
        assert(thunks.take(i) =~= thunks);
    }
}

/// For every emitter and every base at which it can be placed, the emitted
/// code is exactly as long as the emitter says.
pub proof fn lemma_emit_len(emitter: CodeEmitter, base: int)
    requires
        emitter.emittable_at(base),
    ensures
        emitted(emitter@, base).len() == emitter.spec_len(),
{
    lemma_emitted_len(emitter@, base);
}

} // verus!
