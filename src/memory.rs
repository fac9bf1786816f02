//! The proximity allocator: it hands out executable memory within a given
//! distance of an origin, carved from pools of pages that are mapped at
//! chosen addresses.
//!
//! The caller queries the operating system and maps pages; the allocator
//! decides where to look, which pool serves a request, and when a pool is
//! given up.

use crate::error::Error;
use crate::pic::{emitted, CodeEmitter};
use slice_pool::sync::{SliceBox, SlicePool};
use vstd::prelude::*;

verus! {

#[verifier::external_type_specification]
#[verifier::external_body]
#[verifier::reject_recursive_types(T)]
pub struct ExSlicePool<T: Send>(SlicePool<T>);

#[verifier::external_type_specification]
#[verifier::external_body]
#[verifier::reject_recursive_types(T)]
pub struct ExSliceBox<T: Send + 'static>(SliceBox<T>);

/// The address of the memory that a pool carves slices from.
pub uninterp spec fn pool_base(pool: SlicePool<u8>) -> int;

/// The size of the memory that a pool carves slices from.
pub uninterp spec fn pool_size(pool: SlicePool<u8>) -> int;

/// The address of a slice carved from a pool.
pub uninterp spec fn slice_base(slice: SliceBox<u8>) -> int;

/// The length of a slice carved from a pool.
pub uninterp spec fn slice_len(slice: SliceBox<u8>) -> int;

/// Relies on `slice_pool::sync::SlicePool::as_ptr` and `len`: the address
/// and size of the memory that the pool was made from.
#[verifier::external_body]
fn pool_extent(pool: &SlicePool<u8>) -> (r: (usize, usize))
    ensures
        r.0 == pool_base(*pool),
        r.1 == pool_size(*pool),
{
    (pool.as_ptr() as usize, pool.len())
}

/// Relies on `slice_pool::sync::SlicePool::alloc`: a slice of `size`
/// elements at an offset of a free chunk of the pool's memory, whose chunks
/// lie within that memory.
#[verifier::external_body]
fn pool_alloc(pool: &SlicePool<u8>, size: usize) -> (r: Option<SliceBox<u8>>)
    ensures
        r matches Some(slice) ==> {
            &&& slice_len(slice) == size
            &&& pool_base(*pool) <= slice_base(slice)
            &&& slice_base(slice) + size <= pool_base(*pool) + pool_size(*pool)
        },
{
    pool.alloc(size)
}

/// Relies on `SliceBox`'s `Deref` to a slice: the slice's address.
#[verifier::external_body]
fn slice_address(slice: &SliceBox<u8>) -> (r: usize)
    ensures
        r == slice_base(*slice),
{
    slice.as_ptr() as usize
}

/// Relies on `SliceBox`'s `Deref` to a slice: the slice's length.
#[verifier::external_body]
fn slice_length(slice: &SliceBox<u8>) -> (r: usize)
    ensures
        r == slice_len(*slice),
{
    slice.len()
}

/// Relies on `SliceBox`'s `DerefMut` to a slice and on `copy_from_slice`,
/// which panics unless the lengths agree: the code is copied in, and the
/// slice stays where it is, as long as it is.
#[verifier::external_body]
fn slice_write(slice: &mut SliceBox<u8>, code: &Vec<u8>)
    requires
        slice_len(*old(slice)) == code@.len(),
    ensures
        slice_base(*final(slice)) == slice_base(*old(slice)),
        slice_len(*final(slice)) == slice_len(*old(slice)),
{
    slice.copy_from_slice(code.as_slice())
}

/// Relies on `SliceBox`'s `Deref` to a slice: a view of the slice, as long
/// as it is.
#[verifier::external_body]
fn slice_view(slice: &SliceBox<u8>) -> (r: &[u8])
    ensures
        r@.len() == slice_len(*slice),
{
    &**slice
}

/// Relies on `region::page::size`: the operating system's page size, as
/// `sysconf` or `GetSystemInfo` report it; never zero (a failed `sysconf`
/// gives all ones).
#[verifier::external_body]
fn page_size() -> (r: usize)
    ensures
        r > 0,
{
    region::page::size()
}

/// The lower end of the addresses within `distance` of `origin`.
pub open spec fn range_start(origin: int, distance: int) -> int {
    if origin >= distance {
        origin - distance
    } else {
        0
    }
}

/// The upper end (excluded) of the addresses within `distance` of `origin`.
pub open spec fn range_end(origin: int, distance: int) -> int {
    if origin + distance <= usize::MAX {
        origin + distance
    } else {
        usize::MAX as int
    }
}

/// Returns the range of addresses within `distance` of `origin`, cut to the
/// address space.
pub fn memory_range(origin: usize, distance: usize) -> (r: (usize, usize))
    ensures
        r.0 == range_start(origin as int, distance as int),
        r.1 == range_end(origin as int, distance as int),
{
    (origin.saturating_sub(distance), origin.saturating_add(distance))
}

/// Rounds a size up to a multiple of the page size; `None` if that does not
/// fit the address space.
pub fn page_ceil(size: usize, page: usize) -> (r: Option<usize>)
    requires
        page > 0,
    ensures
        r matches Some(v) ==> v % page == 0 && size <= v < size + page,
        r is None <==> size + page - 1 > usize::MAX,
{
    if size > usize::MAX - (page - 1) {
        return None;
    }
    let x = size + (page - 1);
    let q = x / page;
    proof {
        vstd::arithmetic::div_mod::lemma_fundamental_div_mod(x as int, page as int);
        vstd::arithmetic::div_mod::lemma_mod_pos_bound(x as int, page as int);
        vstd::arithmetic::div_mod::lemma_mod_multiples_basic(q as int, page as int);
        vstd::arithmetic::mul::lemma_mul_is_commutative(q as int, page as int);
    }
    let v = q * page;
    Some(v)
}

/// True if `r` is `size` rounded up to a multiple of `page`, a positive page
/// size, or `None` where that does not fit the address space.
pub open spec fn rounded_to_pages(size: int, r: Option<usize>, page: int) -> bool {
    &&& page > 0
    &&& (r matches Some(v) ==> (v as int) % page == 0 && size <= v < size + page)
    &&& (r is None <==> size + page - 1 > usize::MAX)
}

/// Direction for the region search.
#[derive(PartialEq, Eq, Structural, Clone, Copy, Debug)]
pub enum RegionSearch {
    Before,
    After,
}

/// What a query of the operating system said of an address.
pub enum RegionQuery {
    /// The address lies in a mapped region `[lower, upper)`.
    Mapped { lower: usize, upper: usize },
    /// Nothing is mapped at the address.
    Unmapped,
    /// The query failed; holds the description of the failure.
    Failed(String),
}

/// A search for free regions, page by page, from an origin in one direction.
///
/// The caller queries the address that `pending` names and hands the answer
/// to `next`, until `pending` returns `None`.
pub struct RegionFreeIter {
    pub start: usize,
    pub end: usize,
    pub search: RegionSearch,
    pub current: usize,
    pub page_size: usize,
}

impl RegionFreeIter {
    /// True while the search has an address to query.
    pub open spec fn spec_pending(&self) -> bool {
        self.current > 0 && self.start <= self.current < self.end
    }

    /// The address after `current` in the search's direction.
    pub open spec fn stepped(&self) -> int {
        match self.search {
            RegionSearch::Before => if self.current >= self.page_size {
                self.current - self.page_size
            } else {
                0
            },
            RegionSearch::After => if self.current + self.page_size <= usize::MAX {
                self.current + self.page_size
            } else {
                usize::MAX as int
            },
        }
    }

    /// True if a mapped region named by `query` holds the queried address.
    pub open spec fn truthful(&self, query: RegionQuery) -> bool {
        query matches RegionQuery::Mapped { lower, upper } ==> lower <= self.current < upper
    }

    /// True if `next` is the search after the answer `query` to the pending
    /// address, and `r` what it yields: a mapped region is skipped; a free
    /// address is yielded; a failure is yielded as an error. Either of the
    /// last two moves the search on by one page.
    pub open spec fn advanced(
        &self,
        next: RegionFreeIter,
        query: RegionQuery,
        r: Option<Result<usize, Error>>,
    ) -> bool {
        &&& next.start == self.start
        &&& next.end == self.end
        &&& next.search == self.search
        &&& next.page_size == self.page_size
        &&& match query {
            RegionQuery::Mapped { lower, upper } => {
                &&& r is None
                &&& next.current == match self.search {
                    RegionSearch::Before => if lower >= self.page_size {
                        lower - self.page_size
                    } else {
                        0
                    },
                    RegionSearch::After => upper as int,
                }
            },
            RegionQuery::Unmapped => {
                &&& r == Some(Ok::<usize, Error>(self.current))
                &&& next.current == self.stepped()
            },
            RegionQuery::Failed(message) => {
                &&& r matches Some(Err(Error::RegionFailure(m))) && m@ == message@
                &&& next.current == self.stepped()
            },
        }
    }

    /// Creates a search for free regions within `range` (the whole address
    /// space if `None`), starting at `origin`.
    pub fn new(origin: usize, range: Option<(usize, usize)>, search: RegionSearch) -> (r: Self)
        ensures
            r.current == origin,
            r.search == search,
            r.page_size > 0,
            range matches Some(bounds) ==> r.start == bounds.0 && r.end == bounds.1,
            range is None ==> r.start == 0 && r.end == usize::MAX,
    {
        let (start, end) = match range {
            Some(bounds) => bounds,
            None => (0, usize::MAX),
        };
        RegionFreeIter { start, end, search, current: origin, page_size: page_size() }
    }

    /// Returns the address to query next, or `None` once the search has left
    /// its range.
    pub fn pending(&self) -> (r: Option<usize>)
        ensures
            self.spec_pending() ==> r == Some(self.current),
            !self.spec_pending() ==> r is None,
    {
        if self.current > 0 && self.start <= self.current && self.current < self.end {
            Some(self.current)
        } else {
            None
        }
    }

    /// Takes the answer of the query of the pending address: a mapped region
    /// is skipped; a free address is yielded; a failure is yielded as an
    /// error. Either of the last two moves the search on by one page.
    pub fn next(&mut self, query: RegionQuery) -> (r: Option<Result<usize, Error>>)
        requires
            old(self).spec_pending(),
            old(self).truthful(query),
        ensures
            old(self).advanced(*final(self), query, r),
    {
        let result = match query {
            RegionQuery::Mapped { lower, upper } => {
                self.current = match self.search {
                    RegionSearch::Before => lower.saturating_sub(self.page_size),
                    RegionSearch::After => upper,
                };
                return None;
            },
            RegionQuery::Unmapped => Ok(self.current),
            RegionQuery::Failed(message) => Err(Error::RegionFailure(message)),
        };
        // Adjust the offset for repeated calls
        self.current = match self.search {
            RegionSearch::Before => self.current.saturating_sub(self.page_size),
            RegionSearch::After => self.current.saturating_add(self.page_size),
        };
        Some(result)
    }
}

/// Returns a search for free regions after `origin`.
pub fn after(origin: usize, range: Option<(usize, usize)>) -> (r: RegionFreeIter)
    ensures
        r.current == origin,
        r.page_size > 0,
        r.search == RegionSearch::After,
        range matches Some(bounds) ==> r.start == bounds.0 && r.end == bounds.1,
        range is None ==> r.start == 0 && r.end == usize::MAX,
{
    RegionFreeIter::new(origin, range, RegionSearch::After)
}

/// Returns a search for free regions before `origin`.
pub fn before(origin: usize, range: Option<(usize, usize)>) -> (r: RegionFreeIter)
    ensures
        r.current == origin,
        r.page_size > 0,
        r.search == RegionSearch::Before,
        range matches Some(bounds) ==> r.start == bounds.0 && r.end == bounds.1,
        range is None ==> r.start == 0 && r.end == usize::MAX,
{
    RegionFreeIter::new(origin, range, RegionSearch::Before)
}

/// True if `[a, a + a_len)` and `[b, b + b_len)` share a byte.
pub open spec fn overlap(a: int, a_len: int, b: int, b_len: int) -> bool {
    a < b + b_len && b < a + a_len
}

/// A handle for allocated executable memory.
pub struct ExecutableMemory {
    data: SliceBox<u8>,
    base: usize,
    len: usize,
    code: Vec<u8>,
}

impl ExecutableMemory {
    pub closed spec fn spec_base(&self) -> int {
        self.base as int
    }

    pub closed spec fn spec_len(&self) -> int {
        self.len as int
    }

    /// The code that the library wrote into the memory; empty before any.
    pub closed spec fn spec_code(&self) -> Seq<u8> {
        self.code@
    }

    /// The handle's address and length are those of its slice.
    pub closed spec fn wf(&self) -> bool {
        &&& slice_base(self.data) == self.base
        &&& slice_len(self.data) == self.len
    }

    /// Returns the address of the memory.
    pub fn address(&self) -> (r: usize)
        ensures
            r == self.spec_base(),
    {
        self.base
    }

    /// Returns the size of the memory.
    pub fn len(&self) -> (r: usize)
        ensures
            r == self.spec_len(),
    {
        self.len
    }

    /// Returns the code that the library wrote into the memory.
    pub fn code(&self) -> (r: &[u8])
        ensures
            r@ == self.spec_code(),
    {
        self.code.as_slice()
    }

    /// Returns the bytes that the memory holds.
    pub fn as_slice(&self) -> (r: &[u8])
        requires
            self.wf(),
        ensures
            r@.len() == self.spec_len(),
    {
        slice_view(&self.data)
    }

    /// Generates the emitter's code for the memory's address and copies it
    /// in. Fails with `OutOfMemory`, the memory unchanged, where the memory
    /// is too small or the code cannot reach its destinations from there.
    pub fn write_code(&mut self, emitter: &CodeEmitter) -> (r: Result<(), Error>)
        requires
            old(self).wf(),
            emitter.wf(),
        ensures
            final(self).wf(),
            final(self).spec_base() == old(self).spec_base(),
            final(self).spec_len() == old(self).spec_len(),
            (old(self).spec_len() == emitter.spec_len() && emitter.emittable_at(old(self).spec_base()))
                ==> r is Ok && final(self).spec_code() == emitted(emitter@, old(self).spec_base()),
            !(old(self).spec_len() == emitter.spec_len() && emitter.emittable_at(old(self).spec_base()))
                ==> r == Err::<(), Error>(Error::OutOfMemory) && final(self).spec_code() == old(
                self,
            ).spec_code(),
    {
        if emitter.len() != self.len || !emitter.is_emittable_at(self.base) {
            return Err(Error::OutOfMemory);
        }
        let code = emitter.emit(self.base);
        slice_write(&mut self.data, &code);
        self.code = code;
        Ok(())
    }
}

/// A pool of executable memory and the live slices carved from it, each as
/// its address and length.
pub struct Pool {
    pool: SlicePool<u8>,
    base: usize,
    size: usize,
    slices: Vec<(usize, usize)>,
}

impl Pool {
    pub closed spec fn spec_base(&self) -> int {
        self.base as int
    }

    pub closed spec fn spec_size(&self) -> int {
        self.size as int
    }

    /// The live slices carved from the pool.
    pub closed spec fn spec_slices(&self) -> Seq<(usize, usize)> {
        self.slices@
    }

    /// The number of live slices carved from the pool.
    pub open spec fn spec_live(&self) -> int {
        self.spec_slices().len() as int
    }

    /// The extent is that of the pool's memory, every live slice lies in it,
    /// and a pool is only kept while slices carved from it live.
    pub closed spec fn wf(&self) -> bool {
        &&& self.base == pool_base(self.pool)
        &&& self.size == pool_size(self.pool)
        &&& self.slices.len() > 0
        &&& forall|k: int|
            0 <= k < self.slices@.len() ==> self.holds(
                (#[trigger] self.slices@[k]).0 as int,
                self.slices@[k].1 as int,
            )
    }

    /// True if `[address, address + len)` lies within the pool.
    pub open spec fn holds(&self, address: int, len: int) -> bool {
        self.spec_base() <= address && address + len <= self.spec_base() + self.spec_size()
    }
}

/// True if `after` is `before` with one more live slice in pool `i`.
pub open spec fn carved_from(before: Seq<Pool>, after: Seq<Pool>, i: int, address: int, len: int) -> bool {
    &&& 0 <= i < before.len()
    &&& after.len() == before.len()
    &&& forall|j: int| 0 <= j < before.len() && j != i ==> after[j] == before[j]
    &&& after[i].spec_base() == before[i].spec_base()
    &&& after[i].spec_size() == before[i].spec_size()
    &&& after[i].spec_slices() == before[i].spec_slices().push((address as usize, len as usize))
}

/// Shared instance containing all pools.
pub struct ProximityAllocator {
    max_distance: usize,
    pools: Vec<Pool>,
    refused: Vec<SliceBox<u8>>,
}

impl ProximityAllocator {
    /// The distance that allocations keep to.
    pub closed spec fn spec_max_distance(&self) -> int {
        self.max_distance as int
    }

    /// Returns the distance that allocations keep to.
    pub fn max_distance(&self) -> (r: usize)
        ensures
            r == self.spec_max_distance(),
    {
        self.max_distance
    }

    /// The pools, in the order they were installed.
    pub closed spec fn spec_pools(&self) -> Seq<Pool> {
        self.pools@
    }

    pub open spec fn wf(&self) -> bool {
        forall|i: int| 0 <= i < self.spec_pools().len() ==> #[trigger] self.spec_pools()[i].wf()
    }

    /// True if a slice at `address` of `len` bytes lies within the range
    /// that an allocation near `origin` must keep to.
    pub open spec fn in_reach(&self, origin: int, address: int, len: int) -> bool {
        range_start(origin, self.spec_max_distance()) <= address
            && address + len <= range_end(origin, self.spec_max_distance())
    }

    /// True if pool `i` is not empty and lies wholly within reach of `origin`.
    pub open spec fn pool_in_reach(&self, origin: int, i: int) -> bool {
        let pool = self.spec_pools()[i];
        pool.spec_size() > 0 && self.in_reach(origin, pool.spec_base(), pool.spec_size())
    }

    /// True if `[address, address + len)` shares a byte with a live slice.
    pub open spec fn overlaps_live(&self, address: int, len: int) -> bool {
        exists|i: int, k: int|
            0 <= i < self.spec_pools().len() && 0 <= k < self.spec_pools()[i].spec_slices().len()
                && overlap(
                (#[trigger] self.spec_pools()[i].spec_slices()[k]).0 as int,
                self.spec_pools()[i].spec_slices()[k].1 as int,
                address,
                len,
            )
    }

    /// True if some pool holds the memory.
    pub open spec fn carved(&self, memory: ExecutableMemory) -> bool {
        exists|i: int|
            0 <= i < self.spec_pools().len() && #[trigger] self.spec_pools()[i].holds(
                memory.spec_base(),
                memory.spec_len(),
            )
    }

    /// True if live slice `k` of pool `i` is `[base, base + len)`.
    pub open spec fn records(&self, i: int, k: int, base: int, len: int) -> bool {
        0 <= i < self.spec_pools().len() && 0 <= k < self.spec_pools()[i].spec_slices().len()
            && self.spec_pools()[i].spec_slices()[k].0 == base && self.spec_pools()[i].spec_slices()[k].1
            == len
    }

    /// Creates a new proximity allocator.
    pub fn new(max_distance: usize) -> (r: Self)
        ensures
            r.wf(),
            r.spec_max_distance() == max_distance,
            r.spec_pools().len() == 0,
    {
        ProximityAllocator { max_distance, pools: Vec::new(), refused: Vec::new() }
    }

    /// Returns the number of pools.
    pub fn pool_count(&self) -> (r: usize)
        ensures
            r == self.spec_pools().len(),
    {
        self.pools.len()
    }

    /// Returns the size of a new pool for a request of `size` bytes: the
    /// request rounded up to whole pages; `None` if that does not fit the
    /// address space.
    pub fn pool_size(size: usize) -> (r: Option<usize>)
        ensures
            exists|page: int| #[trigger] rounded_to_pages(size as int, r, page),
    {
        let page = page_size();
        let r = page_ceil(size, page);
        assert(rounded_to_pages(size as int, r, page as int));
        r
    }

    /// Returns true if live slices are recorded at all, in any pool, that
    /// share a byte with `[address, address + len)`.
    fn is_overlapping(&self, address: usize, len: usize) -> (r: bool)
        ensures
            r == self.overlaps_live(address as int, len as int),
    {
        let mut i: usize = 0;
        while i < self.pools.len()
            invariant
                0 <= i <= self.spec_pools().len(),
                forall|j: int, k: int|
                    0 <= j < i && 0 <= k < self.spec_pools()[j].spec_slices().len() ==> !overlap(
                        (#[trigger] self.spec_pools()[j].spec_slices()[k]).0 as int,
                        self.spec_pools()[j].spec_slices()[k].1 as int,
                        address as int,
                        len as int,
                    ),
            decreases self.spec_pools().len() - i,
        {
            let slices = &self.pools[i].slices;
            let mut k: usize = 0;
            while k < slices.len()
                invariant
                    0 <= i < self.spec_pools().len(),
                    slices@ == self.spec_pools()[i as int].spec_slices(),
                    0 <= k <= slices@.len(),
                    forall|k2: int|
                        0 <= k2 < k ==> !overlap(
                            (#[trigger] slices@[k2]).0 as int,
                            slices@[k2].1 as int,
                            address as int,
                            len as int,
                        ),
                decreases slices@.len() - k,
            {
                let (b, b_len) = slices[k];
                if (b as u128) < (address as u128) + (len as u128) && (address as u128) < (b as u128)
                    + (b_len as u128) {
                    assert(overlap(
                        self.spec_pools()[i as int].spec_slices()[k as int].0 as int,
                        self.spec_pools()[i as int].spec_slices()[k as int].1 as int,
                        address as int,
                        len as int,
                    ));
                    return true;
                }
                k = k + 1;
            }
            i = i + 1;
        }
        false
    }

    /// Returns the first pool from index `from` on that lies wholly within
    /// reach of `origin`.
    pub fn next_pool_in_reach(&self, origin: usize, from: usize) -> (r: Option<usize>)
        ensures
            r matches Some(i) ==> from <= i < self.spec_pools().len() && self.pool_in_reach(
                origin as int,
                i as int,
            ) && forall|j: int| from <= j < i ==> !self.pool_in_reach(origin as int, j),
            r is None ==> forall|j: int|
                from <= j < self.spec_pools().len() ==> !self.pool_in_reach(origin as int, j),
    {
        let (start, end) = memory_range(origin, self.max_distance);
        let mut i: usize = from;
        while i < self.pools.len()
            invariant
                from <= i,
                start == range_start(origin as int, self.max_distance as int),
                end == range_end(origin as int, self.max_distance as int),
                forall|j: int| from <= j < i ==> !self.pool_in_reach(origin as int, j),
            decreases self.spec_pools().len() - i,
        {
            let base = self.pools[i].base;
            let len = self.pools[i].size;
            // The whole pool must lie within the range
            if start <= base && base < end && len > 0 && len - 1 < end - base {
                return Some(i);
            }
            i = i + 1;
        }
        None
    }

    /// Records the slice that pool `i` carved for a request of `size` bytes,
    /// `got` being the pool's answer. The slice is refused, and nothing
    /// changes, unless it has `size` bytes, lies within the pool and shares
    /// no byte with a live slice.
    pub fn carve(&mut self, i: usize, size: usize, got: Option<SliceBox<u8>>) -> (r: Option<ExecutableMemory>)
        requires
            old(self).wf(),
            i < old(self).spec_pools().len(),
        ensures
            final(self).wf(),
            final(self).spec_max_distance() == old(self).spec_max_distance(),
            r is Some <==> (got matches Some(s) && slice_len(s) == size && old(self).spec_pools()[i as int].holds(
                slice_base(s),
                size as int,
            ) && !old(self).overlaps_live(slice_base(s), size as int)),
            r is None ==> final(self).spec_pools() == old(self).spec_pools(),
            r matches Some(m) ==> {
                &&& m.wf()
                &&& got matches Some(s) && m.spec_base() == slice_base(s)
                &&& m.spec_len() == size
                &&& m.spec_code().len() == 0
                &&& carved_from(old(self).spec_pools(), final(self).spec_pools(), i as int, m.spec_base(), size as int)
            },
    {
        let data = match got {
            Some(data) => data,
            None => return None,
        };
        let address = slice_address(&data);
        if slice_length(&data) != size {
            return None;
        }
        let p_base = self.pools[i].base;
        let p_size = self.pools[i].size;
        if !(p_base <= address && (address - p_base) <= p_size && size <= p_size - (address - p_base)) {
            return None;
        }
        if self.is_overlapping(address, size) {
            // The pool handed out memory that a live slice holds: the slice
            // is kept, unused, since giving it back would free that memory
            self.refused.push(data);
            return None;
        }
        let ghost pools = self.spec_pools();
        assert(pools[i as int].wf());
        let mut entry = self.pools.remove(i);
        entry.slices.push((address, size));
        let ghost updated = entry;
        self.pools.insert(i, entry);
        proof {
            assert(self.spec_pools() == pools.update(i as int, updated));
            assert(updated.spec_slices() =~= pools[i as int].spec_slices().push((address, size)));
            assert forall|k: int| 0 <= k < updated.slices@.len() implies updated.holds(
                (#[trigger] updated.slices@[k]).0 as int,
                updated.slices@[k].1 as int,
            ) by {
                if k < pools[i as int].slices@.len() {
                    assert(updated.slices@[k] == pools[i as int].slices@[k]);
                }
            }
            assert forall|j: int| 0 <= j < self.spec_pools().len() implies #[trigger] self.spec_pools()[j].wf() by {
                if j != i {
                    assert(pools[j].wf());
                }
            }
        }
        Some(ExecutableMemory { data, base: address, len: size, code: Vec::new() })
    }

    /// Allocates a slice of `size` bytes from the first pool, in installation
    /// order, that lies wholly within reach of `origin` and carves an
    /// acceptable slice; `None` if there is none.
    pub fn allocate_existing(&mut self, origin: usize, size: usize) -> (r: Option<ExecutableMemory>)
        requires
            old(self).wf(),
        ensures
            final(self).wf(),
            final(self).spec_max_distance() == old(self).spec_max_distance(),
            r is None ==> final(self).spec_pools() == old(self).spec_pools(),
            (forall|i: int| 0 <= i < old(self).spec_pools().len() ==> !old(self).pool_in_reach(origin as int, i))
                ==> r is None,
            r matches Some(m) ==> {
                &&& m.wf()
                &&& m.spec_len() == size
                &&& m.spec_code().len() == 0
                &&& final(self).in_reach(origin as int, m.spec_base(), size as int)
                &&& final(self).carved(m)
                &&& !old(self).overlaps_live(m.spec_base(), size as int)
                &&& exists|i: int|
                    old(self).pool_in_reach(origin as int, i) && #[trigger] carved_from(
                        old(self).spec_pools(),
                        final(self).spec_pools(),
                        i,
                        m.spec_base(),
                        size as int,
                    )
            },
    {
        let mut from: usize = 0;
        while from < self.pools.len()
            invariant
                self.wf(),
                self.spec_pools() == old(self).spec_pools(),
                self.max_distance == old(self).max_distance,
            decreases self.spec_pools().len() - from,
        {
            let i = match self.next_pool_in_reach(origin, from) {
                Some(i) => i,
                None => return None,
            };
            let got = pool_alloc(&self.pools[i].pool, size);
            let ghost pools = self.spec_pools();
            match self.carve(i, size, got) {
                Some(m) => {
                    proof {
                        let n = i as int;
                        assert(self.spec_pools()[n].holds(m.spec_base(), m.spec_len()));
                        assert(pools == old(self).spec_pools());
                        assert(old(self).pool_in_reach(origin as int, n));
                        assert(carved_from(old(self).spec_pools(), self.spec_pools(), n, m.spec_base(), size as int));
                    }
                    return Some(m);
                },
                None => {},
            }
            from = i + 1;
        }
        None
    }

    /// Returns true if a pool lies wholly within reach of `origin`.
    pub fn is_pool_in_reach(&self, origin: usize, pool: &SlicePool<u8>) -> (r: bool)
        ensures
            r == (pool_size(*pool) > 0 && self.in_reach(origin as int, pool_base(*pool), pool_size(*pool))),
    {
        let (start, end) = memory_range(origin, self.max_distance);
        let (base, len) = pool_extent(pool);
        start <= base && base < end && len > 0 && len - 1 < end - base
    }

    /// Installs a newly mapped pool for a request of `size` bytes near
    /// `origin`, with the slice `got` that the pool carved for it. Nothing
    /// changes, and the pool is given up, unless the pool lies wholly within
    /// reach and the slice has `size` bytes, lies within the pool and shares
    /// no byte with a live slice.
    pub fn install_pool(&mut self, origin: usize, size: usize, pool: SlicePool<u8>, got: Option<SliceBox<u8>>) -> (r: Option<ExecutableMemory>)
        requires
            old(self).wf(),
        ensures
            final(self).wf(),
            final(self).spec_max_distance() == old(self).spec_max_distance(),
            r is Some <==> ({
                &&& pool_size(pool) > 0
                &&& old(self).in_reach(origin as int, pool_base(pool), pool_size(pool))
                &&& got matches Some(s) && slice_len(s) == size && pool_base(pool) <= slice_base(s)
                    && slice_base(s) + size <= pool_base(pool) + pool_size(pool)
                    && !old(self).overlaps_live(slice_base(s), size as int)
            }),
            r is None ==> final(self).spec_pools() == old(self).spec_pools(),
            r matches Some(m) ==> {
                let n = old(self).spec_pools().len() as int;
                &&& m.wf()
                &&& got matches Some(s) && m.spec_base() == slice_base(s)
                &&& m.spec_len() == size
                &&& m.spec_code().len() == 0
                &&& final(self).in_reach(origin as int, m.spec_base(), size as int)
                &&& final(self).carved(m)
                &&& final(self).spec_pools().len() == n + 1
                &&& final(self).spec_pools().take(n) == old(self).spec_pools()
                &&& final(self).spec_pools()[n].spec_base() == pool_base(pool)
                &&& final(self).spec_pools()[n].spec_size() == pool_size(pool)
                &&& final(self).spec_pools()[n].spec_slices() == seq![(m.spec_base() as usize, size)]
            },
    {
        if !self.is_pool_in_reach(origin, &pool) {
            return None;
        }
        let (base, len) = pool_extent(&pool);
        let data = match got {
            Some(data) => data,
            None => return None,
        };
        let address = slice_address(&data);
        if slice_length(&data) != size {
            return None;
        }
        if !(base <= address && (address - base) <= len && size <= len - (address - base)) {
            return None;
        }
        if self.is_overlapping(address, size) {
            // The pool handed out memory that a live slice holds: the slice
            // is kept, unused, since giving it back would free that memory
            self.refused.push(data);
            return None;
        }
        let ghost old_pools = self.spec_pools();
        let mut slices: Vec<(usize, usize)> = Vec::new();
        slices.push((address, size));
        self.pools.push(Pool { pool, base, size: len, slices });
        let m = ExecutableMemory { data, base: address, len: size, code: Vec::new() };
        proof {
            let n = old_pools.len() as int;
            assert(self.spec_pools().take(n) =~= old_pools);
            assert(self.spec_pools()[n].spec_slices() =~= seq![(address, size)]);
            assert(self.spec_pools()[n].holds(m.spec_base(), m.spec_len()));
            assert forall|j: int| 0 <= j < self.spec_pools().len() implies #[trigger] self.spec_pools()[j].wf() by {
                if j < n {
                    assert(self.spec_pools()[j] == old_pools[j]);
                } else {
                    assert(self.spec_pools()[j].slices@[0] == (address, size));
                }
            }
        }
        Some(m)
    }

    /// Installs a newly mapped pool for a request of `size` bytes near
    /// `origin`, carving the slice from it; `None`, the pool given up, where
    /// `install_pool` refuses.
    pub fn install(&mut self, origin: usize, size: usize, pool: SlicePool<u8>) -> (r: Option<ExecutableMemory>)
        requires
            old(self).wf(),
        ensures
            final(self).wf(),
            final(self).spec_max_distance() == old(self).spec_max_distance(),
            r is None ==> final(self).spec_pools() == old(self).spec_pools(),
            !(pool_size(pool) > 0 && old(self).in_reach(origin as int, pool_base(pool), pool_size(pool)))
                ==> r is None,
            r matches Some(m) ==> {
                let n = old(self).spec_pools().len() as int;
                &&& m.wf()
                &&& m.spec_len() == size
                &&& final(self).in_reach(origin as int, m.spec_base(), size as int)
                &&& final(self).carved(m)
                &&& !old(self).overlaps_live(m.spec_base(), size as int)
                &&& final(self).spec_pools().len() == n + 1
                &&& final(self).spec_pools().take(n) == old(self).spec_pools()
                &&& final(self).spec_pools()[n].spec_slices() == seq![(m.spec_base() as usize, size)]
            },
    {
        let got = pool_alloc(&pool, size);
        self.install_pool(origin, size, pool, got)
    }

    /// Releases a slice: its record leaves the pool it was carved from, and
    /// the pool is given up when no live slice is left.
    pub fn release(&mut self, memory: ExecutableMemory)
        requires
            old(self).wf(),
        ensures
            final(self).wf(),
            final(self).spec_max_distance() == old(self).spec_max_distance(),
            final(self).spec_pools().len() <= old(self).spec_pools().len(),
            ({
                let pools = old(self).spec_pools();
                let base = memory.spec_base();
                let len = memory.spec_len();
                if !(exists|i: int, k: int| #[trigger] old(self).records(i, k, base, len)) {
                    final(self).spec_pools() == pools
                } else {
                    exists|i: int, k: int|
                        #[trigger] old(self).records(i, k, base, len) && (forall|j: int, k2: int|
                            0 <= j < i ==> !old(self).records(j, k2, base, len)) && (forall|k2: int|
                            0 <= k2 < k ==> !old(self).records(i, k2, base, len)) && if pools[i].spec_live()
                            == 1 {
                            final(self).spec_pools() == pools.remove(i)
                        } else {
                            &&& final(self).spec_pools().len() == pools.len()
                            &&& forall|j: int| 0 <= j < pools.len() && j != i ==> final(self).spec_pools()[j] == pools[j]
                            &&& final(self).spec_pools()[i].spec_base() == pools[i].spec_base()
                            &&& final(self).spec_pools()[i].spec_size() == pools[i].spec_size()
                            &&& final(self).spec_pools()[i].spec_slices() == pools[i].spec_slices().remove(k)
                        }
                }
            }),
    {
        let base = memory.base;
        let len = memory.len;
        let ghost pools = self.spec_pools();
        let mut i: usize = 0;
        while i < self.pools.len()
            invariant
                self.wf(),
                self.spec_pools() == pools,
                pools == old(self).spec_pools(),
                self.max_distance == old(self).max_distance,
                base == memory.spec_base(),
                len == memory.spec_len(),
                0 <= i <= pools.len(),
                forall|j: int, k2: int| 0 <= j < i ==> !#[trigger] old(self).records(j, k2, base as int, len as int),
            decreases pools.len() - i,
        {
            let slices = &self.pools[i].slices;
            let mut k: usize = 0;
            while k < slices.len() && !(slices[k].0 == base && slices[k].1 == len)
                invariant
                    0 <= i < pools.len(),
                    slices@ == pools[i as int].spec_slices(),
                    pools == old(self).spec_pools(),
                    0 <= k <= slices@.len(),
                    forall|k2: int| 0 <= k2 < k ==> !#[trigger] old(self).records(i as int, k2, base as int, len as int),
                decreases slices@.len() - k,
            {
                k = k + 1;
            }
            if k < slices.len() {
                assert(old(self).records(i as int, k as int, base as int, len as int));
                assert(pools[i as int].wf());
                if self.pools[i].slices.len() == 1 {
                    self.pools.remove(i);
                    proof {
                        assert(self.spec_pools() =~= pools.remove(i as int));
                        assert forall|j: int| 0 <= j < self.spec_pools().len() implies #[trigger] self.spec_pools()[j].wf() by {
                            if j < i {
                                assert(self.spec_pools()[j] == pools[j]);
                            } else {
                                assert(self.spec_pools()[j] == pools[j + 1]);
                            }
                        }
                    }
                } else {
                    let mut entry = self.pools.remove(i);
                    entry.slices.remove(k);
                    let ghost updated = entry;
                    self.pools.insert(i, entry);
                    proof {
                        let old_slices = pools[i as int].slices@;
                        assert(self.spec_pools() == pools.update(i as int, updated));
                        assert(updated.slices@ == old_slices.remove(k as int));
                        assert forall|k3: int| 0 <= k3 < updated.slices@.len() implies updated.holds(
                            (#[trigger] updated.slices@[k3]).0 as int,
                            updated.slices@[k3].1 as int,
                        ) by {
                            if k3 < k {
                                assert(updated.slices@[k3] == old_slices[k3]);
                            } else {
                                assert(updated.slices@[k3] == old_slices[k3 + 1]);
                            }
                        }
                        assert forall|j: int| 0 <= j < self.spec_pools().len() implies #[trigger] self.spec_pools()[j].wf() by {
                            if j != i {
                                assert(pools[j].wf());
                            }
                        }
                    }
                }
                // Dropping the slice returns its chunk to the pool
                return;
            }
            i = i + 1;
        }
    }
}

/// An allocation near `origin` keeps within the allocator's distance of it:
/// it ends no further than that distance above `origin`, starts less than it
/// above, and, unless it starts exactly at the lower end of the range, less
/// than it below.
pub proof fn lemma_allocation_within_distance(
    allocator: ProximityAllocator,
    origin: int,
    base: int,
    size: int,
)
    requires
        0 <= origin <= usize::MAX,
        size >= 1,
        allocator.in_reach(origin, base, size),
        base != origin - allocator.spec_max_distance(),
    ensures
        base + size <= origin + allocator.spec_max_distance(),
        base - origin < allocator.spec_max_distance(),
        origin - base < allocator.spec_max_distance(),
{
}

/// The search for a free region for a new pool: first upwards from the
/// origin, then downwards, within the range of addresses in reach.
pub struct PoolSearch {
    pub after: RegionFreeIter,
    pub before: RegionFreeIter,
}

impl PoolSearch {
    /// True while the search has an address to query.
    pub open spec fn spec_pending(&self) -> bool {
        self.after.spec_pending() || self.before.spec_pending()
    }

    /// Creates the search for a pool within `distance` of `origin`.
    pub fn new(origin: usize, distance: usize) -> (r: PoolSearch)
        ensures
            r.after.current == origin,
            r.before.current == origin,
            r.after.page_size > 0,
            r.before.page_size > 0,
            r.after.search == RegionSearch::After,
            r.before.search == RegionSearch::Before,
            r.after.start == range_start(origin as int, distance as int),
            r.after.end == range_end(origin as int, distance as int),
            r.before.start == range_start(origin as int, distance as int),
            r.before.end == range_end(origin as int, distance as int),
    {
        let range = memory_range(origin, distance);
        PoolSearch { after: after(origin, Some(range)), before: before(origin, Some(range)) }
    }

    /// Returns the address to query next: upwards while that search lasts,
    /// then downwards; `None` once both have left the range.
    pub fn pending(&self) -> (r: Option<usize>)
        ensures
            self.after.spec_pending() ==> r == Some(self.after.current),
            !self.after.spec_pending() && self.before.spec_pending() ==> r == Some(self.before.current),
            !self.spec_pending() ==> r is None,
    {
        match self.after.pending() {
            Some(address) => Some(address),
            None => self.before.pending(),
        }
    }

    /// Takes the answer of the query of the pending address, as
    /// `RegionFreeIter::next` does for the search it belongs to.
    pub fn next(&mut self, query: RegionQuery) -> (r: Option<Result<usize, Error>>)
        requires
            old(self).spec_pending(),
            if old(self).after.spec_pending() {
                old(self).after.truthful(query)
            } else {
                old(self).before.truthful(query)
            },
        ensures
            old(self).after.spec_pending() ==> {
                &&& old(self).after.advanced(final(self).after, query, r)
                &&& final(self).before == old(self).before
            },
            !old(self).after.spec_pending() ==> {
                &&& old(self).before.advanced(final(self).before, query, r)
                &&& final(self).after == old(self).after
            },
    {
        if self.after.pending().is_some() {
            self.after.next(query)
        } else {
            self.before.next(query)
        }
    }
}

impl PoolSearch {
    /// The address that the search queries next, while it is pending.
    pub open spec fn spec_pending_address(&self) -> usize {
        if self.after.spec_pending() {
            self.after.current
        } else {
            self.before.current
        }
    }

    /// True if a mapped region named by `query` holds the pending address.
    pub open spec fn truthful(&self, query: RegionQuery) -> bool {
        if self.after.spec_pending() {
            self.after.truthful(query)
        } else {
            self.before.truthful(query)
        }
    }
}

/// What an allocation asks of its caller next, or how it ended.
pub enum Progress {
    /// The memory is allocated.
    Done(ExecutableMemory),
    /// Query the region at the address and hand the answer to `queried`.
    Query(usize),
    /// Map a pool of `size` bytes at `address` and hand it, or `None` if the
    /// mapping failed, to `mapped`.
    MapPool { address: usize, size: usize },
    /// The allocation failed.
    Failed(Error),
}

/// An allocation of `size` bytes near `origin`: from an existing pool if one
/// serves, else from a pool mapped at the first free region that the search
/// finds, upwards first, then downwards.
pub struct Allocation {
    pub origin: usize,
    pub size: usize,
    pub map_size: Option<usize>,
    pub search: PoolSearch,
}

impl Allocation {
    /// What comes after a step that found no memory: the next query, or
    /// `OutOfMemory` once the search is used up.
    pub open spec fn continued(&self, r: Progress) -> bool {
        if self.search.spec_pending() {
            r == Progress::Query(self.search.spec_pending_address())
        } else {
            r matches Progress::Failed(Error::OutOfMemory)
        }
    }

    /// True if `r` carries memory fit for the allocation, taken from
    /// `allocator` as it was before.
    pub open spec fn fits(&self, before: ProximityAllocator, after: ProximityAllocator, r: Progress) -> bool {
        r matches Progress::Done(m) && {
            &&& m.wf()
            &&& m.spec_len() == self.size
            &&& after.in_reach(self.origin as int, m.spec_base(), self.size as int)
            &&& after.carved(m)
            &&& !before.overlaps_live(m.spec_base(), self.size as int)
        }
    }

    /// Prepares an allocation of `size` bytes near `origin` for an allocator
    /// that keeps to `distance`.
    pub fn new(origin: usize, size: usize, distance: usize) -> (r: Allocation)
        ensures
            r.origin == origin,
            r.size == size,
            exists|page: int| #[trigger] rounded_to_pages(size as int, r.map_size, page),
            r.search.after.current == origin,
            r.search.before.current == origin,
            r.search.after.page_size > 0,
            r.search.before.page_size > 0,
            r.search.after.search == RegionSearch::After,
            r.search.before.search == RegionSearch::Before,
            r.search.after.start == range_start(origin as int, distance as int),
            r.search.after.end == range_end(origin as int, distance as int),
            r.search.before.start == range_start(origin as int, distance as int),
            r.search.before.end == range_end(origin as int, distance as int),
    {
        Allocation {
            origin,
            size,
            map_size: ProximityAllocator::pool_size(size),
            search: PoolSearch::new(origin, distance),
        }
    }

    /// The step after a step that found no memory.
    fn next_step(&self) -> (r: Progress)
        ensures
            self.continued(r),
    {
        match self.search.pending() {
            Some(address) => Progress::Query(address),
            None => Progress::Failed(Error::OutOfMemory),
        }
    }

    /// Starts the allocation: an existing pool serves if it can; otherwise
    /// the search begins, unless a pool for the request cannot fit the
    /// address space.
    pub fn start(&mut self, allocator: &mut ProximityAllocator) -> (r: Progress)
        requires
            old(allocator).wf(),
        ensures
            final(allocator).wf(),
            final(allocator).spec_max_distance() == old(allocator).spec_max_distance(),
            *final(self) == *old(self),
            r is Done ==> old(self).fits(*old(allocator), *final(allocator), r),
            !(r is Done) ==> final(allocator).spec_pools() == old(allocator).spec_pools(),
            (forall|i: int|
                0 <= i < old(allocator).spec_pools().len() ==> !old(allocator).pool_in_reach(
                    old(self).origin as int,
                    i,
                )) ==> !(r is Done),
            !(r is Done) ==> if old(self).map_size is None {
                r matches Progress::Failed(Error::OutOfMemory)
            } else {
                old(self).continued(r)
            },
    {
        if let Some(memory) = allocator.allocate_existing(self.origin, self.size) {
            return Progress::Done(memory);
        }
        if self.map_size.is_none() {
            return Progress::Failed(Error::OutOfMemory);
        }
        self.next_step()
    }

    /// Takes the answer of the query that the last step asked for: a free
    /// region is to be mapped; a failed query ends the allocation.
    pub fn queried(&mut self, query: RegionQuery) -> (r: Progress)
        requires
            old(self).search.spec_pending(),
            old(self).search.truthful(query),
            old(self).map_size is Some,
        ensures
            final(self).origin == old(self).origin,
            final(self).size == old(self).size,
            final(self).map_size == old(self).map_size,
            ({
                let active = if old(self).search.after.spec_pending() {
                    old(self).search.after
                } else {
                    old(self).search.before
                };
                let next = if old(self).search.after.spec_pending() {
                    final(self).search.after
                } else {
                    final(self).search.before
                };
                &&& old(self).search.after.spec_pending() ==> final(self).search.before == old(self).search.before
                &&& !old(self).search.after.spec_pending() ==> final(self).search.after == old(self).search.after
                &&& match query {
                    RegionQuery::Mapped { lower, upper } => {
                        &&& active.advanced(next, query, None)
                        &&& final(self).continued(r)
                    },
                    RegionQuery::Unmapped => {
                        &&& active.advanced(next, query, Some(Ok::<usize, Error>(active.current)))
                        &&& r == Progress::MapPool { address: active.current, size: old(self).map_size.unwrap() }
                    },
                    RegionQuery::Failed(message) => {
                        &&& next.current == active.stepped()
                        &&& r matches Progress::Failed(Error::RegionFailure(m)) && m@ == message@
                    },
                }
            }),
    {
        let map_size = match self.map_size {
            Some(map_size) => map_size,
            None => return Progress::Failed(Error::OutOfMemory),
        };
        match self.search.next(query) {
            Some(Ok(address)) => Progress::MapPool { address, size: map_size },
            Some(Err(error)) => Progress::Failed(error),
            None => self.next_step(),
        }
    }

    /// Takes the pool that the caller mapped where the last step asked, or
    /// `None` if the mapping failed: the memory comes from it if it lies
    /// within reach and serves; otherwise the search goes on.
    pub fn mapped(&mut self, allocator: &mut ProximityAllocator, pool: Option<SlicePool<u8>>) -> (r: Progress)
        requires
            old(allocator).wf(),
        ensures
            final(allocator).wf(),
            final(allocator).spec_max_distance() == old(allocator).spec_max_distance(),
            *final(self) == *old(self),
            r is Done ==> old(self).fits(*old(allocator), *final(allocator), r),
            r is Done ==> final(allocator).spec_pools().len() == old(allocator).spec_pools().len() + 1,
            !(r is Done) ==> final(allocator).spec_pools() == old(allocator).spec_pools() && old(self).continued(r),
            pool is None ==> !(r is Done),
            (pool matches Some(p) && !(pool_size(p) > 0 && old(allocator).in_reach(
                old(self).origin as int,
                pool_base(p),
                pool_size(p),
            ))) ==> !(r is Done),
    {
        if let Some(pool) = pool {
            if let Some(memory) = allocator.install(self.origin, self.size, pool) {
                return Progress::Done(memory);
            }
        }
        self.next_step()
    }
}

} // verus!
