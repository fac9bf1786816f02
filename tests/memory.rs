use retour::detour::Detour;
use retour::memory::{
  after, before, memory_range, page_ceil, Allocation, PoolSearch, Progress, ProximityAllocator,
  RegionQuery, RegionSearch,
};
use retour::trampoline::{Builder, Instruction, Mnemonic};
use retour::patcher::Patcher;
use retour::pic::CodeEmitter;
use retour::thunk::{nop, Thunk};
use retour::Error;
use slice_pool::sync::SlicePool;

/// A pool over ordinary memory, and its address.
fn pool(size: usize) -> (SlicePool<u8>, usize) {
  let pool = SlicePool::new(vec![0u8; size]);
  let base = pool.as_ptr() as usize;
  (pool, base)
}

#[test]
fn memory_range_saturates_at_the_address_space() {
  assert_eq!(memory_range(0x1000, 0x8000_0000), (0, 0x8000_1000));
  assert_eq!(memory_range(0x1_0000_0000, 0x8000_0000), (0x8000_0000, 0x1_8000_0000));
  assert_eq!(memory_range(usize::MAX - 1, 0x8000_0000), (usize::MAX - 1 - 0x8000_0000, usize::MAX));
}

#[test]
fn page_ceil_rounds_up_to_whole_pages() {
  assert_eq!(page_ceil(1, 4096), Some(4096));
  assert_eq!(page_ceil(4096, 4096), Some(4096));
  assert_eq!(page_ceil(4097, 4096), Some(8192));
  assert_eq!(page_ceil(0, 4096), Some(0));
  assert_eq!(page_ceil(usize::MAX, 4096), None);
  assert!(ProximityAllocator::pool_size(37).unwrap() >= 37);
}

#[test]
fn allocations_lie_within_their_pool_and_reach() {
  let (memory, base) = pool(4096);
  let mut allocator = ProximityAllocator::new(0x8000_0000);
  let origin = base + 100;
  let first = allocator.install(origin, 37, memory).unwrap();
  assert_eq!(allocator.pool_count(), 1);
  assert_eq!(first.len(), 37);
  assert!(base <= first.address() && first.address() + 37 <= base + 4096);

  let second = allocator.allocate_existing(origin, 14).unwrap();
  assert!(base <= second.address() && second.address() + 14 <= base + 4096);
  // The two slices do not overlap
  assert!(second.address() + 14 <= first.address() || first.address() + 37 <= second.address());
  assert_eq!(allocator.pool_count(), 1);
}

#[test]
fn pools_out_of_reach_are_not_used() {
  let (memory, base) = pool(4096);
  let mut allocator = ProximityAllocator::new(0x100);
  // The pool does not lie wholly within 0x100 bytes of the origin
  assert!(allocator.install(base + 0x1000, 16, memory).is_none());
  assert_eq!(allocator.pool_count(), 0);

  let (memory, base) = pool(64);
  let origin = base + 32;
  let held = allocator.install(origin, 16, memory);
  assert!(held.is_some());
  // An origin far away cannot use the pool
  assert!(allocator.allocate_existing(base + 0x10_0000, 16).is_none());
  // A request larger than the room left fails
  assert!(allocator.allocate_existing(origin, 64).is_none());
}

#[test]
fn pool_is_released_with_its_last_slice() {
  let (memory, base) = pool(256);
  let mut allocator = ProximityAllocator::new(0x8000_0000);
  let first = allocator.install(base, 16, memory).unwrap();
  let second = allocator.allocate_existing(base, 16).unwrap();
  allocator.release(first);
  assert_eq!(allocator.pool_count(), 1);
  allocator.release(second);
  assert_eq!(allocator.pool_count(), 0);
}

#[test]
fn region_search_skips_mapped_regions() {
  let mut search = after(0x1_0000, Some((0x1_0000, 0x10_0000)));
  assert_eq!(search.search, RegionSearch::After);
  assert_eq!(search.pending(), Some(0x1_0000));
  assert!(search.next(RegionQuery::Mapped { lower: 0x1_0000, upper: 0x3_0000 }).is_none());
  assert_eq!(search.pending(), Some(0x3_0000));
  assert_eq!(search.next(RegionQuery::Unmapped).unwrap().unwrap(), 0x3_0000);
  assert_eq!(search.pending(), Some(0x3_0000 + search.page_size));
  let error = search.next(RegionQuery::Failed(String::from("no access"))).unwrap().unwrap_err();
  assert!(matches!(error, Error::RegionFailure(_)));
  // Past the end of the range nothing is left to query
  assert!(search.next(RegionQuery::Mapped { lower: 0, upper: 0x10_0000 }).is_none());
  assert_eq!(search.pending(), None);
}

#[test]
fn region_search_downwards_stops_below_its_range() {
  let mut search = before(0x5_0000, Some((0x4_0000, 0x6_0000)));
  assert_eq!(search.pending(), Some(0x5_0000));
  assert!(search.next(RegionQuery::Mapped { lower: 0x4_8000, upper: 0x5_8000 }).is_none());
  assert_eq!(search.current, 0x4_8000 - search.page_size);
  assert!(search.next(RegionQuery::Mapped { lower: 0x3_0000, upper: 0x4_8000 }).is_none());
  assert_eq!(search.pending(), None);
}

#[test]
fn code_is_written_for_the_memory_address() {
  let (memory, base) = pool(64);
  let mut allocator = ProximityAllocator::new(0x8000_0000);
  let mut emitter = CodeEmitter::new();
  emitter.add_thunk(nop());
  emitter.add_thunk(Thunk::Code(vec![0xC3]));
  let mut slice = allocator.install(base, emitter.len(), memory).unwrap();
  assert!(slice.write_code(&emitter).is_ok());
  assert_eq!(slice.as_slice(), &[0x90, 0xC3][..]);
  assert_eq!(slice.code(), &[0x90, 0xC3][..]);
  let mut larger = CodeEmitter::new();
  larger.add_thunk(Thunk::Code(vec![0xC3; 3]));
  assert!(matches!(slice.write_code(&larger).unwrap_err(), Error::OutOfMemory));
  assert_eq!(slice.as_slice(), &[0x90, 0xC3][..]);
  assert_eq!(slice.code(), &[0x90, 0xC3][..]);
}

/// A detour of a target whose trampoline lives in `allocator`, in a pool
/// at `base`; the target lies 0x1000 bytes above the pool.
fn detour(allocator: &mut ProximityAllocator, base: usize) -> (Detour, usize) {
  let target = base + 0x1000;
  let mut builder = Builder::new(target, 5);
  let head = vec![0x55, 0x48, 0x89, 0xE5, 0x90];
  let instruction = Instruction::new(target, head.clone(), Mnemonic::Other, None, 0, None);
  builder.step(instruction).unwrap();
  let trampoline = builder.build();
  let size = trampoline.emitter().len();
  let mut memory = allocator
    .install(base, size, SlicePool::new(vec![0u8; 64]))
    .unwrap_or_else(|| allocator.allocate_existing(base, size).unwrap());
  memory.write_code(trampoline.emitter()).unwrap();
  let patcher = Patcher::new(target, target + 0x1000, 5, &head, &[], false).unwrap();
  (Detour::new(target, &trampoline, memory, None, patcher), target)
}

#[test]
fn lib_test() {
  let (_unused, base) = pool(8);
  let mut allocator = ProximityAllocator::new(usize::MAX);
  let (mut hook, target) = detour(&mut allocator, base);
  assert!(hook.trampoline() > 0);
  let mut expected = vec![0x55, 0x48, 0x89, 0xE5, 0x90, 0xFF, 0x25, 0, 0, 0, 0];
  expected.extend(((target + 5) as u64).to_le_bytes());
  assert_eq!(hook.trampoline_code(), &expected[..]);
  assert!(!hook.is_enabled());
  assert_eq!(hook.area(), &[0x55, 0x48, 0x89, 0xE5, 0x90][..]);
  hook.enable();
  assert!(hook.is_enabled());
  // jmp +0x1000 - 5
  assert_eq!(hook.area(), &[0xE9, 0xFB, 0x0F, 0x00, 0x00][..]);
  hook.disable();
  assert!(!hook.is_enabled());
  assert_eq!(hook.area(), &[0x55, 0x48, 0x89, 0xE5, 0x90][..]);
  let (trampoline, relay) = hook.into_memory();
  assert!(relay.is_none());
  allocator.release(trampoline);
}

#[test]
fn enable_and_disable_are_idempotent() {
  let (_unused, base) = pool(8);
  let mut allocator = ProximityAllocator::new(usize::MAX);
  let (mut hook, target) = detour(&mut allocator, base);
  hook.enable();
  let once: Vec<u8> = hook.area().to_vec();
  hook.enable();
  assert_eq!(hook.area(), &once[..]);
  assert!(hook.is_enabled());
  hook.disable();
  let restored: Vec<u8> = hook.area().to_vec();
  hook.disable();
  assert_eq!(hook.area(), &restored[..]);
  assert_eq!(restored, vec![0x55, 0x48, 0x89, 0xE5, 0x90]);
  assert_eq!(hook.patch_address(), target);
}

#[test]
fn pool_search_goes_upwards_then_downwards() {
  let mut search = PoolSearch::new(0x10_0000, 0x1_0000);
  assert_eq!(search.pending(), Some(0x10_0000));
  // Upwards, everything is mapped up to the end of the range
  assert!(search.next(RegionQuery::Mapped { lower: 0x10_0000, upper: 0x11_0000 }).is_none());
  // Then the downward search starts at the origin
  assert_eq!(search.pending(), Some(0x10_0000));
  assert!(search.next(RegionQuery::Mapped { lower: 0xF_8000, upper: 0x11_0000 }).is_none());
  let below = 0xF_8000 - search.before.page_size;
  assert_eq!(search.pending(), Some(below));
  assert_eq!(search.next(RegionQuery::Unmapped).unwrap().unwrap(), below);
}

#[test]
fn allocation_keeps_within_the_distance() {
  let (memory, base) = pool(4096);
  let distance = 0x2000;
  let origin = base + 0x1800;
  let mut allocator = ProximityAllocator::new(distance);
  let slice = allocator.install(origin, 100, memory).unwrap();
  let start = slice.address();
  assert!(start + 100 <= origin + distance);
  assert!(start < origin + distance);
  assert!(origin - start < distance);
}

#[test]
fn allocation_searches_upwards_and_stops_on_failure() {
  let mut allocator = ProximityAllocator::new(0x1_0000);
  let mut allocation = Allocation::new(0x10_0000, 16, 0x1_0000);
  let step = allocation.start(&mut allocator);
  assert!(matches!(step, Progress::Query(0x10_0000)));
  let step = allocation.queried(RegionQuery::Unmapped);
  let map_size = match step {
    Progress::MapPool { address, size } => {
      assert_eq!(address, 0x10_0000);
      size
    },
    _ => panic!("a free region is to be mapped"),
  };
  assert!(map_size >= 16);
  // The mapping failed: the search goes on one page further up
  let page = allocation.search.after.page_size;
  let step = allocation.mapped(&mut allocator, None);
  assert!(matches!(step, Progress::Query(a) if a == 0x10_0000 + page));
  let step = allocation.queried(RegionQuery::Failed(String::from("no access")));
  assert!(matches!(step, Progress::Failed(Error::RegionFailure(_))));
}

#[test]
fn allocation_is_served_by_a_mapped_pool_in_reach() {
  let (memory, base) = pool(64);
  let mut allocator = ProximityAllocator::new(0x1_0000);
  let mut allocation = Allocation::new(base, 16, 0x1_0000);
  assert!(matches!(allocation.start(&mut allocator), Progress::Query(_)));
  assert!(matches!(allocation.queried(RegionQuery::Unmapped), Progress::MapPool { .. }));
  let first = match allocation.mapped(&mut allocator, Some(memory)) {
    Progress::Done(slice) => slice,
    _ => panic!("the mapped pool serves"),
  };
  assert_eq!(first.len(), 16);
  assert!(base <= first.address() && first.address() + 16 <= base + 64);
  // A second allocation is served by the existing pool at once
  let mut again = Allocation::new(base, 8, 0x1_0000);
  match again.start(&mut allocator) {
    Progress::Done(second) => {
      assert!(second.address() + 8 <= first.address() || first.address() + 16 <= second.address());
    },
    _ => panic!("the existing pool serves"),
  }
  assert_eq!(allocator.pool_count(), 1);
}

#[test]
fn allocation_fails_when_the_search_is_used_up() {
  let mut allocator = ProximityAllocator::new(0x1000);
  let mut allocation = Allocation::new(0x10_0000, 16, 0x1000);
  assert!(matches!(allocation.start(&mut allocator), Progress::Query(_)));
  // Upwards the region reaches past the range; downwards as well
  let step = allocation.queried(RegionQuery::Mapped { lower: 0xF_0000, upper: 0x20_0000 });
  assert!(matches!(step, Progress::Query(0x10_0000)));
  let step = allocation.queried(RegionQuery::Mapped { lower: 0xF_0000, upper: 0x20_0000 });
  assert!(matches!(step, Progress::Failed(Error::OutOfMemory)));
}

#[test]
fn slices_from_another_pool_are_refused() {
  let (memory, base) = pool(64);
  let mut allocator = ProximityAllocator::new(0x8000_0000);
  let first = allocator.install(base, 16, memory);
  assert!(first.is_some());
  let other = SlicePool::new(vec![0u8; 64]);
  let foreign = other.alloc(16);
  assert!(allocator.carve(0, 16, foreign).is_none());
  assert!(allocator.carve(0, 16, None).is_none());
  assert!(allocator.next_pool_in_reach(base, 0) == Some(0));
  assert!(allocator.next_pool_in_reach(base, 1).is_none());
}
