use retour::pic::CodeEmitter;
use retour::thunk::{jmp_abs, jmp_rel32, nop, Thunk};

#[test]
fn emitter_threads_the_base_through_its_thunks() {
  let mut emitter = CodeEmitter::new();
  emitter.add_thunk(nop());
  emitter.add_thunk(Thunk::Code(vec![0x31, 0xC0]));
  emitter.add_thunk(jmp_rel32(0x1000));
  assert_eq!(emitter.len(), 8);
  // The jump is placed at base + 3: 0x1000 - (0x100 + 3 + 5) = 0xEF8
  let code = emitter.emit(0x100);
  assert_eq!(code, vec![0x90, 0x31, 0xC0, 0xE9, 0xF8, 0x0E, 0x00, 0x00]);
}

#[test]
fn emitted_code_is_as_long_as_the_emitter() {
  let mut emitter = CodeEmitter::new();
  assert_eq!(emitter.emit(0).len(), emitter.len());
  emitter.add_thunk(jmp_abs(0x1234));
  emitter.add_thunk(nop());
  emitter.add_thunk(jmp_rel32(0x2000));
  for base in [0usize, 0x10, 0x1000, 0x7FFF_0000] {
    assert!(emitter.is_emittable_at(base));
    assert_eq!(emitter.emit(base).len(), emitter.len());
  }
  assert_eq!(emitter.len(), 20);
}

#[test]
fn emitter_out_of_reach_is_not_emittable() {
  let mut emitter = CodeEmitter::new();
  emitter.add_thunk(jmp_rel32(0x1_0000_0000_0000));
  assert!(!emitter.is_emittable_at(0x1000));
  assert!(emitter.is_emittable_at(0x1_0000_0000_0000 - 0x1000));
  // Near the end of the address space the code no longer fits
  let mut emitter = CodeEmitter::new();
  emitter.add_thunk(nop());
  emitter.add_thunk(nop());
  assert!(!emitter.is_emittable_at(usize::MAX));
}
