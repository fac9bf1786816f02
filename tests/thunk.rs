use retour::thunk::{
  call_abs, call_rel32, is_within_range, jcc_abs, jcc_rel32, jmp_abs, jmp_rel32, jmp_rel8, nop,
  Thunk, UnsafeThunk,
};

#[test]
fn jmp_rel32_forward_displacement_is_taken_from_the_end() {
  let code = jmp_rel32(0x1000).generate(0);
  assert_eq!(code, vec![0xE9, 0xFB, 0x0F, 0x00, 0x00]);
}

#[test]
fn jmp_rel32_backward_displacement_is_twos_complement() {
  // 0x1000 - (0x2000 + 5) = -0x1005
  let code = jmp_rel32(0x1000).generate(0x2000);
  assert_eq!(code, vec![0xE9, 0xFB, 0xEF, 0xFF, 0xFF]);
}

#[test]
fn call_rel32_uses_the_call_opcode() {
  let code = call_rel32(0x40_0010).generate(0x40_0000);
  assert_eq!(code, vec![0xE8, 0x0B, 0x00, 0x00, 0x00]);
  assert_eq!(call_rel32(0).len(), 5);
}

#[test]
fn jcc_rel32_puts_the_condition_in_the_opcode() {
  // jz: condition 4; 0x100 - (0 + 6) = 0xFA
  let code = jcc_rel32(0x100, 4).generate(0);
  assert_eq!(code, vec![0x0F, 0x84, 0xFA, 0x00, 0x00, 0x00]);
}

#[test]
fn jmp_rel8_subtracts_its_own_length() {
  assert_eq!(jmp_rel8(-5).generate(0x1234), vec![0xEB, 0xF9]);
  assert_eq!(jmp_rel8(10).generate(0), vec![0xEB, 0x08]);
  assert_eq!(jmp_rel8(-126).generate(0), vec![0xEB, 0x80]);
}

#[test]
fn jmp_abs_holds_the_destination_inline() {
  let code = jmp_abs(0x1122_3344_5566_7788).generate(0);
  assert_eq!(
    code,
    vec![0xFF, 0x25, 0, 0, 0, 0, 0x88, 0x77, 0x66, 0x55, 0x44, 0x33, 0x22, 0x11]
  );
}

#[test]
fn call_abs_jumps_over_its_pointer() {
  let code = call_abs(0x1122_3344_5566_7788).generate(0);
  assert_eq!(
    code,
    vec![0xFF, 0x15, 0x02, 0, 0, 0, 0xEB, 0x08, 0x88, 0x77, 0x66, 0x55, 0x44, 0x33, 0x22, 0x11]
  );
}

#[test]
fn jcc_abs_inverts_the_condition() {
  // jz (4) becomes jnz (5) over the absolute jump
  let code = jcc_abs(0x10, 4).generate(0);
  assert_eq!(
    code,
    vec![0x75, 0x0E, 0xFF, 0x25, 0, 0, 0, 0, 0x10, 0, 0, 0, 0, 0, 0, 0]
  );
  // jnz (5) becomes jz (4)
  assert_eq!(jcc_abs(0x10, 5).generate(0)[0], 0x74);
}

#[test]
fn nop_is_one_byte() {
  let thunk = nop();
  assert_eq!(thunk.len(), 1);
  assert_eq!(thunk.generate(0xdead), vec![0x90]);
}

#[test]
fn relocated_operand_keeps_its_referent() {
  // mov al, [rip+3] at 0x40_0002, moved to 0x40_1000
  let thunk = Thunk::Relocated(UnsafeThunk {
    address: 0x40_0002,
    bytes: vec![0x8A, 0x05, 0x03, 0x00, 0x00, 0x00],
    offset: 2,
    displacement: 3,
  });
  // 0x40_0002 - 0x40_1000 + 3 = -0xFFB
  assert_eq!(thunk.generate(0x40_1000), vec![0x8A, 0x05, 0x05, 0xF0, 0xFF, 0xFF]);
  // At the original address the instruction is unchanged
  assert_eq!(thunk.generate(0x40_0002), vec![0x8A, 0x05, 0x03, 0x00, 0x00, 0x00]);
}

#[test]
fn displacement_range_is_that_of_a_signed_32_bit_operand() {
  assert!(is_within_range(0));
  assert!(is_within_range(-0x8000_0000));
  assert!(is_within_range(0x7FFF_FFFF));
  assert!(!is_within_range(0x8000_0000));
  assert!(!is_within_range(-0x8000_0001));
}
