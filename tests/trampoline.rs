use retour::detour::{check_addresses, check_distinct, prolog_margin, relay_builder};
use retour::patcher::{PatchKind, Patcher};
use retour::trampoline::{Builder, Instruction, Mnemonic, Trampoline};
use retour::Error;

/// One decoded instruction: bytes, mnemonic, RIP displacement, branch
/// displacement.
type Decoded = (Vec<u8>, Mnemonic, Option<i32>, Option<i32>);

/// Runs a builder over instructions laid out one after another at `target`.
fn build(target: usize, code: Vec<Decoded>) -> Result<Trampoline, Error> {
  let mut builder = Builder::new(target, prolog_margin(target));
  let mut code = code.into_iter();
  while !builder.is_finished() {
    let instruction = code.next().and_then(|(bytes, mnemonic, rip, branch)| {
      // In these instructions the displacement ends the instruction
      let offset = bytes.len().saturating_sub(4);
      Instruction::new(builder.next_address(), bytes, mnemonic, rip, offset, branch)
    });
    builder.step(instruction)?;
  }
  Ok(builder.build())
}

fn le64(value: usize) -> Vec<u8> {
  (value as u64).to_le_bytes().to_vec()
}

fn jump_abs(destination: usize) -> Vec<u8> {
  let mut code = vec![0xFF, 0x25, 0, 0, 0, 0];
  code.extend(le64(destination));
  code
}

const TARGET: usize = 0x40_0000;

#[test]
fn mod_detour_external_loop() {
  // loop dest; nop; nop; nop; dest:
  let target: usize = 0x40_0000;
  let mut builder = Builder::new(target, 5);
  let ins = Instruction::new(target, vec![0xE2, 0x03], Mnemonic::Loop, None, 0, Some(3));
  assert!(ins.is_some());
  let error = builder.step(ins).unwrap_err();
  assert!(matches!(error, Error::UnsupportedInstruction));
}

#[test]
fn mod_detour_relative_branch() {
  // xor eax, eax; je ret5; mov eax, 2; jmp done; ret5: mov eax, 5; done: ret
  let trampoline = build(
    TARGET,
    vec![
      (vec![0x31, 0xC0], Mnemonic::Other, None, None),
      (vec![0x74, 0x07], Mnemonic::Other, None, Some(7)),
      (vec![0xB8, 0x02, 0x00, 0x00, 0x00], Mnemonic::Other, None, None),
    ],
  )
  .unwrap();
  assert_eq!(trampoline.prolog_size(), 9);

  let mut expected = vec![0x31, 0xC0];
  // je becomes jne over an absolute jump to ret5
  expected.extend([0x75, 0x0E]);
  expected.extend(jump_abs(TARGET + 11));
  expected.extend([0xB8, 0x02, 0x00, 0x00, 0x00]);
  // back to the first instruction after the prolog
  expected.extend(jump_abs(TARGET + 9));
  assert_eq!(trampoline.emitter().emit(0x7000_0000), expected);

  let head = [0x31, 0xC0, 0x74, 0x07, 0xB8];
  let patcher = Patcher::new(TARGET, 0x40_1000, 9, &head, &[], false).unwrap();
  assert_eq!(patcher.address(), TARGET);
  assert_eq!(patcher.area(), &head[..]);
}

#[test]
fn mod_detour_hotpatch() {
  // nop x5; target: xor eax, eax; ret; mov eax, 5
  let target = TARGET + 5;
  let trampoline = build(
    target,
    vec![
      (vec![0x31, 0xC0], Mnemonic::Other, None, None),
      (vec![0xC3], Mnemonic::Return, None, None),
    ],
  )
  .unwrap();
  assert_eq!(trampoline.prolog_size(), 3);
  assert_eq!(trampoline.emitter().emit(0x10_0000), vec![0x31, 0xC0, 0xC3]);

  let head = [0x31, 0xC0, 0xC3, 0xB8, 0x05];
  assert_eq!(Patcher::patch_kind(&head, 3).unwrap(), PatchKind::HotPatch);
  let preceding = [0x90; 5];
  let detour = TARGET + 0x1000;
  let mut patcher = Patcher::new(target, detour, 3, &head, &preceding, true).unwrap();
  assert_eq!(patcher.address(), TARGET);
  assert_eq!(patcher.patch_size(), 7);
  assert_eq!(patcher.area(), &[0x90, 0x90, 0x90, 0x90, 0x90, 0x31, 0xC0][..]);
  patcher.toggle(true);
  // jmp detour from the hot patch area: 0x1000 - 5; then jmp -7 onto it
  assert_eq!(patcher.area(), &[0xE9, 0xFB, 0x0F, 0x00, 0x00, 0xEB, 0xF9][..]);
  patcher.toggle(false);
  assert_eq!(patcher.area(), &[0x90, 0x90, 0x90, 0x90, 0x90, 0x31, 0xC0][..]);
}

#[test]
fn mod_detour_padding_after() {
  // mov edi, edi; target: xor eax, eax; ret; nop; nop
  let target = TARGET + 2;
  let trampoline = build(
    target,
    vec![
      (vec![0x31, 0xC0], Mnemonic::Other, None, None),
      (vec![0xC3], Mnemonic::Return, None, None),
    ],
  )
  .unwrap();
  assert_eq!(trampoline.prolog_size(), 3);

  let head = [0x31, 0xC0, 0xC3, 0x90, 0x90];
  assert_eq!(Patcher::patch_kind(&head, 3).unwrap(), PatchKind::Direct);
  let mut patcher = Patcher::new(target, target + 0x100, 3, &head, &[], false).unwrap();
  assert_eq!(patcher.address(), target);
  patcher.toggle(true);
  assert_eq!(patcher.area(), &[0xE9, 0xFB, 0x00, 0x00, 0x00][..]);
}

#[test]
fn mod_detour_rip_relative_pos() {
  // xor eax, eax; mov al, [rip+3]; nop; nop; nop; ret
  let trampoline = build(
    TARGET,
    vec![
      (vec![0x31, 0xC0], Mnemonic::Other, None, None),
      (vec![0x8A, 0x05, 0x03, 0x00, 0x00, 0x00], Mnemonic::Other, Some(3), None),
    ],
  )
  .unwrap();
  assert_eq!(trampoline.prolog_size(), 8);

  // Placed 0x1000 bytes further, the operand reaches back to the same byte:
  // 0x40_0002 - 0x40_1002 + 3 = -0xFFD
  let mut expected = vec![0x31, 0xC0, 0x8A, 0x05, 0x03, 0xF0, 0xFF, 0xFF];
  expected.extend(jump_abs(TARGET + 8));
  assert_eq!(trampoline.emitter().emit(TARGET + 0x1000), expected);
}

#[test]
fn mod_detour_rip_relative_neg() {
  // xor eax, eax; mov al, [rip-8]; ret: the referent is the copied prolog
  let trampoline = build(
    TARGET,
    vec![
      (vec![0x31, 0xC0], Mnemonic::Other, None, None),
      (vec![0x8A, 0x05, 0xF8, 0xFF, 0xFF, 0xFF], Mnemonic::Other, Some(-8), None),
    ],
  )
  .unwrap();
  let mut expected = vec![0x31, 0xC0, 0x8A, 0x05, 0xF8, 0xFF, 0xFF, 0xFF];
  expected.extend(jump_abs(TARGET + 8));
  assert_eq!(trampoline.emitter().emit(0x7000_0000), expected);
}

#[test]
fn same_detour_and_target() {
  let error = check_distinct(TARGET, TARGET).unwrap_err();
  assert!(matches!(error, Error::SameAddress));
  assert!(check_distinct(TARGET, TARGET + 1).is_ok());
  let error = check_addresses(TARGET, TARGET, Ok(true), Ok(true)).unwrap_err();
  assert!(matches!(error, Error::SameAddress));
}

#[test]
fn non_executable_addresses_are_refused() {
  let error = check_addresses(TARGET, TARGET + 1, Ok(false), Ok(true)).unwrap_err();
  assert!(matches!(error, Error::NotExecutable));
  let error = check_addresses(TARGET, TARGET + 1, Ok(true), Ok(false)).unwrap_err();
  assert!(matches!(error, Error::NotExecutable));
  let error = check_addresses(
    TARGET,
    TARGET + 1,
    Err(Error::RegionFailure(String::from("query failed"))),
    Ok(true),
  )
  .unwrap_err();
  assert!(matches!(error, Error::RegionFailure(_)));
  assert!(check_addresses(TARGET, TARGET + 1, Ok(true), Ok(true)).is_ok());
}

#[test]
fn detours_share_target() {
  // The first detour patched the target with `jmp first_detour`; a second
  // detour relocates that jump, so its trampoline runs the first detour.
  let first_detour = TARGET + 0x2000;
  let displacement = (first_detour - (TARGET + 5)) as i32;
  let mut jump = vec![0xE9];
  jump.extend(displacement.to_le_bytes());
  let trampoline = build(
    TARGET,
    vec![(jump.clone(), Mnemonic::Jump, None, Some(displacement))],
  )
  .unwrap();
  assert_eq!(trampoline.prolog_size(), 5);
  assert_eq!(trampoline.emitter().emit(0x7000_0000), jump_abs(first_detour));

  // The second patcher keeps the first redirect as its original bytes
  let head: Vec<u8> = jump.clone();
  let mut patcher = Patcher::new(TARGET, TARGET + 0x3000, 5, &head, &[], false).unwrap();
  patcher.toggle(true);
  patcher.toggle(false);
  assert_eq!(patcher.area(), &jump[..]);
}

#[test]
fn nothing_decoded_is_invalid_code() {
  let mut builder = Builder::new(TARGET, 5);
  assert!(matches!(builder.step(None).unwrap_err(), Error::InvalidCode));
  assert!(Instruction::new(TARGET, vec![], Mnemonic::Other, None, 0, None).is_none());
  assert!(Instruction::new(TARGET, vec![0x90; 16], Mnemonic::Other, None, 0, None).is_none());
}

#[test]
fn call_in_prolog_becomes_absolute_call() {
  // call +0x100; then the margin is reached
  let trampoline = build(
    TARGET,
    vec![(vec![0xE8, 0x00, 0x01, 0x00, 0x00], Mnemonic::Call, None, Some(0x100))],
  )
  .unwrap();
  let mut expected = vec![0xFF, 0x15, 0x02, 0, 0, 0, 0xEB, 0x08];
  expected.extend(le64(TARGET + 5 + 0x100));
  expected.extend(jump_abs(TARGET + 5));
  assert_eq!(trampoline.emitter().emit(0x7000_0000), expected);
}

#[test]
fn resized_instruction_before_internal_branch_is_unsupported() {
  // jz +1 (inside the prolog); jnz far (grows, before the branch target)
  let mut builder = Builder::new(TARGET, 5);
  let first = Instruction::new(TARGET, vec![0x74, 0x01], Mnemonic::Other, None, 0, Some(1));
  assert!(builder.step(first).is_ok());
  assert_eq!(builder.branch_address, Some(TARGET + 3));
  let second = Instruction::new(TARGET + 2, vec![0x75, 0x7F], Mnemonic::Other, None, 0, Some(0x7F));
  assert!(second.is_some());
  // The second instruction starts before the branch destination
  let error = builder.step(second).unwrap_err();
  assert!(matches!(error, Error::UnsupportedInstruction));
}

#[test]
fn too_small_prolog_without_padding_has_no_patch_area() {
  // a one-byte prolog (ret) followed by code
  let head = [0xC3, 0xB8, 0x05, 0x00, 0x00];
  assert!(matches!(Patcher::patch_kind(&head, 1).unwrap_err(), Error::NoPatchArea));
  // a hot patch without padding before the target
  let head = [0x31, 0xC0, 0xC3, 0xB8, 0x05];
  let error = Patcher::new(TARGET, TARGET + 0x10, 3, &head, &[0x55; 5], true).unwrap_err();
  assert!(matches!(error, Error::NoPatchArea));
  // a hot patch area that is not executable
  let error = Patcher::new(TARGET, TARGET + 0x10, 3, &head, &[0xCC; 5], false).unwrap_err();
  assert!(matches!(error, Error::NoPatchArea));
}

#[test]
fn larger_margin_consumes_whole_instructions() {
  // push rbp; mov rbp, rsp; sub rsp, 0x10 with a margin of 6
  let mut builder = Builder::new(TARGET, 6);
  let code: Vec<Vec<u8>> = vec![vec![0x55], vec![0x48, 0x89, 0xE5], vec![0x48, 0x83, 0xEC, 0x10]];
  for bytes in code {
    let instruction = Instruction::new(builder.next_address(), bytes, Mnemonic::Other, None, 0, None);
    builder.step(instruction).unwrap();
  }
  assert!(builder.is_finished());
  let trampoline = builder.build();
  assert_eq!(trampoline.prolog_size(), 8);
  let mut expected = vec![0x55, 0x48, 0x89, 0xE5, 0x48, 0x83, 0xEC, 0x10];
  expected.extend(jump_abs(TARGET + 8));
  assert_eq!(trampoline.emitter().emit(0x10_0000), expected);
}

#[test]
fn patch_areas_and_their_bytes_have_one_length() {
  let head = [0x55, 0x48, 0x89, 0xE5, 0x48];
  let mut patcher = Patcher::new(TARGET, TARGET - 0x1000, 5, &head, &[], false).unwrap();
  assert_eq!(patcher.patch_size(), 5);
  assert!(!patcher.is_patched());
  patcher.toggle(true);
  assert!(patcher.is_patched());
  assert_eq!(patcher.area().len(), 5);
  // 0x3F_F000 - 0x40_0005 = -0x1005
  assert_eq!(patcher.area(), &[0xE9, 0xFB, 0xEF, 0xFF, 0xFF][..]);
  patcher.toggle(false);
  assert_eq!(patcher.area(), &head[..]);
  assert_eq!(Patcher::default_patch_size(), 5);
}

#[test]
fn patch_that_cannot_reach_its_destination_is_refused() {
  let head = [0x55, 0x48, 0x89, 0xE5, 0x48];
  let far = TARGET + 0x1_0000_0000;
  let error = Patcher::new(TARGET, far, 5, &head, &[], false).unwrap_err();
  assert!(matches!(error, Error::NoPatchArea));
}

#[test]
fn relay_only_for_distant_detours() {
  assert!(relay_builder(TARGET, TARGET + 0x1000).is_none());
  let target = 0x1_0000_0000;
  assert!(relay_builder(target, target + 0x7FFF_FFFF).is_none());
  assert!(relay_builder(target, target + 0x8000_0000).is_some());
  assert!(relay_builder(target, target - 0x7FFF_FFFF).is_none());
  assert!(relay_builder(target, target - 0x8000_0000).is_some());
  let far = TARGET + 0x1_0000_0000;
  let relay = relay_builder(TARGET, far).unwrap();
  assert_eq!(relay.len(), 14);
  assert_eq!(relay.emit(TARGET + 0x1000), jump_abs(far));
}

#[test]
fn errors_describe_themselves() {
  assert_eq!(Error::SameAddress.message(), "Target and detour address is the same");
  assert_eq!(Error::UnsupportedInstruction.message(), "Address contains an unsupported instruction");
  assert_eq!(Error::RegionFailure(String::from("System call failed")).message(), "System call failed");
}

#[test]
fn rip_displacement_before_an_immediate_is_rewritten() {
  // mov dword [rip+0x10], 0x12345678: the displacement is at offset 2
  let bytes = vec![0xC7, 0x05, 0x10, 0x00, 0x00, 0x00, 0x78, 0x56, 0x34, 0x12];
  let mut builder = Builder::new(TARGET, 5);
  let instruction = Instruction::new(TARGET, bytes, Mnemonic::Other, Some(0x10), 2, None);
  builder.step(instruction).unwrap();
  let trampoline = builder.build();
  // 0x40_0000 - 0x40_1000 + 0x10 = -0xFF0
  let mut expected = vec![0xC7, 0x05, 0x10, 0xF0, 0xFF, 0xFF, 0x78, 0x56, 0x34, 0x12];
  expected.extend(jump_abs(TARGET + 10));
  assert_eq!(trampoline.emitter().emit(TARGET + 0x1000), expected);
  // A displacement that does not fit within the bytes is no instruction
  assert!(Instruction::new(TARGET, vec![0x8A, 0x05, 0, 0, 0, 0], Mnemonic::Other, Some(0), 3, None).is_none());
}

#[test]
fn branch_destination_wraps_around_the_address_space() {
  // call -0x100 at 0x10: the destination wraps below address zero
  let mut builder = Builder::new(0x10, 5);
  let call = Instruction::new(0x10, vec![0xE8, 0x00, 0xFF, 0xFF, 0xFF], Mnemonic::Call, None, 0, Some(-0x100));
  builder.step(call).unwrap();
  let wrapped = 0x15usize.wrapping_sub(0x100);
  let mut expected = vec![0xFF, 0x15, 0x02, 0, 0, 0, 0xEB, 0x08];
  expected.extend(le64(wrapped));
  expected.extend(jump_abs(0x15));
  assert_eq!(builder.build().emitter().emit(0x1000), expected);

  // a loop whose destination wraps is still unsupported
  let mut builder = Builder::new(0x10, 5);
  let escape = Instruction::new(0x10, vec![0xE2, 0x80], Mnemonic::Loop, None, 0, Some(-0x80));
  assert!(matches!(builder.step(escape).unwrap_err(), Error::UnsupportedInstruction));
}
