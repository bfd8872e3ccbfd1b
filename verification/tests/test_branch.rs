//! The branch instructions: unconditional, conditional on
//! every predicate, register-indirect, and with-link variants.

use narm::narmvm::NarmVM;

/// A machine with `ops` assembled at 0x1_0000 (64 KiB of code memory), a
/// 64 KiB stack segment at 0x8100_0000, and the program counter at the
/// first instruction.
fn br_vm(ops: &[u16]) -> NarmVM {
    let mut vm = NarmVM::default();
    vm.memory.add_memory(0x1_0000, 0x1_0000).unwrap();
    let mut bytes: Vec<u8> = Vec::new();
    for op in ops {
        bytes.push((op & 0xFF) as u8);
        bytes.push((op >> 8) as u8);
    }
    vm.copy_into_memory(0x1_0000, &bytes).unwrap();
    vm.memory.add_memory(0x8100_0000, 0xFFFF).unwrap();
    vm.set_thumb_pc_address(0x1_0000);
    vm.gas_remaining = 10_000;
    vm
}

/// Compare every register r0-r14 and all four flags against expectations.
fn br_check(vm: &NarmVM, regs: &[u32; 15], flags: (bool, bool, bool, bool)) {
    for i in 0..15 {
        assert_eq!(vm.external_get_reg(i), regs[i], "register r{}", i);
    }
    assert_eq!(vm.cpsr.n, flags.0, "flag n");
    assert_eq!(vm.cpsr.z, flags.1, "flag z");
    assert_eq!(vm.cpsr.c, flags.2, "flag c");
    assert_eq!(vm.cpsr.v, flags.3, "flag v");
}

#[test]
pub fn test_branch_forward() {
    // b over the failing svc
    let mut vm = br_vm(&[0xE000, 0xDF01, 0x20CD, 0xDFFF]);
    vm.external_set_reg(1, 0x10005);
    assert_eq!(vm.execute().unwrap(), 0xFF);
    let mut r = [0u32; 15];
    r[0] = 0xCD;
    r[1] = 0x10005;
    br_check(&vm, &r, (false, false, false, false));

    // bne over the failing svc (Z clear)
    let mut vm = br_vm(&[0xD100, 0xDF01, 0x20CD, 0xDFFF]);
    vm.external_set_reg(1, 0x10005);
    assert_eq!(vm.execute().unwrap(), 0xFF);
    let mut r = [0u32; 15];
    r[0] = 0xCD;
    r[1] = 0x10005;
    br_check(&vm, &r, (false, false, false, false));

    // bx r1
    let mut vm = br_vm(&[0x4708, 0xDF01, 0x20CD, 0xDFFF]);
    vm.external_set_reg(1, 0x10005);
    assert_eq!(vm.execute().unwrap(), 0xFF);
    let mut r = [0u32; 15];
    r[0] = 0xCD;
    r[1] = 0x10005;
    br_check(&vm, &r, (false, false, false, false));

    // bl over the failing svc
    let mut vm = br_vm(&[0xF000, 0xF801, 0xDF01, 0x20CD, 0xDFFF]);
    vm.external_set_reg(1, 0x10005);
    assert_eq!(vm.execute().unwrap(), 0xFF);
    let mut r = [0u32; 15];
    r[0] = 0xCD;
    r[1] = 0x10005;
    r[14] = 0x10005;
    br_check(&vm, &r, (false, false, false, false));

    // blx r1
    let mut vm = br_vm(&[0x4788, 0xDF01, 0x20CD, 0xDFFF]);
    vm.external_set_reg(1, 0x10005);
    assert_eq!(vm.execute().unwrap(), 0xFF);
    let mut r = [0u32; 15];
    r[0] = 0xCD;
    r[1] = 0x10005;
    r[14] = 0x10003;
    br_check(&vm, &r, (false, false, false, false));
}

#[test]
pub fn test_branch_backward() {
    // b back to the leading movs
    let mut vm = br_vm(&[0x20CD, 0xDFFF, 0xE7FC, 0x2000, 0xDF01]);
    vm.set_thumb_pc_address(0x10005);
    vm.external_set_reg(1, 0x10001);
    assert_eq!(vm.execute().unwrap(), 0xFF);
    let mut r = [0u32; 15];
    r[0] = 0xCD;
    r[1] = 0x10001;
    br_check(&vm, &r, (false, false, false, false));

    // bne back to the leading movs
    let mut vm = br_vm(&[0x20CD, 0xDFFF, 0xD1FC, 0x2000, 0xDF01]);
    vm.set_thumb_pc_address(0x10005);
    vm.external_set_reg(1, 0x10001);
    assert_eq!(vm.execute().unwrap(), 0xFF);
    let mut r = [0u32; 15];
    r[0] = 0xCD;
    r[1] = 0x10001;
    br_check(&vm, &r, (false, false, false, false));

    // bx r1 back to the start
    let mut vm = br_vm(&[0x20CD, 0xDFFF, 0x4708, 0x2000, 0xDF01]);
    vm.set_thumb_pc_address(0x10005);
    vm.external_set_reg(1, 0x10001);
    assert_eq!(vm.execute().unwrap(), 0xFF);
    let mut r = [0u32; 15];
    r[0] = 0xCD;
    r[1] = 0x10001;
    br_check(&vm, &r, (false, false, false, false));

    // bl back to the start
    let mut vm = br_vm(&[0x20CD, 0xDFFF, 0xF7FF, 0xFFFC, 0x2000, 0xDF01]);
    vm.set_thumb_pc_address(0x10005);
    vm.external_set_reg(1, 0x10001);
    assert_eq!(vm.execute().unwrap(), 0xFF);
    let mut r = [0u32; 15];
    r[0] = 0xCD;
    r[1] = 0x10001;
    r[14] = 0x10009;
    br_check(&vm, &r, (false, false, false, false));

    // blx r1 back to the start
    let mut vm = br_vm(&[0x20CD, 0xDFFF, 0x4788, 0x2000, 0xDF01]);
    vm.set_thumb_pc_address(0x10005);
    vm.external_set_reg(1, 0x10001);
    assert_eq!(vm.execute().unwrap(), 0xFF);
    let mut r = [0u32; 15];
    r[0] = 0xCD;
    r[1] = 0x10001;
    r[14] = 0x10007;
    br_check(&vm, &r, (false, false, false, false));
}

#[test]
pub fn test_branch_far_forward() {
    // bx r1 into unloaded memory
    let mut vm = br_vm(&[0x4708, 0xDFFF]);
    vm.external_set_reg(1, 0x40D41);
    assert!(vm.execute().is_err());
    let mut r = [0u32; 15];
    r[1] = 0x40D41;
    br_check(&vm, &r, (false, false, false, false));

    // bl into unloaded memory
    let mut vm = br_vm(&[0xF0DF, 0xFFFE, 0xDFFF]);
    vm.external_set_reg(1, 0x40D41);
    assert!(vm.execute().is_err());
    let mut r = [0u32; 15];
    r[1] = 0x40D41;
    r[14] = 0x10005;
    br_check(&vm, &r, (false, false, false, false));

    // blx r1 into unloaded memory
    let mut vm = br_vm(&[0x4788, 0xDFFF]);
    vm.external_set_reg(1, 0x40D41);
    assert!(vm.execute().is_err());
    let mut r = [0u32; 15];
    r[1] = 0x40D41;
    r[14] = 0x10003;
    br_check(&vm, &r, (false, false, false, false));
}

#[test]
pub fn test_branch_far_backward() {
    // bx r1 below the code segment
    let mut vm = br_vm(&[0x4708, 0xDFFF]);
    vm.external_set_reg(1, 0x50);
    assert!(vm.execute().is_err());
    let mut r = [0u32; 15];
    r[1] = 0x50;
    br_check(&vm, &r, (false, false, false, false));

    // bl below the code segment
    let mut vm = br_vm(&[0xF7F0, 0xF826, 0xDFFF]);
    vm.external_set_reg(1, 0x50);
    assert!(vm.execute().is_err());
    let mut r = [0u32; 15];
    r[1] = 0x50;
    r[14] = 0x10005;
    br_check(&vm, &r, (false, false, false, false));

    // blx r1 below the code segment
    let mut vm = br_vm(&[0x4788, 0xDFFF]);
    vm.external_set_reg(1, 0x50);
    assert!(vm.execute().is_err());
    let mut r = [0u32; 15];
    r[1] = 0x50;
    r[14] = 0x10003;
    br_check(&vm, &r, (false, false, false, false));
}

#[test]
pub fn test_branch_conditions() {
    // beq (Z set)
    let mut vm = br_vm(&[0xD001, 0x2001, 0xDF01, 0xDFFF]);
    vm.cpsr.n = false;
    vm.cpsr.z = true;
    vm.cpsr.c = false;
    vm.cpsr.v = false;
    assert_eq!(vm.execute().unwrap(), 0xFF);
    let mut r = [0u32; 15];
    br_check(&vm, &r, (false, true, false, false));

    // bne (Z clear)
    let mut vm = br_vm(&[0xD101, 0x2001, 0xDF01, 0xDFFF]);
    assert_eq!(vm.execute().unwrap(), 0xFF);
    let mut r = [0u32; 15];
    br_check(&vm, &r, (false, false, false, false));

    // bcs (C set)
    let mut vm = br_vm(&[0xD201, 0x2001, 0xDF01, 0xDFFF]);
    vm.cpsr.n = false;
    vm.cpsr.z = false;
    vm.cpsr.c = true;
    vm.cpsr.v = false;
    assert_eq!(vm.execute().unwrap(), 0xFF);
    let mut r = [0u32; 15];
    br_check(&vm, &r, (false, false, true, false));

    // bcc (C clear)
    let mut vm = br_vm(&[0xD301, 0x2001, 0xDF01, 0xDFFF]);
    assert_eq!(vm.execute().unwrap(), 0xFF);
    let mut r = [0u32; 15];
    br_check(&vm, &r, (false, false, false, false));

    // bmi (N set)
    let mut vm = br_vm(&[0xD401, 0x2001, 0xDF01, 0xDFFF]);
    vm.cpsr.n = true;
    vm.cpsr.z = false;
    vm.cpsr.c = false;
    vm.cpsr.v = false;
    assert_eq!(vm.execute().unwrap(), 0xFF);
    let mut r = [0u32; 15];
    br_check(&vm, &r, (true, false, false, false));

    // bpl (N clear)
    let mut vm = br_vm(&[0xD501, 0x2001, 0xDF01, 0xDFFF]);
    assert_eq!(vm.execute().unwrap(), 0xFF);
    let mut r = [0u32; 15];
    br_check(&vm, &r, (false, false, false, false));

    // bvs (V set)
    let mut vm = br_vm(&[0xD601, 0x2001, 0xDF01, 0xDFFF]);
    vm.cpsr.n = false;
    vm.cpsr.z = false;
    vm.cpsr.c = false;
    vm.cpsr.v = true;
    assert_eq!(vm.execute().unwrap(), 0xFF);
    let mut r = [0u32; 15];
    br_check(&vm, &r, (false, false, false, true));

    // bvc (V clear)
    let mut vm = br_vm(&[0xD701, 0x2001, 0xDF01, 0xDFFF]);
    assert_eq!(vm.execute().unwrap(), 0xFF);
    let mut r = [0u32; 15];
    br_check(&vm, &r, (false, false, false, false));

    // bhi (C set, Z clear)
    let mut vm = br_vm(&[0xD801, 0x2001, 0xDF01, 0xDFFF]);
    vm.cpsr.n = false;
    vm.cpsr.z = false;
    vm.cpsr.c = true;
    vm.cpsr.v = false;
    assert_eq!(vm.execute().unwrap(), 0xFF);
    let mut r = [0u32; 15];
    br_check(&vm, &r, (false, false, true, false));

    // bls (C clear)
    let mut vm = br_vm(&[0xD901, 0x2001, 0xDF01, 0xDFFF]);
    assert_eq!(vm.execute().unwrap(), 0xFF);
    let mut r = [0u32; 15];
    br_check(&vm, &r, (false, false, false, false));

    // bls (C and Z set)
    let mut vm = br_vm(&[0xD901, 0x2001, 0xDF01, 0xDFFF]);
    vm.cpsr.n = false;
    vm.cpsr.z = true;
    vm.cpsr.c = true;
    vm.cpsr.v = false;
    assert_eq!(vm.execute().unwrap(), 0xFF);
    let mut r = [0u32; 15];
    br_check(&vm, &r, (false, true, true, false));

    // bge (N == V, both set)
    let mut vm = br_vm(&[0xDA01, 0x2001, 0xDF01, 0xDFFF]);
    vm.cpsr.n = true;
    vm.cpsr.z = false;
    vm.cpsr.c = false;
    vm.cpsr.v = true;
    assert_eq!(vm.execute().unwrap(), 0xFF);
    let mut r = [0u32; 15];
    br_check(&vm, &r, (true, false, false, true));

    // bge (N == V, both clear)
    let mut vm = br_vm(&[0xDA01, 0x2001, 0xDF01, 0xDFFF]);
    assert_eq!(vm.execute().unwrap(), 0xFF);
    let mut r = [0u32; 15];
    br_check(&vm, &r, (false, false, false, false));

    // blt (N set, V clear)
    let mut vm = br_vm(&[0xDB01, 0x2001, 0xDF01, 0xDFFF]);
    vm.cpsr.n = true;
    vm.cpsr.z = false;
    vm.cpsr.c = false;
    vm.cpsr.v = false;
    assert_eq!(vm.execute().unwrap(), 0xFF);
    let mut r = [0u32; 15];
    br_check(&vm, &r, (true, false, false, false));

    // blt (N clear, V set)
    let mut vm = br_vm(&[0xDB01, 0x2001, 0xDF01, 0xDFFF]);
    vm.cpsr.n = false;
    vm.cpsr.z = false;
    vm.cpsr.c = false;
    vm.cpsr.v = true;
    assert_eq!(vm.execute().unwrap(), 0xFF);
    let mut r = [0u32; 15];
    br_check(&vm, &r, (false, false, false, true));

    // bgt (Z, N, V clear)
    let mut vm = br_vm(&[0xDC01, 0x2001, 0xDF01, 0xDFFF]);
    assert_eq!(vm.execute().unwrap(), 0xFF);
    let mut r = [0u32; 15];
    br_check(&vm, &r, (false, false, false, false));

    // bgt (Z clear, N and V set)
    let mut vm = br_vm(&[0xDC01, 0x2001, 0xDF01, 0xDFFF]);
    vm.cpsr.n = true;
    vm.cpsr.z = false;
    vm.cpsr.c = false;
    vm.cpsr.v = true;
    assert_eq!(vm.execute().unwrap(), 0xFF);
    let mut r = [0u32; 15];
    br_check(&vm, &r, (true, false, false, true));

    // ble (Z, N, V set)
    let mut vm = br_vm(&[0xDD01, 0x2001, 0xDF01, 0xDFFF]);
    vm.cpsr.n = true;
    vm.cpsr.z = true;
    vm.cpsr.c = false;
    vm.cpsr.v = true;
    assert_eq!(vm.execute().unwrap(), 0xFF);
    let mut r = [0u32; 15];
    br_check(&vm, &r, (true, true, false, true));

    // ble (N set, V clear)
    let mut vm = br_vm(&[0xDD01, 0x2001, 0xDF01, 0xDFFF]);
    vm.cpsr.n = true;
    vm.cpsr.z = false;
    vm.cpsr.c = false;
    vm.cpsr.v = false;
    assert_eq!(vm.execute().unwrap(), 0xFF);
    let mut r = [0u32; 15];
    br_check(&vm, &r, (true, false, false, false));

    // ble (N clear, V set)
    let mut vm = br_vm(&[0xDD01, 0x2001, 0xDF01, 0xDFFF]);
    vm.cpsr.n = false;
    vm.cpsr.z = false;
    vm.cpsr.c = false;
    vm.cpsr.v = true;
    assert_eq!(vm.execute().unwrap(), 0xFF);
    let mut r = [0u32; 15];
    br_check(&vm, &r, (false, false, false, true));
}

#[test]
pub fn test_branch_alignment() {
    // nop; b over the failing svc (branch op not 4-aligned)
    let mut vm = br_vm(&[0xBF00, 0xE002, 0xBF00, 0xBF00, 0xDF01, 0x20CD, 0xDFFF]);
    vm.external_set_reg(1, 0x1000B);
    assert_eq!(vm.execute().unwrap(), 0xFF);
    let mut r = [0u32; 15];
    r[0] = 0xCD;
    r[1] = 0x1000B;
    br_check(&vm, &r, (false, false, false, false));

    // nop; bne over the failing svc (branch op not 4-aligned)
    let mut vm = br_vm(&[0xBF00, 0xD102, 0xBF00, 0xBF00, 0xDF01, 0x20CD, 0xDFFF]);
    vm.external_set_reg(1, 0x1000B);
    assert_eq!(vm.execute().unwrap(), 0xFF);
    let mut r = [0u32; 15];
    r[0] = 0xCD;
    r[1] = 0x1000B;
    br_check(&vm, &r, (false, false, false, false));

    // nop; bx r1 to a halfword-aligned target
    let mut vm = br_vm(&[0xBF00, 0x4708, 0xBF00, 0xBF00, 0xDF01, 0x20CD, 0xDFFF]);
    vm.external_set_reg(1, 0x1000B);
    assert_eq!(vm.execute().unwrap(), 0xFF);
    let mut r = [0u32; 15];
    r[0] = 0xCD;
    r[1] = 0x1000B;
    br_check(&vm, &r, (false, false, false, false));

    // nop; bl from a non-4-aligned address
    let mut vm = br_vm(&[0xBF00, 0xF000, 0xF803, 0xBF00, 0xBF00, 0xDF01, 0x20CD, 0xDFFF]);
    vm.external_set_reg(1, 0x1000B);
    assert_eq!(vm.execute().unwrap(), 0xFF);
    let mut r = [0u32; 15];
    r[0] = 0xCD;
    r[1] = 0x1000B;
    r[14] = 0x10007;
    br_check(&vm, &r, (false, false, false, false));

    // nop; blx r1 from a non-4-aligned address
    let mut vm = br_vm(&[0xBF00, 0x4788, 0xBF00, 0xBF00, 0xDF01, 0x20CD, 0xDFFF]);
    vm.external_set_reg(1, 0x1000B);
    assert_eq!(vm.execute().unwrap(), 0xFF);
    let mut r = [0u32; 15];
    r[0] = 0xCD;
    r[1] = 0x1000B;
    r[14] = 0x10005;
    br_check(&vm, &r, (false, false, false, false));
}

#[test]
pub fn test_branch_and_return() {
    // blx r1 into a subroutine, then blx r14 back to the exit
    let mut vm = br_vm(&[0x4788, 0xDFFF, 0x20CD, 0x47F0, 0x2001, 0xDF01]);
    vm.external_set_reg(1, 0x10005);
    assert_eq!(vm.execute().unwrap(), 0xFF);
    let mut r = [0u32; 15];
    r[0] = 0xCD;
    r[1] = 0x10005;
    r[14] = 0x10009;
    br_check(&vm, &r, (false, false, false, false));
}

#[test]
pub fn test_branch_alignment_bl() {
    // a chain of bl ops at 4-aligned and non-4-aligned addresses
    let mut vm = br_vm(&[0xF000, 0xF801, 0xDF01, 0xF000, 0xF802, 0xDF02, 0xDF03, 0xF000, 0xF803, 0xDF04, 0xDF05, 0xDF06, 0xDFFF, 0xDF07, 0xDF08]);
    assert_eq!(vm.execute().unwrap(), 0xFF);
    let mut r = [0u32; 15];
    r[14] = 0x10013;
    br_check(&vm, &r, (false, false, false, false));
}
