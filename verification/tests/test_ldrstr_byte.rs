//! Byte loads and stores, aligned and misaligned, with
//! and without sign extension.

use narm::narmvm::NarmVM;

/// A machine with `ops` assembled at 0x1_0000 (64 KiB of code memory), a
/// 64 KiB stack segment at 0x8100_0000, and the program counter at the
/// first instruction.
fn ldb_vm(ops: &[u16]) -> NarmVM {
    let mut vm = NarmVM::default();
    vm.memory.add_memory(0x1_0000, 0x1_0000).unwrap();
    let mut bytes: Vec<u8> = Vec::new();
    for op in ops {
        bytes.push((op & 0xFF) as u8);
        bytes.push((op >> 8) as u8);
    }
    vm.copy_into_memory(0x1_0000, &bytes).unwrap();
    vm.memory.add_memory(0x8100_0000, 0xFFFF).unwrap();
    vm.set_thumb_pc_address(0x1_0000);
    vm.gas_remaining = 10_000;
    vm
}

/// Compare every register r0-r14 and all four flags against expectations.
fn ldb_check(vm: &NarmVM, regs: &[u32; 15], flags: (bool, bool, bool, bool)) {
    for i in 0..15 {
        assert_eq!(vm.external_get_reg(i), regs[i], "register r{}", i);
    }
    assert_eq!(vm.cpsr.n, flags.0, "flag n");
    assert_eq!(vm.cpsr.z, flags.1, "flag z");
    assert_eq!(vm.cpsr.c, flags.2, "flag c");
    assert_eq!(vm.cpsr.v, flags.3, "flag v");
}

#[test]
pub fn test_ldrstr_byte_load() {
    // ldrb r0, [r1, #0x1C]
    let mut vm = ldb_vm(&[0x7F08, 0xDFFF]);
    vm.memory.set_u32(0x8100001C, 0x1D).unwrap();
    vm.external_set_reg(1, 0x81000000);
    vm.external_set_reg(2, 0xBEEC);
    vm.set_sp(0x81000000);
    assert_eq!(vm.execute().unwrap(), 0xFF);
    let mut r = [0u32; 15];
    r[0] = 0x1D;
    r[1] = 0x81000000;
    r[2] = 0xBEEC;
    r[13] = 0x81000000;
    ldb_check(&vm, &r, (false, false, false, false));

    // ldrb r0, [r1, r2]
    let mut vm = ldb_vm(&[0x5C88, 0xDFFF]);
    vm.memory.set_u32(0x8100BEEC, 0x1D).unwrap();
    vm.external_set_reg(1, 0x81000000);
    vm.external_set_reg(2, 0xBEEC);
    vm.set_sp(0x81000000);
    assert_eq!(vm.execute().unwrap(), 0xFF);
    let mut r = [0u32; 15];
    r[0] = 0x1D;
    r[1] = 0x81000000;
    r[2] = 0xBEEC;
    r[13] = 0x81000000;
    ldb_check(&vm, &r, (false, false, false, false));

    // ldrsb r0, [r1, r2]
    let mut vm = ldb_vm(&[0x5688, 0xDFFF]);
    vm.memory.set_u32(0x8100BEEC, 0x1D).unwrap();
    vm.external_set_reg(1, 0x81000000);
    vm.external_set_reg(2, 0xBEEC);
    vm.set_sp(0x81000000);
    assert_eq!(vm.execute().unwrap(), 0xFF);
    let mut r = [0u32; 15];
    r[0] = 0x1D;
    r[1] = 0x81000000;
    r[2] = 0xBEEC;
    r[13] = 0x81000000;
    ldb_check(&vm, &r, (false, false, false, false));
}

#[test]
pub fn test_ldrstr_byte_load_misalign() {
    // ldrb r0, [r1, #0x1D]
    let mut vm = ldb_vm(&[0x7F48, 0xDFFF]);
    vm.memory.set_u32(0x8100001C, 0x1D00).unwrap();
    vm.external_set_reg(1, 0x81000000);
    vm.external_set_reg(2, 0xBEED);
    vm.set_sp(0x81000000);
    assert_eq!(vm.execute().unwrap(), 0xFF);
    let mut r = [0u32; 15];
    r[0] = 0x1D;
    r[1] = 0x81000000;
    r[2] = 0xBEED;
    r[13] = 0x81000000;
    ldb_check(&vm, &r, (false, false, false, false));

    // ldrb r0, [r1, r2]
    let mut vm = ldb_vm(&[0x5C88, 0xDFFF]);
    vm.memory.set_u32(0x8100BEEC, 0x1D00).unwrap();
    vm.external_set_reg(1, 0x81000000);
    vm.external_set_reg(2, 0xBEED);
    vm.set_sp(0x81000000);
    assert_eq!(vm.execute().unwrap(), 0xFF);
    let mut r = [0u32; 15];
    r[0] = 0x1D;
    r[1] = 0x81000000;
    r[2] = 0xBEED;
    r[13] = 0x81000000;
    ldb_check(&vm, &r, (false, false, false, false));

    // ldrsb r0, [r1, r2]
    let mut vm = ldb_vm(&[0x5688, 0xDFFF]);
    vm.memory.set_u32(0x8100BEEC, 0x1D00).unwrap();
    vm.external_set_reg(1, 0x81000000);
    vm.external_set_reg(2, 0xBEED);
    vm.set_sp(0x81000000);
    assert_eq!(vm.execute().unwrap(), 0xFF);
    let mut r = [0u32; 15];
    r[0] = 0x1D;
    r[1] = 0x81000000;
    r[2] = 0xBEED;
    r[13] = 0x81000000;
    ldb_check(&vm, &r, (false, false, false, false));
}

#[test]
pub fn test_ldrstr_byte_store() {
    // strb r0, [r1, #0x1C]
    let mut vm = ldb_vm(&[0x7708, 0xDFFF]);
    vm.external_set_reg(0, 0x1D);
    vm.external_set_reg(1, 0x81000000);
    vm.external_set_reg(2, 0xBEEC);
    assert_eq!(vm.execute().unwrap(), 0xFF);
    let mut r = [0u32; 15];
    r[0] = 0x1D;
    r[1] = 0x81000000;
    r[2] = 0xBEEC;
    ldb_check(&vm, &r, (false, false, false, false));
    assert_eq!(vm.memory.get_u32(0x8100001C).unwrap(), 0x1D);

    // strb r0, [r1, r2]
    let mut vm = ldb_vm(&[0x5488, 0xDFFF]);
    vm.external_set_reg(0, 0x1D);
    vm.external_set_reg(1, 0x81000000);
    vm.external_set_reg(2, 0xBEEC);
    assert_eq!(vm.execute().unwrap(), 0xFF);
    let mut r = [0u32; 15];
    r[0] = 0x1D;
    r[1] = 0x81000000;
    r[2] = 0xBEEC;
    ldb_check(&vm, &r, (false, false, false, false));
    assert_eq!(vm.memory.get_u32(0x8100BEEC).unwrap(), 0x1D);
}

#[test]
pub fn test_ldrstr_byte_store_misaligned() {
    // strb r0, [r1, #0x1D]
    let mut vm = ldb_vm(&[0x7748, 0xDFFF]);
    vm.external_set_reg(0, 0x1D);
    vm.external_set_reg(1, 0x81000000);
    vm.external_set_reg(2, 0xBEED);
    assert_eq!(vm.execute().unwrap(), 0xFF);
    let mut r = [0u32; 15];
    r[0] = 0x1D;
    r[1] = 0x81000000;
    r[2] = 0xBEED;
    ldb_check(&vm, &r, (false, false, false, false));
    assert_eq!(vm.memory.get_u32(0x8100001C).unwrap(), 0x1D00);

    // strb r0, [r1, r2]
    let mut vm = ldb_vm(&[0x5488, 0xDFFF]);
    vm.external_set_reg(0, 0x1D);
    vm.external_set_reg(1, 0x81000000);
    vm.external_set_reg(2, 0xBEED);
    assert_eq!(vm.execute().unwrap(), 0xFF);
    let mut r = [0u32; 15];
    r[0] = 0x1D;
    r[1] = 0x81000000;
    r[2] = 0xBEED;
    ldb_check(&vm, &r, (false, false, false, false));
    assert_eq!(vm.memory.get_u32(0x8100BEEC).unwrap(), 0x1D00);
}

#[test]
pub fn test_ldrstr_byte_load_sign() {
    // ldrsb r0, [r1, r2]
    let mut vm = ldb_vm(&[0x5688, 0xDFFF]);
    vm.memory.set_u32(0x8100BEEC, 0x9D).unwrap();
    vm.external_set_reg(1, 0x81000000);
    vm.external_set_reg(2, 0xBEEC);
    assert_eq!(vm.execute().unwrap(), 0xFF);
    let mut r = [0u32; 15];
    r[0] = 0xFFFFFF9D;
    r[1] = 0x81000000;
    r[2] = 0xBEEC;
    ldb_check(&vm, &r, (false, false, false, false));
}

#[test]
pub fn test_ldrstr_byte_load_misaligned_sign() {
    // ldrsb r0, [r1, r2]
    let mut vm = ldb_vm(&[0x5688, 0xDFFF]);
    vm.memory.set_u32(0x8100BEEC, 0x9D00).unwrap();
    vm.external_set_reg(1, 0x81000000);
    vm.external_set_reg(2, 0xBEED);
    assert_eq!(vm.execute().unwrap(), 0xFF);
    let mut r = [0u32; 15];
    r[0] = 0xFFFFFF9D;
    r[1] = 0x81000000;
    r[2] = 0xBEED;
    ldb_check(&vm, &r, (false, false, false, false));
}
