//! The bitwise logic instructions: AND, TST, BIC, ORR and
//! EOR leave C and V untouched and set N and Z.

use narm::narmvm::NarmVM;

/// A machine with `ops` assembled at 0x1_0000 (64 KiB of code memory), a
/// 64 KiB stack segment at 0x8100_0000, and the program counter at the
/// first instruction.
fn bitlogic_vm(ops: &[u16]) -> NarmVM {
    let mut vm = NarmVM::default();
    vm.memory.add_memory(0x1_0000, 0x1_0000).unwrap();
    let mut bytes: Vec<u8> = Vec::new();
    for op in ops {
        bytes.push((op & 0xFF) as u8);
        bytes.push((op >> 8) as u8);
    }
    vm.copy_into_memory(0x1_0000, &bytes).unwrap();
    vm.memory.add_memory(0x8100_0000, 0xFFFF).unwrap();
    vm.set_thumb_pc_address(0x1_0000);
    vm.gas_remaining = 10_000;
    vm
}

/// Compare every register r0-r14 and all four flags against expectations.
fn bitlogic_check(vm: &NarmVM, regs: &[u32; 15], flags: (bool, bool, bool, bool)) {
    for i in 0..15 {
        assert_eq!(vm.external_get_reg(i), regs[i], "register r{}", i);
    }
    assert_eq!(vm.cpsr.n, flags.0, "flag n");
    assert_eq!(vm.cpsr.z, flags.1, "flag z");
    assert_eq!(vm.cpsr.c, flags.2, "flag c");
    assert_eq!(vm.cpsr.v, flags.3, "flag v");
}

#[test]
pub fn test_bitlogic_result() {
    // ands r0, r1
    let mut vm = bitlogic_vm(&[0x4008, 0xDFFF]);
    vm.external_set_reg(0, 0x1111);
    vm.external_set_reg(1, 0x1010101);
    assert_eq!(vm.execute().unwrap(), 0xFF);
    let mut r = [0u32; 15];
    r[0] = 0x101;
    r[1] = 0x1010101;
    bitlogic_check(&vm, &r, (false, false, false, false));

    // bics r0, r1
    let mut vm = bitlogic_vm(&[0x4388, 0xDFFF]);
    vm.external_set_reg(0, 0x1111);
    vm.external_set_reg(1, 0x1010101);
    assert_eq!(vm.execute().unwrap(), 0xFF);
    let mut r = [0u32; 15];
    r[0] = 0x1010;
    r[1] = 0x1010101;
    bitlogic_check(&vm, &r, (false, false, false, false));

    // orrs r0, r1
    let mut vm = bitlogic_vm(&[0x4308, 0xDFFF]);
    vm.external_set_reg(0, 0x1111);
    vm.external_set_reg(1, 0x1010101);
    assert_eq!(vm.execute().unwrap(), 0xFF);
    let mut r = [0u32; 15];
    r[0] = 0x1011111;
    r[1] = 0x1010101;
    bitlogic_check(&vm, &r, (false, false, false, false));

    // eors r0, r1
    let mut vm = bitlogic_vm(&[0x4048, 0xDFFF]);
    vm.external_set_reg(0, 0x1111);
    vm.external_set_reg(1, 0x1010101);
    assert_eq!(vm.execute().unwrap(), 0xFF);
    let mut r = [0u32; 15];
    r[0] = 0x1011010;
    r[1] = 0x1010101;
    bitlogic_check(&vm, &r, (false, false, false, false));
}

#[test]
pub fn test_bitlogic_flag_neg() {
    // ands r0, r1
    let mut vm = bitlogic_vm(&[0x4008, 0xDFFF]);
    vm.external_set_reg(0, 0x80010000);
    vm.external_set_reg(1, 0x80100000);
    vm.external_set_reg(2, 0x1000000);
    vm.external_set_reg(3, 0xFFFFFFFF);
    vm.cpsr.n = false;
    vm.cpsr.z = true;
    vm.cpsr.c = true;
    vm.cpsr.v = true;
    assert_eq!(vm.execute().unwrap(), 0xFF);
    let mut r = [0u32; 15];
    r[0] = 0x80000000;
    r[1] = 0x80100000;
    r[2] = 0x1000000;
    r[3] = 0xFFFFFFFF;
    bitlogic_check(&vm, &r, (true, false, true, true));

    // tst r0, r1
    let mut vm = bitlogic_vm(&[0x4208, 0xDFFF]);
    vm.external_set_reg(0, 0x80010000);
    vm.external_set_reg(1, 0x80100000);
    vm.external_set_reg(2, 0x1000000);
    vm.external_set_reg(3, 0xFFFFFFFF);
    vm.cpsr.n = false;
    vm.cpsr.z = true;
    vm.cpsr.c = true;
    vm.cpsr.v = true;
    assert_eq!(vm.execute().unwrap(), 0xFF);
    let mut r = [0u32; 15];
    r[0] = 0x80010000;
    r[1] = 0x80100000;
    r[2] = 0x1000000;
    r[3] = 0xFFFFFFFF;
    bitlogic_check(&vm, &r, (true, false, true, true));

    // bics r0, r2
    let mut vm = bitlogic_vm(&[0x4390, 0xDFFF]);
    vm.external_set_reg(0, 0x80010000);
    vm.external_set_reg(1, 0x80100000);
    vm.external_set_reg(2, 0x1000000);
    vm.external_set_reg(3, 0xFFFFFFFF);
    vm.cpsr.n = false;
    vm.cpsr.z = true;
    vm.cpsr.c = true;
    vm.cpsr.v = true;
    assert_eq!(vm.execute().unwrap(), 0xFF);
    let mut r = [0u32; 15];
    r[0] = 0x80010000;
    r[1] = 0x80100000;
    r[2] = 0x1000000;
    r[3] = 0xFFFFFFFF;
    bitlogic_check(&vm, &r, (true, false, true, true));

    // orrs r0, r1
    let mut vm = bitlogic_vm(&[0x4308, 0xDFFF]);
    vm.external_set_reg(0, 0x80010000);
    vm.external_set_reg(1, 0x80100000);
    vm.external_set_reg(2, 0x1000000);
    vm.external_set_reg(3, 0xFFFFFFFF);
    vm.cpsr.n = false;
    vm.cpsr.z = true;
    vm.cpsr.c = true;
    vm.cpsr.v = true;
    assert_eq!(vm.execute().unwrap(), 0xFF);
    let mut r = [0u32; 15];
    r[0] = 0x80110000;
    r[1] = 0x80100000;
    r[2] = 0x1000000;
    r[3] = 0xFFFFFFFF;
    bitlogic_check(&vm, &r, (true, false, true, true));

    // eors r0, r2
    let mut vm = bitlogic_vm(&[0x4050, 0xDFFF]);
    vm.external_set_reg(0, 0x80010000);
    vm.external_set_reg(1, 0x80100000);
    vm.external_set_reg(2, 0x1000000);
    vm.external_set_reg(3, 0xFFFFFFFF);
    vm.cpsr.n = false;
    vm.cpsr.z = true;
    vm.cpsr.c = true;
    vm.cpsr.v = true;
    assert_eq!(vm.execute().unwrap(), 0xFF);
    let mut r = [0u32; 15];
    r[0] = 0x81010000;
    r[1] = 0x80100000;
    r[2] = 0x1000000;
    r[3] = 0xFFFFFFFF;
    bitlogic_check(&vm, &r, (true, false, true, true));
}

#[test]
pub fn test_bitlogic_flag_zero() {
    // ands r0, r1
    let mut vm = bitlogic_vm(&[0x4008, 0xDFFF]);
    vm.external_set_reg(0, 0x10101010);
    vm.external_set_reg(1, 0x1010101);
    vm.external_set_reg(2, 0x0);
    vm.cpsr.n = true;
    vm.cpsr.z = false;
    vm.cpsr.c = true;
    vm.cpsr.v = true;
    assert_eq!(vm.execute().unwrap(), 0xFF);
    let mut r = [0u32; 15];
    r[1] = 0x1010101;
    bitlogic_check(&vm, &r, (false, true, true, true));

    // tst r0, r1
    let mut vm = bitlogic_vm(&[0x4208, 0xDFFF]);
    vm.external_set_reg(0, 0x10101010);
    vm.external_set_reg(1, 0x1010101);
    vm.external_set_reg(2, 0x0);
    vm.cpsr.n = true;
    vm.cpsr.z = false;
    vm.cpsr.c = true;
    vm.cpsr.v = true;
    assert_eq!(vm.execute().unwrap(), 0xFF);
    let mut r = [0u32; 15];
    r[0] = 0x10101010;
    r[1] = 0x1010101;
    bitlogic_check(&vm, &r, (false, true, true, true));

    // bics r0, r0
    let mut vm = bitlogic_vm(&[0x4380, 0xDFFF]);
    vm.external_set_reg(0, 0x10101010);
    vm.external_set_reg(1, 0x1010101);
    vm.external_set_reg(2, 0x0);
    vm.cpsr.n = true;
    vm.cpsr.z = false;
    vm.cpsr.c = true;
    vm.cpsr.v = true;
    assert_eq!(vm.execute().unwrap(), 0xFF);
    let mut r = [0u32; 15];
    r[1] = 0x1010101;
    bitlogic_check(&vm, &r, (false, true, true, true));

    // orrs r2, r2
    let mut vm = bitlogic_vm(&[0x4312, 0xDFFF]);
    vm.external_set_reg(0, 0x10101010);
    vm.external_set_reg(1, 0x1010101);
    vm.external_set_reg(2, 0x0);
    vm.cpsr.n = true;
    vm.cpsr.z = false;
    vm.cpsr.c = true;
    vm.cpsr.v = true;
    assert_eq!(vm.execute().unwrap(), 0xFF);
    let mut r = [0u32; 15];
    r[0] = 0x10101010;
    r[1] = 0x1010101;
    bitlogic_check(&vm, &r, (false, true, true, true));

    // eors r0, r0
    let mut vm = bitlogic_vm(&[0x4040, 0xDFFF]);
    vm.external_set_reg(0, 0x10101010);
    vm.external_set_reg(1, 0x1010101);
    vm.external_set_reg(2, 0x0);
    vm.cpsr.n = true;
    vm.cpsr.z = false;
    vm.cpsr.c = true;
    vm.cpsr.v = true;
    assert_eq!(vm.execute().unwrap(), 0xFF);
    let mut r = [0u32; 15];
    r[1] = 0x1010101;
    bitlogic_check(&vm, &r, (false, true, true, true));
}
