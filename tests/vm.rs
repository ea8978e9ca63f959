use tiny_vm::{parse_instruction, Addressable, LinearMemory, Machine, Op, Register, VmError};

#[test]
fn test_parse_instruction() {
    assert!(matches!(parse_instruction(0x0), Ok(Op::Nop)));
    assert!(matches!(parse_instruction(0x1), Ok(Op::Push(0))));
    assert!(matches!(
        parse_instruction(0x2),
        Ok(Op::PopRegister(Register::A))
    ));
    assert!(matches!(parse_instruction(0x3), Ok(Op::AddStack)));
    assert!(matches!(
        parse_instruction(0x4),
        Ok(Op::AddRegister(Register::A, Register::B))
    ));
    assert!(matches!(
        parse_instruction(0x5),
        Ok(Op::Mov(Register::A, Register::B))
    ));
}

#[test]
fn test_push_pop() {
    let mut m = Machine::new();
    m.push(0x1234).unwrap();
    m.push(0x5678).unwrap();
    assert_eq!(m.pop().unwrap(), 0x5678);
    assert_eq!(m.pop().unwrap(), 0x1234);
}

#[test]
fn test_add_stack() {
    let mut m = Machine::new();
    m.push((0x8 << 8) + 0x1).unwrap();
    m.push((0x9 << 8) + 0x1).unwrap();
    m.push(0x3).unwrap();
    m.step().unwrap();
    m.step().unwrap();
    m.step().unwrap();
    assert_eq!(m.pop().unwrap(), 8 + 9);
}

#[test]
fn test_add_register() {
    let mut m = Machine::new();
    m.registers[Register::A as usize] = 0x9;
    m.registers[Register::B as usize] = 0x8;
    m.memory.write(0, 0x4);
    m.step().unwrap();
    assert_eq!(m.get_register(Register::A), 0x8 + 0x9);
}

#[test]
fn test_mov() {
    let mut m = Machine::new();
    m.registers[Register::A as usize] = 0x1234;
    m.registers[Register::B as usize] = 0x5678;
    m.memory.write(0, 0x5);
    m.step().unwrap();
    assert_eq!(m.get_register(Register::A), 0x5678);
}

#[test]
fn decode_operands_and_failures() {
    assert_eq!(parse_instruction(0x2a01), Ok(Op::Push(0x2a)));
    assert_eq!(parse_instruction(0xff01), Ok(Op::Push(0xff)));
    assert_eq!(parse_instruction(0x0702), Ok(Op::PopRegister(Register::FLAGS)));
    assert_eq!(parse_instruction(0xf402), Ok(Op::PopRegister(Register::SP)));
    assert_eq!(parse_instruction(0x0802), Err(VmError::UnknownRegister(8)));
    assert_eq!(parse_instruction(0x0f02), Err(VmError::UnknownRegister(0xf)));
    assert_eq!(parse_instruction(0x7304), Ok(Op::AddRegister(Register::A, Register::B)));
    assert_eq!(parse_instruction(0x0006), Err(VmError::UnknownOpcode(6)));
    assert_eq!(parse_instruction(0x12ff), Err(VmError::UnknownOpcode(0xff)));
}

#[test]
fn opcode_values_follow_the_encoding() {
    assert_eq!(Op::Nop.value(), 0);
    assert_eq!(Op::Push(9).value(), 1);
    assert_eq!(Op::PopRegister(Register::C).value(), 2);
    assert_eq!(Op::AddStack.value(), 3);
    assert_eq!(Op::AddRegister(Register::A, Register::B).value(), 4);
    assert_eq!(Op::Mov(Register::A, Register::B).value(), 5);
    for byte in 0u16..6 {
        assert_eq!(parse_instruction(byte).unwrap().value() as u16, byte);
    }
}

#[test]
fn register_indices() {
    assert_eq!(Register::from_u8(0), Some(Register::A));
    assert_eq!(Register::from_u8(4), Some(Register::SP));
    assert_eq!(Register::from_u8(5), Some(Register::PC));
    assert_eq!(Register::from_u8(7), Some(Register::FLAGS));
    assert_eq!(Register::from_u8(8), None);
    assert_eq!(Register::from_u8(255), None);
    assert_eq!(Register::BP.index(), 6);
    assert_eq!(Register::M.index(), 3);
}

#[test]
fn push_then_pop_restores_sp() {
    let mut m = Machine::new();
    m.registers[Register::SP as usize] = 0x100;
    m.push(0xbeef).unwrap();
    assert_eq!(m.get_register(Register::SP), 0x102);
    assert_eq!(m.memory.read(0x100), Some(0xef));
    assert_eq!(m.memory.read(0x101), Some(0xbe));
    assert_eq!(m.pop(), Ok(0xbeef));
    assert_eq!(m.get_register(Register::SP), 0x100);
}

#[test]
fn pop_on_empty_stack_underflows() {
    let mut m = Machine::new();
    assert_eq!(m.pop(), Err(VmError::StackUnderflow));
    assert_eq!(m.get_register(Register::SP), 0);
    m.registers[Register::SP as usize] = 1;
    assert_eq!(m.pop(), Err(VmError::StackUnderflow));
    assert_eq!(m.get_register(Register::SP), 1);
}

#[test]
fn pop_past_memory_underflows() {
    let mut m = Machine::new();
    m.registers[Register::SP as usize] = 8192 + 2;
    assert_eq!(m.pop(), Err(VmError::StackUnderflow));
    assert_eq!(m.get_register(Register::SP), 8192 + 2);
}

#[test]
fn push_at_top_of_memory_overflows() {
    let mut m = Machine::with_memory(LinearMemory::new(4));
    m.push(0x1111).unwrap();
    m.push(0x2222).unwrap();
    assert_eq!(m.push(0x3333), Err(VmError::StackOverflow));
    assert_eq!(m.get_register(Register::SP), 4);
    assert_eq!(m.pop(), Ok(0x2222));
}

#[test]
fn push_with_one_byte_left_keeps_low_byte() {
    let mut m = Machine::with_memory(LinearMemory::new(3));
    m.registers[Register::SP as usize] = 2;
    assert_eq!(m.push(0xabcd), Err(VmError::StackOverflow));
    assert_eq!(m.get_register(Register::SP), 2);
    assert_eq!(m.memory.read(2), Some(0xcd));
}

#[test]
fn program_adds_two_pushed_values() {
    let mut vm = Machine::new();
    vm.memory.write(0, 0x1);
    vm.memory.write(1, 2);
    vm.memory.write(2, 0x1);
    vm.memory.write(3, 6);
    vm.memory.write(4, 0x3);
    vm.memory.write(6, 0x2);
    vm.memory.write(7, 0);
    vm.step().unwrap();
    vm.step().unwrap();
    vm.step().unwrap();
    vm.step().unwrap();
    assert_eq!(vm.get_register(Register::A), 8);
    assert_eq!(vm.get_register(Register::PC), 8);
}

#[test]
fn add_register_leaves_source() {
    let mut m = Machine::new();
    m.registers[Register::A as usize] = 9;
    m.registers[Register::B as usize] = 8;
    m.memory.write(0, 0x4);
    m.step().unwrap();
    assert_eq!(m.get_register(Register::A), 17);
    assert_eq!(m.get_register(Register::B), 8);
    assert_eq!(m.get_register(Register::PC), 2);
}

#[test]
fn add_register_wraps() {
    let mut m = Machine::new();
    m.registers[Register::A as usize] = 0xffff;
    m.registers[Register::B as usize] = 3;
    m.memory.write(0, 0x4);
    m.step().unwrap();
    assert_eq!(m.get_register(Register::A), 2);
}

#[test]
fn add_stack_wraps_and_consumes_both() {
    let mut m = Machine::new();
    m.registers[Register::SP as usize] = 0x200;
    m.push(0xfff0).unwrap();
    m.push(0x0020).unwrap();
    m.memory.write2(0, 0x3);
    m.step().unwrap();
    assert_eq!(m.get_register(Register::SP), 0x202);
    assert_eq!(m.pop(), Ok(0x0010));
    assert_eq!(m.get_register(Register::SP), 0x200);
}

#[test]
fn add_stack_with_one_value_underflows_after_first_pop() {
    let mut m = Machine::new();
    m.memory.write2(0, 0x3);
    m.registers[Register::SP as usize] = 2;
    assert_eq!(m.step(), Err(VmError::StackUnderflow));
    assert_eq!(m.get_register(Register::SP), 0);
    assert_eq!(m.get_register(Register::PC), 2);
}

#[test]
fn pop_register_loads_target() {
    let mut m = Machine::new();
    m.registers[Register::SP as usize] = 0x300;
    m.push(0x4242).unwrap();
    m.memory.write2(0, 0x0302);
    m.step().unwrap();
    assert_eq!(m.get_register(Register::M), 0x4242);
    assert_eq!(m.get_register(Register::SP), 0x300);
}

#[test]
fn step_errors_advance_pc_except_on_fetch() {
    let mut m = Machine::new();
    m.memory.write2(0, 0x0009);
    assert_eq!(m.step(), Err(VmError::UnknownOpcode(9)));
    assert_eq!(m.get_register(Register::PC), 2);
    m.memory.write2(2, 0x0c02);
    assert_eq!(m.step(), Err(VmError::UnknownRegister(0xc)));
    assert_eq!(m.get_register(Register::PC), 4);
    m.registers[Register::PC as usize] = 8191;
    assert_eq!(m.step(), Err(VmError::OutOfBoundsFetch));
    assert_eq!(m.get_register(Register::PC), 8191);
}

#[test]
fn nop_only_advances_pc() {
    let mut m = Machine::new();
    m.step().unwrap();
    m.step().unwrap();
    assert_eq!(m.get_register(Register::PC), 4);
    assert_eq!(m.get_register(Register::SP), 0);
    assert_eq!(m.get_register(Register::A), 0);
}

#[test]
fn new_machine_is_zeroed() {
    let m = Machine::new();
    assert_eq!(m.memory.size(), 8192);
    assert_eq!(m.memory.read(0), Some(0));
    assert_eq!(m.memory.read(8191), Some(0));
    assert_eq!(m.memory.read(8192), None);
    for i in 0u8..8 {
        assert_eq!(m.get_register(Register::from_u8(i).unwrap()), 0);
    }
}

#[test]
fn push_pop_round_trip_at_top_of_full_memory() {
    let mut m = Machine::with_memory(LinearMemory::new(0x10000));
    m.registers[Register::SP as usize] = 0xfffe;
    m.push(0xc0de).unwrap();
    assert_eq!(m.get_register(Register::SP), 0);
    assert_eq!(m.pop(), Ok(0xc0de));
    assert_eq!(m.get_register(Register::SP), 0xfffe);
}

#[test]
fn add_stack_across_the_top_of_full_memory() {
    let mut m = Machine::with_memory(LinearMemory::new(0x10000));
    m.registers[Register::PC as usize] = 0x100;
    m.memory.write2(0x100, 0x3);
    m.registers[Register::SP as usize] = 0xfffc;
    m.push(30).unwrap();
    m.push(12).unwrap();
    assert_eq!(m.get_register(Register::SP), 0);
    m.step().unwrap();
    assert_eq!(m.get_register(Register::SP), 0xfffe);
    assert_eq!(m.memory.read2(0xfffc), Some(42));
    assert_eq!(m.pop(), Ok(42));
    assert_eq!(m.get_register(Register::SP), 0xfffc);
}
