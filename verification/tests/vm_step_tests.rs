//! Step-level opcode cases, one suite per machine entry point they
//! exercise.

use rocky::vm::{RunSignal, VM};

fn prepend_header(b: Vec<u8>) -> Vec<u8> {
    let mut prepension = vec![114u8, 111, 99, 107, 121];
    while prepension.len() < 64 {
        prepension.push(0);
    }
    prepension.extend(b);
    prepension
}

fn run_to_end(vm: &mut VM) {
    let mut sig = vm.run();
    loop {
        match sig {
            RunSignal::Finished => break,
            _ => sig = vm.resume(),
        }
    }
}

#[test]
fn vm_test_create_vm() {
    let test_vm = VM::new();
    assert_eq!(test_vm.registers[0], 0)
}

#[test]
fn vm_test_load() {
    let mut test_vm = VM::new();
    test_vm.program = prepend_header(vec![1, 0, 1, 244]);
    run_to_end(&mut test_vm);
    assert_eq!(test_vm.registers[0], 500);
}

#[test]
fn vm_test_add() {
    let mut test_vm = VM::new();
    test_vm.registers[0] = 50;
    test_vm.registers[1] = 25;
    test_vm.program = prepend_header(vec![2, 0, 1, 0]);
    run_to_end(&mut test_vm);
    assert_eq!(test_vm.registers[0], 75);
}

#[test]
fn vm_test_sub() {
    let mut test_vm = VM::new();
    test_vm.registers[0] = 50;
    test_vm.registers[1] = 25;
    test_vm.program = prepend_header(vec![3, 0, 1, 0]);
    run_to_end(&mut test_vm);
    assert_eq!(test_vm.registers[0], 25);
}

#[test]
fn vm_test_mul() {
    let mut test_vm = VM::new();
    test_vm.registers[0] = 50;
    test_vm.registers[1] = 5;
    test_vm.program = prepend_header(vec![4, 0, 1, 0]);
    run_to_end(&mut test_vm);
    assert_eq!(test_vm.registers[0], 250);
}

#[test]
fn vm_test_div() {
    let mut test_vm = VM::new();
    test_vm.registers[0] = 50;
    test_vm.registers[1] = 6;
    test_vm.program = prepend_header(vec![5, 0, 1, 0]);
    run_to_end(&mut test_vm);
    assert_eq!(test_vm.registers[0], 8);
    assert_eq!(test_vm.remainder, 2);
}

#[test]
fn vm_test_jmpb() {
    let mut test_vm = VM::new();
    test_vm.registers[0] = 2;
    test_vm.program = vec![8, 0];
    test_vm.run_once();
    assert_eq!(test_vm.pc, 0);
}

#[test]
fn vm_test_eq() {
    let mut test_vm = VM::new();
    test_vm.registers[0] = 10;
    test_vm.registers[1] = 10;
    test_vm.program = vec![9, 0, 1, 0, 9, 0, 1, 0];
    test_vm.run_once();
    assert_eq!(test_vm.equal_flag, true);
    test_vm.registers[1] = 20;
    test_vm.run_once();
    assert_eq!(test_vm.equal_flag, false);
}

#[test]
fn vm_test_neq() {
    let mut test_vm = VM::new();
    test_vm.registers[0] = 10;
    test_vm.registers[1] = 20;
    test_vm.program = vec![10, 0, 1, 0, 10, 0, 1, 0];
    test_vm.run_once();
    assert_eq!(test_vm.equal_flag, true);
    test_vm.registers[1] = 10;
    test_vm.run_once();
    assert_eq!(test_vm.equal_flag, false);
}

#[test]
fn vm_test_gt() {
    let mut test_vm = VM::new();
    test_vm.registers[0] = 20;
    test_vm.registers[1] = 10;
    test_vm.program = vec![11, 0, 1, 0, 11, 0, 1, 0, 11, 0, 1, 0];
    test_vm.run_once();
    assert_eq!(test_vm.equal_flag, true);
    test_vm.registers[1] = 30;
    test_vm.run_once();
    assert_eq!(test_vm.equal_flag, false);
    test_vm.registers[1] = 20;
    test_vm.run_once();
    assert_eq!(test_vm.equal_flag, false);
}

#[test]
fn vm_test_lt() {
    let mut test_vm = VM::new();
    test_vm.registers[0] = 20;
    test_vm.registers[1] = 30;
    test_vm.program = vec![12, 0, 1, 0, 12, 0, 1, 0, 12, 0, 1, 0];
    test_vm.run_once();
    assert_eq!(test_vm.equal_flag, true);
    test_vm.registers[1] = 10;
    test_vm.run_once();
    assert_eq!(test_vm.equal_flag, false);
    test_vm.registers[1] = 20;
    test_vm.run_once();
    assert_eq!(test_vm.equal_flag, false);
}

#[test]
fn vm_test_gtq() {
    let mut test_vm = VM::new();
    test_vm.registers[0] = 20;
    test_vm.registers[1] = 10;
    test_vm.program = vec![13, 0, 1, 0, 13, 0, 1, 0, 13, 0, 1, 0];
    test_vm.run_once();
    assert_eq!(test_vm.equal_flag, true);
    test_vm.registers[1] = 30;
    test_vm.run_once();
    assert_eq!(test_vm.equal_flag, false);
    test_vm.registers[1] = 20;
    test_vm.run_once();
    assert_eq!(test_vm.equal_flag, true);
}

#[test]
fn vm_test_ltq() {
    let mut test_vm = VM::new();
    test_vm.registers[0] = 20;
    test_vm.registers[1] = 30;
    test_vm.program = vec![14, 0, 1, 0, 14, 0, 1, 0, 14, 0, 1, 0];
    test_vm.run_once();
    assert_eq!(test_vm.equal_flag, true);
    test_vm.registers[1] = 10;
    test_vm.run_once();
    assert_eq!(test_vm.equal_flag, false);
    test_vm.registers[1] = 20;
    test_vm.run_once();
    assert_eq!(test_vm.equal_flag, true);
}

#[test]
fn vm_test_aloc() {
    let mut test_vm = VM::new();
    test_vm.registers[0] = 1024;
    test_vm.program = vec![16, 0, 0, 0];
    test_vm.run_once();
    assert_eq!(test_vm.memory_heap.byte_len(), 1024);
}

#[test]
fn vm_test_prts_opcode() {
    let mut test_vm = VM::new();
    test_vm.memory_heap.add(vec![72, 101, 108, 108, 111, 0]);
    test_vm.program = vec![17, 0, 0, 0];
    test_vm.run_once();
}

#[test]
fn tests_test_create_vm() {
    let test_vm = VM::new();
    assert_eq!(test_vm.registers[0], 0)
}

#[test]
fn tests_test_load() {
    let mut test_vm = VM::new();
    test_vm.program = prepend_header(vec![1, 0, 1, 244]);
    run_to_end(&mut test_vm);
    assert_eq!(test_vm.registers[0], 500);
}

#[test]
fn tests_test_add() {
    let mut test_vm = VM::new();
    test_vm.registers[0] = 50;
    test_vm.registers[1] = 25;
    test_vm.program = prepend_header(vec![2, 0, 1, 0]);
    run_to_end(&mut test_vm);
    assert_eq!(test_vm.registers[0], 75);
}

#[test]
fn tests_test_sub() {
    let mut test_vm = VM::new();
    test_vm.registers[0] = 50;
    test_vm.registers[1] = 25;
    test_vm.program = prepend_header(vec![3, 0, 1, 0]);
    run_to_end(&mut test_vm);
    assert_eq!(test_vm.registers[0], 25);
}

#[test]
fn tests_test_mul() {
    let mut test_vm = VM::new();
    test_vm.registers[0] = 50;
    test_vm.registers[1] = 5;
    test_vm.program = prepend_header(vec![4, 0, 1, 0]);
    run_to_end(&mut test_vm);
    assert_eq!(test_vm.registers[0], 250);
}

#[test]
fn tests_test_div() {
    let mut test_vm = VM::new();
    test_vm.registers[0] = 50;
    test_vm.registers[1] = 6;
    test_vm.program = prepend_header(vec![5, 0, 1, 0]);
    run_to_end(&mut test_vm);
    assert_eq!(test_vm.registers[0], 8);
    assert_eq!(test_vm.remainder, 2);
}

#[test]
fn tests_test_jmpb() {
    let mut test_vm = VM::new();
    test_vm.registers[0] = 2;
    test_vm.program = vec![8, 0];
    test_vm.run_once();
    assert_eq!(test_vm.pc, 0);
}

#[test]
fn tests_test_eq() {
    let mut test_vm = VM::new();
    test_vm.registers[0] = 10;
    test_vm.registers[1] = 10;
    test_vm.program = vec![9, 0, 1, 0, 9, 0, 1, 0];
    test_vm.run_once();
    assert_eq!(test_vm.equal_flag, true);
    test_vm.registers[1] = 20;
    test_vm.run_once();
    assert_eq!(test_vm.equal_flag, false);
}

#[test]
fn tests_test_neq() {
    let mut test_vm = VM::new();
    test_vm.registers[0] = 10;
    test_vm.registers[1] = 20;
    test_vm.program = vec![10, 0, 1, 0, 10, 0, 1, 0];
    test_vm.run_once();
    assert_eq!(test_vm.equal_flag, true);
    test_vm.registers[1] = 10;
    test_vm.run_once();
    assert_eq!(test_vm.equal_flag, false);
}

#[test]
fn tests_test_gt() {
    let mut test_vm = VM::new();
    test_vm.registers[0] = 20;
    test_vm.registers[1] = 10;
    test_vm.program = vec![11, 0, 1, 0, 11, 0, 1, 0, 11, 0, 1, 0];
    test_vm.run_once();
    assert_eq!(test_vm.equal_flag, true);
    test_vm.registers[1] = 30;
    test_vm.run_once();
    assert_eq!(test_vm.equal_flag, false);
    test_vm.registers[1] = 20;
    test_vm.run_once();
    assert_eq!(test_vm.equal_flag, false);
}

#[test]
fn tests_test_lt() {
    let mut test_vm = VM::new();
    test_vm.registers[0] = 20;
    test_vm.registers[1] = 30;
    test_vm.program = vec![12, 0, 1, 0, 12, 0, 1, 0, 12, 0, 1, 0];
    test_vm.run_once();
    assert_eq!(test_vm.equal_flag, true);
    test_vm.registers[1] = 10;
    test_vm.run_once();
    assert_eq!(test_vm.equal_flag, false);
    test_vm.registers[1] = 20;
    test_vm.run_once();
    assert_eq!(test_vm.equal_flag, false);
}

#[test]
fn tests_test_gtq() {
    let mut test_vm = VM::new();
    test_vm.registers[0] = 20;
    test_vm.registers[1] = 10;
    test_vm.program = vec![13, 0, 1, 0, 13, 0, 1, 0, 13, 0, 1, 0];
    test_vm.run_once();
    assert_eq!(test_vm.equal_flag, true);
    test_vm.registers[1] = 30;
    test_vm.run_once();
    assert_eq!(test_vm.equal_flag, false);
    test_vm.registers[1] = 20;
    test_vm.run_once();
    assert_eq!(test_vm.equal_flag, true);
}

#[test]
fn tests_test_ltq() {
    let mut test_vm = VM::new();
    test_vm.registers[0] = 20;
    test_vm.registers[1] = 30;
    test_vm.program = vec![14, 0, 1, 0, 14, 0, 1, 0, 14, 0, 1, 0];
    test_vm.run_once();
    assert_eq!(test_vm.equal_flag, true);
    test_vm.registers[1] = 10;
    test_vm.run_once();
    assert_eq!(test_vm.equal_flag, false);
    test_vm.registers[1] = 20;
    test_vm.run_once();
    assert_eq!(test_vm.equal_flag, true);
}

#[test]
fn tests_test_aloc() {
    let mut test_vm = VM::new();
    test_vm.registers[0] = 1024;
    test_vm.program = vec![16, 0, 0, 0];
    test_vm.run_once();
    assert_eq!(test_vm.memory_heap.byte_len(), 1024);
}

#[test]
fn tests_test_prts_opcode() {
    let mut test_vm = VM::new();
    test_vm.memory_heap.add(vec![72, 101, 108, 108, 111, 0]);
    test_vm.program = vec![17, 0, 0, 0];
    test_vm.run_once();
}
