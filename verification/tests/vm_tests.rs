use rocky::events::VMEventType;
use rocky::memory::MemoryHeap;
use rocky::vm::{RunSignal, VM};

fn prepend_header(b: Vec<u8>) -> Vec<u8> {
    let mut prepension = vec![114u8, 111, 99, 107, 121];
    while prepension.len() < 64 {
        prepension.push(0);
    }
    prepension.extend(b);
    prepension
}

fn run_to_end(vm: &mut VM) {
    let mut sig = vm.run();
    loop {
        match sig {
            RunSignal::Finished => break,
            _ => sig = vm.resume(),
        }
    }
}

#[test]
fn test_create_vm() {
    let test_vm = VM::new();
    assert_eq!(test_vm.registers[0], 0)
}

#[test]
fn test_load() {
    let mut test_vm = VM::new();
    test_vm.program = prepend_header(vec![1, 0, 1, 244]);
    run_to_end(&mut test_vm);
    assert_eq!(test_vm.registers[0], 500);
}

#[test]
fn test_add() {
    let mut test_vm = VM::new();
    test_vm.registers[0] = 50;
    test_vm.registers[1] = 25;
    test_vm.program = prepend_header(vec![2, 0, 1, 0]);
    run_to_end(&mut test_vm);
    assert_eq!(test_vm.registers[0], 75);
}

#[test]
fn test_sub() {
    let mut test_vm = VM::new();
    test_vm.registers[0] = 50;
    test_vm.registers[1] = 25;
    test_vm.program = prepend_header(vec![3, 0, 1, 0]);
    run_to_end(&mut test_vm);
    assert_eq!(test_vm.registers[0], 25);
}

#[test]
fn test_mul() {
    let mut test_vm = VM::new();
    test_vm.registers[0] = 50;
    test_vm.registers[1] = 5;
    test_vm.program = prepend_header(vec![4, 0, 1, 0]);
    run_to_end(&mut test_vm);
    assert_eq!(test_vm.registers[0], 250);
}

#[test]
fn test_div() {
    let mut test_vm = VM::new();
    test_vm.registers[0] = 50;
    test_vm.registers[1] = 6;
    test_vm.program = prepend_header(vec![5, 0, 1, 0]);
    run_to_end(&mut test_vm);
    assert_eq!(test_vm.registers[0], 8);
    assert_eq!(test_vm.remainder, 2);
}

#[test]
fn test_div_negative_truncates() {
    let mut test_vm = VM::new();
    test_vm.registers[0] = -50;
    test_vm.registers[1] = 6;
    test_vm.program = vec![5, 0, 1, 0];
    test_vm.run_once();
    // Truncating division: -50 / 6 is -8, remainder -2 (as u32 bits).
    assert_eq!(test_vm.registers[0], -8);
    assert_eq!(test_vm.remainder, (-2i32) as u32);
}

#[test]
fn test_jmpb() {
    let mut test_vm = VM::new();
    test_vm.registers[0] = 2;
    test_vm.program = vec![8, 0];
    test_vm.run_once();
    assert_eq!(test_vm.pc, 0);
}

#[test]
fn test_eq() {
    let mut test_vm = VM::new();
    test_vm.registers[0] = 10;
    test_vm.registers[1] = 10;
    test_vm.program = vec![9, 0, 1, 0, 9, 0, 1, 0];
    test_vm.run_once();
    assert_eq!(test_vm.equal_flag, true);
    test_vm.registers[1] = 20;
    test_vm.run_once();
    assert_eq!(test_vm.equal_flag, false);
}

#[test]
fn test_neq() {
    let mut test_vm = VM::new();
    test_vm.registers[0] = 10;
    test_vm.registers[1] = 20;
    test_vm.program = vec![10, 0, 1, 0, 10, 0, 1, 0];
    test_vm.run_once();
    assert_eq!(test_vm.equal_flag, true);
    test_vm.registers[1] = 10;
    test_vm.run_once();
    assert_eq!(test_vm.equal_flag, false);
}

#[test]
fn test_gt() {
    let mut test_vm = VM::new();
    test_vm.registers[0] = 20;
    test_vm.registers[1] = 10;
    test_vm.program = vec![11, 0, 1, 0, 11, 0, 1, 0, 11, 0, 1, 0];
    test_vm.run_once();
    assert_eq!(test_vm.equal_flag, true);
    test_vm.registers[1] = 30;
    test_vm.run_once();
    assert_eq!(test_vm.equal_flag, false);
    test_vm.registers[1] = 20;
    test_vm.run_once();
    assert_eq!(test_vm.equal_flag, false);
}

#[test]
fn test_lt() {
    let mut test_vm = VM::new();
    test_vm.registers[0] = 20;
    test_vm.registers[1] = 30;
    test_vm.program = vec![12, 0, 1, 0, 12, 0, 1, 0, 12, 0, 1, 0];
    test_vm.run_once();
    assert_eq!(test_vm.equal_flag, true);
    test_vm.registers[1] = 10;
    test_vm.run_once();
    assert_eq!(test_vm.equal_flag, false);
    test_vm.registers[1] = 20;
    test_vm.run_once();
    assert_eq!(test_vm.equal_flag, false);
}

#[test]
fn test_gtq() {
    let mut test_vm = VM::new();
    test_vm.registers[0] = 20;
    test_vm.registers[1] = 10;
    test_vm.program = vec![13, 0, 1, 0, 13, 0, 1, 0, 13, 0, 1, 0];
    test_vm.run_once();
    assert_eq!(test_vm.equal_flag, true);
    test_vm.registers[1] = 30;
    test_vm.run_once();
    assert_eq!(test_vm.equal_flag, false);
    test_vm.registers[1] = 20;
    test_vm.run_once();
    assert_eq!(test_vm.equal_flag, true);
}

#[test]
fn test_ltq() {
    let mut test_vm = VM::new();
    test_vm.registers[0] = 20;
    test_vm.registers[1] = 30;
    test_vm.program = vec![14, 0, 1, 0, 14, 0, 1, 0, 14, 0, 1, 0];
    test_vm.run_once();
    assert_eq!(test_vm.equal_flag, true);
    test_vm.registers[1] = 10;
    test_vm.run_once();
    assert_eq!(test_vm.equal_flag, false);
    test_vm.registers[1] = 20;
    test_vm.run_once();
    assert_eq!(test_vm.equal_flag, true);
}

#[test]
fn test_aloc() {
    let mut test_vm = VM::new();
    test_vm.registers[0] = 1024;
    test_vm.program = vec![16, 0, 0, 0];
    test_vm.run_once();
    assert_eq!(test_vm.memory_heap.byte_len(), 1024);
    assert_eq!(test_vm.memory_heap.count(), 1);
}

#[test]
fn test_prts_opcode() {
    let mut test_vm = VM::new();
    test_vm.memory_heap.add(vec![72, 101, 108, 108, 111, 0]);
    test_vm.program = vec![17, 0, 0, 0];
    test_vm.run_once();
}

#[test]
fn test_string_print() {
    // An image with one blob "Hello\0" and the code PRTS 0, HLT: the
    // machine prints "Hello" and stops gracefully.
    let mut image = vec![114u8, 111, 99, 107, 121];
    image.extend(vec![0, 0, 0, 0, 6, 0, 0, 0]); // descriptor 0: offset 0, length 6
    while image.len() < 64 {
        image.push(0);
    }
    image.extend(b"Hello\0".to_vec());
    image.extend(vec![17, 0, 0, 0, 0, 0, 0, 0]);

    let mut vm = VM::new();
    vm.program = image;
    let sig = vm.run();
    assert_eq!(sig, RunSignal::Running);
    let sig = vm.resume();
    match sig {
        RunSignal::Print { bytes } => assert_eq!(bytes, b"Hello".to_vec()),
        other => panic!("expected a print signal, got {:?}", other),
    }
    let sig = vm.resume();
    assert_eq!(sig, RunSignal::Finished);
    match vm.events[1].event {
        VMEventType::GracefulStop { code } => assert_eq!(code, 0),
        other => panic!("expected a graceful stop, got {:?}", other),
    }
    assert_eq!(vm.pc, 64 + 6 + 8);
}

#[test]
fn test_illegal_opcode() {
    // An image whose code is a single illegal word stops with exit code
    // 1 and the counter one word past the code start.
    let mut vm = VM::new();
    vm.program = prepend_header(vec![200, 0, 0, 0]);
    run_to_end(&mut vm);
    assert_eq!(vm.pc, 64 + 4);
    match vm.events[1].event {
        VMEventType::GracefulStop { code } => assert_eq!(code, 1),
        other => panic!("expected a graceful stop, got {:?}", other),
    }
}

#[test]
fn test_event_log_shape() {
    // Exactly one Start, one terminal event, and the terminal kind
    // matches the exit condition.
    let mut vm = VM::new();
    vm.program = prepend_header(vec![0, 0, 0, 0]);
    run_to_end(&mut vm);
    assert_eq!(vm.events.len(), 2);
    assert!(matches!(vm.events[0].event, VMEventType::Start));
    assert!(matches!(vm.events[1].event, VMEventType::GracefulStop { code: 0 }));

    let mut bad = VM::new();
    bad.program = vec![1, 2, 3];
    let sig = bad.run();
    assert_eq!(sig, RunSignal::Finished);
    assert_eq!(bad.events.len(), 2);
    assert!(matches!(bad.events[0].event, VMEventType::Start));
    assert!(matches!(bad.events[1].event, VMEventType::Crash));
}

#[test]
fn test_register_guard() {
    // A register operand past the file halts with code 1 instead of
    // indexing out of bounds.
    let mut vm = VM::new();
    vm.program = prepend_header(vec![1, 32, 0, 5]);
    run_to_end(&mut vm);
    match vm.events[1].event {
        VMEventType::GracefulStop { code } => assert_eq!(code, 1),
        other => panic!("expected a graceful stop, got {:?}", other),
    }
}

#[test]
fn test_resume_aski_writes_heap() {
    let mut vm = VM::new();
    vm.memory_heap.add(vec![0, 0, 0, 0]);
    vm.resume_aski(0, Some("300"));
    assert_eq!(vm.memory_heap.get_slice(0), vec![44, 1, 0, 0]);
    // A parse failure leaves the blob untouched.
    vm.resume_aski(0, Some("not a number"));
    assert_eq!(vm.memory_heap.get_slice(0), vec![44, 1, 0, 0]);
    vm.resume_aski(0, None);
    assert_eq!(vm.memory_heap.get_slice(0), vec![44, 1, 0, 0]);
}

#[test]
fn test_resume_asks_writes_heap() {
    let mut vm = VM::new();
    vm.memory_heap.add(vec![0, 0, 0, 0]);
    vm.resume_asks(0, Some("hey"));
    assert_eq!(vm.memory_heap.get_slice(0), b"hey".to_vec());
    vm.resume_asks(9, Some("lost"));
    assert_eq!(vm.memory_heap.get_slice(0), b"hey".to_vec());
}

#[test]
fn test_grps_concatenates() {
    let mut vm = VM::new();
    let mut heap = MemoryHeap::new();
    heap.add(b"foo".to_vec());
    heap.add(b"bar".to_vec());
    heap.add(b"  ".to_vec());
    vm.set_program(vec![22, 0, 0, 0, 1, 0, 2, 0], heap);
    vm.state = rocky::vm::VMState::Running;
    vm.events.push(rocky::events::VMEvent::now(VMEventType::Start, vm.id));
    let _ = vm.resume();
    assert_eq!(vm.memory_heap.get_slice(2), b"foobar".to_vec());
}

#[test]
fn test_set_program_round_trip() {
    // An image serialised by set_program loads back to the same heap.
    let mut heap = MemoryHeap::new();
    heap.add(b"Hello".to_vec());
    heap.add(vec![1, 2, 3, 4]);
    let mut vm = VM::new();
    vm.set_program(vec![0, 0, 0, 0], heap);
    assert_eq!(vm.pc, 64 + 9);
    run_to_end(&mut vm);
    assert_eq!(vm.memory_heap.count(), 2);
    assert_eq!(vm.memory_heap.get_slice(0), b"Hello".to_vec());
    assert_eq!(vm.memory_heap.get_slice(1), vec![1, 2, 3, 4]);
}

#[test]
fn test_heap_round_trip() {
    // Rebuilding a heap from its own header and body restores every
    // blob, even after an edit resizes one.
    let mut heap = MemoryHeap::new();
    heap.add(b"Hello".to_vec());
    heap.allocate(4);
    heap.add(b"!".to_vec());
    heap.edit(b"resized to more".to_vec(), 1);
    let header = heap.header();
    let body = heap.to_bytes();
    let rebuilt = MemoryHeap::from_bytes(&header, &body);
    assert_eq!(rebuilt.count(), heap.count());
    for k in 0..heap.count() {
        assert_eq!(rebuilt.get_slice(k), heap.get_slice(k));
    }
}

#[test]
fn test_heap_edit_keeps_other_blobs() {
    let mut heap = MemoryHeap::new();
    let a = heap.add(b"one".to_vec());
    let b = heap.add(b"two".to_vec());
    let c = heap.add(b"three".to_vec());
    heap.edit(b"longer than before".to_vec(), b);
    assert_eq!(heap.get_slice(a), b"one".to_vec());
    assert_eq!(heap.get_slice(b), b"longer than before".to_vec());
    assert_eq!(heap.get_slice(c), b"three".to_vec());
}
