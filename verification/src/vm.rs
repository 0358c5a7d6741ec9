//! The virtual machine: image loading and validation, the register
//! file, the fetch/decode/execute step, dynamic heap growth, and the
//! structured event log.
//!
//! The machine is a pure state machine: every instruction that needs the
//! host — printing, sleeping, reading a line — is handed out as a signal
//! with its decoded operands, and the host resumes the machine with the
//! outcome. All decisions stand here, verified; the host only performs.

use crate::events::{VMEvent, VMEventType};
use crate::host::new_application_id;
use crate::instruction::{opcode_of_byte, Opcode};
use crate::memory::{len_before, spec_header, spec_image_pairs, MemoryHeap};
use crate::spec_magic;
use crate::PIE_HEADER_LENGTH;
use vstd::prelude::*;

verus! {

/// The lifecycle of one run: `Ready -> Running -> Stopped`.
#[derive(Debug, Clone, Copy, PartialEq, Eq, Structural)]
pub enum VMState {
    Ready,
    Running,
    Stopped,
}

/// What one executed instruction asks of its host, beyond the machine's
/// own state change.
#[derive(Debug, PartialEq)]
pub enum StepAction {
    /// The instruction is done; fetch the next one.
    Continue,
    /// Execution is over with this exit code.
    Halt { code: u32 },
    /// Print these bytes as a line of UTF-8 text.
    Print { bytes: Vec<u8> },
    /// Sleep for this many milliseconds.
    Sleep { millis: u64 },
    /// Prompt with these bytes, read a line, parse it as an integer and
    /// hand it to `resume_aski` with this heap index.
    AskInt { prompt: Vec<u8>, index: u16 },
    /// Prompt with these bytes, read a line and hand it to `resume_asks`
    /// with this heap index.
    AskStr { prompt: Vec<u8>, index: u16 },
}

/// What `run` and `resume` report to the driving host.
#[derive(Debug, PartialEq)]
pub enum RunSignal {
    /// The machine is running; call `resume` for the next instruction.
    Running,
    /// A terminal event has been recorded; the run is over.
    Finished,
    /// Print these bytes as a line, then call `resume`.
    Print { bytes: Vec<u8> },
    /// Sleep this many milliseconds, then call `resume`.
    Sleep { millis: u64 },
    /// Prompt, read and parse a line, hand it to `resume_aski`, then
    /// call `resume`.
    AskInt { prompt: Vec<u8>, index: u16 },
    /// Prompt and read a line, hand it to `resume_asks`, then call
    /// `resume`.
    AskStr { prompt: Vec<u8>, index: u16 },
}

/// Truncating signed division, as the division instruction computes it.
pub open spec fn spec_div_trunc(a: int, b: int) -> int {
    let q = abs_int(a) / abs_int(b);
    if (a < 0) == (b < 0) {
        q
    } else {
        -q
    }
}

pub open spec fn abs_int(x: int) -> int {
    if x < 0 {
        -x
    } else {
        x
    }
}

/// The 16-bit big-endian immediate at position `k`.
pub open spec fn spec_imm16(p: Seq<u8>, k: int) -> u16 {
    ((p[k] as int) * 256 + (p[k + 1] as int)) as u16
}

/// The position of the first zero byte, or the end.
pub open spec fn spec_nul_pos(b: Seq<u8>, i: int) -> int
    decreases b.len() - i,
{
    if 0 <= i < b.len() && b[i] != 0 {
        spec_nul_pos(b, i + 1)
    } else {
        i
    }
}

/// A blob's printable contents: everything before the first zero byte.
pub open spec fn spec_upto_nul(b: Seq<u8>) -> Seq<u8> {
    b.take(spec_nul_pos(b, 0))
}

/// The register-based virtual machine.
#[derive(Debug)]
pub struct VM {
    /// The register file: exactly 32 registers.
    pub registers: Vec<i32>,
    /// The program counter: a byte position in `program`.
    pub pc: usize,
    /// The loaded image: prologue, heap body, code.
    pub program: Vec<u8>,
    /// The constant heap, reconstructed from the image at load time and
    /// grown by `ALOC`.
    pub memory_heap: MemoryHeap,
    /// What the last division left over.
    pub remainder: u32,
    /// The flag comparison instructions set and `JEQ` reads.
    pub equal_flag: bool,
    /// This machine's identifier, stamped into its events.
    pub id: u128,
    /// The lifecycle events of the current run.
    pub events: Vec<VMEvent>,
    /// The image's code offset: the heap body size read at load time.
    pub code_start: usize,
    /// Where the machine stands in its `Ready -> Running -> Stopped`
    /// lifecycle.
    pub state: VMState,
}

impl VM {
    /// Well-formedness: a full register file and a well-formed heap.
    pub open spec fn wf(&self) -> bool {
        &&& self.registers@.len() == 32
        &&& self.memory_heap.wf()
    }

    /// The event-log shape: no events before a run, exactly one `Start`
    /// while running, and exactly one terminal event after it stops.
    pub open spec fn events_wf(&self) -> bool {
        match self.state {
            VMState::Ready => self.events@.len() == 0,
            VMState::Running => self.events@.len() == 1 && self.events@[0].event is Start,
            VMState::Stopped => self.events@.len() == 2 && self.events@[0].event is Start && (
            self.events@[1].event is GracefulStop || self.events@[1].event is Crash),
        }
    }

    /// A valid image: long enough for the prologue and starting with the
    /// magic bytes.
    pub open spec fn spec_image_ok(p: Seq<u8>) -> bool {
        p.len() >= 64 && p.subrange(0, 5) == spec_magic()
    }

    /// A fresh machine: zeroed registers and flags, nothing loaded, a
    /// newly drawn identifier, ready to run.
    pub fn new() -> (vm: VM)
        ensures
            vm.wf(),
            vm.events_wf(),
            vm.state is Ready,
            vm.pc == 0,
            vm.registers@ == Seq::new(32, |i: int| 0i32),
            vm.program@ == Seq::<u8>::empty(),
            vm.memory_heap.blob_count() == 0,
            vm.memory_heap.size() == 0,
            vm.remainder == 0,
            !vm.equal_flag,
            vm.code_start == 0,
    {
        VM {
            registers: vec![0i32; 32],
            pc: 0,
            program: Vec::new(),
            memory_heap: MemoryHeap::new(),
            remainder: 0,
            equal_flag: false,
            id: new_application_id(),
            events: Vec::new(),
            code_start: 0,
            state: VMState::Ready,
        }
    }

    /// Appends one byte to the program.
    pub fn add_byte(&mut self, byte: u8)
        ensures
            final(self).program@ == old(self).program@.push(byte),
            final(self).registers@ == old(self).registers@,
            final(self).pc == old(self).pc,
            final(self).memory_heap == old(self).memory_heap,
            final(self).remainder == old(self).remainder,
            final(self).equal_flag == old(self).equal_flag,
            final(self).id == old(self).id,
            final(self).events@ == old(self).events@,
            final(self).code_start == old(self).code_start,
            final(self).state == old(self).state,
    {
        self.program.push(byte);
    }

    /// Appends bytes to the program.
    pub fn add_bytes(&mut self, b: Vec<u8>)
        ensures
            final(self).program@ == old(self).program@ + b@,
            final(self).registers@ == old(self).registers@,
            final(self).pc == old(self).pc,
            final(self).memory_heap == old(self).memory_heap,
            final(self).remainder == old(self).remainder,
            final(self).equal_flag == old(self).equal_flag,
            final(self).id == old(self).id,
            final(self).events@ == old(self).events@,
            final(self).code_start == old(self).code_start,
            final(self).state == old(self).state,
    {
        let mut b = b;
        self.program.append(&mut b);
    }

    /// Whether the loaded program is a valid image.
    pub fn verify_header(&self) -> (r: bool)
        ensures
            r == VM::spec_image_ok(self.program@),
    {
        if self.program.len() < PIE_HEADER_LENGTH {
            proof {
                assert(self.program@.len() < 64);
            }
            return false;
        }
        let ok = self.program[0] == 114 && self.program[1] == 111 && self.program[2] == 99
            && self.program[3] == 107 && self.program[4] == 121;
        proof {
            if ok {
                assert(self.program@.subrange(0, 5) =~= spec_magic());
            } else {
                assert(self.program@.subrange(0, 5) != spec_magic()) by {
                    if self.program@.subrange(0, 5) == spec_magic() {
                        assert(self.program@[0] == 114 && self.program@[1] == 111
                            && self.program@[2] == 99 && self.program@[3] == 107
                            && self.program@[4] == 121) by {
                            assert(self.program@.subrange(0, 5)[0] == self.program@[0]);
                            assert(self.program@.subrange(0, 5)[1] == self.program@[1]);
                            assert(self.program@.subrange(0, 5)[2] == self.program@[2]);
                            assert(self.program@.subrange(0, 5)[3] == self.program@[3]);
                            assert(self.program@.subrange(0, 5)[4] == self.program@[4]);
                        }
                    }
                }
            }
        }
        ok
    }

    /// Serialises a heap and code into a complete image: magic, heap
    /// header, zero padding to the prologue length, heap body, code.
    pub fn prepend_header(b: Vec<u8>, mem: &MemoryHeap) -> (r: Vec<u8>)
        ensures
            r@ == crate::assembler::spec_pie_header(mem.descs()) + mem.bytes() + b@,
    {
        let mut image: Vec<u8> = Vec::new();
        image.push(114);
        image.push(111);
        image.push(99);
        image.push(107);
        image.push(121);
        proof {
            assert(image@ =~= spec_magic());
        }
        let mut table = mem.header();
        image.append(&mut table);
        let ghost base = spec_magic() + spec_header(mem.descs());
        proof {
            assert(image@ =~= base);
        }
        while image.len() < 64
            invariant
                image@.len() >= base.len(),
                image@.len() <= 64 || image@.len() == base.len(),
                image@ == base + Seq::new((image@.len() - base.len()) as nat, |j: int| 0u8),
            decreases 64 - image@.len(),
        {
            image.push(0);
            proof {
                assert(image@ =~= base + Seq::new((image@.len() - base.len()) as nat, |j: int| 0u8));
            }
        }
        proof {
            assert(image@ =~= crate::assembler::spec_pie_header(mem.descs()));
        }
        let mut body = mem.to_bytes();
        image.append(&mut body);
        let mut code = b;
        image.append(&mut code);
        image
    }

    /// Loads a program and its heap: the machine's program becomes the
    /// serialised image, and the program counter is set to the start of
    /// the code.
    pub fn set_program(&mut self, prog: Vec<u8>, mem: MemoryHeap)
        requires
            mem.wf(),
        ensures
            final(self).program@ == crate::assembler::spec_pie_header(mem.descs()) + mem.bytes()
                + prog@,
            final(self).memory_heap == mem,
            final(self).code_start == mem.size(),
            final(self).pc == 64 + mem.size(),
            final(self).registers@ == old(self).registers@,
            final(self).events@ == old(self).events@,
            final(self).state == old(self).state,
            old(self).wf() ==> final(self).wf(),
    {
        let image = VM::prepend_header(prog, &mem);
        let cs = mem.byte_len();
        let il = image.len();
        proof {
            crate::memory::lemma_spec_header_len(mem.descs());
            assert(image@.len() >= 64 + mem.size());
            assert(64 + cs <= il);
        }
        self.memory_heap = mem;
        self.program = image;
        self.code_start = cs;
        self.pc = 64 + cs;
    }
}

} // verus!

verus! {

/// The machine took one halting step: the terminal event's code is the
/// code that step halted with.
pub open spec fn finished_step(pre: VM, post: VM) -> bool {
    exists|code: u32|
        #![auto]
        post.events@[1].event == (VMEventType::GracefulStop { code }) && spec_step_rel(
            pre,
            post,
            StepAction::Halt { code },
        )
}

/// What `resume` reports and does, by signal: effects carry the
/// executed step's payload; `Finished` records the terminal event.
pub open spec fn resume_post(pre: VM, post: VM, r: RunSignal) -> bool {
    match r {
        RunSignal::Running => post.state is Running && post.events@ == pre.events@
            && spec_step_rel(pre, post, StepAction::Continue),
        RunSignal::Finished => post.state is Stopped && post.events@.len() == 2
            && post.events@[0] == pre.events@[0] && post.events@[1].application_id == pre.id
            && finished_step(pre, post),
        RunSignal::Print { bytes } => post.state is Running && post.events@ == pre.events@
            && spec_step_rel(pre, post, StepAction::Print { bytes }),
        RunSignal::Sleep { millis } => post.state is Running && post.events@ == pre.events@
            && spec_step_rel(pre, post, StepAction::Sleep { millis }),
        RunSignal::AskInt { prompt, index } => post.state is Running && post.events@
            == pre.events@ && spec_step_rel(pre, post, StepAction::AskInt { prompt, index }),
        RunSignal::AskStr { prompt, index } => post.state is Running && post.events@
            == pre.events@ && spec_step_rel(pre, post, StepAction::AskStr { prompt, index }),
    }
}

/// Nothing about the machine's registers, counter, heap or flags moved.
pub open spec fn vm_unmoved(pre: VM, post: VM) -> bool {
    &&& post.registers@ == pre.registers@
    &&& post.pc == pre.pc
    &&& post.memory_heap == pre.memory_heap
    &&& post.remainder == pre.remainder
    &&& post.equal_flag == pre.equal_flag
}

/// Only the program counter moved, to `newpc`.
pub open spec fn vm_moved_pc(pre: VM, post: VM, newpc: int) -> bool {
    &&& post.registers@ == pre.registers@
    &&& post.pc == newpc
    &&& post.memory_heap == pre.memory_heap
    &&& post.remainder == pre.remainder
    &&& post.equal_flag == pre.equal_flag
}

/// What a step never touches: the program, the identifier and the
/// load-time code offset.
pub open spec fn vm_step_frame(pre: VM, post: VM) -> bool {
    &&& post.program@ == pre.program@
    &&& post.id == pre.id
    &&& post.code_start == pre.code_start
    &&& post.registers@.len() == pre.registers@.len()
}

/// The step halted with code 1 and moved nothing: a fetch past the end,
/// a truncated word, a register operand past the file, or an operand the
/// instruction cannot act on.
pub open spec fn vm_fault(pre: VM, post: VM, r: StepAction) -> bool {
    r == (StepAction::Halt { code: 1u32 }) && vm_unmoved(pre, post)
}

/// The remainder register after a division: the truncating remainder's
/// two's-complement bits.
pub open spec fn spec_rem_cast(a: int, b: int) -> u32 {
    let m = abs_int(a) % abs_int(b);
    if a < 0 && m > 0 {
        (0x100000000 - m) as u32
    } else {
        m as u32
    }
}

/// The milliseconds a sleep instruction asks for: the register value
/// times the unit, and zero when the register is negative.
pub open spec fn spec_sleep_millis(v: i32, unit: int) -> u64 {
    if v <= 0 {
        0u64
    } else {
        (v as int * unit) as u64
    }
}

/// What one executed instruction does to the machine: the full
/// fetch/decode/execute relation between the state before, the state
/// after, and the action handed to the host.
///
/// Every instruction that does not branch advances the counter by one
/// four-byte word (`GRPS`, with three 16-bit operands, takes two words);
/// a register operand at or past the register file's end faults the
/// machine with exit code 1 rather than index past it.
pub open spec fn spec_step_rel(pre: VM, post: VM, r: StepAction) -> bool {
    let p = pre.program@;
    let n = p.len() as int;
    let pc = pre.pc as int;
    &&& vm_step_frame(pre, post)
    &&& if pc >= n {
        vm_fault(pre, post, r)
    } else {
        let op = opcode_of_byte(p[pc]);
        let words: int = if op is GRPS {
            8
        } else {
            4
        };
        if pc + words > n {
            vm_fault(pre, post, r)
        } else {
            spec_op_rel(pre, post, r, op)
        }
    }
}

/// The per-opcode semantics, once the whole instruction word is in
/// bounds.
pub open spec fn spec_op_rel(pre: VM, post: VM, r: StepAction, op: Opcode) -> bool {
    let p = pre.program@;
    let pc = pre.pc as int;
    let regs = pre.registers@;
    let h = pre.memory_heap;
    match op {
        Opcode::HLT => r == (StepAction::Halt { code: 0u32 }) && vm_moved_pc(pre, post, pc + 4),
        Opcode::IGL => r == (StepAction::Halt { code: 1u32 }) && vm_moved_pc(pre, post, pc + 4),
        Opcode::LOAD => {
            let rd = p[pc + 1];
            let imm = spec_imm16(p, pc + 2);
            if rd >= 32 {
                vm_fault(pre, post, r)
            } else {
                &&& r is Continue
                &&& post.registers@ == regs.update(rd as int, imm as i32)
                &&& post.pc == pc + 4
                &&& post.memory_heap == h
                &&& post.remainder == pre.remainder
                &&& post.equal_flag == pre.equal_flag
            }
        },
        Opcode::ADD | Opcode::SUB | Opcode::MUL | Opcode::DIV => {
            let r1 = p[pc + 1];
            let r2 = p[pc + 2];
            let rd = p[pc + 3];
            if r1 >= 32 || r2 >= 32 || rd >= 32 {
                vm_fault(pre, post, r)
            } else {
                let a = regs[r1 as int];
                let b = regs[r2 as int];
                if op is DIV {
                    if b == 0 || (a == i32::MIN && b == -1) {
                        vm_fault(pre, post, r)
                    } else {
                        &&& r is Continue
                        &&& post.registers@ == regs.update(
                            rd as int,
                            spec_div_trunc(a as int, b as int) as i32,
                        )
                        &&& post.remainder == spec_rem_cast(a as int, b as int)
                        &&& post.pc == pc + 4
                        &&& post.memory_heap == h
                        &&& post.equal_flag == pre.equal_flag
                    }
                } else {
                    let v = if op is ADD {
                        vstd::wrapping::i32_specs::wrapping_add(a, b)
                    } else if op is SUB {
                        vstd::wrapping::i32_specs::wrapping_sub(a, b)
                    } else {
                        vstd::wrapping::i32_specs::wrapping_mul(a, b)
                    };
                    &&& r is Continue
                    &&& post.registers@ == regs.update(rd as int, v)
                    &&& post.pc == pc + 4
                    &&& post.memory_heap == h
                    &&& post.remainder == pre.remainder
                    &&& post.equal_flag == pre.equal_flag
                }
            }
        },
        Opcode::JMP | Opcode::JEQ => {
            let rs = p[pc + 1];
            if rs >= 32 {
                vm_fault(pre, post, r)
            } else if op is JEQ && !pre.equal_flag {
                r is Continue && vm_moved_pc(pre, post, pc + 4)
            } else {
                let v = regs[rs as int];
                let t = 64 + pre.code_start + v;
                if v < 0 || t > usize::MAX {
                    vm_fault(pre, post, r)
                } else {
                    r is Continue && vm_moved_pc(pre, post, t)
                }
            }
        },
        Opcode::JMPF => {
            let rs = p[pc + 1];
            if rs >= 32 {
                vm_fault(pre, post, r)
            } else {
                let v = regs[rs as int];
                let t = pc + 2 + v;
                if v < 0 || t > usize::MAX {
                    vm_fault(pre, post, r)
                } else {
                    r is Continue && vm_moved_pc(pre, post, t)
                }
            }
        },
        Opcode::JMPB => {
            let rs = p[pc + 1];
            if rs >= 32 {
                vm_fault(pre, post, r)
            } else {
                let v = regs[rs as int];
                if v < 0 || v > pc + 2 {
                    vm_fault(pre, post, r)
                } else {
                    r is Continue && vm_moved_pc(pre, post, pc + 2 - v)
                }
            }
        },
        Opcode::EQ | Opcode::NEQ | Opcode::GT | Opcode::LT | Opcode::GTQ | Opcode::LTQ => {
            let r1 = p[pc + 1];
            let r2 = p[pc + 2];
            if r1 >= 32 || r2 >= 32 {
                vm_fault(pre, post, r)
            } else {
                let a = regs[r1 as int];
                let b = regs[r2 as int];
                let flag = if op is EQ {
                    a == b
                } else if op is NEQ {
                    a != b
                } else if op is GT {
                    a > b
                } else if op is LT {
                    a < b
                } else if op is GTQ {
                    a >= b
                } else {
                    a <= b
                };
                &&& r is Continue
                &&& post.registers@ == regs
                &&& post.pc == pc + 4
                &&& post.memory_heap == h
                &&& post.remainder == pre.remainder
                &&& post.equal_flag == flag
            }
        },
        Opcode::ALOC => {
            let rs = p[pc + 1];
            if rs >= 32 {
                vm_fault(pre, post, r)
            } else {
                let v = regs[rs as int];
                if v < 0 || h.size() + v > u32::MAX {
                    vm_fault(pre, post, r)
                } else {
                    &&& r is Continue
                    &&& post.registers@ == regs
                    &&& post.pc == pc + 4
                    &&& post.remainder == pre.remainder
                    &&& post.equal_flag == pre.equal_flag
                    &&& post.memory_heap.wf()
                    &&& post.memory_heap.descs() == h.descs().push(
                        ((h.size() as u32, v as u32)),
                    )
                    &&& post.memory_heap.bytes() == h.bytes() + Seq::new(v as nat, |j: int| 0u8)
                }
            }
        },
        Opcode::PRTS => {
            let idx = spec_imm16(p, pc + 1) as int;
            if idx >= h.blob_count() {
                vm_fault(pre, post, r)
            } else {
                &&& vm_moved_pc(pre, post, pc + 4)
                &&& r matches StepAction::Print { bytes } && bytes@ == spec_upto_nul(h.blob(idx))
            }
        },
        Opcode::SLP | Opcode::SLPS => {
            let rs = p[pc + 1];
            if rs >= 32 {
                vm_fault(pre, post, r)
            } else {
                let unit: int = if op is SLP {
                    1
                } else {
                    1000
                };
                &&& vm_moved_pc(pre, post, pc + 4)
                &&& r matches StepAction::Sleep { millis } && millis == spec_sleep_millis(
                    regs[rs as int],
                    unit,
                )
            }
        },
        Opcode::ASKI => {
            let idx = spec_imm16(p, pc + 1);
            if idx as int >= h.blob_count() {
                vm_fault(pre, post, r)
            } else {
                &&& vm_moved_pc(pre, post, pc + 4)
                &&& r matches StepAction::AskInt { prompt, index } && prompt@ == h.blob(idx as int)
                    && index == idx
            }
        },
        Opcode::ASKS => {
            let idx = spec_imm16(p, pc + 1);
            if idx as int >= h.blob_count() {
                vm_fault(pre, post, r)
            } else {
                &&& vm_moved_pc(pre, post, pc + 4)
                &&& r matches StepAction::AskStr { prompt, index } && prompt@ == h.blob(idx as int)
                    && index == idx
            }
        },
        Opcode::GRPS => {
            let i1 = spec_imm16(p, pc + 1) as int;
            let i2 = spec_imm16(p, pc + 3) as int;
            let i3 = spec_imm16(p, pc + 5) as int;
            if i1 >= h.blob_count() || i2 >= h.blob_count() || i3 >= h.blob_count() {
                vm_fault(pre, post, r)
            } else {
                let combined = h.blob(i1) + h.blob(i2);
                if h.size() - h.blob(i3).len() + combined.len() > u32::MAX {
                    vm_fault(pre, post, r)
                } else {
                    &&& r is Continue
                    &&& post.registers@ == regs
                    &&& post.pc == pc + 8
                    &&& post.remainder == pre.remainder
                    &&& post.equal_flag == pre.equal_flag
                    &&& post.memory_heap.wf()
                    &&& post.memory_heap.blob_count() == h.blob_count()
                    &&& post.memory_heap.blob(i3) == combined
                    &&& forall|k: int|
                        0 <= k < h.blob_count() && k != i3 ==> post.memory_heap.blob(k) == h.blob(
                            k,
                        )
                }
            }
        },
    }
}

} // verus!

verus! {

/// Everything in `v` before its first zero byte.
fn take_until_nul(v: &Vec<u8>) -> (r: Vec<u8>)
    ensures
        r@ == spec_upto_nul(v@),
{
    let n = v.len();
    let mut out: Vec<u8> = Vec::new();
    let mut k: usize = 0;
    while k < n && v[k] != 0
        invariant
            k <= n,
            n == v@.len(),
            out@ == v@.take(k as int),
            spec_nul_pos(v@, 0) == spec_nul_pos(v@, k as int),
        decreases n - k,
    {
        let ghost pre = out@;
        out.push(v[k]);
        proof {
            assert(out@ =~= v@.take(k as int + 1));
        }
        k += 1;
    }
    proof {
        assert(spec_nul_pos(v@, k as int) == k);
    }
    out
}

impl VM {
    /// Fetches, decodes and executes one instruction, returning the
    /// action it asks of the host. A counter past the program, a
    /// truncated word, an out-of-range register operand, a division the
    /// machine cannot represent, a jump it cannot take or a heap index
    /// it does not have all halt the machine with exit code 1.
    #[verifier::rlimit(100)]
    #[verifier::spinoff_prover]
    fn execute_instruction(&mut self) -> (r: StepAction)
        requires
            old(self).wf(),
        ensures
            final(self).wf(),
            spec_step_rel(*old(self), *final(self), r),
            final(self).events@ == old(self).events@,
            final(self).state == old(self).state,
    {
        let n = self.program.len();
        if self.pc >= n {
            return StepAction::Halt { code: 1 };
        }
        let op = Opcode::from(self.program[self.pc]);
        let words: usize = if matches!(op, Opcode::GRPS) {
            8
        } else {
            4
        };
        if n - self.pc < words {
            return StepAction::Halt { code: 1 };
        }
        let pc = self.pc;
        match op {
            Opcode::HLT => {
                self.pc = pc + 4;
                StepAction::Halt { code: 0 }
            },
            Opcode::IGL => {
                self.pc = pc + 4;
                StepAction::Halt { code: 1 }
            },
            Opcode::LOAD => {
                let rd = self.program[pc + 1];
                if rd >= 32 {
                    return StepAction::Halt { code: 1 };
                }
                let hi = self.program[pc + 2];
                let lo = self.program[pc + 3];
                let imm: u16 = (hi as u16) * 256 + (lo as u16);
                self.registers[rd as usize] = imm as i32;
                self.pc = pc + 4;
                StepAction::Continue
            },
            Opcode::ADD | Opcode::SUB | Opcode::MUL => {
                let r1 = self.program[pc + 1];
                let r2 = self.program[pc + 2];
                let rd = self.program[pc + 3];
                if r1 >= 32 || r2 >= 32 || rd >= 32 {
                    return StepAction::Halt { code: 1 };
                }
                let a = self.registers[r1 as usize];
                let b = self.registers[r2 as usize];
                let v = match op {
                    Opcode::ADD => a.wrapping_add(b),
                    Opcode::SUB => a.wrapping_sub(b),
                    _ => a.wrapping_mul(b),
                };
                self.registers[rd as usize] = v;
                self.pc = pc + 4;
                StepAction::Continue
            },
            Opcode::DIV => {
                let r1 = self.program[pc + 1];
                let r2 = self.program[pc + 2];
                let rd = self.program[pc + 3];
                if r1 >= 32 || r2 >= 32 || rd >= 32 {
                    return StepAction::Halt { code: 1 };
                }
                let a = self.registers[r1 as usize];
                let b = self.registers[r2 as usize];
                if b == 0 || (a == i32::MIN && b == -1) {
                    return StepAction::Halt { code: 1 };
                }
                let ua: u32 = if a < 0 {
                    (-(a as i64)) as u32
                } else {
                    a as u32
                };
                let ub: u32 = if b < 0 {
                    (-(b as i64)) as u32
                } else {
                    b as u32
                };
                let uq = ua / ub;
                let ur = ua % ub;
                proof {
                    assert(ua == abs_int(a as int));
                    assert(ub == abs_int(b as int));
                    if ub >= 2 {
                        vstd::arithmetic::div_mod::lemma_div_is_ordered_by_denominator(
                            ua as int,
                            2,
                            ub as int,
                        );
                    }
                }
                let q: i32 = if (a < 0) != (b < 0) {
                    (-(uq as i64)) as i32
                } else {
                    uq as i32
                };
                proof {
                    assert(q as int == spec_div_trunc(a as int, b as int));
                }
                self.registers[rd as usize] = q;
                self.remainder = if a < 0 && ur > 0 {
                    (u32::MAX - ur) + 1
                } else {
                    ur
                };
                proof {
                    assert(self.remainder == spec_rem_cast(a as int, b as int));
                }
                self.pc = pc + 4;
                StepAction::Continue
            },
            Opcode::JMP | Opcode::JEQ => {
                let rs = self.program[pc + 1];
                if rs >= 32 {
                    return StepAction::Halt { code: 1 };
                }
                if matches!(op, Opcode::JEQ) && !self.equal_flag {
                    self.pc = pc + 4;
                    return StepAction::Continue;
                }
                let v = self.registers[rs as usize];
                if v < 0 {
                    return StepAction::Halt { code: 1 };
                }
                let t: u128 = 64 + self.code_start as u128 + v as u128;
                if t > usize::MAX as u128 {
                    return StepAction::Halt { code: 1 };
                }
                self.pc = t as usize;
                StepAction::Continue
            },
            Opcode::JMPF => {
                let rs = self.program[pc + 1];
                if rs >= 32 {
                    return StepAction::Halt { code: 1 };
                }
                let v = self.registers[rs as usize];
                if v < 0 {
                    return StepAction::Halt { code: 1 };
                }
                let t: u128 = pc as u128 + 2 + v as u128;
                if t > usize::MAX as u128 {
                    return StepAction::Halt { code: 1 };
                }
                self.pc = t as usize;
                StepAction::Continue
            },
            Opcode::JMPB => {
                let rs = self.program[pc + 1];
                if rs >= 32 {
                    return StepAction::Halt { code: 1 };
                }
                let v = self.registers[rs as usize];
                if v < 0 {
                    return StepAction::Halt { code: 1 };
                }
                if v as u128 > pc as u128 + 2 {
                    return StepAction::Halt { code: 1 };
                }
                let back = v as usize;
                let t = if back >= 2 {
                    pc - (back - 2)
                } else {
                    pc + (2 - back)
                };
                self.pc = t;
                StepAction::Continue
            },
            Opcode::EQ | Opcode::NEQ | Opcode::GT | Opcode::LT | Opcode::GTQ | Opcode::LTQ => {
                let r1 = self.program[pc + 1];
                let r2 = self.program[pc + 2];
                if r1 >= 32 || r2 >= 32 {
                    return StepAction::Halt { code: 1 };
                }
                let a = self.registers[r1 as usize];
                let b = self.registers[r2 as usize];
                self.equal_flag = match op {
                    Opcode::EQ => a == b,
                    Opcode::NEQ => a != b,
                    Opcode::GT => a > b,
                    Opcode::LT => a < b,
                    Opcode::GTQ => a >= b,
                    _ => a <= b,
                };
                self.pc = pc + 4;
                StepAction::Continue
            },
            Opcode::ALOC => {
                let rs = self.program[pc + 1];
                if rs >= 32 {
                    return StepAction::Halt { code: 1 };
                }
                let v = self.registers[rs as usize];
                if v < 0 {
                    return StepAction::Halt { code: 1 };
                }
                if self.memory_heap.byte_len() > (u32::MAX as usize) - (v as usize) {
                    proof {
                        self.memory_heap.lemma_size_bound();
                    }
                    return StepAction::Halt { code: 1 };
                }
                self.memory_heap.allocate(v as usize);
                self.pc = pc + 4;
                StepAction::Continue
            },
            Opcode::PRTS => {
                let hi = self.program[pc + 1];
                let lo = self.program[pc + 2];
                let idx: u16 = (hi as u16) * 256 + (lo as u16);
                if idx as usize >= self.memory_heap.count() {
                    return StepAction::Halt { code: 1 };
                }
                let blob = self.memory_heap.get_slice(idx as usize);
                let bytes = take_until_nul(&blob);
                self.pc = pc + 4;
                StepAction::Print { bytes }
            },
            Opcode::SLP | Opcode::SLPS => {
                let rs = self.program[pc + 1];
                if rs >= 32 {
                    return StepAction::Halt { code: 1 };
                }
                let v = self.registers[rs as usize];
                let unit: u64 = if matches!(op, Opcode::SLP) {
                    1
                } else {
                    1000
                };
                let millis: u64 = if v <= 0 {
                    0
                } else {
                    (v as u64) * unit
                };
                self.pc = pc + 4;
                StepAction::Sleep { millis }
            },
            Opcode::ASKI => {
                let hi = self.program[pc + 1];
                let lo = self.program[pc + 2];
                let idx: u16 = (hi as u16) * 256 + (lo as u16);
                if idx as usize >= self.memory_heap.count() {
                    return StepAction::Halt { code: 1 };
                }
                let prompt = self.memory_heap.get_slice(idx as usize);
                self.pc = pc + 4;
                StepAction::AskInt { prompt, index: idx }
            },
            Opcode::ASKS => {
                let hi = self.program[pc + 1];
                let lo = self.program[pc + 2];
                let idx: u16 = (hi as u16) * 256 + (lo as u16);
                if idx as usize >= self.memory_heap.count() {
                    return StepAction::Halt { code: 1 };
                }
                let prompt = self.memory_heap.get_slice(idx as usize);
                self.pc = pc + 4;
                StepAction::AskStr { prompt, index: idx }
            },
            Opcode::GRPS => {
                let i1: u16 = (self.program[pc + 1] as u16) * 256 + (self.program[pc + 2] as u16);
                let i2: u16 = (self.program[pc + 3] as u16) * 256 + (self.program[pc + 4] as u16);
                let i3: u16 = (self.program[pc + 5] as u16) * 256 + (self.program[pc + 6] as u16);
                let count = self.memory_heap.count();
                if i1 as usize >= count || i2 as usize >= count || i3 as usize >= count {
                    return StepAction::Halt { code: 1 };
                }
                let mut combined = self.memory_heap.get_slice(i1 as usize);
                let mut right = self.memory_heap.get_slice(i2 as usize);
                combined.append(&mut right);
                proof {
                    self.memory_heap.lemma_size_bound();
                    self.memory_heap.lemma_blob_in_bounds(i3 as int);
                }
                let old_len = {
                    let slice = self.memory_heap.get_slice(i3 as usize);
                    slice.len()
                };
                let size = self.memory_heap.byte_len();
                if combined.len() > (u32::MAX as usize) - (size - old_len) {
                    return StepAction::Halt { code: 1 };
                }
                self.memory_heap.edit(combined, i3 as usize);
                self.pc = pc + 8;
                StepAction::Continue
            },
        }
    }
}

} // verus!

verus! {

impl VM {
    /// Starts a run: records the one `Start` event, verifies the image,
    /// and on success reconstructs the heap from the image's header and
    /// points the counter at the start of the code. A bad image records
    /// the one `Crash` event and finishes; otherwise the machine is
    /// running and `resume` executes it.
    pub fn run(&mut self) -> (r: RunSignal)
        requires
            old(self).wf(),
            old(self).state is Ready,
            old(self).events_wf(),
        ensures
            final(self).wf(),
            final(self).events_wf(),
            final(self).id == old(self).id,
            final(self).program@ == old(self).program@,
            final(self).registers@ == old(self).registers@,
            final(self).remainder == old(self).remainder,
            final(self).equal_flag == old(self).equal_flag,
            final(self).events@[0].event is Start,
            final(self).events@[0].application_id == old(self).id,
            !VM::spec_image_ok(old(self).program@) ==> {
                &&& r is Finished
                &&& final(self).state is Stopped
                &&& final(self).events@[1].event is Crash
                &&& final(self).memory_heap == old(self).memory_heap
                &&& final(self).pc == old(self).pc
                &&& final(self).code_start == old(self).code_start
            },
            VM::spec_image_ok(old(self).program@) ==> {
                let region = old(self).program@.subrange(5, 61);
                let body = old(self).program@.subrange(64, old(self).program@.len() as int);
                &&& r is Running
                &&& final(self).state is Running
                &&& final(self).memory_heap.descs() == spec_image_pairs(
                    region,
                    body.len() as int,
                    0,
                    0,
                )
                &&& final(self).memory_heap.bytes() == body.take(
                    len_before(
                        final(self).memory_heap.descs(),
                        final(self).memory_heap.descs().len() as int,
                    ),
                )
                &&& final(self).code_start == final(self).memory_heap.size()
                &&& final(self).pc == 64 + final(self).code_start
            },
    {
        self.events.push(VMEvent::now(VMEventType::Start, self.id));
        self.state = VMState::Running;
        if !self.verify_header() {
            self.events.push(VMEvent::now(VMEventType::Crash, self.id));
            self.state = VMState::Stopped;
            return RunSignal::Finished;
        }
        let plen = self.program.len();
        let heap = MemoryHeap::from_image_header(
            &self.program[5..61],
            &self.program[64..plen],
        );
        let cs = heap.byte_len();
        self.memory_heap = heap;
        self.code_start = cs;
        self.pc = 64 + cs;
        RunSignal::Running
    }

    /// Executes the next instruction of a running machine. `Running`
    /// means more instructions follow; an effect signal asks the host to
    /// perform it and call `resume` again; `Finished` means the one
    /// terminal event was recorded: a graceful stop whose code matches
    /// the halting instruction.
    pub fn resume(&mut self) -> (r: RunSignal)
        requires
            old(self).wf(),
            old(self).state is Running,
            old(self).events_wf(),
        ensures
            final(self).wf(),
            final(self).events_wf(),
            final(self).id == old(self).id,
            final(self).program@ == old(self).program@,
            final(self).code_start == old(self).code_start,
            resume_post(*old(self), *final(self), r),
    {
        let act = self.execute_instruction();
        match act {
            StepAction::Continue => RunSignal::Running,
            StepAction::Halt { code } => {
                self.events.push(VMEvent::now(VMEventType::GracefulStop { code }, self.id));
                self.state = VMState::Stopped;
                proof {
                    assert(self.events@ == old(self).events@.push(self.events@[1]));
                    assert(self.events@[0] == old(self).events@[0]);
                    assert(self.events@[1].event == (VMEventType::GracefulStop { code }));
                    assert(spec_step_rel(*old(self), *self, StepAction::Halt { code }));
                    assert(finished_step(*old(self), *self));
                }
                RunSignal::Finished
            },
            StepAction::Print { bytes } => RunSignal::Print { bytes },
            StepAction::Sleep { millis } => RunSignal::Sleep { millis },
            StepAction::AskInt { prompt, index } => RunSignal::AskInt { prompt, index },
            StepAction::AskStr { prompt, index } => RunSignal::AskStr { prompt, index },
        }
    }

    /// Executes one instruction, discarding whatever it asks of the
    /// host. Meant for controlled, step-by-step execution.
    pub fn run_once(&mut self)
        requires
            old(self).wf(),
        ensures
            final(self).wf(),
            final(self).events@ == old(self).events@,
            final(self).state == old(self).state,
            exists|a: StepAction| #[trigger] spec_step_rel(*old(self), *final(self), a),
    {
        let act = self.execute_instruction();
        proof {
            assert(spec_step_rel(*old(self), *final(self), act));
        }
    }

    /// Hands the machine what the host read for an integer prompt: the
    /// parsed value is written into heap blob `index` as a little-endian
    /// 32-bit integer. A read or parse failure, an index the heap does
    /// not have, or a value that cannot fit the heap leaves it untouched.
    pub fn resume_aski(&mut self, index: u16, line: Option<&str>)
        requires
            old(self).wf(),
        ensures
            final(self).wf(),
            final(self).registers@ == old(self).registers@,
            final(self).pc == old(self).pc,
            final(self).program@ == old(self).program@,
            final(self).remainder == old(self).remainder,
            final(self).equal_flag == old(self).equal_flag,
            final(self).id == old(self).id,
            final(self).events@ == old(self).events@,
            final(self).code_start == old(self).code_start,
            final(self).state == old(self).state,
            ({
                let h = old(self).memory_heap;
                let hp = final(self).memory_heap;
                match line {
                    Some(l) => match crate::parser::spec_parse_i32(l@) {
                        Some(v) => {
                            if index < h.blob_count() && h.size() - h.blob(index as int).len() + 4
                                <= u32::MAX {
                                &&& hp.wf()
                                &&& hp.blob_count() == h.blob_count()
                                &&& hp.blob(index as int)
                                    == vstd::bytes::spec_u32_to_le_bytes(v as u32)
                                &&& forall|k: int|
                                    0 <= k < h.blob_count() && k != index ==> hp.blob(k) == h.blob(
                                        k,
                                    )
                            } else {
                                hp == h
                            }
                        },
                        None => hp == h,
                    },
                    None => hp == h,
                }
            }),
    {
        let l = match line {
            Some(l) => l,
            None => {
                return ;
            },
        };
        let v = match crate::parser::parse_i32(l) {
            Some(v) => v,
            None => {
                return ;
            },
        };
        if index as usize >= self.memory_heap.count() {
            return ;
        }
        proof {
            self.memory_heap.lemma_size_bound();
            self.memory_heap.lemma_blob_in_bounds(index as int);
        }
        let old_len = {
            let slice = self.memory_heap.get_slice(index as usize);
            slice.len()
        };
        let size = self.memory_heap.byte_len();
        if 4 > (u32::MAX as usize) - (size - old_len) {
            return ;
        }
        let bytes = vstd::bytes::u32_to_le_bytes(#[verifier::truncate] (v as u32));
        self.memory_heap.edit(bytes, index as usize);
    }

    /// Hands the machine the line the host read for a string prompt: its
    /// UTF-8 bytes are written into heap blob `index`. A read failure, an
    /// index the heap does not have, or a line that cannot fit the heap
    /// leaves it untouched.
    pub fn resume_asks(&mut self, index: u16, line: Option<&str>)
        requires
            old(self).wf(),
        ensures
            final(self).wf(),
            final(self).registers@ == old(self).registers@,
            final(self).pc == old(self).pc,
            final(self).program@ == old(self).program@,
            final(self).remainder == old(self).remainder,
            final(self).equal_flag == old(self).equal_flag,
            final(self).id == old(self).id,
            final(self).events@ == old(self).events@,
            final(self).code_start == old(self).code_start,
            final(self).state == old(self).state,
            ({
                let h = old(self).memory_heap;
                let hp = final(self).memory_heap;
                match line {
                    Some(l) => {
                        let bytes = vstd::utf8::encode_utf8(l@);
                        if index < h.blob_count() && h.size() - h.blob(index as int).len()
                            + bytes.len() <= u32::MAX {
                            &&& hp.wf()
                            &&& hp.blob_count() == h.blob_count()
                            &&& hp.blob(index as int) == bytes
                            &&& forall|k: int|
                                0 <= k < h.blob_count() && k != index ==> hp.blob(k) == h.blob(k)
                        } else {
                            hp == h
                        }
                    },
                    None => hp == h,
                }
            }),
    {
        let l = match line {
            Some(l) => l,
            None => {
                return ;
            },
        };
        if index as usize >= self.memory_heap.count() {
            return ;
        }
        proof {
            self.memory_heap.lemma_size_bound();
            self.memory_heap.lemma_blob_in_bounds(index as int);
        }
        let bytes = l.as_bytes_vec();
        let old_len = {
            let slice = self.memory_heap.get_slice(index as usize);
            slice.len()
        };
        let size = self.memory_heap.byte_len();
        if bytes.len() > (u32::MAX as usize) - (size - old_len) {
            return ;
        }
        self.memory_heap.edit(bytes, index as usize);
    }
}

} // verus!

verus! {

/// Whether an opcode reads a register index from its first operand byte.
pub open spec fn reads_register_operand(op: Opcode) -> bool {
    op is LOAD || op is ADD || op is SUB || op is MUL || op is DIV || op is JMP || op is JMPF
        || op is JMPB || op is JEQ || op is EQ || op is NEQ || op is GT || op is LT || op is GTQ
        || op is LTQ || op is ALOC || op is SLP || op is SLPS
}

/// Register bound: a step never changes the register file's size, and a
/// register operand at or past the file's end faults the machine with
/// exit code 1 instead of indexing beyond it.
pub proof fn lemma_register_file_bound(pre: VM, post: VM, r: StepAction)
    requires
        pre.wf(),
        spec_step_rel(pre, post, r),
    ensures
        post.registers@.len() == 32,
        ({
            let p = pre.program@;
            let pc = pre.pc as int;
            pc < p.len() && pc + 4 <= p.len() && reads_register_operand(opcode_of_byte(p[pc]))
                && p[pc + 1] >= 32 ==> vm_fault(pre, post, r)
        }),
{
}

/// PC progress: an executed instruction that does not branch and does
/// not halt advances the counter by exactly one word — four bytes,
/// eight for the two-word `GRPS`; a branching one lands where its
/// operand says, or halts.
pub proof fn lemma_pc_progress(pre: VM, post: VM, r: StepAction)
    requires
        spec_step_rel(pre, post, r),
        pre.pc < pre.program@.len(),
        !(r is Halt),
    ensures
        ({
            let p = pre.program@;
            let pc = pre.pc as int;
            let op = opcode_of_byte(p[pc]);
            let reg = p[pc + 1] as int;
            &&& (op is GRPS ==> post.pc == pc + 8)
            &&& (!(op is JMP || op is JMPF || op is JMPB || op is JEQ || op is GRPS) ==> post.pc
                == pc + 4)
            &&& ((op is JMP || (op is JEQ && pre.equal_flag)) ==> post.pc == 64 + pre.code_start
                + pre.registers@[reg])
            &&& (op is JMPF ==> post.pc == pc + 2 + pre.registers@[reg])
            &&& (op is JMPB ==> post.pc == pc + 2 - pre.registers@[reg] && post.pc <= pc + 2)
            &&& ((op is JEQ && !pre.equal_flag) ==> post.pc == pc + 4)
        }),
{
}

} // verus!
