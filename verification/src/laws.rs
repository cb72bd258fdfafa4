//! What holds of every machine, proved from the definition of a step.

use vstd::prelude::*;
use crate::instruction::Instruction;
use crate::machine::{Chip8Error, HostReply, MachineView, MEM_SIZE};

verus! {

/// Every decoded instruction is well formed: its register indices and row
/// count are nibbles and its address has twelve bits.
pub proof fn law_decoded_is_well_formed(op: u16)
    ensures
        crate::instruction::decode_spec(op).well_formed(),
{
}

/// A blank machine is well formed, and so is a machine that was loaded with
/// a program and a font that fit.
pub proof fn law_fresh_is_well_formed(program: Seq<u8>, font: Seq<u8>)
    requires
        MachineView::fits(program, font),
    ensures
        MachineView::blank().well_formed(),
        MachineView::loaded(program, font).well_formed(),
{
}

/// An instruction keeps a well-formed machine well formed. In particular
/// the index register, whatever wrote it, stays an address within the
/// memory.
pub proof fn law_apply_keeps_well_formed(
    machine: MachineView,
    instruction: Instruction,
    reply: HostReply,
)
    requires
        machine.well_formed(),
        instruction.well_formed(),
        2 <= machine.pc <= MEM_SIZE,
    ensures
        machine.apply(instruction, reply).well_formed(),
        0 <= machine.apply(instruction, reply).index < MEM_SIZE,
{
    let after = machine.apply(instruction, reply);
    match instruction {
        Instruction::Rts => {
            if machine.stack.len() > 0 {
                assert(machine.stack[machine.stack.len() - 1] <= MEM_SIZE);
                assert forall|i: int| 0 <= i < after.stack.len() implies 0
                    <= #[trigger] after.stack[i] <= MEM_SIZE by {
                    assert(after.stack[i] == machine.stack[i]);
                }
            }
        },
        Instruction::Call { nnn } => {
            assert forall|i: int| 0 <= i < after.stack.len() implies 0
                <= #[trigger] after.stack[i] <= MEM_SIZE by {
                if i < machine.stack.len() {
                    assert(after.stack[i] == machine.stack[i]);
                }
            }
        },
        _ => {},
    }
}

/// A step keeps a well-formed machine well formed: the memory keeps its
/// size, the index register stays within the memory, and the program
/// counter and the return addresses stay within their bounds.
pub proof fn law_step_keeps_well_formed(machine: MachineView, reply: HostReply)
    requires
        machine.well_formed(),
    ensures
        machine.step(reply).well_formed(),
{
    if machine.can_fetch() {
        law_decoded_is_well_formed(machine.opcode());
        law_apply_keeps_well_formed(
            machine.jump(machine.pc + 2),
            crate::instruction::decode_spec(machine.opcode()),
            reply,
        );
    }
}

/// An instruction is only ever fetched from within the memory: a step from
/// a program counter that has left it changes nothing but to stop the
/// machine with an error.
pub proof fn law_fetch_stays_in_memory(machine: MachineView, reply: HostReply)
    requires
        machine.well_formed(),
        machine.fault is None,
        machine.pc + 1 >= MEM_SIZE,
    ensures
        machine.step(reply) == machine.halt(Chip8Error::OutOfMemoryAccess),
{
}

/// The program counter and the return addresses stay within the memory
/// from one step to the next, as long as the program does not run off the
/// end of the memory: an instruction other than a jump lies below the last
/// two bytes, a skip lies below the last four, and an indexed jump has its
/// target within the memory.
pub proof fn law_pc_stays_in_memory(machine: MachineView, reply: HostReply)
    requires
        machine.well_formed(),
        machine.pc < MEM_SIZE,
        forall|i: int| 0 <= i < machine.stack.len() ==> machine.stack[i] < MEM_SIZE,
        ({
            let instruction = crate::instruction::decode_spec(machine.opcode());
            &&& instruction is Jump || machine.pc + 2 < MEM_SIZE
            &&& instruction is SkipEqConst || instruction is SkipNeqConst || instruction is SkipEq
                || instruction is SkipNeq || instruction is SkipKeyEq || instruction is SkipKeyNeq
                ==> machine.pc + 4 < MEM_SIZE
            &&& instruction matches Instruction::JumpIndexed { nnn } ==> nnn
                + machine.jump_offset(nnn) < MEM_SIZE
        }),
    ensures
        0 <= machine.step(reply).pc < MEM_SIZE,
        forall|i: int|
            0 <= i < machine.step(reply).stack.len() ==> machine.step(reply).stack[i] < MEM_SIZE,
{
    law_decoded_is_well_formed(machine.opcode());
    if machine.can_fetch() {
        let instruction = crate::instruction::decode_spec(machine.opcode());
        let fetched = machine.jump(machine.pc + 2);
        let after = fetched.apply(instruction, reply);
        assert(after == machine.step(reply));
        match instruction {
            Instruction::Rts => {
                if machine.stack.len() > 0 {
                    assert(machine.stack[machine.stack.len() - 1] < MEM_SIZE);
                    assert forall|i: int| 0 <= i < after.stack.len() implies after.stack[i]
                        < MEM_SIZE by {
                        assert(after.stack[i] == machine.stack[i]);
                    }
                }
            },
            Instruction::Call { nnn } => {
                assert forall|i: int| 0 <= i < after.stack.len() implies after.stack[i]
                    < MEM_SIZE by {
                    if i < machine.stack.len() {
                        assert(after.stack[i] == machine.stack[i]);
                    }
                }
            },
            _ => {},
        }
    }
}

/// After an addition, a subtraction, a shift to the right or a draw, the
/// flag register holds 0 or 1.
pub proof fn law_flag_is_a_bit(machine: MachineView, instruction: Instruction, reply: HostReply)
    requires
        machine.well_formed(),
        instruction.well_formed(),
        instruction is Add || instruction is SubXY || instruction is SubYX
            || instruction is RightShift || instruction is Draw,
    ensures
        machine.apply(instruction, reply).reg(0xF) == 0 || machine.apply(instruction, reply).reg(
            0xF,
        ) == 1,
{
}

/// After a shift to the left the flag register holds the top bit of the
/// shifted value where it stood: 0x80 if the value was 0x80 or more, else 0.
pub proof fn law_left_shift_flag(machine: MachineView, x: u8, y: u8, reply: HostReply)
    requires
        machine.well_formed(),
        x < 16,
        y < 16,
    ensures
        machine.apply(Instruction::LeftShift { x, y }, reply).reg(0xF) == if machine.shift_source(
            x,
            y,
        ) >= 0x80 {
            0x80int
        } else {
            0int
        },
{
}

/// Going `offset` bytes up from an address and the same way down again,
/// wrapping both times, leads back to where one was.
proof fn lemma_wrap_back(base: int, offset: int)
    requires
        0 <= base < MEM_SIZE,
        0 <= offset < MEM_SIZE,
    ensures
        0 <= crate::machine::wrap_address(base, offset) < MEM_SIZE,
        crate::machine::wrap_address(crate::machine::wrap_address(base, offset), -base) == offset,
{
    let up = (base + offset) % 0x1000;
    if base + offset < 0x1000 {
        assert(up == base + offset);
        assert((up - base) % 0x1000 == offset);
    } else {
        assert(up == base + offset - 0x1000);
        assert((up - base) % 0x1000 == offset);
    }
}

/// The memory after V0..=VX were stored holds each of them at its place.
proof fn lemma_dumped_holds_registers(machine: MachineView, x: u8, i: int)
    requires
        machine.well_formed(),
        x < 16,
        0 <= i <= x,
    ensures
        0 <= crate::machine::wrap_address(machine.index, i) < MEM_SIZE,
        machine.dumped(x)[crate::machine::wrap_address(machine.index, i)] == machine.registers[i],
{
    lemma_wrap_back(machine.index, i);
}

/// Storing V0..=VX and loading them again from the same place leaves every
/// register as it was. Where storing leaves the index register alone, the
/// load may follow the store at once, and the index register is as it was
/// too.
pub proof fn law_dump_then_load(machine: MachineView, x: u8, first: HostReply, second: HostReply)
    requires
        machine.well_formed(),
        x < 16,
    ensures
        machine.apply(Instruction::RegDump { x }, first).set_index(machine.index).apply(
            Instruction::RegLoad { x },
            second,
        ).registers == machine.registers,
        !machine.quirks.memory_moves_index ==> machine.apply(
            Instruction::RegDump { x },
            first,
        ).apply(Instruction::RegLoad { x }, second).registers == machine.registers,
        !machine.quirks.memory_moves_index ==> machine.apply(
            Instruction::RegDump { x },
            first,
        ).apply(Instruction::RegLoad { x }, second).index == machine.index,
{
    let dumped = MachineView { memory: machine.dumped(x), ..machine };
    assert(machine.apply(Instruction::RegDump { x }, first).set_index(machine.index) == dumped);
    let loaded = MachineView {
        registers: dumped.reloaded(x),
        index: dumped.index_after_transfer(x),
        ..dumped
    };
    assert(dumped.apply(Instruction::RegLoad { x }, second) == loaded);
    assert forall|i: int| 0 <= i < 16 implies loaded.registers[i] == machine.registers[i] by {
        if i <= x {
            lemma_dumped_holds_registers(machine, x, i);
        }
    }
    assert(loaded.registers =~= machine.registers);
    if !machine.quirks.memory_moves_index {
        assert(loaded =~= dumped);
    }
}

/// Storing V0..=VX puts them into the memory at I and upwards, and loading
/// them from there brings them back whatever the registers held in between.
pub proof fn law_dump_round_trip(
    machine: MachineView,
    x: u8,
    scrambled: Seq<u8>,
    first: HostReply,
    second: HostReply,
)
    requires
        machine.well_formed(),
        x < 16,
        scrambled.len() == 16,
    ensures
        forall|i: int|
            0 <= i <= x ==> machine.apply(Instruction::RegDump { x }, first).memory[
                crate::machine::wrap_address(machine.index, i)
            ] == machine.registers[i],
        machine.index + x < MEM_SIZE ==> forall|i: int|
            0 <= i <= x ==> machine.apply(Instruction::RegDump { x }, first).memory[
                machine.index + i
            ] == machine.registers[i],
        forall|i: int|
            0 <= i <= x ==> (MachineView {
                registers: scrambled,
                index: machine.index,
                ..machine.apply(Instruction::RegDump { x }, first)
            }).apply(Instruction::RegLoad { x }, second).registers[i] == machine.registers[i],
{
    let dumped = MachineView { memory: machine.dumped(x), ..machine };
    assert(machine.apply(Instruction::RegDump { x }, first).memory == dumped.memory);
    let mixed = MachineView { registers: scrambled, ..dumped };
    assert(mixed == (MachineView {
        registers: scrambled,
        index: machine.index,
        ..machine.apply(Instruction::RegDump { x }, first)
    }));
    let loaded = MachineView {
        registers: mixed.reloaded(x),
        index: mixed.index_after_transfer(x),
        ..mixed
    };
    assert(mixed.apply(Instruction::RegLoad { x }, second) == loaded);
    assert forall|i: int| 0 <= i <= x implies dumped.memory[crate::machine::wrap_address(
        machine.index,
        i,
    )] == machine.registers[i] && loaded.registers[i] == machine.registers[i] by {
        lemma_dumped_holds_registers(machine, x, i);
    }
    if machine.index + x < MEM_SIZE {
        assert forall|i: int| 0 <= i <= x implies dumped.memory[machine.index + i]
            == machine.registers[i] by {
            lemma_dumped_holds_registers(machine, x, i);
            assert(crate::machine::wrap_address(machine.index, i) == machine.index + i);
        }
    }
}

/// A call followed at once by a return leaves the machine as it was before
/// the call: the program counter is back behind the call and the stack has
/// its old depth.
pub proof fn law_call_then_return(
    machine: MachineView,
    nnn: u16,
    first: HostReply,
    second: HostReply,
)
    requires
        machine.well_formed(),
    ensures
        machine.apply(Instruction::Call { nnn }, first).apply(Instruction::Rts, second) == machine,
{
    let called = machine.apply(Instruction::Call { nnn }, first);
    let returned = called.apply(Instruction::Rts, second);
    assert(called.stack.drop_last() =~= machine.stack);
    assert(returned =~= machine);
}

/// A call to a subroutine that returns at once takes two steps, after which
/// the program counter is at the instruction after the call and the stack
/// is as deep as before.
pub proof fn law_call_and_return_steps(
    machine: MachineView,
    nnn: u16,
    first: HostReply,
    second: HostReply,
)
    requires
        machine.well_formed(),
        machine.can_fetch(),
        crate::instruction::decode_spec(machine.opcode()) == (Instruction::Call { nnn }),
        nnn + 1 < MEM_SIZE,
        crate::instruction::decode_spec(machine.jump(nnn as int).opcode()) == Instruction::Rts,
    ensures
        machine.step(first).step(second) == machine.jump(machine.pc + 2),
{
    let fetched = machine.jump(machine.pc + 2);
    law_call_then_return(fetched, nnn, first, second);
    let called = machine.step(first);
    assert(called == fetched.apply(Instruction::Call { nnn }, first));
    assert(called.can_fetch());
    assert(called.opcode() == machine.jump(nnn as int).opcode());
    let again = called.jump(called.pc + 2);
    assert(again.stack.drop_last() =~= machine.stack);
    assert(called.step(second) =~= fetched);
}

} // verus!
