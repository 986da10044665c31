use littlemanplus::assembly::Instruction;
use littlemanplus::vm::{
    Fault, MemoryCell, VirtualMachine, VirtualMachineError, VirtualMachineStep,
    MAX_INDIRECTION_DEPTH,
};
use littlemanplus::MEMORY_SIZE;

const SORT: &str = r#"
       INP
       STA 90
       INP
       STA 91
       INP
       STA 92
       INP
       STA 93
       INP
       STA 94
       INP
       STA 95
       INP
       STA 96
       INP
       STA 97
       INP
       STA 98
       INP
       STA 99
loop   LDA true
       STA sorted
       LDA first
       STA pos
       ADD one
       STA next
step   LDA @pos
       SUB @next
       BRZ pass
       BRP swap
pass   LDA pos
       ADD one
       STA pos
       LDA next
       ADD one
       STA next
       LDA pos
       SUB last
       BRZ repeat
       BRA step
swap   LDA @next
       STA temp
       LDA @pos
       STA @next
       LDA temp
       STA @pos
       LDA false
       STA sorted
       BRA pass
repeat LDA sorted
       SUB true
       BRZ exit
       BRA loop
exit   LDA first
       STA pos
outs   LDA @pos
       OUT
       LDA pos
       ADD one
       STA pos
       LDA last
       SUB pos
       BRP outs
       HLT
pos    DAT
next   DAT
temp   DAT
sorted DAT 0
true   DAT 1
false  DAT 0
one    DAT 1
first  DAT 90
last   DAT 99
"#;

fn loaded(source: &str) -> VirtualMachine {
    let mut vm = VirtualMachine::new();
    assert_eq!(vm.compile(source), Ok(()));
    vm
}

fn cells(vm: &VirtualMachine) -> Vec<i64> {
    vm.memory().iter().map(|cell| cell.data).collect()
}

/// Everything that can be read from a machine.
fn snapshot(vm: &VirtualMachine) -> (usize, i64, Vec<i64>, bool, Option<Fault>, i64, usize) {
    (
        vm.program_counter(),
        vm.accumulator(),
        cells(vm),
        vm.halted(),
        vm.fault(),
        vm.cycles(),
        vm.accessing(),
    )
}

/// Steps until the machine stops or asks for input that is not there.
fn run(vm: &mut VirtualMachine, inputs: &[i64]) -> (Vec<i64>, VirtualMachineStep) {
    let mut outputs = Vec::new();
    let mut next = 0;
    for _ in 0..1_000_000 {
        match vm.step() {
            VirtualMachineStep::Advanced => {}
            VirtualMachineStep::Output(value) => outputs.push(value),
            VirtualMachineStep::InputRequired => {
                if next == inputs.len() {
                    return (outputs, VirtualMachineStep::InputRequired);
                }
                vm.input(inputs[next]);
                next += 1;
            }
            last => return (outputs, last),
        }
    }
    panic!("the machine did not stop");
}

#[test]
fn a_new_machine() {
    let vm = VirtualMachine::new();
    assert_eq!(vm.program_counter(), 0);
    assert_eq!(vm.accumulator(), 0);
    assert_eq!(vm.cycles(), 0);
    assert_eq!(vm.accessing(), 0);
    assert!(!vm.halted());
    assert_eq!(vm.fault(), None);
    assert_eq!(vm.memory().len(), MEMORY_SIZE);
    assert_eq!(cells(&vm), vec![0; MEMORY_SIZE]);
    assert_eq!(MemoryCell::default().data, 0);
}

#[test]
fn a_cell_is_set() {
    let mut cell = MemoryCell::default();
    cell.set(-77);
    assert_eq!(cell.data, -77);
}

#[test]
fn sorting_ten_numbers() {
    let mut vm = loaded(SORT);
    let (outputs, last) = run(&mut vm, &[32, 7, 19, 75, 21, 14, 95, 35, 61, 50]);
    assert_eq!(outputs, vec![7, 14, 19, 21, 32, 35, 50, 61, 75, 95]);
    assert_eq!(last, VirtualMachineStep::Halted);
    assert!(vm.halted());
    assert_eq!(vm.fault(), None);
    assert_eq!(vm.step(), VirtualMachineStep::Halted);
    assert_eq!(&cells(&vm)[90..], &[7, 14, 19, 21, 32, 35, 50, 61, 75, 95]);
}

#[test]
fn sorting_numbers_that_are_sorted_or_equal() {
    let mut vm = loaded(SORT);
    let (outputs, _) = run(&mut vm, &[1, 2, 3, 4, 5, 6, 7, 8, 9, 10]);
    assert_eq!(outputs, vec![1, 2, 3, 4, 5, 6, 7, 8, 9, 10]);
    let mut vm = loaded(SORT);
    let (outputs, _) = run(&mut vm, &[5, 5, 4, 4, 3, 3, 2, 2, 1, 1]);
    assert_eq!(outputs, vec![1, 1, 2, 2, 3, 3, 4, 4, 5, 5]);
}

#[test]
fn the_program_is_loaded_from_address_zero() {
    let vm = loaded("LDA x\nADD @x\nOUT\nHLT\nx DAT 42");
    let memory = cells(&vm);
    assert_eq!(&memory[..5], &[5004, 1104, 902, 1, 42]);
    assert!(memory[5..].iter().all(|cell| *cell == 0));
    assert_eq!(
        memory[0],
        Instruction::LDA(4).encode()
    );
}

#[test]
fn asking_for_input_changes_nothing_but_the_cycle_counter() {
    let mut vm = loaded("LDA v\nINP\nOUT\nHLT\nv DAT 5");
    assert_eq!(vm.step(), VirtualMachineStep::Advanced);
    let before = snapshot(&vm);
    for asked in 1..=5 {
        assert_eq!(vm.step(), VirtualMachineStep::InputRequired);
        let now = snapshot(&vm);
        assert_eq!(
            (now.0, now.1, &now.2, now.3, now.4, now.6),
            (before.0, before.1, &before.2, before.3, before.4, before.6)
        );
        assert_eq!(now.5, before.5 + asked);
    }
    vm.input(99);
    assert_eq!(vm.program_counter(), 1);
    assert_eq!(vm.accumulator(), 5);
    assert_eq!(vm.step(), VirtualMachineStep::Advanced);
    assert_eq!(vm.accumulator(), 99);
    assert_eq!(vm.program_counter(), 2);
    assert_eq!(vm.step(), VirtualMachineStep::Output(99));
    assert_eq!(vm.step(), VirtualMachineStep::Halted);
}

#[test]
fn one_input_is_taken_once() {
    let mut vm = loaded("INP\nINP\nHLT");
    vm.input(1);
    assert_eq!(vm.step(), VirtualMachineStep::Advanced);
    assert_eq!(vm.accumulator(), 1);
    assert_eq!(vm.step(), VirtualMachineStep::InputRequired);
    assert_eq!(vm.step(), VirtualMachineStep::InputRequired);
    assert_eq!(vm.program_counter(), 1);
    vm.input(2);
    assert_eq!(vm.step(), VirtualMachineStep::Advanced);
    assert_eq!(vm.accumulator(), 2);
}

#[test]
fn a_later_input_replaces_one_not_taken() {
    let mut vm = loaded("INP\nOUT\nINP\nHLT");
    vm.input(1);
    vm.input(2);
    assert_eq!(vm.step(), VirtualMachineStep::Advanced);
    assert_eq!(vm.step(), VirtualMachineStep::Output(2));
    assert_eq!(vm.step(), VirtualMachineStep::InputRequired);
}

#[test]
fn halting_is_final() {
    let mut vm = loaded("LDA 2\nHLT\nDAT 7");
    assert_eq!(vm.step(), VirtualMachineStep::Advanced);
    assert_eq!(vm.step(), VirtualMachineStep::Halted);
    assert!(vm.halted());
    let stopped = snapshot(&vm);
    assert_eq!(stopped.5, 2);
    assert_eq!(stopped.0, 1);
    for _ in 0..10 {
        assert_eq!(vm.step(), VirtualMachineStep::Halted);
        assert_eq!(snapshot(&vm), stopped);
    }
    vm.input(3);
    assert_eq!(vm.step(), VirtualMachineStep::Halted);
    assert_eq!(vm.cycles(), 2);
}

#[test]
fn running_off_the_memory_halts() {
    let mut vm = VirtualMachine::new();
    for address in 0..MEMORY_SIZE {
        assert_eq!(vm.program_counter(), address);
        assert_eq!(vm.step(), VirtualMachineStep::Advanced);
    }
    assert_eq!(vm.program_counter(), MEMORY_SIZE);
    assert!(!vm.halted());
    assert_eq!(vm.step(), VirtualMachineStep::Halted);
    assert!(vm.halted());
    assert_eq!(vm.fault(), None);
    assert_eq!(vm.cycles(), MEMORY_SIZE as i64 + 1);
    assert_eq!(vm.step(), VirtualMachineStep::Halted);
    assert_eq!(vm.cycles(), MEMORY_SIZE as i64 + 1);
}

#[test]
fn a_cell_that_is_no_instruction_is_skipped() {
    let mut vm = loaded("DAT 0\nDAT 903\nDAT 14000\nOUT\nHLT");
    for expected in 1..=3 {
        assert_eq!(vm.step(), VirtualMachineStep::Advanced);
        assert_eq!(vm.program_counter(), expected);
        assert_eq!(vm.accumulator(), 0);
    }
    assert_eq!(vm.step(), VirtualMachineStep::Output(0));
    assert_eq!(vm.cycles(), 4);
}

#[test]
fn data_runs_as_the_instruction_that_it_encodes() {
    let mut vm = loaded("DAT 5003\nDAT 902\nDAT 1\nDAT 77");
    assert_eq!(vm.step(), VirtualMachineStep::Advanced);
    assert_eq!(vm.step(), VirtualMachineStep::Output(77));
    assert_eq!(vm.step(), VirtualMachineStep::Halted);
}

#[test]
fn a_program_may_write_its_own_instructions() {
    let mut vm = loaded("LDA new\nSTA 2\nHLT\nnew DAT 902");
    assert_eq!(vm.step(), VirtualMachineStep::Advanced);
    assert_eq!(vm.step(), VirtualMachineStep::Advanced);
    assert_eq!(vm.step(), VirtualMachineStep::Output(902));
}

#[test]
fn branching_beyond_the_memory_is_a_fault() {
    for source in ["BRA 100", "BRA 150", "BRA 999", "BRZ 100", "BRP 500"] {
        let mut vm = loaded(source);
        let before = snapshot(&vm);
        assert_eq!(
            vm.step(),
            VirtualMachineStep::Fault(Fault::AddressOutOfRange),
            "{}",
            source
        );
        assert!(vm.halted());
        assert_eq!(vm.fault(), Some(Fault::AddressOutOfRange));
        assert_eq!(vm.program_counter(), before.0);
        assert_eq!(vm.accumulator(), before.1);
        assert_eq!(cells(&vm), before.2);
        assert_eq!(vm.cycles(), 1);
        let stopped = snapshot(&vm);
        for _ in 0..3 {
            assert_eq!(vm.step(), VirtualMachineStep::Fault(Fault::AddressOutOfRange));
            assert_eq!(snapshot(&vm), stopped);
        }
    }
}

#[test]
fn a_branch_not_taken_does_not_fault() {
    let mut vm = loaded("LDA one\nBRZ 500\nSUB two\nBRP 500\nHLT\none DAT 1\ntwo DAT 2");
    assert_eq!(run(&mut vm, &[]), (vec![], VirtualMachineStep::Halted));
    assert_eq!(vm.fault(), None);
    assert_eq!(vm.accumulator(), -1);
    assert_eq!(vm.program_counter(), 4);
}

#[test]
fn branches() {
    let mut vm = loaded("BRA 2\nHLT\nBRZ 4\nHLT\nBRP 6\nHLT\nLDA 13\nBRZ 13\nBRP 10\nHLT\nSUB 13\nSUB 13\nBRP 13\nDAT 1");
    assert_eq!(vm.step(), VirtualMachineStep::Advanced);
    assert_eq!(vm.program_counter(), 2);
    assert_eq!(vm.step(), VirtualMachineStep::Advanced);
    assert_eq!(vm.program_counter(), 4);
    assert_eq!(vm.step(), VirtualMachineStep::Advanced);
    assert_eq!(vm.program_counter(), 6);
    assert_eq!(vm.step(), VirtualMachineStep::Advanced);
    assert_eq!(vm.accumulator(), 1);
    assert_eq!(vm.step(), VirtualMachineStep::Advanced);
    assert_eq!(vm.program_counter(), 8);
    assert_eq!(vm.step(), VirtualMachineStep::Advanced);
    assert_eq!(vm.program_counter(), 10);
    assert_eq!(vm.step(), VirtualMachineStep::Advanced);
    assert_eq!(vm.step(), VirtualMachineStep::Advanced);
    assert_eq!(vm.accumulator(), -1);
    assert_eq!(vm.step(), VirtualMachineStep::Advanced);
    assert_eq!(vm.program_counter(), 13);
}

#[test]
fn a_branch_takes_its_target_as_it_stands() {
    let mut vm = loaded("BRA @t\nHLT\nt DAT 1");
    assert_eq!(vm.step(), VirtualMachineStep::Fault(Fault::AddressOutOfRange));
}

#[test]
fn pointers_are_followed() {
    let mut vm = loaded("LDA @a\nOUT\nLDA @b\nOUT\nHLT\na DAT 7\nb DAT 105\nDAT 555");
    assert_eq!(vm.step(), VirtualMachineStep::Advanced);
    assert_eq!(vm.accessing(), 7);
    assert_eq!(vm.step(), VirtualMachineStep::Output(555));
    assert_eq!(vm.step(), VirtualMachineStep::Advanced);
    assert_eq!(vm.accessing(), 7);
    assert_eq!(vm.step(), VirtualMachineStep::Output(555));
}

#[test]
fn a_chain_of_pointers_is_what_following_it_by_hand_gives() {
    let size = MEMORY_SIZE;
    for depth in 0..=8usize {
        let mut source = if depth == 0 {
            String::from("LDA 50\nOUT\nHLT\n")
        } else {
            String::from("LDA @link0\nOUT\nHLT\n")
        };
        for link in 0..depth {
            if link + 1 < depth {
                source.push_str(&format!("link{} DAT {}\n", link, size + 3 + link + 1));
            } else {
                source.push_str(&format!("link{} DAT 50\n", link));
            }
        }
        let mut vm = loaded(&source);
        assert_eq!(vm.write(50, 4321), Ok(()));
        let memory = cells(&vm);
        let mut operand = memory[0] - 5000;
        let mut lookups = 0;
        while operand > size as i64 {
            operand = memory[operand as usize - size];
            lookups += 1;
        }
        assert_eq!(lookups, depth);
        assert_eq!(operand, 50);
        assert_eq!(vm.step(), VirtualMachineStep::Advanced);
        assert_eq!(vm.accessing(), 50);
        assert_eq!(vm.accumulator(), 4321);
        assert_eq!(vm.step(), VirtualMachineStep::Output(memory[operand as usize]));
    }
}

#[test]
fn operands_that_are_no_pointer() {
    let mut vm = loaded("LDA 200");
    assert_eq!(vm.step(), VirtualMachineStep::Fault(Fault::PointerOutOfRange));
    assert_eq!(vm.fault(), Some(Fault::PointerOutOfRange));
    let mut vm = loaded("LDA 999");
    assert_eq!(vm.step(), VirtualMachineStep::Fault(Fault::PointerOutOfRange));
    let mut vm = loaded("LDA 100");
    assert_eq!(vm.step(), VirtualMachineStep::Fault(Fault::AddressOutOfRange));
    let mut vm = loaded("HLT\nx DAT 200\n LDA @x");
    assert_eq!(vm.branch(2), Ok(()));
    assert_eq!(vm.step(), VirtualMachineStep::Fault(Fault::PointerOutOfRange));
    let mut vm = loaded("LDA x\nSUB y\nSTA x\nLDA @x\nx DAT 0\ny DAT 1");
    assert_eq!(vm.step(), VirtualMachineStep::Advanced);
    assert_eq!(vm.step(), VirtualMachineStep::Advanced);
    assert_eq!(vm.step(), VirtualMachineStep::Advanced);
    assert_eq!(cells(&vm)[4], -1);
    assert_eq!(vm.step(), VirtualMachineStep::Fault(Fault::PointerOutOfRange));
    assert_eq!(vm.program_counter(), 3);
    let mut vm = loaded("HLT\nx DAT 100\n STA @x");
    assert_eq!(vm.branch(2), Ok(()));
    assert_eq!(vm.step(), VirtualMachineStep::Fault(Fault::AddressOutOfRange));
}

#[test]
fn pointers_in_a_circle() {
    let mut vm = loaded("HLT\na DAT 102\nb DAT 101\n LDA @a");
    assert_eq!(vm.branch(3), Ok(()));
    let before = snapshot(&vm);
    assert_eq!(vm.step(), VirtualMachineStep::Fault(Fault::IndirectionCycle));
    assert_eq!(vm.fault(), Some(Fault::IndirectionCycle));
    assert!(vm.halted());
    assert_eq!(cells(&vm), before.2);
    assert_eq!(vm.accumulator(), before.1);
    assert_eq!(vm.accessing(), before.6);
    let mut vm = loaded("HLT\nself DAT 101\n STA @self");
    assert_eq!(vm.branch(2), Ok(()));
    assert_eq!(vm.step(), VirtualMachineStep::Fault(Fault::IndirectionCycle));
}

#[test]
fn the_longest_chain_that_ends() {
    let mut vm = VirtualMachine::new();
    for cell in 1..MEMORY_SIZE {
        let next = if cell + 1 < MEMORY_SIZE { (MEMORY_SIZE + cell + 1) as i64 } else { 0 };
        assert_eq!(vm.write(cell, next), Ok(()));
    }
    assert_eq!(vm.write(0, 31337), Ok(()));
    assert!(MEMORY_SIZE - 1 <= MAX_INDIRECTION_DEPTH);
    assert_eq!(vm.ptr_to_loc(MEMORY_SIZE as i64 + 1), Ok(0));
    assert_eq!(vm.ptr_get(MEMORY_SIZE as i64 + 1).map(|cell| cell.data), Ok(31337));
    assert_eq!(vm.accessing(), 0);
}

#[test]
fn arithmetic_wraps() {
    let mut vm = loaded("LDA big\nADD one\nOUT\nSUB one\nOUT\nSUB big\nSUB big\nSUB big\nOUT\nHLT\nbig DAT 9223372036854775807\none DAT 1");
    let (outputs, last) = run(&mut vm, &[]);
    assert_eq!(last, VirtualMachineStep::Halted);
    assert_eq!(outputs, vec![i64::MIN, i64::MAX, 2]);
}

#[test]
fn plain_arithmetic() {
    let mut vm = loaded("LDA a\nADD b\nOUT\nSUB c\nOUT\nHLT\na DAT 20\nb DAT 22\nc DAT 50");
    assert_eq!(run(&mut vm, &[]), (vec![42, -8], VirtualMachineStep::Halted));
    assert_eq!(vm.accessing(), 8);
}

#[test]
fn bitwise_instructions() {
    let mut vm = loaded("LDA a\nBWA b\nOUT\nLDA a\nBWO b\nOUT\nLDA a\nBWX b\nOUT\nLDA a\nBWN\nOUT\nINP\nBWN\nOUT\nINP\nBWA a\nOUT\nHLT\na DAT 12\nb DAT 10");
    let (outputs, last) = run(&mut vm, &[-1, -6]);
    assert_eq!(last, VirtualMachineStep::Halted);
    assert_eq!(outputs, vec![12 & 10, 12 | 10, 12 ^ 10, !12, 0, -6 & 12]);
    assert_eq!(outputs, vec![8, 14, 6, -13, 0, 8]);
}

#[test]
fn loading_through_the_accumulator() {
    let mut vm = loaded("LDA where\nLDR\nOUT\nLDA far\nLDR\nOUT\nLDA bad\nLDR\nHLT\nwhere DAT 12\nfar DAT 109\nbad DAT 300\nDAT 777");
    assert_eq!(vm.step(), VirtualMachineStep::Advanced);
    assert_eq!(vm.step(), VirtualMachineStep::Advanced);
    assert_eq!(vm.accessing(), 12);
    assert_eq!(vm.step(), VirtualMachineStep::Output(777));
    assert_eq!(vm.step(), VirtualMachineStep::Advanced);
    assert_eq!(vm.step(), VirtualMachineStep::Advanced);
    assert_eq!(vm.accessing(), 12);
    assert_eq!(vm.step(), VirtualMachineStep::Output(777));
    assert_eq!(vm.step(), VirtualMachineStep::Advanced);
    assert_eq!(vm.step(), VirtualMachineStep::Fault(Fault::PointerOutOfRange));
}

#[test]
fn storing() {
    let mut vm = loaded("INP\nSTA 50\nSTA @p\nHLT\np DAT 60");
    vm.input(-5);
    assert_eq!(run(&mut vm, &[]), (vec![], VirtualMachineStep::Halted));
    let memory = cells(&vm);
    assert_eq!(memory[50], -5);
    assert_eq!(memory[60], -5);
    assert_eq!(memory[4], 60);
    assert_eq!(vm.accessing(), 60);
}

#[test]
fn what_does_not_compile() {
    let mut vm = loaded("LDA 1\nDAT 9");
    vm.step();
    let before = snapshot(&vm);
    for source in ["LDA", "LDA nowhere", "lda 1", "ADD 1000", "BRA 1000", "STA 99999", "x"] {
        assert_eq!(vm.compile(source), Err(VirtualMachineError::CompilerError), "{:?}", source);
        assert_eq!(snapshot(&vm), before);
    }
    let mut long = String::new();
    for _ in 0..=MEMORY_SIZE {
        long.push_str("HLT\n");
    }
    assert_eq!(vm.compile(&long), Err(VirtualMachineError::MemoryFull));
    assert_eq!(snapshot(&vm), before);
    long.push_str("LDA nowhere");
    assert_eq!(vm.compile(&long), Err(VirtualMachineError::CompilerError));
    let mut wide = String::new();
    for _ in 0..=MEMORY_SIZE {
        wide.push_str("ADD 1000\n");
    }
    assert_eq!(vm.compile(&wide), Err(VirtualMachineError::MemoryFull));
    assert_eq!(snapshot(&vm), before);
}

#[test]
fn a_program_that_just_fits() {
    let mut source = String::new();
    for _ in 0..MEMORY_SIZE {
        source.push_str("OUT\n");
    }
    let mut vm = loaded(&source);
    assert_eq!(cells(&vm), vec![902; MEMORY_SIZE]);
    let (outputs, last) = run(&mut vm, &[]);
    assert_eq!(outputs.len(), MEMORY_SIZE);
    assert_eq!(last, VirtualMachineStep::Halted);
}

#[test]
fn the_source_is_trimmed() {
    let expected = cells(&loaded("INP\nHLT"));
    for source in [
        "  INP\nHLT  ",
        "\n\n  \nINP\nHLT\n   \n\t",
        "\u{A0}INP\nHLT\u{3000}\u{2003}",
        " \u{85}\u{2028} INP\nHLT \u{1680}\u{205F}\u{202F}",
    ] {
        assert_eq!(cells(&loaded(source)), expected, "{:?}", source);
    }
    let mut vm = VirtualMachine::new();
    assert_eq!(vm.compile(""), Ok(()));
    assert_eq!(vm.compile("   \n\t  "), Ok(()));
    assert_eq!(cells(&vm), vec![0; MEMORY_SIZE]);
    assert_eq!(vm.compile("INP\n \nHLT"), Err(VirtualMachineError::CompilerError));
    assert_eq!(vm.compile("\u{200B}INP"), Err(VirtualMachineError::CompilerError));
}

#[test]
fn compiling_sets_the_machine_afresh() {
    let mut vm = loaded("INP\nSTA 70\nBRA 100");
    vm.input(8);
    assert_eq!(vm.step(), VirtualMachineStep::Advanced);
    assert_eq!(vm.step(), VirtualMachineStep::Advanced);
    vm.input(9);
    assert_eq!(vm.compile("OUT\nINP\nHLT"), Ok(()));
    let fresh = snapshot(&loaded("OUT\nINP\nHLT"));
    assert_eq!(snapshot(&vm), fresh);
    assert_eq!(fresh.0, 0);
    assert_eq!(fresh.1, 0);
    assert_eq!(fresh.2[70], 0);
    assert_eq!(fresh.5, 0);
    assert_eq!(vm.step(), VirtualMachineStep::Output(0));
    assert_eq!(vm.step(), VirtualMachineStep::InputRequired);

    let mut vm = loaded("BRA 100");
    assert_eq!(vm.step(), VirtualMachineStep::Fault(Fault::AddressOutOfRange));
    assert_eq!(vm.compile("HLT"), Ok(()));
    assert!(!vm.halted());
    assert_eq!(vm.fault(), None);
    assert_eq!(vm.step(), VirtualMachineStep::Halted);
    assert_eq!(vm.compile("OUT"), Ok(()));
    assert!(!vm.halted());
    assert_eq!(vm.step(), VirtualMachineStep::Output(0));
}

#[test]
fn reset_is_for_a_stopped_machine() {
    let mut vm = loaded("INP\nSTA 70\nHLT");
    vm.input(8);
    vm.step();
    vm.step();
    vm.input(9);
    let running = snapshot(&vm);
    vm.reset();
    assert_eq!(snapshot(&vm), running);
    assert_eq!(vm.step(), VirtualMachineStep::Halted);
    vm.reset();
    assert_eq!(
        snapshot(&vm),
        (0, 0, vec![0; MEMORY_SIZE], true, None, 0, 0)
    );
    assert_eq!(vm.step(), VirtualMachineStep::Halted);
    assert_eq!(vm.cycles(), 0);
    assert_eq!(vm.compile("INP\nOUT"), Ok(()));
    assert_eq!(vm.step(), VirtualMachineStep::InputRequired);

    let mut vm = loaded("LDA 200");
    assert_eq!(vm.step(), VirtualMachineStep::Fault(Fault::PointerOutOfRange));
    vm.reset();
    assert_eq!(vm.fault(), None);
    assert!(vm.halted());
    assert_eq!(vm.step(), VirtualMachineStep::Halted);
}

#[test]
fn writing_and_branching_by_hand() {
    let mut vm = VirtualMachine::new();
    assert_eq!(vm.write(MEMORY_SIZE - 1, 5), Ok(()));
    assert_eq!(vm.write(MEMORY_SIZE, 5), Err(Fault::AddressOutOfRange));
    assert_eq!(vm.write(usize::MAX, 5), Err(Fault::AddressOutOfRange));
    assert_eq!(cells(&vm)[MEMORY_SIZE - 1], 5);
    assert_eq!(vm.ptr_write(MEMORY_SIZE as i64 + 99, 6), Ok(()));
    assert_eq!(cells(&vm)[5], 6);
    assert_eq!(vm.accessing(), 5);
    assert_eq!(vm.ptr_write(-1, 6), Err(Fault::PointerOutOfRange));
    assert_eq!(vm.ptr_write(2 * MEMORY_SIZE as i64, 6), Err(Fault::PointerOutOfRange));
    assert_eq!(vm.ptr_write(MEMORY_SIZE as i64, 6), Err(Fault::AddressOutOfRange));
    assert_eq!(vm.ptr_to_loc(0), Ok(0));
    assert_eq!(vm.ptr_to_loc(99), Ok(99));
    assert_eq!(vm.ptr_to_loc(i64::MIN), Err(Fault::PointerOutOfRange));
    assert_eq!(vm.ptr_to_loc(i64::MAX), Err(Fault::PointerOutOfRange));
    assert_eq!(vm.ptr_get(5).map(|cell| cell.data), Ok(6));
    assert_eq!(vm.branch(99), Ok(()));
    assert_eq!(vm.program_counter(), 99);
    assert_eq!(vm.branch(100), Err(Fault::AddressOutOfRange));
    assert_eq!(vm.branch(-1), Err(Fault::AddressOutOfRange));
    assert_eq!(vm.program_counter(), 99);
    assert!(!vm.halted());
    assert_eq!(vm.fault(), None);
}
