use hack_vm_translator::code_writer::{
    translate, translate_arithmetic, translate_branching, translate_call, translate_function,
    translate_pop, translate_push, translate_return,
};
use hack_vm_translator::parser::{
    Arithmetic, Branching, BranchingCommand, Call, Command, Function, PushPop, Segment,
};

#[test]
fn translate_pop_emits_short_command() {
    let input = PushPop {
        segment: Segment::Temp,
        i: 2,
    };
    assert_eq!(
        translate_pop(input, ""),
        "// pop temp 2\n@SP\nM=M-1\nD=M\nA=D\nD=M\n@7\nM=D\n"
    );
}

#[test]
fn translate_pop_emits_long_command() {
    let input = PushPop {
        segment: Segment::Local,
        i: 2,
    };
    assert_eq!(
        translate_pop(input, ""),
        "// pop local 2\n@2\nD=A\n@LCL\nD=D+M\n@R13\nM=D\n@SP\nM=M-1\nD=M\nA=D\nD=M\n@R13\nA=M\nM=D\n"
    );
}

#[test]
fn translate_push_emits_long_command() {
    let input = PushPop {
        segment: Segment::Local,
        i: 2,
    };
    assert_eq!(
        translate_push(input, ""),
        "// push local 2\n@2\nD=A\n@LCL\nD=D+M\nA=D\nD=M\n@SP\nA=M\nM=D\n@SP\nM=M+1\n"
    );
}

#[test]
fn translate_push_emits_short_command() {
    let input = PushPop {
        segment: Segment::Static,
        i: 2,
    };
    assert_eq!(
        translate_push(input, "lol"),
        "// push static 2\n@lol.2\nD=M\n@SP\nA=M\nM=D\n@SP\nM=M+1\n"
    );
}

#[test]
fn translate_arithmetic_emits_short_command() {
    let input = Arithmetic::Not;
    let mut i = 1;
    assert_eq!(
        translate_arithmetic(input, &mut i),
        "// not\n@SP\nM=M-1\nA=M\nM=!M\n@SP\nM=M+1\n"
    );
}

#[test]
fn translate_arithmetic_emits_long_command() {
    let input = Arithmetic::Eq;
    let mut i = 1;
    assert_eq!(
        translate_arithmetic(input, &mut i),
        "// eq\n@SP\nM=M-1\nD=M\nA=D\nD=M\n@SP\nM=M-1\nA=M\nD=M-D\n@LBL_2\nD;JNE\n@0\nA=M\nM=-1\n@END_LBL_2\n0;JMP\n(LBL_2)\n@0\nA=M\nM=0\n(END_LBL_2)\n@SP\nM=M+1\n"
    );
}

#[test]
fn translate_function_emits_command() {
    let input = Function {
        name: String::from("test"),
        n_vars: 3
    };
    let name = "testName";
    assert_eq!(
        translate_function(input, &name),
        "// function testName.test 3\n// push constant 0\n@0\nD=A\n@SP\nA=M\nM=D\n@SP\nM=M+1\n// push constant 0\n@0\nD=A\n@SP\nA=M\nM=D\n@SP\nM=M+1\n// push constant 0\n@0\nD=A\n@SP\nA=M\nM=D\n@SP\nM=M+1\n"

    );
}

#[test]
fn translates_chained_commands() {
    let input = vec![
        Command::Push(PushPop {
            segment: Segment::Constant,
            i: 2,
        }),
        Command::Arithmetic(Arithmetic::Add),
    ];
    assert_eq!(
        translate(input, "").unwrap(),
        "\n// push constant 2\n@2\nD=A\n@SP\nA=M\nM=D\n@SP\nM=M+1\n\n// add\n@SP\nM=M-1\nD=M\nA=D\nD=M\n@SP\nM=M-1\nA=M\nM=D+M\n@SP\nM=M+1\n"
    );
}

#[test]
fn translate_branching_emits_label_command() {
    let input = Branching {
        command: BranchingCommand::Label,
        label: String::from("testLabel")
    };
    assert_eq!(
        translate_branching(input),
        "// label testLabel\n(testLabel)\n"
    );
}

#[test]
fn translate_branching_emits_goto_command() {
    let input = Branching {
        command: BranchingCommand::Goto,
        label: String::from("testLabel")
    };
    assert_eq!(
        translate_branching(input),
        "// goto testLabel\n@testLabel\n0;JMP\n"
    );
}

#[test]
fn translate_branching_emits_if_goto_command() {
    let input = Branching {
        command: BranchingCommand::IfGoto,
        label: String::from("testLabel")
    };
    assert_eq!(
        translate_branching(input),
        "// if-goto testLabel\n@SP\nM=M-1\nA=M\nD=M\n@testLabel\nD;JNE\n"
    );
}

#[test]
fn translate_return_emits_proper_command() {
    let input = "testFile";
    assert_eq!(
        translate_return(input),
        "// return\n//  endFrame = LCL\n@LCL\nD=M\n@R14\nM=D\n//   retAddr = *(endFrame - 5)\n@5\nD=A\n@R14\nD=M-D\n@R15\nM=D\n// pop argument 0\n@0\nD=A\n@ARG\nD=D+M\n@R13\nM=D\n@SP\nM=M-1\nD=M\nA=D\nD=M\n@R13\nA=M\nM=D\n//    SP = ARG + 1\n@ARG\nD=M+1\n@SP\nM=D\n//    THAT = *(endFrame - 1)\n@1\nD=A\n@R14\nD=M-D\nA=D\nD=M\n@THAT\nM=D\n//    THIS = *(endFrame - 2)\n@2\nD=A\n@R14\nD=M-D\nA=D\nD=M\n@THIS\nM=D\n//    ARG = *(endFrame - 3)\n@3\nD=A\n@R14\nD=M-D\nA=D\nD=M\n@ARG\nM=D\n//    LCL = *(endFrame - 4)\n@4\nD=A\n@R14\nD=M-D\nA=D\nD=M\n@LCL\nM=D\n//    goto retAddr\n@R15\nA=M\n0;JMP\n"
    );
}

#[test]
fn translate_arithmetic_advances_counter_only_for_comparisons() {
    let mut i: u16 = 4;
    let _ = translate_arithmetic(Arithmetic::Add, &mut i);
    assert_eq!(i, 4);
    let gt = translate_arithmetic(Arithmetic::Gt, &mut i);
    assert_eq!(i, 5);
    assert!(gt.contains("@LBL_5\nD;JLE\n"));
    let lt = translate_arithmetic(Arithmetic::Lt, &mut i);
    assert_eq!(i, 6);
    assert!(lt.contains("(END_LBL_6)"));
    assert_eq!(
        translate_arithmetic(Arithmetic::Sub, &mut i),
        "// sub\n@SP\nM=M-1\nD=M\nA=D\nD=M\n@SP\nM=M-1\nA=M\nM=M-D\n@SP\nM=M+1\n"
    );
    assert_eq!(
        translate_arithmetic(Arithmetic::Neg, &mut i),
        "// neg\n@SP\nM=M-1\nA=M\nM=-M\n@SP\nM=M+1\n"
    );
}

#[test]
fn translate_memory_addresses() {
    let pp = |segment, i| PushPop { segment, i };
    assert_eq!(
        translate_push(pp(Segment::Pointer, 0), "F"),
        "// push pointer 0\n@THIS\nD=M\n@SP\nA=M\nM=D\n@SP\nM=M+1\n"
    );
    assert_eq!(
        translate_pop(pp(Segment::Pointer, 1), "F"),
        "// pop pointer 1\n@SP\nM=M-1\nD=M\nA=D\nD=M\n@THAT\nM=D\n"
    );
    assert_eq!(
        translate_pop(pp(Segment::Static, 12), "Main.vm"),
        "// pop static 12\n@SP\nM=M-1\nD=M\nA=D\nD=M\n@Main.vm.12\nM=D\n"
    );
    assert_eq!(
        translate_push(pp(Segment::That, 5), ""),
        "// push that 5\n@5\nD=A\n@THAT\nD=D+M\nA=D\nD=M\n@SP\nA=M\nM=D\n@SP\nM=M+1\n"
    );
    assert_eq!(
        translate_push(pp(Segment::Temp, 65530), ""),
        "// push temp 65530\n@65535\nD=M\n@SP\nA=M\nM=D\n@SP\nM=M+1\n"
    );
}

#[test]
fn translate_call_emits_frame() {
    let out = translate_call(Call { name: String::from("f"), n_args: 2 }, "M");
    assert!(out.starts_with("// call M.f 2\n//   push returnAddress\n@M.f_retAddr\n"));
    assert!(out.contains("//   ARG = SP - nArgs\n@2\nD=A\n@SP\nD=M-D\n@ARG=M=D\n"));
    assert!(out.ends_with("//   label returnAddress\n(M.f_retAddr)\n"));
}

#[test]
fn translate_function_without_locals() {
    let f = Function { name: String::from("g"), n_vars: 0 };
    assert_eq!(translate_function(f, "X"), "// function X.g 0\n");
}

#[test]
fn comparisons_number_labels_in_order() {
    let input = vec![
        Command::Arithmetic(Arithmetic::Eq),
        Command::Return,
        Command::Arithmetic(Arithmetic::Lt),
    ];
    let out = translate(input, "").unwrap();
    assert!(out.contains("(LBL_1)"));
    assert!(out.contains("(LBL_2)"));
    assert!(!out.contains("(LBL_3)"));
    assert!(translate(vec![], "x").unwrap().is_empty());
}
