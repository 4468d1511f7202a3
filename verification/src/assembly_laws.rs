//! Laws on the assembly that the code writer emits. Each states, with its own
//! table of Hack instructions, what the code of a command does to the machine,
//! independently of the specifications the writer is checked against.
use vstd::prelude::*;

use crate::code_writer::{
    arithmetic_text, branching_text, call_text, comparisons, emit, function_text,
    lemma_emit_prefix, pop_ok, pop_text, push_ok, push_text, repeat, return_text,
};
use crate::parser::{
    segment_name, Arithmetic, Branching, BranchingCommand, Command, Function, PushPop, Segment,
};
use crate::text::dec;

verus! {

/// The register that holds the base address of a segment reached through a
/// pointer.
pub open spec fn base_register(s: Segment) -> Seq<char> {
    match s {
        Segment::Local => "LCL"@,
        Segment::Argument => "ARG"@,
        Segment::This => "THIS"@,
        Segment::That => "THAT"@,
        _ => seq![],
    }
}

/// Code that sets `D` to `RAM[base + i]`, where `base` is the value of the register `reg`.
pub open spec fn load_indexed(reg: Seq<char>, i: u16) -> Seq<char> {
    "@"@ + dec(i as nat) + "\nD=A\n@"@ + reg + "\nD=D+M\nA=D\nD=M\n"@
}

/// Code that sets `D` to the content of the RAM cell named `symbol`.
pub open spec fn load_cell(symbol: Seq<char>) -> Seq<char> {
    "@"@ + symbol + "\nD=M\n"@
}

/// Code that pushes `D` onto the stack.
pub open spec fn push_d() -> Seq<char> {
    "@SP\nA=M\nM=D\n@SP\nM=M+1\n"@
}

/// Code that pops the top of the stack into `D`.
pub open spec fn pop_into_d() -> Seq<char> {
    "@SP\nM=M-1\nD=M\nA=D\nD=M\n"@
}

/// The comment line that heads the code of `op segment i`.
pub open spec fn comment_line(op: Seq<char>, pp: PushPop) -> Seq<char> {
    "// "@ + op + " "@ + segment_name(pp.segment) + " "@ + dec(pp.i as nat) + "\n"@
}

/// A push loads the value it names into `D` and pushes `D`: a constant is the
/// index itself; `local`, `argument`, `this` and `that` read `RAM[base + i]`
/// through their base register; `temp` reads `RAM[5 + i]`; `static` reads the
/// file's variable `name.i`; `pointer` reads `THIS` (0) or `THAT` (1).
pub proof fn law_push_code(pp: PushPop, name: Seq<char>)
    requires
        push_ok(pp),
    ensures
        push_text(pp, name) == comment_line("push"@, pp) + (match pp.segment {
            Segment::Constant => "@"@ + dec(pp.i as nat) + "\nD=A\n"@,
            Segment::Local | Segment::Argument | Segment::This | Segment::That => load_indexed(
                base_register(pp.segment),
                pp.i,
            ),
            Segment::Temp => load_cell(dec((5 + pp.i) as nat)),
            Segment::Static => load_cell(name + "."@ + dec(pp.i as nat)),
            Segment::Pointer => load_cell(
                if pp.i == 0 {
                    "THIS"@
                } else {
                    "THAT"@
                },
            ),
        }) + push_d(),
{
    reveal_strlit("// ");
    reveal_strlit(" ");
    reveal_strlit("\n");
    reveal_strlit("push");
    reveal_strlit("@");
    reveal_strlit("\n@");
    reveal_strlit("\nD=A\n");
    reveal_strlit("\nD=A\n@");
    reveal_strlit("\nD=D+M\nA=D\nD=M\n");
    reveal_strlit("\nD=M\n");
    reveal_strlit("@SP\nA=M\nM=D\n@SP\nM=M+1\n");
    reveal_strlit("\nD=A\n@SP\nA=M\nM=D\n@SP\nM=M+1\n");
    reveal_strlit("\nD=D+M\nA=D\nD=M\n@SP\nA=M\nM=D\n@SP\nM=M+1\n");
    reveal_strlit("\nD=M\n@SP\nA=M\nM=D\n@SP\nM=M+1\n");
    let l = push_text(pp, name);
    let r = comment_line("push"@, pp) + (match pp.segment {
        Segment::Constant => "@"@ + dec(pp.i as nat) + "\nD=A\n"@,
        Segment::Local | Segment::Argument | Segment::This | Segment::That => load_indexed(
            base_register(pp.segment),
            pp.i,
        ),
        Segment::Temp => load_cell(dec((5 + pp.i) as nat)),
        Segment::Static => load_cell(name + "."@ + dec(pp.i as nat)),
        Segment::Pointer => load_cell(
            if pp.i == 0 {
                "THIS"@
            } else {
                "THAT"@
            },
        ),
    }) + push_d();
    assert(l =~= r);
}

/// A pop takes the top of the stack into `D` and stores it in the cell it
/// names. For `local`, `argument`, `this` and `that` it first computes the
/// address `base + i` into `R13` and stores through `R13`, so the base register
/// itself is never written; `temp`, `static` and `pointer` store into `RAM[5 + i]`,
/// `name.i` and `THIS`/`THAT`.
pub proof fn law_pop_code(pp: PushPop, name: Seq<char>)
    requires
        pop_ok(pp),
    ensures
        pop_text(pp, name) == comment_line("pop"@, pp) + (match pp.segment {
            Segment::Local | Segment::Argument | Segment::This | Segment::That => "@"@ + dec(
                pp.i as nat,
            ) + "\nD=A\n@"@ + base_register(pp.segment) + "\nD=D+M\n@R13\nM=D\n"@ + pop_into_d()
                + "@R13\nA=M\nM=D\n"@,
            Segment::Temp => pop_into_d() + "@"@ + dec((5 + pp.i) as nat) + "\nM=D\n"@,
            Segment::Static => pop_into_d() + "@"@ + name + "."@ + dec(pp.i as nat) + "\nM=D\n"@,
            _ => pop_into_d() + "@"@ + (if pp.i == 0 {
                "THIS"@
            } else {
                "THAT"@
            }) + "\nM=D\n"@,
        }),
{
    reveal_strlit("// ");
    reveal_strlit(" ");
    reveal_strlit("\n");
    reveal_strlit("pop");
    reveal_strlit("@");
    reveal_strlit("\n@");
    reveal_strlit("\nD=A\n@");
    reveal_strlit("\nD=D+M\n@R13\nM=D\n");
    reveal_strlit("@SP\nM=M-1\nD=M\nA=D\nD=M\n");
    reveal_strlit("@R13\nA=M\nM=D\n");
    reveal_strlit("\nM=D\n");
    reveal_strlit("\nD=D+M\n@R13\nM=D\n@SP\nM=M-1\nD=M\nA=D\nD=M\n@R13\nA=M\nM=D\n");
    reveal_strlit("\n@SP\nM=M-1\nD=M\nA=D\nD=M\n@");
    let l = pop_text(pp, name);
    let r = comment_line("pop"@, pp) + (match pp.segment {
        Segment::Local | Segment::Argument | Segment::This | Segment::That => "@"@ + dec(
            pp.i as nat,
        ) + "\nD=A\n@"@ + base_register(pp.segment) + "\nD=D+M\n@R13\nM=D\n"@ + pop_into_d()
            + "@R13\nA=M\nM=D\n"@,
        Segment::Temp => pop_into_d() + "@"@ + dec((5 + pp.i) as nat) + "\nM=D\n"@,
        Segment::Static => pop_into_d() + "@"@ + name + "."@ + dec(pp.i as nat) + "\nM=D\n"@,
        _ => pop_into_d() + "@"@ + (if pp.i == 0 {
            "THIS"@
        } else {
            "THAT"@
        }) + "\nM=D\n"@,
    });
    assert(l =~= r);
}

/// The Hack instruction that applies a binary command to `x` (in memory) and
/// `y` (in `D`), leaving the result in memory.
pub open spec fn binary_instruction(a: Arithmetic) -> Seq<char> {
    match a {
        Arithmetic::Add => "M=D+M"@,
        Arithmetic::Sub => "M=M-D"@,
        Arithmetic::And => "M=D&M"@,
        _ => "M=D|M"@,
    }
}

/// The Hack instruction that applies a unary command to the value in memory.
pub open spec fn unary_instruction(a: Arithmetic) -> Seq<char> {
    match a {
        Arithmetic::Neg => "M=-M"@,
        _ => "M=!M"@,
    }
}

/// The jump on `D = x - y` that leads to "false" for a comparison: `eq` is
/// false when `D != 0`, `gt` when `D <= 0`, `lt` when `D >= 0`.
pub open spec fn false_jump(a: Arithmetic) -> Seq<char> {
    match a {
        Arithmetic::Eq => "JNE"@,
        Arithmetic::Gt => "JLE"@,
        _ => "JGE"@,
    }
}

/// The code of an arithmetic command: a unary command rewrites the top of the
/// stack in place; a binary command pops `y` into `D` and combines it with `x`
/// in place; a comparison computes `x - y`, writes `0` (false) at label
/// `LBL_k` when its jump holds, else `-1` (true), and continues at `END_LBL_k`,
/// where `k` is one more than the comparisons before it.
#[verifier::rlimit(50)]
pub proof fn law_arithmetic_code(a: Arithmetic, counter: nat)
    ensures
        arithmetic_text(a, counter) == (match a {
            Arithmetic::Neg | Arithmetic::Not => "// "@ + crate::parser::arithmetic_name(a) + "\n"@
                + "@SP\nM=M-1\nA=M\n"@ + unary_instruction(a) + "\n"@ + "@SP\nM=M+1\n"@,
            Arithmetic::Add | Arithmetic::Sub | Arithmetic::And | Arithmetic::Or => "// "@
                + crate::parser::arithmetic_name(a) + "\n"@ + pop_into_d() + "@SP\nM=M-1\nA=M\n"@
                + binary_instruction(a) + "\n"@ + "@SP\nM=M+1\n"@,
            _ => "// "@ + crate::parser::arithmetic_name(a)
                + "\n@SP\nM=M-1\nD=M\nA=D\nD=M\n@SP\nM=M-1\nA=M\nD=M-D\n@LBL_"@ + dec(counter + 1)
                + "\nD;"@ + false_jump(a) + "\n@0\nA=M\nM=-1\n@END_LBL_"@ + dec(counter + 1)
                + "\n0;JMP\n(LBL_"@ + dec(counter + 1) + ")\n@0\nA=M\nM=0\n(END_LBL_"@ + dec(
                counter + 1,
            ) + ")\n@SP\nM=M+1\n"@,
        }),
{
    reveal_strlit("// ");
    reveal_strlit("\n");
    reveal_strlit("@SP\nM=M-1\nA=M\n");
    reveal_strlit("@SP\nM=M-1\nD=M\nA=D\nD=M\n");
    reveal_strlit("@SP\nM=M+1\n");
    reveal_strlit("\n@SP\nM=M-1\nA=M\n");
    reveal_strlit("\n@SP\nM=M+1\n");
    reveal_strlit("\n@SP\nM=M-1\nD=M\nA=D\nD=M\n@SP\nM=M-1\nA=M\n");
    reveal_strlit("M=D+M");
    reveal_strlit("M=M-D");
    reveal_strlit("M=D&M");
    reveal_strlit("M=D|M");
    reveal_strlit("M=-M");
    reveal_strlit("M=!M");
    reveal_strlit("JNE");
    reveal_strlit("JLE");
    reveal_strlit("JGE");
    let l = arithmetic_text(a, counter);
    let r = match a {
        Arithmetic::Neg | Arithmetic::Not => "// "@ + crate::parser::arithmetic_name(a) + "\n"@
            + "@SP\nM=M-1\nA=M\n"@ + unary_instruction(a) + "\n"@ + "@SP\nM=M+1\n"@,
        Arithmetic::Add | Arithmetic::Sub | Arithmetic::And | Arithmetic::Or => "// "@
            + crate::parser::arithmetic_name(a) + "\n"@ + pop_into_d() + "@SP\nM=M-1\nA=M\n"@
            + binary_instruction(a) + "\n"@ + "@SP\nM=M+1\n"@,
        _ => "// "@ + crate::parser::arithmetic_name(a)
            + "\n@SP\nM=M-1\nD=M\nA=D\nD=M\n@SP\nM=M-1\nA=M\nD=M-D\n@LBL_"@ + dec(counter + 1)
            + "\nD;"@ + false_jump(a) + "\n@0\nA=M\nM=-1\n@END_LBL_"@ + dec(counter + 1)
            + "\n0;JMP\n(LBL_"@ + dec(counter + 1) + ")\n@0\nA=M\nM=0\n(END_LBL_"@ + dec(counter + 1)
            + ")\n@SP\nM=M+1\n"@,
    };
    match a {
        Arithmetic::Neg => assert(l =~= r),
        Arithmetic::Not => assert(l =~= r),
        Arithmetic::Add => assert(l =~= r),
        Arithmetic::Sub => assert(l =~= r),
        Arithmetic::And => assert(l =~= r),
        Arithmetic::Or => assert(l =~= r),
        _ => {
            assert(crate::code_writer::operation(a) == false_jump(a));
        },
    }
}

/// The code of a branching command: `label L` declares `(L)`; `goto L` jumps to
/// `L`; `if-goto L` pops the top of the stack and jumps to `L` when it is not 0.
pub proof fn law_branching_code(b: Branching)
    ensures
        branching_text(b) == (match b.command {
            BranchingCommand::Label => "// label "@ + b.label@ + "\n"@ + "("@ + b.label@ + ")\n"@,
            BranchingCommand::Goto => "// goto "@ + b.label@ + "\n"@ + "@"@ + b.label@
                + "\n0;JMP\n"@,
            BranchingCommand::IfGoto => "// if-goto "@ + b.label@ + "\n"@
                + "@SP\nM=M-1\nA=M\nD=M\n"@ + "@"@ + b.label@ + "\nD;JNE\n"@,
        }),
{
    reveal_strlit("// ");
    reveal_strlit(" ");
    reveal_strlit("label");
    reveal_strlit("goto");
    reveal_strlit("if-goto");
    reveal_strlit("// label ");
    reveal_strlit("// goto ");
    reveal_strlit("// if-goto ");
    reveal_strlit("\n");
    reveal_strlit("(");
    reveal_strlit(")\n");
    reveal_strlit("\n(");
    reveal_strlit("@");
    reveal_strlit("\n@");
    reveal_strlit("\n0;JMP\n");
    reveal_strlit("@SP\nM=M-1\nA=M\nD=M\n");
    reveal_strlit("\n@SP\nM=M-1\nA=M\nD=M\n@");
    reveal_strlit("\nD;JNE\n");
    let l = branching_text(b);
    let r = match b.command {
        BranchingCommand::Label => "// label "@ + b.label@ + "\n"@ + "("@ + b.label@ + ")\n"@,
        BranchingCommand::Goto => "// goto "@ + b.label@ + "\n"@ + "@"@ + b.label@ + "\n0;JMP\n"@,
        BranchingCommand::IfGoto => "// if-goto "@ + b.label@ + "\n"@ + "@SP\nM=M-1\nA=M\nD=M\n"@
            + "@"@ + b.label@ + "\nD;JNE\n"@,
    };
    assert(l =~= r);
}

/// The registers that a call saves above the return address, in the order it
/// pushes them.
pub open spec fn saved_frame() -> Seq<Seq<char>> {
    seq!["LCL"@, "ARG"@, "THIS"@, "THAT"@]
}

/// Code that pushes the content of the register `reg`.
pub open spec fn push_register(reg: Seq<char>) -> Seq<char> {
    "//   push "@ + reg + "\n@"@ + reg + "\nD=M\n@SP\nA=M\nM=D\n@SP\nM=M+1\n"@
}

/// Code that sets the register `reg` to `RAM[endFrame - offset]`, where
/// `endFrame` is held in `R14`.
pub open spec fn restore_register(offset: nat, reg: Seq<char>) -> Seq<char> {
    "//    "@ + reg + " = *(endFrame - "@ + dec(offset) + ")\n@"@ + dec(offset)
        + "\nD=A\n@R14\nD=M-D\nA=D\nD=M\n@"@ + reg + "\nM=D\n"@
}

/// A call saves the caller's frame that a return restores: after the return
/// address it pushes `saved_frame()` in order, so the register pushed `j`-th
/// (from 0) lies at `endFrame - (4 - j)`; the return reads the return address
/// from `endFrame - 5` and restores each saved register from exactly that cell.
pub proof fn law_call_return_frame(callee: Seq<char>, n_args: u16, name: Seq<char>)
    ensures
        call_text(callee, n_args, name) == "// call "@ + name + "."@ + callee + " "@ + dec(
            n_args as nat,
        ) + "\n"@ + "//   push returnAddress\n@"@ + name + "."@ + callee
            + "_retAddr\nD=A\n@SP\nA=M\nM=D\n@SP\nM=M+1\n"@ + push_register(saved_frame()[0])
            + push_register(saved_frame()[1]) + push_register(saved_frame()[2]) + push_register(
            saved_frame()[3],
        ) + "//   ARG = SP - nArgs\n@"@ + dec(n_args as nat) + "\nD=A\n@SP\nD=M-D\n@ARG=M=D\n"@
            + "//   LCL = SP\n@SP\nD=M\n@LCL\nM=D\n"@ + "//   label returnAddress\n("@ + name + "."@
            + callee + "_retAddr)\n"@,
        return_text(name)
            == "// return\n//  endFrame = LCL\n@LCL\nD=M\n@R14\nM=D\n//   retAddr = *(endFrame - 5)\n@5\nD=A\n@R14\nD=M-D\n@R15\nM=D\n"@
            + pop_text(PushPop { segment: Segment::Argument, i: 0 }, name)
            + "//    SP = ARG + 1\n@ARG\nD=M+1\n@SP\nM=D\n"@ + restore_register((4 - 3) as nat, saved_frame()[3])
            + restore_register((4 - 2) as nat, saved_frame()[2]) + restore_register((4 - 1) as nat, saved_frame()[1])
            + restore_register((4 - 0) as nat, saved_frame()[0]) + "//    goto retAddr\n@R15\nA=M\n0;JMP\n"@,
{
    reveal_strlit("//   push ");
    reveal_strlit("\n@");
    reveal_strlit("\nD=M\n@SP\nA=M\nM=D\n@SP\nM=M+1\n");
    reveal_strlit("LCL");
    reveal_strlit("ARG");
    reveal_strlit("THIS");
    reveal_strlit("THAT");
    reveal_strlit("//   push LCL\n@LCL\nD=M\n@SP\nA=M\nM=D\n@SP\nM=M+1\n");
    reveal_strlit("//   push ARG\n@ARG\nD=M\n@SP\nA=M\nM=D\n@SP\nM=M+1\n");
    reveal_strlit("//   push THIS\n@THIS\nD=M\n@SP\nA=M\nM=D\n@SP\nM=M+1\n");
    reveal_strlit("//   push THAT\n@THAT\nD=M\n@SP\nA=M\nM=D\n@SP\nM=M+1\n");
    assert("//   push LCL\n@LCL\nD=M\n@SP\nA=M\nM=D\n@SP\nM=M+1\n"@ =~= push_register("LCL"@));
    assert("//   push ARG\n@ARG\nD=M\n@SP\nA=M\nM=D\n@SP\nM=M+1\n"@ =~= push_register("ARG"@));
    assert("//   push THIS\n@THIS\nD=M\n@SP\nA=M\nM=D\n@SP\nM=M+1\n"@ =~= push_register("THIS"@));
    assert("//   push THAT\n@THAT\nD=M\n@SP\nA=M\nM=D\n@SP\nM=M+1\n"@ =~= push_register("THAT"@));
    reveal_strlit("//    ");
    reveal_strlit(" = *(endFrame - ");
    reveal_strlit(")\n@");
    reveal_strlit("\nD=A\n@R14\nD=M-D\nA=D\nD=M\n@");
    reveal_strlit("\nM=D\n");
    reveal_strlit("//    THAT = *(endFrame - 1)\n@1\nD=A\n@R14\nD=M-D\nA=D\nD=M\n@THAT\nM=D\n");
    reveal_strlit("//    THIS = *(endFrame - 2)\n@2\nD=A\n@R14\nD=M-D\nA=D\nD=M\n@THIS\nM=D\n");
    reveal_strlit("//    ARG = *(endFrame - 3)\n@3\nD=A\n@R14\nD=M-D\nA=D\nD=M\n@ARG\nM=D\n");
    reveal_strlit("//    LCL = *(endFrame - 4)\n@4\nD=A\n@R14\nD=M-D\nA=D\nD=M\n@LCL\nM=D\n");
    assert(dec(1) =~= seq!['1']);
    assert(dec(2) =~= seq!['2']);
    assert(dec(3) =~= seq!['3']);
    assert(dec(4) =~= seq!['4']);
    assert("//    THAT = *(endFrame - 1)\n@1\nD=A\n@R14\nD=M-D\nA=D\nD=M\n@THAT\nM=D\n"@
        =~= restore_register(1, "THAT"@));
    assert("//    THIS = *(endFrame - 2)\n@2\nD=A\n@R14\nD=M-D\nA=D\nD=M\n@THIS\nM=D\n"@
        =~= restore_register(2, "THIS"@));
    assert("//    ARG = *(endFrame - 3)\n@3\nD=A\n@R14\nD=M-D\nA=D\nD=M\n@ARG\nM=D\n"@
        =~= restore_register(3, "ARG"@));
    assert("//    LCL = *(endFrame - 4)\n@4\nD=A\n@R14\nD=M-D\nA=D\nD=M\n@LCL\nM=D\n"@
        =~= restore_register(4, "LCL"@));
}

/// The code of a program from the file `name` is, command after command, a
/// `'\n'` and that command's own code for the same file name: the code of a
/// push or pop is exactly the one `translate_push`/`translate_pop` give for
/// `name` (so `push static i` and `pop static i` of one file use the same
/// variable `name.i`), and a comparison is numbered by the comparisons before it.
pub proof fn law_emit_each_command(cs: Seq<Command>, name: Seq<char>, p: int)
    requires
        0 <= p < cs.len(),
    ensures
        emit(cs.take(p + 1), name) == emit(cs.take(p), name) + "\n"@ + (match cs[p] {
            Command::Arithmetic(a) => arithmetic_text(a, comparisons(cs.take(p))),
            Command::Push(pp) => push_text(pp, name),
            Command::Pop(pp) => pop_text(pp, name),
            Command::Branching(b) => branching_text(b),
            Command::Function(f) => function_text(f, name),
            Command::Return => return_text(name),
            Command::Call(c) => call_text(c.name@, c.n_args, name),
        }),
        emit(cs.take(p), name).is_prefix_of(emit(cs, name)),
{
    lemma_emit_prefix(cs, name, p);
}

/// `n` copies of `s`, one after the other.
pub open spec fn copies(s: Seq<char>, n: nat) -> Seq<char>
    decreases n,
{
    if n == 0 {
        seq![]
    } else {
        s + copies(s, (n - 1) as nat)
    }
}

proof fn lemma_copies_append(s: Seq<char>, n: nat)
    ensures
        copies(s, n) + s == s + copies(s, n),
    decreases n,
{
    if n > 0 {
        lemma_copies_append(s, (n - 1) as nat);
        assert(copies(s, n) + s =~= s + (copies(s, (n - 1) as nat) + s));
        assert(s + copies(s, n) =~= s + (s + copies(s, (n - 1) as nat)));
    } else {
        assert(copies(s, n) + s =~= s + copies(s, n));
    }
}

proof fn lemma_repeat_copies(s: Seq<char>, n: nat)
    ensures
        repeat(s, n) == copies(s, n),
    decreases n,
{
    if n > 0 {
        lemma_repeat_copies(s, (n - 1) as nat);
        lemma_copies_append(s, (n - 1) as nat);
    }
}

/// The code that pushes the constant 0.
pub open spec fn push_zero() -> Seq<char> {
    "// push constant 0\n@0\nD=A\n@SP\nA=M\nM=D\n@SP\nM=M+1\n"@
}

/// The code of a function declaration names the function `name.f` in its
/// comment, then pushes the constant 0 once for each of its `n_vars` local
/// variables, and nothing else.
pub proof fn law_function_code(f: Function, name: Seq<char>)
    ensures
        function_text(f, name) == "// function "@ + name + "."@ + f.name@ + " "@ + dec(
            f.n_vars as nat,
        ) + "\n"@ + copies(push_zero(), f.n_vars as nat),
{
    let zero = PushPop { segment: Segment::Constant, i: 0 };
    reveal_strlit("// ");
    reveal_strlit(" ");
    reveal_strlit("push");
    reveal_strlit("constant");
    reveal_strlit("\n@");
    reveal_strlit("\nD=A\n@SP\nA=M\nM=D\n@SP\nM=M+1\n");
    reveal_strlit("// push constant 0\n@0\nD=A\n@SP\nA=M\nM=D\n@SP\nM=M+1\n");
    assert(dec(0) =~= seq!['0']);
    assert(push_text(zero, name) =~= push_zero());
    lemma_repeat_copies(push_zero(), f.n_vars as nat);
}

/// The label counter counts exactly the comparisons `eq`, `gt` and `lt`.
pub proof fn law_comparisons_counted(cs: Seq<Command>, c: Command)
    ensures
        comparisons(cs.push(c)) == comparisons(cs) + (match c {
            Command::Arithmetic(Arithmetic::Eq) => 1nat,
            Command::Arithmetic(Arithmetic::Gt) => 1nat,
            Command::Arithmetic(Arithmetic::Lt) => 1nat,
            _ => 0nat,
        }),
{
    assert(cs.push(c).drop_last() =~= cs);
}

} // verus!
