//! Emission of Hack assembly for VM commands.
use vstd::prelude::*;

use crate::parser::{
    arithmetic_name, branching_name, lemma_source_roundtrip, parse_line_spec, parsed_form,
    segment_name, source_text, Arithmetic, Branching, BranchingCommand, Call, Command, ErrorView,
    Function, PushPop, Segment, TranslateError,
};
use crate::text::{dec, decimal, lemma_dec_injective};

verus! {

/// Whether a segment is reached through a base pointer (`LCL`, `ARG`, `THIS`, `THAT`).
pub open spec fn is_based(s: Segment) -> bool {
    s == Segment::Local || s == Segment::Argument || s == Segment::This || s == Segment::That
}

/// The symbol or address that a push or pop names: the base pointer of a
/// based segment, the RAM cell of `temp` (from 5 on), the file's variable of
/// `static`, or `THIS`/`THAT` for `pointer`.
pub open spec fn address_spec(pp: PushPop, name: Seq<char>) -> Seq<char> {
    match pp.segment {
        Segment::Temp => dec((5 + pp.i) as nat),
        Segment::Static => name + "."@ + dec(pp.i as nat),
        Segment::Pointer => if pp.i == 0 {
            "THIS"@
        } else {
            "THAT"@
        },
        Segment::Local => "LCL"@,
        Segment::Argument => "ARG"@,
        Segment::This => "THIS"@,
        Segment::That => "THAT"@,
        Segment::Constant => seq![],
    }
}

/// The comment line that heads the code of a push or pop, without its `'\n'`.
pub open spec fn memory_header(op: Seq<char>, pp: PushPop) -> Seq<char> {
    "// "@ + op + " "@ + segment_name(pp.segment) + " "@ + dec(pp.i as nat)
}

/// Whether a push has code: the RAM cell of `temp` must exist.
pub open spec fn push_ok(pp: PushPop) -> bool {
    pp.segment == Segment::Temp ==> pp.i <= 65530
}

/// Whether a pop has code: not into `constant`, and the RAM cell of `temp` must exist.
pub open spec fn pop_ok(pp: PushPop) -> bool {
    pp.segment != Segment::Constant && push_ok(pp)
}

/// The code of a push.
pub open spec fn push_text(pp: PushPop, name: Seq<char>) -> Seq<char> {
    if pp.segment == Segment::Constant {
        memory_header("push"@, pp) + "\n@"@ + dec(pp.i as nat) + "\nD=A\n@SP\nA=M\nM=D\n@SP\nM=M+1\n"@
    } else if is_based(pp.segment) {
        memory_header("push"@, pp) + "\n@"@ + dec(pp.i as nat) + "\nD=A\n@"@ + address_spec(pp, name)
            + "\nD=D+M\nA=D\nD=M\n@SP\nA=M\nM=D\n@SP\nM=M+1\n"@
    } else {
        memory_header("push"@, pp) + "\n@"@ + address_spec(pp, name)
            + "\nD=M\n@SP\nA=M\nM=D\n@SP\nM=M+1\n"@
    }
}

/// The code of a pop.
pub open spec fn pop_text(pp: PushPop, name: Seq<char>) -> Seq<char> {
    if is_based(pp.segment) {
        memory_header("pop"@, pp) + "\n@"@ + dec(pp.i as nat) + "\nD=A\n@"@ + address_spec(pp, name)
            + "\nD=D+M\n@R13\nM=D\n@SP\nM=M-1\nD=M\nA=D\nD=M\n@R13\nA=M\nM=D\n"@
    } else {
        memory_header("pop"@, pp) + "\n@SP\nM=M-1\nD=M\nA=D\nD=M\n@"@ + address_spec(pp, name)
            + "\nM=D\n"@
    }
}

/// Whether an arithmetic command compares, and so needs a fresh pair of labels.
pub open spec fn is_comparison(a: Arithmetic) -> bool {
    a == Arithmetic::Eq || a == Arithmetic::Gt || a == Arithmetic::Lt
}

/// The instruction (or, for a comparison, the jump condition for "false") of an
/// arithmetic command.
pub open spec fn operation(a: Arithmetic) -> Seq<char> {
    match a {
        Arithmetic::Add => "M=D+M"@,
        Arithmetic::Sub => "M=M-D"@,
        Arithmetic::And => "M=D&M"@,
        Arithmetic::Or => "M=D|M"@,
        Arithmetic::Neg => "M=-M"@,
        Arithmetic::Eq => "JNE"@,
        Arithmetic::Gt => "JLE"@,
        Arithmetic::Lt => "JGE"@,
        Arithmetic::Not => "M=!M"@,
    }
}

/// The code of an arithmetic command, where `counter` comparisons came before:
/// a comparison uses the labels `LBL_k` and `END_LBL_k` with `k = counter + 1`.
pub open spec fn arithmetic_text(a: Arithmetic, counter: nat) -> Seq<char> {
    if a == Arithmetic::Not || a == Arithmetic::Neg {
        "// "@ + arithmetic_name(a) + "\n@SP\nM=M-1\nA=M\n"@ + operation(a) + "\n@SP\nM=M+1\n"@
    } else if is_comparison(a) {
        let k = dec(counter + 1);
        "// "@ + arithmetic_name(a)
            + "\n@SP\nM=M-1\nD=M\nA=D\nD=M\n@SP\nM=M-1\nA=M\nD=M-D\n@LBL_"@ + k + "\nD;"@
            + operation(a) + "\n@0\nA=M\nM=-1\n@END_LBL_"@ + k + "\n0;JMP\n(LBL_"@ + k
            + ")\n@0\nA=M\nM=0\n(END_LBL_"@ + k + ")\n@SP\nM=M+1\n"@
    } else {
        "// "@ + arithmetic_name(a) + "\n@SP\nM=M-1\nD=M\nA=D\nD=M\n@SP\nM=M-1\nA=M\n"@
            + operation(a) + "\n@SP\nM=M+1\n"@
    }
}

/// The code of a branching command.
pub open spec fn branching_text(b: Branching) -> Seq<char> {
    let head = "// "@ + branching_name(b.command) + " "@ + b.label@;
    match b.command {
        BranchingCommand::Label => head + "\n("@ + b.label@ + ")\n"@,
        BranchingCommand::Goto => head + "\n@"@ + b.label@ + "\n0;JMP\n"@,
        BranchingCommand::IfGoto => head + "\n@SP\nM=M-1\nA=M\nD=M\n@"@ + b.label@ + "\nD;JNE\n"@,
    }
}

/// The code of a call of the function `callee` with `n_args` arguments from
/// the file `name`.
pub open spec fn call_text(callee: Seq<char>, n_args: u16, name: Seq<char>) -> Seq<char> {
    "// call "@ + name + "."@ + callee + " "@ + dec(n_args as nat) + "\n"@
        + "//   push returnAddress\n@"@ + name + "."@ + callee
        + "_retAddr\nD=A\n@SP\nA=M\nM=D\n@SP\nM=M+1\n"@
        + "//   push LCL\n@LCL\nD=M\n@SP\nA=M\nM=D\n@SP\nM=M+1\n"@
        + "//   push ARG\n@ARG\nD=M\n@SP\nA=M\nM=D\n@SP\nM=M+1\n"@
        + "//   push THIS\n@THIS\nD=M\n@SP\nA=M\nM=D\n@SP\nM=M+1\n"@
        + "//   push THAT\n@THAT\nD=M\n@SP\nA=M\nM=D\n@SP\nM=M+1\n"@ + "//   ARG = SP - nArgs\n@"@
        + dec(n_args as nat) + "\nD=A\n@SP\nD=M-D\n@ARG=M=D\n"@
        + "//   LCL = SP\n@SP\nD=M\n@LCL\nM=D\n"@ + "//   label returnAddress\n("@ + name + "."@
        + callee + "_retAddr)\n"@
}

/// `s` written `n` times.
pub open spec fn repeat(s: Seq<char>, n: nat) -> Seq<char>
    decreases n,
{
    if n == 0 {
        seq![]
    } else {
        repeat(s, (n - 1) as nat) + s
    }
}

/// The code of a function declaration in the file `name`: its label comment,
/// then one `push constant 0` for each local variable.
pub open spec fn function_text(f: Function, name: Seq<char>) -> Seq<char> {
    "// function "@ + name + "."@ + f.name@ + " "@ + dec(f.n_vars as nat) + "\n"@ + repeat(
        push_text(PushPop { segment: Segment::Constant, i: 0 }, name),
        f.n_vars as nat,
    )
}

/// The code of a return.
pub open spec fn return_text(name: Seq<char>) -> Seq<char> {
    "// return\n//  endFrame = LCL\n@LCL\nD=M\n@R14\nM=D\n//   retAddr = *(endFrame - 5)\n@5\nD=A\n@R14\nD=M-D\n@R15\nM=D\n"@
        + pop_text(PushPop { segment: Segment::Argument, i: 0 }, name)
        + "//    SP = ARG + 1\n@ARG\nD=M+1\n@SP\nM=D\n"@
        + "//    THAT = *(endFrame - 1)\n@1\nD=A\n@R14\nD=M-D\nA=D\nD=M\n@THAT\nM=D\n"@
        + "//    THIS = *(endFrame - 2)\n@2\nD=A\n@R14\nD=M-D\nA=D\nD=M\n@THIS\nM=D\n"@
        + "//    ARG = *(endFrame - 3)\n@3\nD=A\n@R14\nD=M-D\nA=D\nD=M\n@ARG\nM=D\n"@
        + "//    LCL = *(endFrame - 4)\n@4\nD=A\n@R14\nD=M-D\nA=D\nD=M\n@LCL\nM=D\n"@
        + "//    goto retAddr\n@R15\nA=M\n0;JMP\n"@
}

/// Whether a command has code.
pub open spec fn translatable(c: Command) -> bool {
    match c {
        Command::Push(pp) => push_ok(pp),
        Command::Pop(pp) => pop_ok(pp),
        _ => true,
    }
}

/// Whether a command is a comparison.
pub open spec fn is_comparison_command(c: Command) -> bool {
    c matches Command::Arithmetic(a) && is_comparison(a)
}

/// The number of comparisons among the commands.
pub open spec fn comparisons(cs: Seq<Command>) -> nat
    decreases cs.len(),
{
    if cs.len() == 0 {
        0
    } else {
        comparisons(cs.drop_last()) + if is_comparison_command(cs.last()) {
            1nat
        } else {
            0nat
        }
    }
}

/// The code of one command in the file `name`, after `counter` comparisons.
pub open spec fn command_text(c: Command, name: Seq<char>, counter: nat) -> Seq<char> {
    match c {
        Command::Arithmetic(a) => arithmetic_text(a, counter),
        Command::Push(pp) => push_text(pp, name),
        Command::Pop(pp) => pop_text(pp, name),
        Command::Branching(b) => branching_text(b),
        Command::Function(f) => function_text(f, name),
        Command::Return => return_text(name),
        Command::Call(call) => call_text(call.name@, call.n_args, name),
    }
}

/// The code of a list of commands in the file `name`: each command's code after
/// a `'\n'`, where the comparisons number their labels 1, 2, ... in order.
pub open spec fn emit(cs: Seq<Command>, name: Seq<char>) -> Seq<char>
    decreases cs.len(),
{
    if cs.len() == 0 {
        seq![]
    } else {
        emit(cs.drop_last(), name) + "\n"@ + command_text(
            cs.last(),
            name,
            comparisons(cs.drop_last()),
        )
    }
}

/// The address of a push or pop.
fn address(pp: PushPop, name: &str) -> (r: String)
    requires
        push_ok(pp),
        pp.segment != Segment::Constant,
    ensures
        r@ == address_spec(pp, name@),
{
    match pp.segment {
        Segment::Temp => decimal(5 + pp.i as u32),
        Segment::Static => {
            let mut r = String::from_str(name);
            r.append(".");
            r.append(decimal(pp.i as u32).as_str());
            r
        },
        Segment::Pointer => if pp.i == 0 {
            String::from_str("THIS")
        } else {
            String::from_str("THAT")
        },
        Segment::Local => String::from_str("LCL"),
        Segment::Argument => String::from_str("ARG"),
        Segment::This => String::from_str("THIS"),
        Segment::That => String::from_str("THAT"),
        Segment::Constant => String::new(),
    }
}

/// The comment line that heads the code of a push or pop.
fn header(op: &str, pp: PushPop) -> (r: String)
    ensures
        r@ == memory_header(op@, pp),
{
    let mut r = String::from_str("// ");
    r.append(op);
    r.append(" ");
    r.append(pp.segment.as_str());
    r.append(" ");
    r.append(decimal(pp.i as u32).as_str());
    r
}

/// The code of a push from the file `name`.
pub fn translate_push(command: PushPop, name: &str) -> (r: String)
    requires
        push_ok(command),
    ensures
        r@ == push_text(command, name@),
{
    let mut res = header("push", command);
    res.append("\n@");
    match command.segment {
        Segment::Constant => {
            res.append(decimal(command.i as u32).as_str());
            res.append("\nD=A\n@SP\nA=M\nM=D\n@SP\nM=M+1\n");
        },
        Segment::Local | Segment::Argument | Segment::This | Segment::That => {
            res.append(decimal(command.i as u32).as_str());
            res.append("\nD=A\n@");
            res.append(address(command, name).as_str());
            res.append("\nD=D+M\nA=D\nD=M\n@SP\nA=M\nM=D\n@SP\nM=M+1\n");
        },
        Segment::Temp | Segment::Static | Segment::Pointer => {
            res.append(address(command, name).as_str());
            res.append("\nD=M\n@SP\nA=M\nM=D\n@SP\nM=M+1\n");
        },
    }
    res
}

/// The code of a pop from the file `name`.
pub fn translate_pop(command: PushPop, name: &str) -> (r: String)
    requires
        pop_ok(command),
    ensures
        r@ == pop_text(command, name@),
{
    let mut res = header("pop", command);
    match command.segment {
        Segment::Local | Segment::Argument | Segment::This | Segment::That => {
            res.append("\n@");
            res.append(decimal(command.i as u32).as_str());
            res.append("\nD=A\n@");
            res.append(address(command, name).as_str());
            res.append("\nD=D+M\n@R13\nM=D\n@SP\nM=M-1\nD=M\nA=D\nD=M\n@R13\nA=M\nM=D\n");
        },
        _ => {
            res.append("\n@SP\nM=M-1\nD=M\nA=D\nD=M\n@");
            res.append(address(command, name).as_str());
            res.append("\nM=D\n");
        },
    }
    res
}

/// The code of an arithmetic command; a comparison first advances the label
/// counter `i` and uses its new value.
pub fn translate_arithmetic(command: Arithmetic, i: &mut u16) -> (r: String)
    requires
        is_comparison(command) ==> *old(i) < u16::MAX,
    ensures
        r@ == arithmetic_text(command, *old(i) as nat),
        *final(i) == *old(i) + if is_comparison(command) {
            1int
        } else {
            0int
        },
{
    let mut res = String::from_str("// ");
    res.append(command.as_str());
    match command {
        Arithmetic::Not | Arithmetic::Neg => {
            res.append("\n@SP\nM=M-1\nA=M\n");
            res.append(op_str(command));
            res.append("\n@SP\nM=M+1\n");
        },
        Arithmetic::Eq | Arithmetic::Gt | Arithmetic::Lt => {
            *i += 1;
            let k = decimal(*i as u32);
            res.append("\n@SP\nM=M-1\nD=M\nA=D\nD=M\n@SP\nM=M-1\nA=M\nD=M-D\n@LBL_");
            res.append(k.as_str());
            res.append("\nD;");
            res.append(op_str(command));
            res.append("\n@0\nA=M\nM=-1\n@END_LBL_");
            res.append(k.as_str());
            res.append("\n0;JMP\n(LBL_");
            res.append(k.as_str());
            res.append(")\n@0\nA=M\nM=0\n(END_LBL_");
            res.append(k.as_str());
            res.append(")\n@SP\nM=M+1\n");
        },
        Arithmetic::Add | Arithmetic::Sub | Arithmetic::And | Arithmetic::Or => {
            res.append("\n@SP\nM=M-1\nD=M\nA=D\nD=M\n@SP\nM=M-1\nA=M\n");
            res.append(op_str(command));
            res.append("\n@SP\nM=M+1\n");
        },
    }
    res
}

fn op_str(a: Arithmetic) -> (r: &'static str)
    ensures
        r@ == operation(a),
{
    match a {
        Arithmetic::Add => "M=D+M",
        Arithmetic::Sub => "M=M-D",
        Arithmetic::And => "M=D&M",
        Arithmetic::Or => "M=D|M",
        Arithmetic::Neg => "M=-M",
        Arithmetic::Eq => "JNE",
        Arithmetic::Gt => "JLE",
        Arithmetic::Lt => "JGE",
        Arithmetic::Not => "M=!M",
    }
}

/// The code of a branching command.
pub fn translate_branching(command: Branching) -> (r: String)
    ensures
        r@ == branching_text(command),
{
    let label = command.label.as_str();
    let mut res = String::from_str("// ");
    res.append(command.command.as_str());
    res.append(" ");
    res.append(label);
    match command.command {
        BranchingCommand::Label => {
            res.append("\n(");
            res.append(label);
            res.append(")\n");
        },
        BranchingCommand::Goto => {
            res.append("\n@");
            res.append(label);
            res.append("\n0;JMP\n");
        },
        BranchingCommand::IfGoto => {
            res.append("\n@SP\nM=M-1\nA=M\nD=M\n@");
            res.append(label);
            res.append("\nD;JNE\n");
        },
    }
    res
}

/// The code of a call from the file `name`.
pub fn translate_call(command: Call, name: &str) -> (r: String)
    ensures
        r@ == call_text(command.name@, command.n_args, name@),
{
    let fn_name = command.name.as_str();
    let n_args = decimal(command.n_args as u32);
    let mut res = String::from_str("// call ");
    res.append(name);
    res.append(".");
    res.append(fn_name);
    res.append(" ");
    res.append(n_args.as_str());
    res.append("\n");
    res.append("//   push returnAddress\n@");
    res.append(name);
    res.append(".");
    res.append(fn_name);
    res.append("_retAddr\nD=A\n@SP\nA=M\nM=D\n@SP\nM=M+1\n");
    res.append("//   push LCL\n@LCL\nD=M\n@SP\nA=M\nM=D\n@SP\nM=M+1\n");
    res.append("//   push ARG\n@ARG\nD=M\n@SP\nA=M\nM=D\n@SP\nM=M+1\n");
    res.append("//   push THIS\n@THIS\nD=M\n@SP\nA=M\nM=D\n@SP\nM=M+1\n");
    res.append("//   push THAT\n@THAT\nD=M\n@SP\nA=M\nM=D\n@SP\nM=M+1\n");
    res.append("//   ARG = SP - nArgs\n@");
    res.append(n_args.as_str());
    res.append("\nD=A\n@SP\nD=M-D\n@ARG=M=D\n");
    res.append("//   LCL = SP\n@SP\nD=M\n@LCL\nM=D\n");
    res.append("//   label returnAddress\n(");
    res.append(name);
    res.append(".");
    res.append(fn_name);
    res.append("_retAddr)\n");
    res
}

/// The code of a function declaration in the file `name`.
pub fn translate_function(command: Function, name: &str) -> (r: String)
    ensures
        r@ == function_text(command, name@),
{
    let mut res = String::from_str("// function ");
    res.append(name);
    res.append(".");
    res.append(command.name.as_str());
    res.append(" ");
    res.append(decimal(command.n_vars as u32).as_str());
    res.append("\n");
    let ghost head = res@;
    let pp = PushPop { segment: Segment::Constant, i: 0 };
    let mut n: u16 = 0;
    while n < command.n_vars
        invariant
            n <= command.n_vars,
            res@ == head + repeat(push_text(pp, name@), n as nat),
            pp == (PushPop { segment: Segment::Constant, i: 0 }),
        decreases command.n_vars - n,
    {
        res.append(translate_push(pp, name).as_str());
        n = n + 1;
    }
    res
}

/// The code of a return; its pop of the result names the file `name`.
pub fn translate_return(name: &str) -> (r: String)
    ensures
        r@ == return_text(name@),
{
    let mut res = String::from_str(
        "// return\n//  endFrame = LCL\n@LCL\nD=M\n@R14\nM=D\n//   retAddr = *(endFrame - 5)\n@5\nD=A\n@R14\nD=M-D\n@R15\nM=D\n",
    );
    let pp = PushPop { segment: Segment::Argument, i: 0 };
    res.append(translate_pop(pp, name).as_str());
    res.append("//    SP = ARG + 1\n@ARG\nD=M+1\n@SP\nM=D\n");
    res.append("//    THAT = *(endFrame - 1)\n@1\nD=A\n@R14\nD=M-D\nA=D\nD=M\n@THAT\nM=D\n");
    res.append("//    THIS = *(endFrame - 2)\n@2\nD=A\n@R14\nD=M-D\nA=D\nD=M\n@THIS\nM=D\n");
    res.append("//    ARG = *(endFrame - 3)\n@3\nD=A\n@R14\nD=M-D\nA=D\nD=M\n@ARG\nM=D\n");
    res.append("//    LCL = *(endFrame - 4)\n@4\nD=A\n@R14\nD=M-D\nA=D\nD=M\n@LCL\nM=D\n");
    res.append("//    goto retAddr\n@R15\nA=M\n0;JMP\n");
    res
}

/// The code of a list of commands from the file `name`: each command's code
/// after a `'\n'`, where comparisons number their labels from 1 on.
pub fn translate(commands: Vec<Command>, name: &str) -> (r: Result<String, TranslateError>)
    requires
        forall|k: int| 0 <= k < commands@.len() ==> translatable(#[trigger] commands@[k]),
        comparisons(commands@) <= u16::MAX,
    ensures
        r matches Ok(out) && out@ == emit(commands@, name@),
{
    let ghost cs = commands@;
    let mut res = String::new();
    let mut i: u16 = 0;
    let mut done: usize = 0;
    for command in it: commands
        invariant
            it.seq() == cs,
            forall|k: int| 0 <= k < cs.len() ==> translatable(#[trigger] cs[k]),
            comparisons(cs) <= u16::MAX,
            res@ == emit(cs.take(it.index() as int), name@),
            i as nat == comparisons(cs.take(it.index() as int)),
    {
        proof {
            let p = cs.take(it.index() + 1);
            assert(p.drop_last() =~= cs.take(it.index() as int));
            assert(p.last() == command);
            lemma_comparisons_prefix(cs, it.index() + 1);
        }
        let assembly_code = match command {
            Command::Arithmetic(c) => translate_arithmetic(c, &mut i),
            Command::Push(c) => translate_push(c, name),
            Command::Pop(c) => translate_pop(c, name),
            Command::Branching(c) => translate_branching(c),
            Command::Function(c) => translate_function(c, name),
            Command::Return => translate_return(name),
            Command::Call(c) => translate_call(c, name),
        };
        res.append("\n");
        res.append(assembly_code.as_str());
    }
    assert(cs.take(cs.len() as int) =~= cs);
    Ok(res)
}

/// Comparisons only add up: a prefix has no more of them than the whole.
pub proof fn lemma_comparisons_prefix(cs: Seq<Command>, k: int)
    requires
        0 <= k <= cs.len(),
    ensures
        comparisons(cs.take(k)) <= comparisons(cs),
    decreases cs.len() - k,
{
    if k < cs.len() {
        lemma_comparisons_prefix(cs, k + 1);
        assert(cs.take(k + 1).drop_last() =~= cs.take(k));
    } else {
        assert(cs.take(k) =~= cs);
    }
}

/// The comment line that heads the code of each command that the parser can
/// produce is the command's own VM source, and that source reads back as the
/// command.
pub proof fn lemma_code_names_source(c: Command, name: Seq<char>, counter: nat)
    requires
        parsed_form(c),
    ensures
        ("// "@ + source_text(c) + "\n"@).is_prefix_of(command_text(c, name, counter)),
        parse_line_spec(source_text(c)) == Ok::<Command, ErrorView>(c),
{
    lemma_source_roundtrip(c);
    reveal_strlit("\n");
    reveal_strlit("\n@");
    reveal_strlit("\n@SP\nM=M-1\nD=M\nA=D\nD=M\n@");
    reveal_strlit("\n@SP\nM=M-1\nA=M\n");
    reveal_strlit("\n@SP\nM=M-1\nD=M\nA=D\nD=M\n@SP\nM=M-1\nA=M\nD=M-D\n@LBL_");
    reveal_strlit("\n@SP\nM=M-1\nD=M\nA=D\nD=M\n@SP\nM=M-1\nA=M\n");
    let t = command_text(c, name, counter);
    let p = "// "@ + source_text(c) + "\n"@;
    match c {
        Command::Arithmetic(a) => {
            assert(t.subrange(0, p.len() as int) =~= p);
        },
        Command::Push(pp) => {
            assert(memory_header("push"@, pp) =~= "// "@ + source_text(c));
            assert(t.subrange(0, p.len() as int) =~= p);
        },
        Command::Pop(pp) => {
            assert(memory_header("pop"@, pp) =~= "// "@ + source_text(c));
            assert(t.subrange(0, p.len() as int) =~= p);
        },
        _ => {},
    }
}

/// The label number of the command at position `p`: one more than the
/// comparisons before it.
pub open spec fn label_number(cs: Seq<Command>, p: int) -> nat {
    comparisons(cs.take(p)) + 1
}

/// The code of a prefix of the commands is a prefix of the code of all of them,
/// and the command at position `p` adds its code after a `'\n'`, numbered by
/// the comparisons before it.
pub proof fn lemma_emit_prefix(cs: Seq<Command>, name: Seq<char>, p: int)
    requires
        0 <= p < cs.len(),
    ensures
        emit(cs.take(p + 1), name) == emit(cs.take(p), name) + "\n"@ + command_text(
            cs[p],
            name,
            (label_number(cs, p) - 1) as nat,
        ),
        emit(cs.take(p), name).is_prefix_of(emit(cs, name)),
    decreases cs.len() - p,
{
    assert(cs.take(p + 1).drop_last() =~= cs.take(p));
    if p + 1 < cs.len() {
        lemma_emit_prefix(cs, name, p + 1);
    } else {
        assert(cs.take(p + 1) =~= cs);
    }
    let a = emit(cs.take(p), name);
    let b = emit(cs.take(p + 1), name);
    assert(a.is_prefix_of(b));
    assert(b.is_prefix_of(emit(cs, name)));
    assert(emit(cs, name).subrange(0, a.len() as int) =~= b.subrange(0, a.len() as int));
}

/// Comparisons number their labels in increasing order, so no two comparisons
/// of a translated program share a label.
pub proof fn lemma_labels_distinct(cs: Seq<Command>, p: int, q: int)
    requires
        0 <= p < q < cs.len(),
        is_comparison_command(cs[p]),
        is_comparison_command(cs[q]),
        comparisons(cs) <= u16::MAX,
    ensures
        label_number(cs, p) < label_number(cs, q),
        label_number(cs, q) <= comparisons(cs),
        dec(label_number(cs, p)) != dec(label_number(cs, q)),
{
    assert(cs.take(p + 1).drop_last() =~= cs.take(p));
    assert(cs.take(q + 1).drop_last() =~= cs.take(q));
    lemma_comparisons_prefix(cs.take(q), p + 1);
    assert(cs.take(q).take(p + 1) =~= cs.take(p + 1));
    lemma_comparisons_prefix(cs, q + 1);
    lemma_dec_injective(label_number(cs, p) as u16, label_number(cs, q) as u16);
}

} // verus!
