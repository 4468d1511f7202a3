//! Translation of Hack VM programs into Hack assembly.
use vstd::prelude::*;

pub mod assembly_laws;
pub mod cleaner;
pub mod code_writer;
pub mod parser;
pub mod text;

use crate::cleaner::{clean_program, clean_spec};
use crate::code_writer::{call_text, comparisons, emit, is_comparison_command, translatable};
use crate::parser::{
    lemma_parse_form, lines_view, parse, parse_spec, parsed_form, Arithmetic, Call, Command,
    ErrorView, TranslateError,
};

verus! {

/// The translation of a VM program from the file `name`: its instructions
/// parsed, then emitted; or the error of the first line that is no command.
pub open spec fn translate_spec(input: Seq<char>, name: Seq<char>) -> Result<Seq<char>, ErrorView> {
    match parse_spec(clean_spec(input)) {
        Ok(cs) => Ok(emit(cs, name)),
        Err(e) => Err(e),
    }
}

/// Whether a program leaves room for the labels of its comparisons: the label
/// counter is a `u16`.
pub open spec fn labels_fit(input: Seq<char>) -> bool {
    parse_spec(clean_spec(input)) matches Ok(cs) ==> comparisons(cs) <= u16::MAX
}

/// Whether the comparisons of `input` fit the `u16` label counter of
/// `translate`; a program that does not parse has nothing to count.
pub fn fits_label_counter(input: &str) -> (r: bool)
    ensures
        r == labels_fit(input@),
{
    let program = clean_program(input);
    assert(lines_view(program@) =~= clean_spec(input@));
    let commands = match parse(program) {
        Ok(commands) => commands,
        Err(_) => {
            return true;
        },
    };
    let mut count: usize = 0;
    let mut i: usize = 0;
    while i < commands.len()
        invariant
            i <= commands.len(),
            count <= i,
            count == comparisons(commands@.take(i as int)),
        decreases commands.len() - i,
    {
        assert(commands@.take(i + 1).drop_last() =~= commands@.take(i as int));
        match &commands[i] {
            Command::Arithmetic(Arithmetic::Eq) | Command::Arithmetic(Arithmetic::Gt)
            | Command::Arithmetic(Arithmetic::Lt) => {
                count = count + 1;
            },
            _ => {},
        }
        i = i + 1;
    }
    assert(commands@.take(commands.len() as int) =~= commands@);
    count <= 65535
}

/// Translates the VM program `input` of the file `name` into Hack assembly.
pub fn translate(input: &str, name: &str) -> (r: Result<String, TranslateError>)
    requires
        labels_fit(input@),
    ensures
        match r {
            Ok(out) => translate_spec(input@, name@) == Ok::<Seq<char>, ErrorView>(out@),
            Err(e) => translate_spec(input@, name@) == Err::<Seq<char>, ErrorView>(e@),
        },
{
    let program = clean_program(input);
    assert(lines_view(program@) =~= clean_spec(input@));
    let commands = parse(program)?;
    proof {
        lemma_parse_form(clean_spec(input@));
        assert forall|k: int| 0 <= k < commands@.len() implies translatable(
            #[trigger] commands@[k],
        ) by {
            assert(parsed_form(commands@[k]));
        }
    }
    let output = code_writer::translate(commands, name)?;
    Ok(output)
}

/// The bootstrap code of a program of several files: the stack pointer set to
/// 256, then a call of `Sys.init`.
pub open spec fn initialization_text() -> Seq<char> {
    "// initialization\n@256\nD=A\n@SP\nM=D\n\n"@ + "\n"@ + call_text("Sys.init"@, 0, ""@)
}

/// The bootstrap code of a program of several files.
pub fn initialize() -> (r: String)
    ensures
        r@ == initialization_text(),
{
    let mut res = String::from_str("// initialization\n@256\nD=A\n@SP\nM=D\n\n");
    let mut cmd: Vec<Command> = Vec::new();
    cmd.push(Command::Call(Call { name: String::from_str("Sys.init"), n_args: 0 }));
    proof {
        let cs = cmd@;
        assert(cs.drop_last() =~= Seq::<Command>::empty());
        assert(comparisons(Seq::<Command>::empty()) == 0);
        assert(!is_comparison_command(cs.last()));
        assert(comparisons(cs) == 0);
        assert(emit(cs, ""@) =~= emit(Seq::<Command>::empty(), ""@) + "\n"@ + call_text(
            "Sys.init"@,
            0,
            ""@,
        ));
    }
    match code_writer::translate(cmd, "") {
        Ok(output) => {
            res.append(output.as_str());
        },
        Err(_) => {},
    }
    res
}

} // verus!
