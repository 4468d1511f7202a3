//! VM commands, their textual names, and the parser from cleaned lines to commands.
use vstd::prelude::*;

use crate::text::{
    chars_of, dec, decimal, is_whitespace, is_ws, lemma_dec_digits, lemma_dec_parse_roundtrip,
    parse_u16, parse_u16_spec, same_text, slice_chars, IntErrorKind,
};

verus! {

/// One VM command.
#[derive(Debug, PartialEq, Eq)]
pub enum Command {
    Arithmetic(Arithmetic),
    Push(PushPop),
    Pop(PushPop),
    Branching(Branching),
    Function(Function),
    Return,
    Call(Call),
}

/// A memory segment of the VM.
#[derive(Clone, Copy, Debug, PartialEq, Eq, Structural)]
pub enum Segment {
    Local,
    Argument,
    This,
    That,
    Constant,
    Static,
    Temp,
    Pointer,
}

/// The operand of a `push` or `pop`: a segment and an index into it.
#[derive(Clone, Copy, Debug, PartialEq, Eq, Structural)]
pub struct PushPop {
    pub segment: Segment,
    pub i: u16,
}

/// An arithmetic or logical command on the stack.
#[derive(Clone, Copy, Debug, PartialEq, Eq, Structural)]
pub enum Arithmetic {
    Add,
    Sub,
    Neg,
    Eq,
    Gt,
    Lt,
    And,
    Or,
    Not,
}

/// The kinds of branching command.
#[derive(Clone, Copy, Debug, PartialEq, Eq, Structural)]
pub enum BranchingCommand {
    Label,
    Goto,
    IfGoto,
}

/// A branching command with its label.
#[derive(Debug, PartialEq, Eq)]
pub struct Branching {
    pub command: BranchingCommand,
    pub label: String,
}

/// A function declaration with the number of its local variables.
#[derive(Debug, PartialEq, Eq)]
pub struct Function {
    pub name: String,
    pub n_vars: u16,
}

/// A function call with the number of its arguments.
#[derive(Debug, PartialEq, Eq)]
pub struct Call {
    pub name: String,
    pub n_args: u16,
}

/// The name of a segment in VM code.
pub open spec fn segment_name(s: Segment) -> Seq<char> {
    match s {
        Segment::Local => "local"@,
        Segment::Argument => "argument"@,
        Segment::This => "this"@,
        Segment::That => "that"@,
        Segment::Constant => "constant"@,
        Segment::Static => "static"@,
        Segment::Temp => "temp"@,
        Segment::Pointer => "pointer"@,
    }
}

/// The segment whose name is `name`, if any.
pub open spec fn segment_named(name: Seq<char>) -> Option<Segment> {
    if name == "local"@ {
        Some(Segment::Local)
    } else if name == "argument"@ {
        Some(Segment::Argument)
    } else if name == "this"@ {
        Some(Segment::This)
    } else if name == "that"@ {
        Some(Segment::That)
    } else if name == "constant"@ {
        Some(Segment::Constant)
    } else if name == "static"@ {
        Some(Segment::Static)
    } else if name == "temp"@ {
        Some(Segment::Temp)
    } else if name == "pointer"@ {
        Some(Segment::Pointer)
    } else {
        None
    }
}

/// The name of an arithmetic command in VM code.
pub open spec fn arithmetic_name(a: Arithmetic) -> Seq<char> {
    match a {
        Arithmetic::Add => "add"@,
        Arithmetic::Sub => "sub"@,
        Arithmetic::Neg => "neg"@,
        Arithmetic::Eq => "eq"@,
        Arithmetic::Gt => "gt"@,
        Arithmetic::Lt => "lt"@,
        Arithmetic::And => "and"@,
        Arithmetic::Or => "or"@,
        Arithmetic::Not => "not"@,
    }
}

/// The arithmetic command whose name is `name`, if any.
pub open spec fn arithmetic_named(name: Seq<char>) -> Option<Arithmetic> {
    if name == "add"@ {
        Some(Arithmetic::Add)
    } else if name == "sub"@ {
        Some(Arithmetic::Sub)
    } else if name == "neg"@ {
        Some(Arithmetic::Neg)
    } else if name == "eq"@ {
        Some(Arithmetic::Eq)
    } else if name == "gt"@ {
        Some(Arithmetic::Gt)
    } else if name == "lt"@ {
        Some(Arithmetic::Lt)
    } else if name == "and"@ {
        Some(Arithmetic::And)
    } else if name == "or"@ {
        Some(Arithmetic::Or)
    } else if name == "not"@ {
        Some(Arithmetic::Not)
    } else {
        None
    }
}

/// The name of a branching command in VM code.
pub open spec fn branching_name(b: BranchingCommand) -> Seq<char> {
    match b {
        BranchingCommand::Label => "label"@,
        BranchingCommand::Goto => "goto"@,
        BranchingCommand::IfGoto => "if-goto"@,
    }
}

/// Why a line is not a command.
#[derive(Debug)]
pub enum TranslateError {
    /// The second word of a memory command names no segment.
    InvalidSegment(String),
    /// The line is no command: wrong number of words, or an unknown single word.
    InvalidCommand(String),
    /// The index of a memory command is not a `u16`.
    InvalidNumber(IntErrorKind),
    /// The index is out of range for `temp` (0..=7) or `pointer` (0..=1).
    IndexOutOfRange(Segment, u16),
    /// `pop constant` has no meaning.
    PopConstant,
    /// The first word of a three-word line is neither `push` nor `pop`.
    UnknownMemoryCommand,
}

/// What a `TranslateError` holds, with its texts as character sequences.
pub enum ErrorView {
    InvalidSegment(Seq<char>),
    InvalidCommand(Seq<char>),
    InvalidNumber(IntErrorKind),
    IndexOutOfRange(Segment, u16),
    PopConstant,
    UnknownMemoryCommand,
}

impl View for TranslateError {
    type V = ErrorView;

    open spec fn view(&self) -> ErrorView {
        match self {
            TranslateError::InvalidSegment(s) => ErrorView::InvalidSegment(s@),
            TranslateError::InvalidCommand(s) => ErrorView::InvalidCommand(s@),
            TranslateError::InvalidNumber(k) => ErrorView::InvalidNumber(*k),
            TranslateError::IndexOutOfRange(s, i) => ErrorView::IndexOutOfRange(*s, *i),
            TranslateError::PopConstant => ErrorView::PopConstant,
            TranslateError::UnknownMemoryCommand => ErrorView::UnknownMemoryCommand,
        }
    }
}

/// A result with its error taken by its view.
pub open spec fn result_view<T>(r: Result<T, TranslateError>) -> Result<T, ErrorView> {
    match r {
        Ok(v) => Ok(v),
        Err(e) => Err(e@),
    }
}

/// The message of a number that does not parse.
pub open spec fn int_error_message(k: IntErrorKind) -> Seq<char> {
    match k {
        IntErrorKind::Empty => "cannot parse integer from empty string"@,
        IntErrorKind::InvalidDigit => "invalid digit found in string"@,
        IntErrorKind::PosOverflow => "number too large to fit in target type"@,
    }
}

/// The message that reports an error.
pub open spec fn error_message(e: ErrorView) -> Seq<char> {
    match e {
        ErrorView::InvalidSegment(s) => "Invalid segment: "@ + s,
        ErrorView::InvalidCommand(s) => "Invalid command: "@ + s,
        ErrorView::InvalidNumber(k) => int_error_message(k),
        ErrorView::IndexOutOfRange(seg, i) => "Invalid "@ + segment_name(seg) + " number: "@ + dec(
            i as nat,
        ),
        ErrorView::PopConstant => "Invalid: pop constant"@,
        ErrorView::UnknownMemoryCommand => "Invalid command"@,
    }
}

impl TranslateError {
    /// The message that reports this error.
    pub fn message(&self) -> (m: String)
        ensures
            m@ == error_message(self@),
    {
        match self {
            TranslateError::InvalidSegment(s) => {
                let mut m = String::from_str("Invalid segment: ");
                m.append(s.as_str());
                m
            },
            TranslateError::InvalidCommand(s) => {
                let mut m = String::from_str("Invalid command: ");
                m.append(s.as_str());
                m
            },
            TranslateError::InvalidNumber(k) => match k {
                IntErrorKind::Empty => String::from_str("cannot parse integer from empty string"),
                IntErrorKind::InvalidDigit => String::from_str("invalid digit found in string"),
                IntErrorKind::PosOverflow => String::from_str(
                    "number too large to fit in target type",
                ),
            },
            TranslateError::IndexOutOfRange(seg, i) => {
                let mut m = String::from_str("Invalid ");
                m.append(seg.as_str());
                m.append(" number: ");
                m.append(decimal(*i as u32).as_str());
                m
            },
            TranslateError::PopConstant => String::from_str("Invalid: pop constant"),
            TranslateError::UnknownMemoryCommand => String::from_str("Invalid command"),
        }
    }
}

impl Segment {
    /// The segment named `seg`.
    pub fn get(seg: &str) -> (r: Result<Segment, TranslateError>)
        ensures
            result_view(r) == (match segment_named(seg@) {
                Some(s) => Ok(s),
                None => Err(ErrorView::InvalidSegment(seg@)),
            }),
    {
        if same_text(seg, "local") {
            Ok(Segment::Local)
        } else if same_text(seg, "argument") {
            Ok(Segment::Argument)
        } else if same_text(seg, "this") {
            Ok(Segment::This)
        } else if same_text(seg, "that") {
            Ok(Segment::That)
        } else if same_text(seg, "constant") {
            Ok(Segment::Constant)
        } else if same_text(seg, "static") {
            Ok(Segment::Static)
        } else if same_text(seg, "temp") {
            Ok(Segment::Temp)
        } else if same_text(seg, "pointer") {
            Ok(Segment::Pointer)
        } else {
            Err(TranslateError::InvalidSegment(String::from_str(seg)))
        }
    }

    /// The name of this segment.
    pub fn as_str(&self) -> (r: &'static str)
        ensures
            r@ == segment_name(*self),
    {
        match self {
            Segment::Local => "local",
            Segment::Argument => "argument",
            Segment::This => "this",
            Segment::That => "that",
            Segment::Constant => "constant",
            Segment::Static => "static",
            Segment::Temp => "temp",
            Segment::Pointer => "pointer",
        }
    }
}

impl Arithmetic {
    /// The arithmetic command named `cmd`.
    pub fn get(cmd: &str) -> (r: Result<Arithmetic, TranslateError>)
        ensures
            result_view(r) == (match arithmetic_named(cmd@) {
                Some(a) => Ok(a),
                None => Err(ErrorView::InvalidCommand(cmd@)),
            }),
    {
        if same_text(cmd, "add") {
            Ok(Arithmetic::Add)
        } else if same_text(cmd, "sub") {
            Ok(Arithmetic::Sub)
        } else if same_text(cmd, "neg") {
            Ok(Arithmetic::Neg)
        } else if same_text(cmd, "eq") {
            Ok(Arithmetic::Eq)
        } else if same_text(cmd, "gt") {
            Ok(Arithmetic::Gt)
        } else if same_text(cmd, "lt") {
            Ok(Arithmetic::Lt)
        } else if same_text(cmd, "and") {
            Ok(Arithmetic::And)
        } else if same_text(cmd, "or") {
            Ok(Arithmetic::Or)
        } else if same_text(cmd, "not") {
            Ok(Arithmetic::Not)
        } else {
            Err(TranslateError::InvalidCommand(String::from_str(cmd)))
        }
    }

    /// The name of this command.
    pub fn as_str(&self) -> (r: &'static str)
        ensures
            r@ == arithmetic_name(*self),
    {
        match self {
            Arithmetic::Add => "add",
            Arithmetic::Sub => "sub",
            Arithmetic::Neg => "neg",
            Arithmetic::Eq => "eq",
            Arithmetic::Gt => "gt",
            Arithmetic::Lt => "lt",
            Arithmetic::And => "and",
            Arithmetic::Or => "or",
            Arithmetic::Not => "not",
        }
    }
}

impl BranchingCommand {
    /// The name of this branching command.
    pub fn as_str(&self) -> (r: &'static str)
        ensures
            r@ == branching_name(*self),
    {
        match self {
            BranchingCommand::Label => "label",
            BranchingCommand::Goto => "goto",
            BranchingCommand::IfGoto => "if-goto",
        }
    }
}

/// The length of the run of non-whitespace characters at the start of `s`.
pub open spec fn word_len(s: Seq<char>) -> nat
    decreases s.len(),
{
    if s.len() == 0 || is_ws(s[0]) {
        0
    } else {
        1 + word_len(s.drop_first())
    }
}

pub proof fn lemma_word_len_bound(s: Seq<char>)
    ensures
        word_len(s) <= s.len(),
    decreases s.len(),
{
    if s.len() > 0 && !is_ws(s[0]) {
        lemma_word_len_bound(s.drop_first());
    }
}

/// A run of `k` non-whitespace characters that whitespace or the end closes
/// is the first word's length.
proof fn lemma_word_len_is(s: Seq<char>, k: int)
    requires
        0 <= k <= s.len(),
        forall|j: int| 0 <= j < k ==> !is_ws(#[trigger] s[j]),
        k == s.len() || is_ws(s[k]),
    ensures
        word_len(s) == k,
    decreases k,
{
    if k > 0 {
        lemma_word_len_is(s.drop_first(), k - 1);
    }
}

/// The words of `s`: its maximal runs of non-whitespace characters, in order,
/// as `str::split_whitespace` gives them.
pub open spec fn words(s: Seq<char>) -> Seq<Seq<char>>
    decreases s.len(),
{
    if s.len() == 0 {
        seq![]
    } else if is_ws(s[0]) {
        words(s.drop_first())
    } else {
        proof {
            lemma_word_len_bound(s);
        }
        seq![s.take(word_len(s) as int)] + words(s.skip(word_len(s) as int))
    }
}

/// The words of `line`, as slices of it.
pub fn split_words(line: &str) -> (ws: Vec<&str>)
    ensures
        ws@.len() == words(line@).len(),
        forall|i: int| 0 <= i < ws@.len() ==> (#[trigger] ws@[i])@ == words(line@)[i],
{
    let c = chars_of(line);
    let ascii = line.is_ascii();
    let n = c.len();
    let mut ws: Vec<&str> = Vec::new();
    let ghost mut done: Seq<Seq<char>> = seq![];
    let mut i: usize = 0;
    assert(line@.skip(0) =~= line@);
    assert(done + words(line@) =~= words(line@));
    while i < n
        invariant
            c@ == line@,
            ascii ==> line.is_ascii(),
            n == c.len(),
            i <= n,
            ws@.len() == done.len(),
            forall|k: int| 0 <= k < ws@.len() ==> (#[trigger] ws@[k])@ == done[k],
            words(line@) == done + words(line@.skip(i as int)),
        decreases n - i,
    {
        let ghost t = line@.skip(i as int);
        assert(t[0] == c@[i as int]);
        if is_whitespace(c[i]) {
            assert(t.drop_first() =~= line@.skip(i + 1));
            i = i + 1;
        } else {
            let mut j: usize = i + 1;
            while j < n && !is_whitespace(c[j])
                invariant
                    c@ == line@,
                    n == c.len(),
                    i < j <= n,
                    forall|m: int| i <= m < j ==> !is_ws(#[trigger] line@[m]),
                decreases n - j,
            {
                j = j + 1;
            }
            proof {
                assert forall|m: int| 0 <= m < j - i implies !is_ws(#[trigger] t[m]) by {
                    assert(t[m] == line@[i + m]);
                }
                if j < n {
                    assert(t[j - i] == line@[j as int]);
                }
                lemma_word_len_is(t, j - i);
                assert(t.take(j - i) =~= line@.subrange(i as int, j as int));
                assert(t.skip(j - i) =~= line@.skip(j as int));
                assert(done + words(t) =~= done.push(line@.subrange(i as int, j as int)) + words(
                    line@.skip(j as int),
                ));
                done = done.push(line@.subrange(i as int, j as int));
            }
            ws.push(slice_chars(line, ascii, i, j));
            i = j;
        }
    }
    assert(line@.skip(n as int) =~= Seq::<char>::empty());
    assert(done + Seq::<Seq<char>>::empty() =~= done);
    ws
}

/// Whether a parsed push or pop stays within its segment: `temp` has 8 cells,
/// `pointer` has 2.
pub open spec fn index_in_range(pp: PushPop) -> bool {
    &&& (pp.segment == Segment::Temp ==> pp.i <= 7)
    &&& (pp.segment == Segment::Pointer ==> pp.i <= 1)
}

/// The command that a memory command's three words give, or why they give none.
pub open spec fn memory_command_spec(op: Seq<char>, seg: Seq<char>, index: Seq<char>) -> Result<
    Command,
    ErrorView,
> {
    match segment_named(seg) {
        None => Err(ErrorView::InvalidSegment(seg)),
        Some(segment) => match parse_u16_spec(index) {
            Err(k) => Err(ErrorView::InvalidNumber(k)),
            Ok(i) => {
                let pp = PushPop { segment, i };
                if !index_in_range(pp) {
                    Err(ErrorView::IndexOutOfRange(segment, i))
                } else if op == "pop"@ {
                    if segment == Segment::Constant {
                        Err(ErrorView::PopConstant)
                    } else {
                        Ok(Command::Pop(pp))
                    }
                } else if op == "push"@ {
                    Ok(Command::Push(pp))
                } else {
                    Err(ErrorView::UnknownMemoryCommand)
                }
            },
        },
    }
}

/// The command that a one-word line gives, or why it gives none.
pub open spec fn arithmetic_command_spec(line: Seq<char>) -> Result<Command, ErrorView> {
    match arithmetic_named(line) {
        Some(a) => Ok(Command::Arithmetic(a)),
        None => Err(ErrorView::InvalidCommand(line)),
    }
}

/// The command on a line, or why there is none. A one-word line is an
/// arithmetic command named by the whole line; a three-word line is a memory command.
pub open spec fn parse_line_spec(line: Seq<char>) -> Result<Command, ErrorView> {
    let w = words(line);
    if w.len() == 1 {
        arithmetic_command_spec(line)
    } else if w.len() == 3 {
        memory_command_spec(w[0], w[1], w[2])
    } else {
        Err(ErrorView::InvalidCommand(line))
    }
}

/// The commands on the lines, or the error of the first line that holds none.
pub open spec fn parse_spec(lines: Seq<Seq<char>>) -> Result<Seq<Command>, ErrorView>
    decreases lines.len(),
{
    if lines.len() == 0 {
        Ok(seq![])
    } else {
        match parse_spec(lines.drop_last()) {
            Err(e) => Err(e),
            Ok(cs) => match parse_line_spec(lines.last()) {
                Err(e) => Err(e),
                Ok(c) => Ok(cs.push(c)),
            },
        }
    }
}

/// The texts of a list of lines.
pub open spec fn lines_view(program: Seq<&str>) -> Seq<Seq<char>> {
    program.map_values(|l: &str| l@)
}

/// Parses the cleaned lines of a program into commands.
pub fn parse(program: Vec<&str>) -> (r: Result<Vec<Command>, TranslateError>)
    ensures
        match r {
            Ok(cs) => parse_spec(lines_view(program@)) == Ok::<Seq<Command>, ErrorView>(cs@),
            Err(e) => parse_spec(lines_view(program@)) == Err::<Seq<Command>, ErrorView>(e@),
        },
{
    let ghost lines = lines_view(program@);
    let mut result: Vec<Command> = Vec::new();
    let mut i: usize = 0;
    while i < program.len()
        invariant
            i <= program.len(),
            lines == lines_view(program@),
            parse_spec(lines.take(i as int)) == Ok::<Seq<Command>, ErrorView>(result@),
        decreases program.len() - i,
    {
        assert(lines.take(i + 1).drop_last() =~= lines.take(i as int));
        assert(lines.take(i + 1).last() == program@[i as int]@);
        match parse_line(program[i]) {
            Ok(c) => {
                result.push(c);
            },
            Err(e) => {
                proof {
                    lemma_parse_error_extends(lines, i + 1);
                }
                return Err(e);
            },
        }
        i = i + 1;
    }
    assert(lines.take(program.len() as int) =~= lines);
    Ok(result)
}

/// An error on a prefix of the lines is the error of all of them.
proof fn lemma_parse_error_extends(lines: Seq<Seq<char>>, k: int)
    requires
        0 <= k <= lines.len(),
        parse_spec(lines.take(k)) is Err,
    ensures
        parse_spec(lines) == parse_spec(lines.take(k)),
    decreases lines.len() - k,
{
    if k < lines.len() {
        assert(lines.take(k + 1).drop_last() =~= lines.take(k));
        lemma_parse_error_extends(lines, k + 1);
    } else {
        assert(lines.take(k) =~= lines);
    }
}

/// Parses one line into a command.
pub fn parse_line(line: &str) -> (r: Result<Command, TranslateError>)
    ensures
        result_view(r) == parse_line_spec(line@),
{
    let elements = split_words(line);
    if elements.len() == 1 {
        handle_arithmetic_command(line)
    } else if elements.len() == 3 {
        handle_memory_command(elements)
    } else {
        Err(TranslateError::InvalidCommand(String::from_str(line)))
    }
}

/// Reads a line as an arithmetic command named by the whole line.
pub fn handle_arithmetic_command(line: &str) -> (r: Result<Command, TranslateError>)
    ensures
        result_view(r) == arithmetic_command_spec(line@),
{
    let cmd = Arithmetic::get(line)?;
    Ok(Command::Arithmetic(cmd))
}

/// Reads the first three words of a line as a memory command: operation,
/// segment and index.
pub fn handle_memory_command(elements: Vec<&str>) -> (r: Result<Command, TranslateError>)
    requires
        elements.len() >= 3,
    ensures
        result_view(r) == memory_command_spec(elements@[0]@, elements@[1]@, elements@[2]@),
{
    let segment = Segment::get(elements[1])?;
    let i = match parse_u16(elements[2]) {
        Ok(i) => i,
        Err(k) => {
            return Err(TranslateError::InvalidNumber(k));
        },
    };
    match segment {
        Segment::Temp => {
            if i > 7 {
                return Err(TranslateError::IndexOutOfRange(segment, i));
            }
        },
        Segment::Pointer => {
            if i > 1 {
                return Err(TranslateError::IndexOutOfRange(segment, i));
            }
        },
        _ => {},
    }
    let pp = PushPop { segment, i };
    if same_text(elements[0], "pop") {
        match pp.segment {
            Segment::Constant => Err(TranslateError::PopConstant),
            _ => Ok(Command::Pop(pp)),
        }
    } else if same_text(elements[0], "push") {
        Ok(Command::Push(pp))
    } else {
        Err(TranslateError::UnknownMemoryCommand)
    }
}

/// The commands that the parser produces: arithmetic commands, and pushes and
/// pops within their segments, where no pop goes into `constant`.
pub open spec fn parsed_form(c: Command) -> bool {
    match c {
        Command::Arithmetic(_) => true,
        Command::Push(pp) => index_in_range(pp),
        Command::Pop(pp) => index_in_range(pp) && pp.segment != Segment::Constant,
        _ => false,
    }
}

/// Every command that a line gives has the parsed form.
pub proof fn lemma_parse_line_form(line: Seq<char>)
    ensures
        parse_line_spec(line) matches Ok(c) ==> parsed_form(c),
{
}

/// A parsed program has one command per line, each of the parsed form.
pub proof fn lemma_parse_form(lines: Seq<Seq<char>>)
    ensures
        parse_spec(lines) matches Ok(cs) ==> {
            &&& cs.len() == lines.len()
            &&& forall|k: int| 0 <= k < cs.len() ==> parsed_form(#[trigger] cs[k])
        },
    decreases lines.len(),
{
    if lines.len() > 0 {
        lemma_parse_form(lines.drop_last());
        lemma_parse_line_form(lines.last());
    }
}

/// Naming a segment and reading the name back gives the segment.
pub proof fn lemma_segment_name_roundtrip(s: Segment)
    ensures
        segment_named(segment_name(s)) == Some(s),
{
    reveal_strlit("local");
    assert("local"@ =~= seq!['l', 'o', 'c', 'a', 'l']);
    reveal_strlit("argument");
    assert("argument"@ =~= seq!['a', 'r', 'g', 'u', 'm', 'e', 'n', 't']);
    reveal_strlit("this");
    assert("this"@ =~= seq!['t', 'h', 'i', 's']);
    reveal_strlit("that");
    assert("that"@ =~= seq!['t', 'h', 'a', 't']);
    reveal_strlit("constant");
    assert("constant"@ =~= seq!['c', 'o', 'n', 's', 't', 'a', 'n', 't']);
    reveal_strlit("static");
    assert("static"@ =~= seq!['s', 't', 'a', 't', 'i', 'c']);
    reveal_strlit("temp");
    assert("temp"@ =~= seq!['t', 'e', 'm', 'p']);
    reveal_strlit("pointer");
    assert("pointer"@ =~= seq!['p', 'o', 'i', 'n', 't', 'e', 'r']);
}

/// A name that denotes a segment is that segment's name.
pub proof fn lemma_segment_named_exact(name: Seq<char>)
    ensures
        segment_named(name) matches Some(s) ==> segment_name(s) == name,
{
}

/// Naming an arithmetic command and reading the name back gives the command.
pub proof fn lemma_arithmetic_name_roundtrip(a: Arithmetic)
    ensures
        arithmetic_named(arithmetic_name(a)) == Some(a),
{
    reveal_strlit("add");
    assert("add"@ =~= seq!['a', 'd', 'd']);
    reveal_strlit("sub");
    assert("sub"@ =~= seq!['s', 'u', 'b']);
    reveal_strlit("neg");
    assert("neg"@ =~= seq!['n', 'e', 'g']);
    reveal_strlit("eq");
    assert("eq"@ =~= seq!['e', 'q']);
    reveal_strlit("gt");
    assert("gt"@ =~= seq!['g', 't']);
    reveal_strlit("lt");
    assert("lt"@ =~= seq!['l', 't']);
    reveal_strlit("and");
    assert("and"@ =~= seq!['a', 'n', 'd']);
    reveal_strlit("or");
    assert("or"@ =~= seq!['o', 'r']);
    reveal_strlit("not");
    assert("not"@ =~= seq!['n', 'o', 't']);
}

/// A name that denotes an arithmetic command is that command's name.
pub proof fn lemma_arithmetic_named_exact(name: Seq<char>)
    ensures
        arithmetic_named(name) matches Some(a) ==> arithmetic_name(a) == name,
{
}

/// Whether `w` is a word: not empty, and without whitespace.
pub open spec fn is_word(w: Seq<char>) -> bool {
    w.len() > 0 && forall|j: int| 0 <= j < w.len() ==> !is_ws(#[trigger] w[j])
}

proof fn lemma_words_single(w: Seq<char>)
    requires
        is_word(w),
    ensures
        words(w) == seq![w],
{
    assert(!is_ws(w[0]));
    lemma_word_len_is(w, w.len() as int);
    assert(w.take(w.len() as int) =~= w);
    assert(w.skip(w.len() as int) =~= Seq::<char>::empty());
    assert(words(Seq::<char>::empty()) == Seq::<Seq<char>>::empty());
    assert(seq![w] + Seq::<Seq<char>>::empty() =~= seq![w]);
}

proof fn lemma_words_cons(w: Seq<char>, rest: Seq<char>)
    requires
        is_word(w),
    ensures
        words(w + seq![' '] + rest) == seq![w] + words(rest),
{
    let s = w + seq![' '] + rest;
    assert forall|j: int| 0 <= j < w.len() implies !is_ws(#[trigger] s[j]) by {
        assert(s[j] == w[j]);
    }
    assert(s[w.len() as int] == ' ');
    assert(!is_ws(s[0]));
    lemma_word_len_is(s, w.len() as int);
    assert(s.take(w.len() as int) =~= w);
    let t = s.skip(w.len() as int);
    assert(t =~= seq![' '] + rest);
    assert(t[0] == ' ');
    assert(is_ws(t[0]));
    assert(t.drop_first() =~= rest);
    assert(words(t) == words(rest));
    assert(words(s) == seq![w] + words(t));
}

proof fn lemma_segment_name_is_word(s: Segment)
    ensures
        is_word(segment_name(s)),
{
    reveal_strlit("local");
    reveal_strlit("argument");
    reveal_strlit("this");
    reveal_strlit("that");
    reveal_strlit("constant");
    reveal_strlit("static");
    reveal_strlit("temp");
    reveal_strlit("pointer");
}

proof fn lemma_arithmetic_name_is_word(a: Arithmetic)
    ensures
        is_word(arithmetic_name(a)),
{
    reveal_strlit("add");
    reveal_strlit("sub");
    reveal_strlit("neg");
    reveal_strlit("eq");
    reveal_strlit("gt");
    reveal_strlit("lt");
    reveal_strlit("and");
    reveal_strlit("or");
    reveal_strlit("not");
}

/// The VM source of a command of the parsed form: the name of an arithmetic
/// command, or `push`/`pop`, the segment and the index, separated by spaces.
pub open spec fn source_text(c: Command) -> Seq<char> {
    match c {
        Command::Arithmetic(a) => arithmetic_name(a),
        Command::Push(pp) => "push"@ + " "@ + segment_name(pp.segment) + " "@ + dec(pp.i as nat),
        Command::Pop(pp) => "pop"@ + " "@ + segment_name(pp.segment) + " "@ + dec(pp.i as nat),
        _ => seq![],
    }
}

/// The source of every command that the parser can produce reads back as that command.
pub proof fn lemma_source_roundtrip(c: Command)
    requires
        parsed_form(c),
    ensures
        parse_line_spec(source_text(c)) == Ok::<Command, ErrorView>(c),
{
    reveal_strlit(" ");
    reveal_strlit("push");
    reveal_strlit("pop");
    assert(" "@ =~= seq![' ']);
    assert("push"@ =~= seq!['p', 'u', 's', 'h']);
    assert("pop"@ =~= seq!['p', 'o', 'p']);
    match c {
        Command::Arithmetic(a) => {
            lemma_arithmetic_name_is_word(a);
            lemma_words_single(arithmetic_name(a));
            lemma_arithmetic_name_roundtrip(a);
            assert(words(arithmetic_name(a)).len() == 1);
            assert(source_text(c) == arithmetic_name(a));
            assert(arithmetic_command_spec(arithmetic_name(a)) == Ok::<Command, ErrorView>(c));
        },
        Command::Push(pp) => {
            lemma_memory_source(pp, "push"@);
            lemma_segment_name_roundtrip(pp.segment);
            lemma_dec_parse_roundtrip(pp.i);
        },
        Command::Pop(pp) => {
            lemma_memory_source(pp, "pop"@);
            lemma_segment_name_roundtrip(pp.segment);
            lemma_dec_parse_roundtrip(pp.i);
        },
        _ => {},
    }
}

proof fn lemma_memory_source(pp: PushPop, op: Seq<char>)
    requires
        op == "push"@ || op == "pop"@,
        op == "push"@ ==> op =~= seq!['p', 'u', 's', 'h'],
        op == "pop"@ ==> op =~= seq!['p', 'o', 'p'],
        " "@ =~= seq![' '],
    ensures
        words(op + " "@ + segment_name(pp.segment) + " "@ + dec(pp.i as nat)) == seq![
            op,
            segment_name(pp.segment),
            dec(pp.i as nat),
        ],
{
    let seg = segment_name(pp.segment);
    let num = dec(pp.i as nat);
    lemma_segment_name_is_word(pp.segment);
    lemma_dec_digits(pp.i as nat);
    assert(is_word(num));
    assert(is_word(op));
    lemma_words_single(num);
    lemma_words_cons(seg, num);
    assert(op + " "@ + seg + " "@ + num =~= op + seq![' '] + (seg + seq![' '] + num));
    lemma_words_cons(op, seg + seq![' '] + num);
}

/// Which memory commands the parser accepts: `temp` has the 8 cells 0..=7,
/// `pointer` the 2 cells 0 and 1, every other segment any `u16` index, and
/// `constant` can be pushed but not popped; an accepted line gives exactly the
/// command it spells.
pub proof fn law_memory_commands_accepted(pp: PushPop, is_pop: bool)
    ensures
        parse_line_spec(
            (if is_pop {
                "pop"@
            } else {
                "push"@
            }) + " "@ + segment_name(pp.segment) + " "@ + dec(pp.i as nat),
        ) == (if (pp.segment == Segment::Temp && pp.i > 7) || (pp.segment == Segment::Pointer
            && pp.i > 1) {
            Err(ErrorView::IndexOutOfRange(pp.segment, pp.i))
        } else if is_pop && pp.segment == Segment::Constant {
            Err(ErrorView::PopConstant)
        } else if is_pop {
            Ok(Command::Pop(pp))
        } else {
            Ok(Command::Push(pp))
        }),
{
    reveal_strlit(" ");
    reveal_strlit("push");
    reveal_strlit("pop");
    assert(" "@ =~= seq![' ']);
    assert("push"@ =~= seq!['p', 'u', 's', 'h']);
    assert("pop"@ =~= seq!['p', 'o', 'p']);
    let op = if is_pop {
        "pop"@
    } else {
        "push"@
    };
    lemma_memory_source(pp, op);
    lemma_segment_name_roundtrip(pp.segment);
    lemma_dec_parse_roundtrip(pp.i);
}

/// The names of the segments in VM code.
pub proof fn law_segment_names(s: Segment)
    ensures
        segment_name(s) == (match s {
            Segment::Local => "local"@,
            Segment::Argument => "argument"@,
            Segment::This => "this"@,
            Segment::That => "that"@,
            Segment::Constant => "constant"@,
            Segment::Static => "static"@,
            Segment::Temp => "temp"@,
            Segment::Pointer => "pointer"@,
        }),
        segment_named(segment_name(s)) == Some(s),
{
    lemma_segment_name_roundtrip(s);
}

/// The names of the arithmetic commands in VM code.
pub proof fn law_arithmetic_names(a: Arithmetic)
    ensures
        arithmetic_name(a) == (match a {
            Arithmetic::Add => "add"@,
            Arithmetic::Sub => "sub"@,
            Arithmetic::Neg => "neg"@,
            Arithmetic::Eq => "eq"@,
            Arithmetic::Gt => "gt"@,
            Arithmetic::Lt => "lt"@,
            Arithmetic::And => "and"@,
            Arithmetic::Or => "or"@,
            Arithmetic::Not => "not"@,
        }),
        arithmetic_named(arithmetic_name(a)) == Some(a),
{
    lemma_arithmetic_name_roundtrip(a);
}

/// The message of each error names what went wrong and the text at fault.
pub proof fn law_error_messages(e: ErrorView)
    ensures
        error_message(e) == (match e {
            ErrorView::InvalidSegment(seg) => "Invalid segment: "@ + seg,
            ErrorView::InvalidCommand(line) => "Invalid command: "@ + line,
            ErrorView::InvalidNumber(IntErrorKind::Empty) => "cannot parse integer from empty string"@,
            ErrorView::InvalidNumber(IntErrorKind::InvalidDigit) => "invalid digit found in string"@,
            ErrorView::InvalidNumber(IntErrorKind::PosOverflow) =>
                "number too large to fit in target type"@,
            ErrorView::IndexOutOfRange(seg, i) => "Invalid "@ + segment_name(seg) + " number: "@
                + dec(i as nat),
            ErrorView::PopConstant => "Invalid: pop constant"@,
            ErrorView::UnknownMemoryCommand => "Invalid command"@,
        }),
{
}

} // verus!
