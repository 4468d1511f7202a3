use hack_vm_translator::parser::{parse_line, TranslateError};
use hack_vm_translator::{fits_label_counter, initialize, translate};

#[test]
fn translates_a_small_program() {
    let input = "// adds two numbers\npush constant 7\npush constant 8 // second\n\nadd\n";
    assert_eq!(
        translate(input, "Add").unwrap(),
        "\n// push constant 7\n@7\nD=A\n@SP\nA=M\nM=D\n@SP\nM=M+1\n\n// push constant 8\n@8\nD=A\n@SP\nA=M\nM=D\n@SP\nM=M+1\n\n// add\n@SP\nM=M-1\nD=M\nA=D\nD=M\n@SP\nM=M-1\nA=M\nM=D+M\n@SP\nM=M+1\n"
    );
}

#[test]
fn translation_reports_first_bad_line() {
    match translate("push constant 1\npop constant 1\nfoo\n", "X") {
        Err(TranslateError::PopConstant) => {}
        other => panic!("unexpected {:?}", other),
    }
}

#[test]
fn empty_program_translates_to_nothing() {
    assert_eq!(translate("// nothing here\n\n", "X").unwrap(), "");
}

#[test]
fn initialize_sets_stack_and_calls_sys_init() {
    let out = initialize();
    assert!(out.starts_with("// initialization\n@256\nD=A\n@SP\nM=D\n\n\n// call .Sys.init 0\n"));
    assert!(out.ends_with("(.Sys.init_retAddr)\n"));
}

#[test]
fn static_names_use_file_name() {
    let out = translate("push static 3", "Foo.vm").unwrap();
    assert_eq!(out, "\n// push static 3\n@Foo.vm.3\nD=M\n@SP\nA=M\nM=D\n@SP\nM=M+1\n");
}

#[test]
fn label_counter_check() {
    assert!(fits_label_counter("eq\ngt\nlt\n"));
    assert!(fits_label_counter("not a program at all"));
    let many = "eq\n".repeat(65535);
    assert!(fits_label_counter(&many));
    let too_many = "eq\n".repeat(65536);
    assert!(!fits_label_counter(&too_many));
}

#[test]
fn code_comment_reads_back_as_command() {
    for line in ["push local 2", "pop static 13", "push constant 0", "eq", "not", "pop pointer 1"] {
        let command = parse_line(line).unwrap();
        let code = translate(line, "F").unwrap();
        let first = code.lines().nth(1).unwrap();
        let source = first.strip_prefix("// ").unwrap();
        assert_eq!(source, line);
        assert_eq!(parse_line(source).unwrap(), command);
    }
}

#[test]
fn translation_of_prefix_is_prefix() {
    let program = "push constant 1\neq\npop temp 3\nlt\nadd\n";
    let whole = translate(program, "P").unwrap();
    let mut prefix = String::new();
    for line in program.lines() {
        prefix.push_str(line);
        prefix.push('\n');
        let part = translate(&prefix, "P").unwrap();
        assert!(whole.starts_with(&part));
    }
}
