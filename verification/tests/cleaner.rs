use hack_vm_translator::cleaner::clean_program;

#[test]
fn strips_full_comment_line() {
    let input = "// Hi\n push constant 1";
    assert_eq!(vec!["push constant 1"], clean_program(input));
}

#[test]
fn strips_comment_after_line() {
    let input = "push constant 1 // Hi";
    assert_eq!(vec!["push constant 1"], clean_program(input));
}

#[test]
fn strips_all_whitespace_around() {
    let input = "      push constant 1     ";
    assert_eq!(vec!["push constant 1"], clean_program(input));
}

#[test]
fn drops_blank_and_comment_only_lines() {
    let input = "\n   \n// only a comment\npush constant 7\n\n\nadd\n";
    assert_eq!(vec!["push constant 7", "add"], clean_program(input));
}

#[test]
fn handles_crlf_line_endings() {
    let input = "push constant 1\r\nadd\r\n";
    assert_eq!(vec!["push constant 1", "add"], clean_program(input));
}

#[test]
fn empty_program_has_no_instructions() {
    assert!(clean_program("").is_empty());
    assert!(clean_program("\n\n").is_empty());
}

#[test]
fn keeps_single_slash_and_inner_whitespace() {
    let input = "\t a / b \u{3000}// c";
    assert_eq!(vec!["a / b"], clean_program(input));
}

#[test]
fn final_line_without_newline_is_kept() {
    let input = "pop local 0\nneg";
    assert_eq!(vec!["pop local 0", "neg"], clean_program(input));
}

#[test]
fn cleaned_instructions_clean_to_themselves() {
    let input = "  push argument 3 // x\n\n  sub  \n// y\n";
    let once = clean_program(input);
    let joined = once.join("\n");
    let twice = clean_program(&joined);
    assert_eq!(once, twice);
}
