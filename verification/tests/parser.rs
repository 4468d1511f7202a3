use hack_vm_translator::parser::{
    handle_arithmetic_command, handle_memory_command, parse, parse_line, Arithmetic, Command,
    PushPop, Segment, TranslateError,
};
use hack_vm_translator::text::IntErrorKind;

#[test]
fn translates_arithmetic_command() {
    let input = "add";
    let want = Command::Arithmetic(Arithmetic::Add);
    assert_eq!(want, parse_line(input).unwrap());
}

#[test]
fn translates_pop_command() {
    let input = "pop this 6";
    let want = Command::Pop(PushPop {
        segment: Segment::This,
        i: 6,
    });
    assert_eq!(want, parse_line(input).unwrap());
}

#[test]
fn translates_push_command() {
    let input = "push this 6";
    let want = Command::Push(PushPop {
        segment: Segment::This,
        i: 6,
    });
    assert_eq!(want, parse_line(input).unwrap());
}

#[test]
fn errors_on_too_many_elements() {
    let input = "push push push this 6";
    assert!(parse_line(input).is_err());
}

#[test]
fn errors_on_three_but_unknown() {
    let input = "pushi push push this 6";
    assert!(parse_line(input).is_err());
}

#[test]
fn errors_on_pop_constant() {
    let input = "pop constant 6";
    assert!(handle_memory_command(input.split_whitespace().collect()).is_err());
}

#[test]
fn errors_on_non_valid_push() {
    let input = "push pushback 6";
    assert!(handle_memory_command(input.split_whitespace().collect()).is_err());
}

#[test]
fn errors_on_non_valid_arithmetic() {
    let input = "invalid";
    assert!(handle_arithmetic_command(input).is_err());
}

#[test]
fn parses_every_segment_and_arithmetic_name() {
    let segments = [
        ("local", Segment::Local),
        ("argument", Segment::Argument),
        ("this", Segment::This),
        ("that", Segment::That),
        ("constant", Segment::Constant),
        ("static", Segment::Static),
        ("temp", Segment::Temp),
        ("pointer", Segment::Pointer),
    ];
    for (name, seg) in segments {
        assert_eq!(Segment::get(name).unwrap(), seg);
        assert_eq!(seg.as_str(), name);
    }
    let ops = [
        ("add", Arithmetic::Add),
        ("sub", Arithmetic::Sub),
        ("neg", Arithmetic::Neg),
        ("eq", Arithmetic::Eq),
        ("gt", Arithmetic::Gt),
        ("lt", Arithmetic::Lt),
        ("and", Arithmetic::And),
        ("or", Arithmetic::Or),
        ("not", Arithmetic::Not),
    ];
    for (name, op) in ops {
        assert_eq!(Arithmetic::get(name).unwrap(), op);
        assert_eq!(op.as_str(), name);
    }
}

#[test]
fn reports_each_error_kind() {
    match parse_line("push nowhere 1") {
        Err(e @ TranslateError::InvalidSegment(_)) => {
            assert_eq!(e.message(), "Invalid segment: nowhere")
        }
        other => panic!("unexpected {:?}", other),
    }
    match parse_line("jump") {
        Err(e @ TranslateError::InvalidCommand(_)) => assert_eq!(e.message(), "Invalid command: jump"),
        other => panic!("unexpected {:?}", other),
    }
    match parse_line("label LOOP") {
        Err(e) => assert_eq!(e.message(), "Invalid command: label LOOP"),
        other => panic!("unexpected {:?}", other),
    }
    match parse_line("push local x") {
        Err(TranslateError::InvalidNumber(IntErrorKind::InvalidDigit)) => {}
        other => panic!("unexpected {:?}", other),
    }
    match parse_line("push local 70000") {
        Err(e @ TranslateError::InvalidNumber(IntErrorKind::PosOverflow)) => {
            assert_eq!(e.message(), "number too large to fit in target type")
        }
        other => panic!("unexpected {:?}", other),
    }
    match parse_line("push temp 8") {
        Err(e @ TranslateError::IndexOutOfRange(Segment::Temp, 8)) => {
            assert_eq!(e.message(), "Invalid temp number: 8")
        }
        other => panic!("unexpected {:?}", other),
    }
    match parse_line("pop pointer 2") {
        Err(TranslateError::IndexOutOfRange(Segment::Pointer, 2)) => {}
        other => panic!("unexpected {:?}", other),
    }
    match parse_line("pop constant 1") {
        Err(e @ TranslateError::PopConstant) => assert_eq!(e.message(), "Invalid: pop constant"),
        other => panic!("unexpected {:?}", other),
    }
    match parse_line("peek local 1") {
        Err(e @ TranslateError::UnknownMemoryCommand) => assert_eq!(e.message(), "Invalid command"),
        other => panic!("unexpected {:?}", other),
    }
}

#[test]
fn segment_is_checked_before_number_and_operation() {
    match parse_line("peek nowhere x") {
        Err(TranslateError::InvalidSegment(s)) => assert_eq!(s, "nowhere"),
        other => panic!("unexpected {:?}", other),
    }
    match parse_line("peek temp 9") {
        Err(TranslateError::IndexOutOfRange(Segment::Temp, 9)) => {}
        other => panic!("unexpected {:?}", other),
    }
}

#[test]
fn accepts_bounds_and_plus_sign() {
    assert_eq!(
        parse_line("pop temp 7").unwrap(),
        Command::Pop(PushPop { segment: Segment::Temp, i: 7 })
    );
    assert_eq!(
        parse_line("push pointer 1").unwrap(),
        Command::Push(PushPop { segment: Segment::Pointer, i: 1 })
    );
    assert_eq!(
        parse_line("push constant +65535").unwrap(),
        Command::Push(PushPop { segment: Segment::Constant, i: 65535 })
    );
    assert_eq!(
        parse_line("  push\tlocal   007 ").unwrap(),
        Command::Push(PushPop { segment: Segment::Local, i: 7 })
    );
}

#[test]
fn one_word_line_is_read_whole() {
    assert!(parse_line(" add").is_err());
    assert!(parse_line("add ").is_err());
}

#[test]
fn parse_stops_at_first_bad_line() {
    let ok = parse(vec!["push constant 1", "push constant 2", "add"]).unwrap();
    assert_eq!(
        ok,
        vec![
            Command::Push(PushPop { segment: Segment::Constant, i: 1 }),
            Command::Push(PushPop { segment: Segment::Constant, i: 2 }),
            Command::Arithmetic(Arithmetic::Add),
        ]
    );
    match parse(vec!["add", "bogus", "push nowhere 1"]) {
        Err(TranslateError::InvalidCommand(s)) => assert_eq!(s, "bogus"),
        other => panic!("unexpected {:?}", other),
    }
    assert!(parse(vec![]).unwrap().is_empty());
}

#[test]
fn unicode_whitespace_separates_words() {
    assert_eq!(
        parse_line("push\u{a0}local\u{2003}3").unwrap(),
        Command::Push(PushPop { segment: Segment::Local, i: 3 })
    );
    match parse_line("push lócal 3") {
        Err(TranslateError::InvalidSegment(s)) => assert_eq!(s, "lócal"),
        other => panic!("unexpected {:?}", other),
    }
}
