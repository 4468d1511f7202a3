use hack_vm_translator::text::{decimal, is_whitespace, parse_u16, same_text, IntErrorKind};

#[test]
fn decimal_prints_like_to_string() {
    for n in [0u32, 7, 9, 10, 42, 100, 65535, 65540, 4294967295] {
        assert_eq!(decimal(n), n.to_string());
    }
}

#[test]
fn parse_u16_agrees_with_std() {
    let cases = [
        "", "+", "-", "0", "7", "+7", "-7", "007", "65535", "65536", "99999x", "1x99999", "6553x",
        "65536x", "12 3", "٣", "+-1",
    ];
    for s in cases {
        let want = s.parse::<u16>();
        let got = parse_u16(s);
        match (want, got) {
            (Ok(a), Ok(b)) => assert_eq!(a, b, "{s:?}"),
            (Err(e), Err(k)) => {
                let kind = match e.kind() {
                    std::num::IntErrorKind::Empty => IntErrorKind::Empty,
                    std::num::IntErrorKind::InvalidDigit => IntErrorKind::InvalidDigit,
                    std::num::IntErrorKind::PosOverflow => IntErrorKind::PosOverflow,
                    _ => panic!("unexpected kind for {s:?}"),
                };
                assert_eq!(kind, k, "{s:?}");
            }
            (a, b) => panic!("{s:?}: std {a:?}, library {b:?}"),
        }
    }
}

#[test]
fn printed_numbers_parse_back() {
    for n in [0u16, 1, 9, 10, 255, 1000, 65535] {
        assert_eq!(parse_u16(&decimal(n as u32)), Ok(n));
    }
}

#[test]
fn whitespace_agrees_with_std() {
    for cp in 0u32..0x3100 {
        if let Some(c) = char::from_u32(cp) {
            assert_eq!(is_whitespace(c), c.is_whitespace(), "U+{cp:04X}");
        }
    }
}

#[test]
fn same_text_compares_contents() {
    assert!(same_text("push", "push"));
    assert!(!same_text("push", "pus"));
    assert!(!same_text("push", "pusH"));
    assert!(same_text("", ""));
}
