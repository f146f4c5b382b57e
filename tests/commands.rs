use deet::address::{breakpoint_address, parse_address};
use deet::command::DebuggerCommand;

#[test]
fn quit_words() {
    assert!(matches!(DebuggerCommand::from_tokens(&["q"]), Some(DebuggerCommand::Quit)));
    assert!(matches!(DebuggerCommand::from_tokens(&["quit"]), Some(DebuggerCommand::Quit)));
}

#[test]
fn run_keeps_each_argument() {
    match DebuggerCommand::from_tokens(&["run", "a", "bc"]) {
        Some(DebuggerCommand::Run(args)) => assert_eq!(args, vec!["a".to_string(), "bc".to_string()]),
        _ => panic!("expected run"),
    }
    match DebuggerCommand::from_tokens(&["r"]) {
        Some(DebuggerCommand::Run(args)) => assert!(args.is_empty()),
        _ => panic!("expected run"),
    }
}

#[test]
fn cont_and_backtrace_words() {
    for w in ["c", "cont", "continue"] {
        assert!(matches!(DebuggerCommand::from_tokens(&[w]), Some(DebuggerCommand::Cont)));
    }
    for w in ["bt", "back", "backtrace"] {
        assert!(matches!(DebuggerCommand::from_tokens(&[w]), Some(DebuggerCommand::Backtrace)));
    }
}

#[test]
fn break_joins_its_arguments() {
    match DebuggerCommand::from_tokens(&["break", "*0x401000"]) {
        Some(DebuggerCommand::Break(arg)) => assert_eq!(arg, "*0x401000"),
        _ => panic!("expected break"),
    }
    match DebuggerCommand::from_tokens(&["b", "x", "y", "z"]) {
        Some(DebuggerCommand::Break(arg)) => assert_eq!(arg, "x y z"),
        _ => panic!("expected break"),
    }
    match DebuggerCommand::from_tokens(&["brk"]) {
        Some(DebuggerCommand::Break(arg)) => assert_eq!(arg, ""),
        _ => panic!("expected break"),
    }
}

#[test]
fn unknown_word_is_refused() {
    assert!(DebuggerCommand::from_tokens(&["step"]).is_none());
    assert!(DebuggerCommand::from_tokens(&["Q"]).is_none());
}

#[test]
fn is_break_only_for_break() {
    assert!(DebuggerCommand::Break("*0x1".to_string()).is_break());
    assert!(!DebuggerCommand::Cont.is_break());
    assert!(!DebuggerCommand::Run(vec![]).is_break());
}

#[test]
fn address_with_and_without_prefix() {
    assert_eq!(parse_address("0x401000"), Some(0x401000));
    assert_eq!(parse_address("0X1f"), Some(0x1f));
    assert_eq!(parse_address("DeadBeef"), Some(0xdeadbeef));
    assert_eq!(parse_address("0"), Some(0));
}

#[test]
fn malformed_addresses_are_refused() {
    assert_eq!(parse_address(""), None);
    assert_eq!(parse_address("0x"), None);
    assert_eq!(parse_address("0xg1"), None);
    assert_eq!(parse_address("+ff"), None);
    assert_eq!(parse_address("12 34"), None);
    assert_eq!(parse_address("x10"), None);
}

#[test]
fn largest_address_and_overflow() {
    assert_eq!(parse_address("ffffffffffffffff"), Some(usize::MAX));
    assert_eq!(parse_address("0x10000000000000000"), None);
    assert_eq!(parse_address("00000000000000000000001"), Some(1));
}

#[test]
fn break_argument_with_star() {
    assert_eq!(breakpoint_address("*0x401136"), Some(0x401136));
    assert_eq!(breakpoint_address("0x401136"), Some(0x401136));
    assert_eq!(breakpoint_address("*"), None);
    assert_eq!(breakpoint_address("**1"), None);
}
