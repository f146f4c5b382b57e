use deet::inferior::{DebugError, Inferior, Patch, Resume};
use deet::status::{Status, WaitEvent, SIGTRAP};

const SIGSEGV: i32 = 11;
const SIGKILL: i32 = 9;

fn started() -> Inferior {
    Inferior::new(4242, WaitEvent::Stopped(SIGTRAP, 0x401000)).expect("trap stop")
}

#[test]
fn first_event_must_be_the_trap_stop() {
    let inf = started();
    assert_eq!(inf.pid(), 4242);
    assert!(inf.is_live());
    assert!(Inferior::new(1, WaitEvent::Stopped(SIGSEGV, 0x401000)).is_none());
    assert!(Inferior::new(1, WaitEvent::Exited(0)).is_none());
    assert!(Inferior::new(1, WaitEvent::Other).is_none());
}

#[test]
fn run_without_breakpoints_to_exit() {
    let mut inf = started();
    assert_eq!(inf.cont(), Ok(Resume::Continue));
    assert_eq!(inf.wait(WaitEvent::Exited(0)), Ok(Status::Exited(0)));
    assert!(!inf.is_live());
}

#[test]
fn breakpoint_at_first_instruction_reports_its_address() {
    let mut inf = started();
    let word: u64 = 0x9090909090909055;
    let patch = inf.set_breakpoint(0x401000, word).unwrap();
    assert_eq!(patch, Patch { aligned_addr: 0x401000, word: 0x90909090909090cc, original: 0x55 });
    assert_eq!(inf.cont(), Ok(Resume::Continue));
    assert_eq!(inf.wait(WaitEvent::Stopped(SIGTRAP, 0x401001)), Ok(Status::Stopped(SIGTRAP, 0x401000)));
}

#[test]
fn unaligned_breakpoint_patches_its_byte() {
    let mut inf = started();
    let patch = inf.set_breakpoint(0x401133, 0x1122334455667788).unwrap();
    assert_eq!(patch, Patch { aligned_addr: 0x401130, word: 0x11223344cc667788, original: 0x55 });
    assert!(inf.has_breakpoint(0x401133));
    assert!(!inf.has_breakpoint(0x401130));
}

#[test]
fn set_then_clear_restores_the_word() {
    let mut inf = started();
    let word: u64 = 0x0123456789abcdef;
    let set = inf.set_breakpoint(0x401005, word).unwrap();
    let clear = inf.clear_breakpoint(0x401005, set.word).unwrap();
    assert_eq!(clear.word, word);
    assert_eq!(clear.aligned_addr, set.aligned_addr);
    assert!(!inf.has_breakpoint(0x401005));
}

#[test]
fn setting_twice_keeps_the_first_byte() {
    let mut inf = started();
    let first = inf.set_breakpoint(0x401000, 0x55).unwrap();
    let second = inf.set_breakpoint(0x401000, first.word).unwrap();
    assert_eq!(second.original, 0x55);
    assert_eq!(second.word, first.word);
    let clear = inf.clear_breakpoint(0x401000, second.word).unwrap();
    assert_eq!(clear.word, 0x55);
}

#[test]
fn clearing_an_unknown_breakpoint_fails() {
    let mut inf = started();
    assert_eq!(inf.clear_breakpoint(0x401000, 0), Err(DebugError::NotInstalled));
}

#[test]
fn breakpoint_in_a_loop_fires_every_pass() {
    let mut inf = started();
    let a: usize = 0x401136;
    let word: u64 = 0x1122334455667788;
    let trapped = inf.set_breakpoint(a, word).unwrap().word;
    assert_eq!(inf.cont(), Ok(Resume::Continue));
    for _ in 0..2 {
        assert_eq!(inf.wait(WaitEvent::Stopped(SIGTRAP, a + 1)), Ok(Status::Stopped(SIGTRAP, a)));
        assert_eq!(inf.cont(), Ok(Resume::StepOver(a)));
        let restore = inf.clear_breakpoint(a, trapped).unwrap();
        assert_eq!(restore.word, word);
        let rearm = inf.set_breakpoint(a, restore.word).unwrap();
        assert_eq!(rearm.word, trapped);
        assert!(inf.has_breakpoint(a));
    }
}

#[test]
fn cleared_breakpoint_under_the_child_rewinds() {
    let mut inf = started();
    let a: usize = 0x401136;
    let trapped = inf.set_breakpoint(a, 0).unwrap().word;
    inf.cont().unwrap();
    inf.wait(WaitEvent::Stopped(SIGTRAP, a + 1)).unwrap();
    inf.clear_breakpoint(a, trapped).unwrap();
    assert_eq!(inf.cont(), Ok(Resume::Rewind(a)));
}

#[test]
fn other_stops_are_not_moved() {
    let mut inf = started();
    inf.set_breakpoint(0x401000, 0).unwrap();
    assert_eq!(inf.wait(WaitEvent::Stopped(SIGSEGV, 0x401001)), Ok(Status::Stopped(SIGSEGV, 0x401001)));
    assert_eq!(inf.wait(WaitEvent::Stopped(SIGTRAP, 0x402000)), Ok(Status::Stopped(SIGTRAP, 0x402000)));
    assert_eq!(inf.cont(), Ok(Resume::Continue));
}

#[test]
fn exited_child_refuses_everything() {
    let mut inf = started();
    assert_eq!(inf.wait(WaitEvent::Exited(3)), Ok(Status::Exited(3)));
    assert_eq!(inf.cont(), Err(DebugError::NoProcess));
    assert_eq!(inf.set_breakpoint(0x401000, 0), Err(DebugError::NoProcess));
    assert_eq!(inf.clear_breakpoint(0x401000, 0), Err(DebugError::NoProcess));
    assert_eq!(inf.wait(WaitEvent::Exited(0)), Err(DebugError::NoProcess));
}

#[test]
fn signaled_child_is_gone() {
    let mut inf = started();
    assert_eq!(inf.wait(WaitEvent::Signaled(SIGKILL)), Ok(Status::Signaled(SIGKILL)));
    assert!(!inf.is_live());
    assert_eq!(inf.cont(), Err(DebugError::NoProcess));
}

#[test]
fn ptrace_event_stop_is_outside_the_model() {
    assert!(!WaitEvent::PtraceEvent(SIGTRAP, 6).in_model());
    assert!(!WaitEvent::Other.in_model());
    assert!(WaitEvent::Exited(0).in_model());
    assert!(WaitEvent::Signaled(SIGKILL).in_model());
    assert!(WaitEvent::Stopped(SIGTRAP, 0x401000).in_model());
    assert!(Inferior::new(1, WaitEvent::PtraceEvent(SIGTRAP, 6)).is_none());
}

#[test]
fn every_modelled_event_gives_a_status() {
    for event in [WaitEvent::Exited(1), WaitEvent::Signaled(SIGSEGV), WaitEvent::Stopped(SIGSEGV, 7)] {
        let mut inf = started();
        assert!(inf.wait(event).is_ok());
    }
}

#[test]
fn kill_names_the_pid_only_while_live() {
    let mut inf = started();
    assert_eq!(inf.kill(), Ok(4242));
    assert_eq!(inf.wait(WaitEvent::Signaled(SIGKILL)), Ok(Status::Signaled(SIGKILL)));
    assert_eq!(inf.kill(), Err(DebugError::NoProcess));
}

#[test]
fn status_terminal_kinds() {
    assert!(Status::Exited(0).is_terminal());
    assert!(Status::Signaled(SIGKILL).is_terminal());
    assert!(!Status::Stopped(SIGTRAP, 1).is_terminal());
}
