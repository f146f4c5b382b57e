//! The controller of one traced child process: its life, where it stopped,
//! and the breakpoints patched into its code with the bytes they replaced.
use std::collections::HashMap;
use vstd::prelude::*;
use crate::patch::{
    align_addr_to_word, byte_of, lemma_byte_fits, lemma_splice_undone, lemma_spliced, splice_byte,
    spliced, word_offset, word_start, TRAP_BYTE, WORD_BYTES,
};
use crate::status::{Status, WaitEvent, SIGTRAP};

verus! {

broadcast use vstd::std_specs::hash::group_hash_axioms;

/// Why a controller operation did not happen.
#[derive(PartialEq, Eq, Structural, Clone, Copy, Debug)]
pub enum DebugError {
    /// The inferior has exited or was killed.
    NoProcess,
    /// No breakpoint is installed at the address.
    NotInstalled,
}

/// A word to write into the inferior's memory.
#[derive(PartialEq, Eq, Structural, Clone, Copy, Debug)]
pub struct Patch {
    /// The aligned address of the word.
    pub aligned_addr: usize,
    /// The word to write there.
    pub word: u64,
    /// The code byte that the breakpoint stands for.
    pub original: u8,
}

/// How to resume the inferior.
#[derive(PartialEq, Eq, Structural, Clone, Copy, Debug)]
pub enum Resume {
    /// Resume where it stands.
    Continue,
    /// Stopped on the breakpoint at this address: set the instruction pointer
    /// back to it, restore its byte, step one instruction, re-arm it, resume.
    StepOver(usize),
    /// Stopped on a breakpoint at this address that was cleared since: set
    /// the instruction pointer back to it and resume.
    Rewind(usize),
}

/// The address that a stop with this signal and instruction pointer stands
/// for: a trap lands one byte past the breakpoint that raised it.
pub open spec fn trap_site(signal: i32, ip: usize, shadow: Map<usize, u8>) -> usize {
    if signal == SIGTRAP && ip > 0 && shadow.contains_key((ip - 1) as usize) {
        (ip - 1) as usize
    } else {
        ip
    }
}

/// The breakpoint that raised this stop, if one did.
pub open spec fn stop_site(event: WaitEvent, shadow: Map<usize, u8>) -> Option<usize> {
    match event {
        WaitEvent::Stopped(signal, ip) => if trap_site(signal, ip, shadow) != ip {
            Some(trap_site(signal, ip, shadow))
        } else {
            None
        },
        _ => None,
    }
}

/// The status that a wait event decodes to; `None` for one outside the
/// model (a ptrace event stop, or any other report).
pub open spec fn status_for(event: WaitEvent, shadow: Map<usize, u8>) -> Option<Status> {
    match event {
        WaitEvent::Exited(code) => Some(Status::Exited(code)),
        WaitEvent::Signaled(signal) => Some(Status::Signaled(signal)),
        WaitEvent::Stopped(signal, ip) => Some(Status::Stopped(signal, trap_site(signal, ip, shadow))),
        _ => None,
    }
}

/// What `wait` returns on an event that the model covers.
pub open spec fn wait_result(live: bool, event: WaitEvent, shadow: Map<usize, u8>) -> Result<
    Status,
    DebugError,
>
    recommends
        event.spec_in_model(),
{
    if !live {
        Err(DebugError::NoProcess)
    } else {
        Ok(status_for(event, shadow).unwrap())
    }
}

/// Whether the inferior is alive after `wait`.
pub open spec fn live_after_wait(live: bool, event: WaitEvent, shadow: Map<usize, u8>) -> bool
    recommends
        event.spec_in_model(),
{
    match wait_result(live, event, shadow) {
        Ok(s) => !s.spec_is_terminal(),
        Err(_) => live,
    }
}

/// What `cont` returns.
pub open spec fn cont_result(live: bool, stopped_at: Option<usize>, shadow: Map<usize, u8>) -> Result<
    Resume,
    DebugError,
> {
    if !live {
        Err(DebugError::NoProcess)
    } else {
        match stopped_at {
            Some(a) => if shadow.contains_key(a) {
                Ok(Resume::StepOver(a))
            } else {
                Ok(Resume::Rewind(a))
            },
            None => Ok(Resume::Continue),
        }
    }
}

/// The patch that installs a breakpoint at `addr` in the aligned word
/// `word`; an address already installed keeps the byte first recorded.
pub open spec fn set_patch(shadow: Map<usize, u8>, addr: usize, word: u64) -> Patch {
    Patch {
        aligned_addr: word_start(addr) as usize,
        word: spliced(word, word_offset(addr), TRAP_BYTE),
        original: if shadow.contains_key(addr) {
            shadow[addr]
        } else {
            byte_of(word, word_offset(addr)) as u8
        },
    }
}

/// The recorded bytes after installing a breakpoint at `addr`.
pub open spec fn shadow_after_set(shadow: Map<usize, u8>, addr: usize, word: u64) -> Map<usize, u8> {
    if shadow.contains_key(addr) {
        shadow
    } else {
        shadow.insert(addr, byte_of(word, word_offset(addr)) as u8)
    }
}

/// What `set_breakpoint` returns.
pub open spec fn set_result(live: bool, shadow: Map<usize, u8>, addr: usize, word: u64) -> Result<
    Patch,
    DebugError,
> {
    if !live {
        Err(DebugError::NoProcess)
    } else {
        Ok(set_patch(shadow, addr, word))
    }
}

/// The patch that removes the breakpoint at `addr` from the aligned word
/// `word`.
pub open spec fn clear_patch(shadow: Map<usize, u8>, addr: usize, word: u64) -> Patch {
    Patch {
        aligned_addr: word_start(addr) as usize,
        word: spliced(word, word_offset(addr), shadow[addr]),
        original: shadow[addr],
    }
}

/// What `clear_breakpoint` returns.
pub open spec fn clear_result(live: bool, shadow: Map<usize, u8>, addr: usize, word: u64) -> Result<
    Patch,
    DebugError,
> {
    if !live {
        Err(DebugError::NoProcess)
    } else if !shadow.contains_key(addr) {
        Err(DebugError::NotInstalled)
    } else {
        Ok(clear_patch(shadow, addr, word))
    }
}

/// One traced child process, as its controller sees it.
pub struct Inferior {
    pid: i32,
    live: bool,
    stopped_at: Option<usize>,
    breakpoints: HashMap<usize, u8>,
}

impl Inferior {
    pub closed spec fn spec_pid(&self) -> i32 {
        self.pid
    }

    /// Whether the process is still there to be controlled.
    pub closed spec fn spec_live(&self) -> bool {
        self.live
    }

    /// The breakpoint that the process is stopped on, if any.
    pub closed spec fn spec_stopped_at(&self) -> Option<usize> {
        self.stopped_at
    }

    /// The installed breakpoints, each with the code byte it replaced.
    pub closed spec fn shadow(&self) -> Map<usize, u8> {
        self.breakpoints@
    }

    /// Takes control of a child that was spawned under trace, given the first
    /// wait event it reported: this must be the stop on the trap signal that
    /// precedes its first instruction.
    pub fn new(pid: i32, first: WaitEvent) -> (r: Option<Inferior>)
        ensures
            r is Some <==> (first matches WaitEvent::Stopped(signal, _) && signal == SIGTRAP),
            r matches Some(inf) ==> {
                &&& inf.spec_pid() == pid
                &&& inf.spec_live()
                &&& inf.spec_stopped_at() is None
                &&& inf.shadow() == Map::<usize, u8>::empty()
            },
    {
        match first {
            WaitEvent::Stopped(signal, _) => if signal == SIGTRAP {
                Some(Inferior { pid, live: true, stopped_at: None, breakpoints: HashMap::new() })
            } else {
                None
            },
            _ => None,
        }
    }

    /// The process id of the child.
    pub fn pid(&self) -> (r: i32)
        ensures
            r == self.spec_pid(),
    {
        self.pid
    }

    /// Whether the child is still there to be controlled.
    pub fn is_live(&self) -> (r: bool)
        ensures
            r == self.spec_live(),
    {
        self.live
    }

    /// Whether a breakpoint is installed at `addr`.
    pub fn has_breakpoint(&self, addr: usize) -> (r: bool)
        ensures
            r == self.shadow().contains_key(addr),
    {
        self.breakpoints.contains_key(&addr)
    }

    /// Takes in the next wait event of the child and returns its status; a
    /// trap raised by an installed breakpoint is reported at the
    /// breakpoint's own address. An event outside the status model cannot be
    /// interpreted safely: callers must stop rather than pass one in.
    pub fn wait(&mut self, event: WaitEvent) -> (r: Result<Status, DebugError>)
        requires
            event.spec_in_model(),
        ensures
            r == wait_result(old(self).spec_live(), event, old(self).shadow()),
            final(self).spec_live() == live_after_wait(
                old(self).spec_live(),
                event,
                old(self).shadow(),
            ),
            final(self).spec_stopped_at() == (if r is Ok {
                stop_site(event, old(self).shadow())
            } else {
                old(self).spec_stopped_at()
            }),
            final(self).shadow() == old(self).shadow(),
            final(self).spec_pid() == old(self).spec_pid(),
            old(self).spec_live() ==> r is Ok,
    {
        if !self.live {
            return Err(DebugError::NoProcess);
        }
        match event {
            WaitEvent::Exited(code) => {
                self.live = false;
                self.stopped_at = None;
                Ok(Status::Exited(code))
            },
            WaitEvent::Signaled(signal) => {
                self.live = false;
                self.stopped_at = None;
                Ok(Status::Signaled(signal))
            },
            WaitEvent::Stopped(signal, ip) => {
                let at = self.trap_address(signal, ip);
                self.stopped_at = if at != ip {
                    Some(at)
                } else {
                    None
                };
                Ok(Status::Stopped(signal, at))
            },
            _ => {
                proof {
                    assert(false);
                }
                Err(DebugError::NoProcess)
            },
        }
    }

    /// The address that a stop stands for: one byte back when a trap came
    /// from an installed breakpoint.
    pub fn trap_address(&self, signal: i32, ip: usize) -> (r: usize)
        ensures
            r == trap_site(signal, ip, self.shadow()),
    {
        if signal == SIGTRAP && ip > 0 && self.breakpoints.contains_key(&(ip - 1)) {
            ip - 1
        } else {
            ip
        }
    }

    /// Decides how to resume the child, which then runs until its next wait
    /// event.
    pub fn cont(&mut self) -> (r: Result<Resume, DebugError>)
        ensures
            r == cont_result(old(self).spec_live(), old(self).spec_stopped_at(), old(self).shadow()),
            final(self).spec_stopped_at() is None,
            final(self).spec_live() == old(self).spec_live(),
            final(self).shadow() == old(self).shadow(),
            final(self).spec_pid() == old(self).spec_pid(),
    {
        let stopped_at = self.stopped_at;
        self.stopped_at = None;
        if !self.live {
            return Err(DebugError::NoProcess);
        }
        let r = match stopped_at {
            Some(a) => if self.breakpoints.contains_key(&a) {
                Resume::StepOver(a)
            } else {
                Resume::Rewind(a)
            },
            None => Resume::Continue,
        };
        Ok(r)
    }

    /// Whom to signal to end the child: its pid, while it lives.
    pub fn kill(&self) -> (r: Result<i32, DebugError>)
        ensures
            r == (if self.spec_live() {
                Ok::<i32, DebugError>(self.spec_pid())
            } else {
                Err(DebugError::NoProcess)
            }),
    {
        if self.live {
            Ok(self.pid)
        } else {
            Err(DebugError::NoProcess)
        }
    }

    /// Installs a breakpoint at `addr`, given `word`, the aligned word of the
    /// child's memory that holds it: records the code byte there and returns
    /// the word to write back, with the trap byte in its place. An address
    /// already installed keeps the byte it first recorded.
    pub fn set_breakpoint(&mut self, addr: usize, word: u64) -> (r: Result<Patch, DebugError>)
        ensures
            r == set_result(old(self).spec_live(), old(self).shadow(), addr, word),
            final(self).shadow() == (if old(self).spec_live() {
                shadow_after_set(old(self).shadow(), addr, word)
            } else {
                old(self).shadow()
            }),
            final(self).spec_live() == old(self).spec_live(),
            final(self).spec_stopped_at() == old(self).spec_stopped_at(),
            final(self).spec_pid() == old(self).spec_pid(),
    {
        if !self.live {
            return Err(DebugError::NoProcess);
        }
        let aligned = align_addr_to_word(addr);
        let offset = addr - aligned;
        let (patched, found) = splice_byte(word, offset, TRAP_BYTE);
        let original = match self.breakpoints.get(&addr) {
            Some(b) => *b,
            None => {
                self.breakpoints.insert(addr, found);
                found
            },
        };
        Ok(Patch { aligned_addr: aligned, word: patched, original })
    }

    /// Removes the breakpoint at `addr`, given `word`, the aligned word of the
    /// child's memory that holds it: returns the word to write back, with
    /// the recorded code byte in place of the trap.
    pub fn clear_breakpoint(&mut self, addr: usize, word: u64) -> (r: Result<Patch, DebugError>)
        ensures
            r == clear_result(old(self).spec_live(), old(self).shadow(), addr, word),
            final(self).shadow() == (if r is Ok {
                old(self).shadow().remove(addr)
            } else {
                old(self).shadow()
            }),
            final(self).spec_live() == old(self).spec_live(),
            final(self).spec_stopped_at() == old(self).spec_stopped_at(),
            final(self).spec_pid() == old(self).spec_pid(),
    {
        if !self.live {
            return Err(DebugError::NoProcess);
        }
        let original = match self.breakpoints.remove(&addr) {
            Some(b) => b,
            None => {
                return Err(DebugError::NotInstalled);
            },
        };
        let aligned = align_addr_to_word(addr);
        let offset = addr - aligned;
        let (restored, _) = splice_byte(word, offset, original);
        Ok(Patch { aligned_addr: aligned, word: restored, original })
    }
}

/// A wait on a live inferior, on any event that the status model covers,
/// yields exactly one of the three statuses and no error; the events outside
/// the model are exactly those that decode to no status.
pub proof fn lemma_status_total(event: WaitEvent, shadow: Map<usize, u8>)
    ensures
        status_for(event, shadow) is Some <==> event.spec_in_model(),
        event.spec_in_model() ==> (wait_result(true, event, shadow) matches Ok(s) && (s is Stopped
            || s is Exited || s is Signaled)),
{
}

/// Once a wait reports that the child exited or was killed by a signal, the
/// controller is no longer live, and every later wait, resume or breakpoint
/// operation on it fails with `NoProcess`.
pub proof fn lemma_terminal_is_final(
    live: bool,
    event: WaitEvent,
    shadow: Map<usize, u8>,
    stopped_at: Option<usize>,
    later: WaitEvent,
    addr: usize,
    word: u64,
)
    requires
        event.spec_in_model(),
        wait_result(live, event, shadow) matches Ok(s) && s.spec_is_terminal(),
    ensures
        !live_after_wait(live, event, shadow),
        wait_result(false, later, shadow) == Err::<Status, DebugError>(DebugError::NoProcess),
        cont_result(false, stopped_at, shadow) == Err::<Resume, DebugError>(DebugError::NoProcess),
        set_result(false, shadow, addr, word) == Err::<Patch, DebugError>(DebugError::NoProcess),
        clear_result(false, shadow, addr, word) == Err::<Patch, DebugError>(DebugError::NoProcess),
{
}

/// Installing a breakpoint and then clearing it, on the word that the
/// installation wrote, gives back the word as it was before and leaves the
/// recorded bytes as they were.
pub proof fn lemma_breakpoint_round_trip(shadow: Map<usize, u8>, addr: usize, word: u64)
    requires
        !shadow.contains_key(addr),
    ensures
        ({
            let p = set_patch(shadow, addr, word);
            let installed = shadow_after_set(shadow, addr, word);
            &&& clear_result(true, installed, addr, p.word) == Ok::<Patch, DebugError>(
                Patch { aligned_addr: p.aligned_addr, word, original: p.original },
            )
            &&& installed.remove(addr) == shadow
            &&& p.original as u64 == byte_of(word, word_offset(addr))
        }),
{
    let k = word_offset(addr);
    lemma_byte_fits(word, k);
    let orig = byte_of(word, k) as u8;
    lemma_splice_undone(word, k, TRAP_BYTE, orig);
    let installed = shadow_after_set(shadow, addr, word);
    assert(installed.remove(addr) =~= shadow);
}

/// A breakpoint that the child stopped on is stepped over, and re-arming it
/// on the word that the step-over restored writes back the very word that
/// held the trap and records the same byte: it is installed again, and its
/// next trap is again reported at its own address.
pub proof fn lemma_breakpoint_rearmed(shadow: Map<usize, u8>, addr: usize, word: u64)
    requires
        shadow.contains_key(addr),
        byte_of(word, word_offset(addr)) == TRAP_BYTE as u64,
        addr < usize::MAX,
    ensures
        cont_result(true, Some(addr), shadow) == Ok::<Resume, DebugError>(Resume::StepOver(addr)),
        ({
            let restore = clear_patch(shadow, addr, word);
            let cleared = shadow.remove(addr);
            &&& clear_result(true, shadow, addr, word) == Ok::<Patch, DebugError>(restore)
            &&& set_result(true, cleared, addr, restore.word) == Ok::<Patch, DebugError>(
                Patch { aligned_addr: restore.aligned_addr, word, original: shadow[addr] },
            )
            &&& shadow_after_set(cleared, addr, restore.word) == shadow
        }),
        status_for(WaitEvent::Stopped(SIGTRAP, (addr + 1) as usize), shadow) == Some(
            Status::Stopped(SIGTRAP, addr),
        ),
{
    let k = word_offset(addr);
    let orig = shadow[addr];
    let restored = spliced(word, k, orig);
    lemma_spliced(word, k, orig);
    lemma_splice_undone(word, k, orig, TRAP_BYTE);
    let cleared = shadow.remove(addr);
    assert(byte_of(restored, k) == orig as u64);
    assert(cleared.insert(addr, orig) =~= shadow);
}

} // verus!
