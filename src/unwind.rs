//! Frame-pointer stack unwinding, one frame at a time: the caller resolves
//! each instruction address through the symbol service and reads the two
//! saved words of each frame from the stopped child.
use vstd::prelude::*;

verus! {

/// Bytes from a frame's base to its saved return address.
pub const RETURN_SLOT_OFFSET: usize = 8;

/// One frame of a backtrace: its function and, where known, its source line.
pub struct Frame {
    pub function: String,
    pub line: Option<String>,
}

pub open spec fn line_view(line: Option<String>) -> Option<Seq<char>> {
    match line {
        Some(l) => Some(l@),
        None => None,
    }
}

impl View for Frame {
    type V = (Seq<char>, Option<Seq<char>>);

    open spec fn view(&self) -> (Seq<char>, Option<Seq<char>>) {
        (self.function@, line_view(self.line))
    }
}

/// Where the two saved words of a frame lie.
#[derive(PartialEq, Eq, Structural, Clone, Copy, Debug)]
pub struct FrameSlots {
    /// The saved return address: the next frame's instruction address.
    pub return_address: usize,
    /// The saved frame base: the next frame's base.
    pub saved_frame_base: usize,
}

/// The slots of the frame whose base is `frame_base`, if they are addressable.
pub open spec fn slots_of(frame_base: usize) -> Option<FrameSlots> {
    if frame_base + RETURN_SLOT_OFFSET <= usize::MAX {
        Some(
            FrameSlots {
                return_address: (frame_base + RETURN_SLOT_OFFSET) as usize,
                saved_frame_base: frame_base,
            },
        )
    } else {
        None
    }
}

/// The frames after visiting an address that resolved to `function`.
pub open spec fn visit_frames(
    frames: Seq<(Seq<char>, Option<Seq<char>>)>,
    function: Option<String>,
    line: Option<String>,
) -> Seq<(Seq<char>, Option<Seq<char>>)> {
    match function {
        Some(f) => frames.push((f@, line_view(line))),
        None => frames,
    }
}

/// Whether the walk ends on visiting an address that resolved to `function`
/// in the frame based at `frame_base`.
pub open spec fn visit_ends(function: Option<String>, entry: Seq<char>, frame_base: usize) -> bool {
    function is None || function.unwrap()@ == entry || slots_of(frame_base) is None
}

/// A walk up the call-frame chain of a stopped child.
pub struct Unwinder {
    ip: usize,
    frame_base: usize,
    done: bool,
    complete: bool,
    frames: Vec<Frame>,
}

impl Unwinder {
    /// The frames found so far, innermost first.
    pub closed spec fn spec_frames(&self) -> Seq<(Seq<char>, Option<Seq<char>>)> {
        self.frames@.map_values(|f: Frame| f@)
    }

    /// The instruction address of the frame to resolve next.
    pub closed spec fn spec_ip(&self) -> usize {
        self.ip
    }

    /// The base of the frame to resolve next.
    pub closed spec fn spec_frame_base(&self) -> usize {
        self.frame_base
    }

    /// Whether the walk has ended.
    pub closed spec fn spec_done(&self) -> bool {
        self.done
    }

    /// Whether the walk reached its end without a failed read.
    pub closed spec fn spec_complete(&self) -> bool {
        self.complete
    }

    /// Starts a walk from the registers of the stopped child.
    pub fn new(ip: usize, frame_base: usize) -> (r: Unwinder)
        ensures
            r.spec_ip() == ip,
            r.spec_frame_base() == frame_base,
            !r.spec_done(),
            r.spec_complete(),
            r.spec_frames() == Seq::<(Seq<char>, Option<Seq<char>>)>::empty(),
    {
        let r = Unwinder { ip, frame_base, done: false, complete: true, frames: Vec::new() };
        assert(r.frames@.map_values(|f: Frame| f@) =~= Seq::<(Seq<char>, Option<Seq<char>>)>::empty());
        r
    }

    /// The instruction address to resolve next, while the walk goes on.
    pub fn current(&self) -> (r: Option<usize>)
        ensures
            r == (if self.spec_done() {
                None
            } else {
                Some(self.spec_ip())
            }),
    {
        if self.done {
            None
        } else {
            Some(self.ip)
        }
    }

    /// Takes in what the symbol service knows of the current instruction
    /// address. An unknown function ends the walk. A known one becomes the
    /// next frame; the walk ends after the entry function, and otherwise
    /// returns where the saved words of the current frame lie, to be read
    /// and handed to `advance`.
    pub fn visit(&mut self, function: Option<String>, line: Option<String>, entry: &str) -> (r:
        Option<FrameSlots>)
        requires
            !old(self).spec_done(),
        ensures
            final(self).spec_frames() == visit_frames(old(self).spec_frames(), function, line),
            final(self).spec_done() == visit_ends(function, entry@, old(self).spec_frame_base()),
            final(self).spec_complete() == (old(self).spec_complete() && (function is None
                || function.unwrap()@ == entry@ || slots_of(old(self).spec_frame_base()) is Some)),
            r == (if final(self).spec_done() {
                None
            } else {
                slots_of(old(self).spec_frame_base())
            }),
            final(self).spec_ip() == old(self).spec_ip(),
            final(self).spec_frame_base() == old(self).spec_frame_base(),
    {
        let ghost before = self.spec_frames();
        match function {
            None => {
                self.done = true;
                None
            },
            Some(f) => {
                let at_entry = f == entry.to_owned();
                self.frames.push(Frame { function: f, line });
                assert(self.frames@.map_values(|x: Frame| x@) =~= before.push(
                    (function.unwrap()@, line_view(line)),
                ));
                if at_entry {
                    self.done = true;
                    None
                } else if self.frame_base > usize::MAX - RETURN_SLOT_OFFSET {
                    self.done = true;
                    self.complete = false;
                    None
                } else {
                    Some(
                        FrameSlots {
                            return_address: self.frame_base + RETURN_SLOT_OFFSET,
                            saved_frame_base: self.frame_base,
                        },
                    )
                }
            },
        }
    }

    /// Moves to the calling frame, given the two words read from the slots
    /// that `visit` returned. The stack grows down, so a caller's frame lies
    /// above its callee's: a saved frame base that does not lie above the
    /// current one is a broken chain, and ends the walk, marked incomplete.
    /// Every step that goes on raises the frame base, so every walk ends.
    pub fn advance(&mut self, return_address: u64, saved_frame_base: u64)
        requires
            !old(self).spec_done(),
        ensures
            final(self).spec_frames() == old(self).spec_frames(),
            final(self).spec_done() == (saved_frame_base as usize <= old(self).spec_frame_base()),
            final(self).spec_done() ==> !final(self).spec_complete(),
            !final(self).spec_done() ==> {
                &&& final(self).spec_ip() == return_address as usize
                &&& final(self).spec_frame_base() == saved_frame_base as usize
                &&& final(self).spec_frame_base() > old(self).spec_frame_base()
                &&& final(self).spec_complete() == old(self).spec_complete()
            },
    {
        let next = saved_frame_base as usize;
        if next <= self.frame_base {
            self.done = true;
            self.complete = false;
        } else {
            self.ip = return_address as usize;
            self.frame_base = next;
        }
    }

    /// Ends the walk after a failed read: what was found stays, marked
    /// incomplete.
    pub fn abort(&mut self)
        ensures
            final(self).spec_done(),
            !final(self).spec_complete(),
            final(self).spec_frames() == old(self).spec_frames(),
    {
        self.done = true;
        self.complete = false;
    }

    /// Whether the walk has ended.
    pub fn is_done(&self) -> (r: bool)
        ensures
            r == self.spec_done(),
    {
        self.done
    }

    /// Whether the walk reached its end without a failed read.
    pub fn is_complete(&self) -> (r: bool)
        ensures
            r == self.spec_complete(),
    {
        self.complete
    }

    /// The frames found, innermost first.
    pub fn into_frames(self) -> (r: Vec<Frame>)
        ensures
            r@.map_values(|f: Frame| f@) == self.spec_frames(),
    {
        self.frames
    }
}

/// A walk that starts inside the entry function yields exactly one frame,
/// that function's, and ends there.
pub proof fn lemma_entry_frame_ends_walk(
    function: Option<String>,
    line: Option<String>,
    entry: Seq<char>,
    frame_base: usize,
)
    requires
        function matches Some(f) && f@ == entry,
    ensures
        visit_ends(function, entry, frame_base),
        visit_frames(Seq::empty(), function, line).len() == 1,
        visit_frames(Seq::empty(), function, line)[0].0 == entry,
{
}

} // verus!
