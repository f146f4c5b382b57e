//! The breakpoints of a debugging session: set by address, kept across runs
//! and installed into every new child.
use vstd::prelude::*;
use vstd::string::StringSliceAdditionalSpecFns;
use crate::address::{address_of, breakpoint_address, without_star};

verus! {

/// Breakpoint addresses, each once, in the order they were first set.
pub struct BreakpointSet {
    addrs: Vec<usize>,
}

impl View for BreakpointSet {
    type V = Seq<usize>;

    closed spec fn view(&self) -> Seq<usize> {
        self.addrs@
    }
}

impl BreakpointSet {
    /// No address appears twice.
    pub closed spec fn wf(&self) -> bool {
        self.addrs@.no_duplicates()
    }

    /// An empty set.
    pub fn new() -> (r: BreakpointSet)
        ensures
            r.wf(),
            r@ == Seq::<usize>::empty(),
    {
        BreakpointSet { addrs: Vec::new() }
    }

    /// Whether `addr` is in the set.
    pub fn contains(&self, addr: usize) -> (r: bool)
        ensures
            r == self@.contains(addr),
    {
        let mut i: usize = 0;
        while i < self.addrs.len()
            invariant
                0 <= i <= self.addrs@.len(),
                forall|j: int| 0 <= j < i ==> self.addrs@[j] != addr,
            decreases self.addrs@.len() - i,
        {
            if self.addrs[i] == addr {
                return true;
            }
            i = i + 1;
        }
        false
    }

    /// Adds `addr` unless it is there already; says whether it was added.
    pub fn insert(&mut self, addr: usize) -> (added: bool)
        requires
            old(self).wf(),
        ensures
            final(self).wf(),
            added == !old(self)@.contains(addr),
            final(self)@ == (if added {
                old(self)@.push(addr)
            } else {
                old(self)@
            }),
    {
        if self.contains(addr) {
            false
        } else {
            self.addrs.push(addr);
            true
        }
    }

    /// Reads the argument of a `break` command and adds the address that it
    /// writes; `None`, with the set unchanged, when it writes none.
    pub fn add_from_argument(&mut self, arg: &str) -> (r: Option<usize>)
        requires
            old(self).wf(),
        ensures
            final(self).wf(),
            r == address_of(without_star(arg.spec_bytes())),
            final(self)@ == (match r {
                Some(a) => if old(self)@.contains(a) {
                    old(self)@
                } else {
                    old(self)@.push(a)
                },
                None => old(self)@,
            }),
    {
        let r = breakpoint_address(arg);
        if let Some(a) = r {
            self.insert(a);
        }
        r
    }

    /// The addresses, in the order they were set.
    pub fn addresses(&self) -> (r: &[usize])
        ensures
            r@ == self@,
    {
        self.addrs.as_slice()
    }

    /// The number of addresses.
    pub fn len(&self) -> (r: usize)
        ensures
            r == self@.len(),
    {
        self.addrs.len()
    }
}

} // verus!
