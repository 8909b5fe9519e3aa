//! An ordered pipeline of protocol calls sharing one deadline. The chain
//! yields one request at a time and advances only when the response to
//! the last emitted request has been observed.

use vstd::prelude::*;
use crate::strutil::str_eq;
use crate::types::DeadlineExceeded;

verus! {

/// One call of a chain: a qualified method name and its serialized
/// parameters.
#[derive(Debug)]
pub struct CommandEntry {
    pub method: String,
    pub params: String,
}

impl CommandEntry {
    pub fn new(method: String, params: String) -> (r: Self)
        ensures
            r.method@ == method@,
            r.params@ == params@,
    {
        CommandEntry { method, params }
    }
}

/// What a poll of a chain yields.
#[derive(Debug)]
pub enum ChainPoll {
    /// Emit this call now and wait for its response.
    Emit(CommandEntry),
    /// The last emitted call has not been answered yet.
    Pending,
    /// The shared deadline passed before the chain completed. Reported
    /// once; later polls yield `Done`.
    TimedOut(DeadlineExceeded),
    /// Every entry has been acknowledged, or the timeout was already
    /// reported.
    Done,
}

/// An ordered, deadline-bounded sequence of protocol calls.
#[derive(Debug)]
pub struct CommandChain {
    items: Vec<CommandEntry>,
    /// How many entries have been acknowledged by a matching response.
    cursor: usize,
    /// Whether entry `cursor` has been emitted but not yet acknowledged.
    outstanding: bool,
    /// The shared deadline, in milliseconds.
    deadline: u64,
    /// Whether the deadline has already been reported.
    timeout_reported: bool,
}

impl CommandChain {
    /// The entries of the chain, by view.
    pub closed spec fn entries(self) -> Seq<CommandEntry> {
        self.items@
    }

    /// How many entries a matching response has been observed for.
    pub closed spec fn acked(self) -> int {
        self.cursor as int
    }

    /// How many requests the chain has emitted.
    pub closed spec fn emitted(self) -> int {
        self.cursor as int + if self.outstanding { 1int } else { 0int }
    }

    pub closed spec fn deadline(self) -> u64 {
        self.deadline
    }

    pub closed spec fn timeout_reported(self) -> bool {
        self.timeout_reported
    }

    /// A chain never runs ahead of its acknowledgements: at most one
    /// request beyond the last acknowledged one is ever out, and the
    /// cursor stays inside the entry list.
    pub closed spec fn wf(self) -> bool {
        self.cursor <= self.items.len() && (self.outstanding ==> self.cursor < self.items.len())
    }

    /// Build a chain over `items`; the shared deadline is
    /// `now + per_command_timeout` for each entry.
    pub fn new(items: Vec<CommandEntry>, now: u64, per_command_timeout: u64) -> (r: Self)
        requires
            now + per_command_timeout * items@.len() <= u64::MAX,
        ensures
            r.wf(),
            r.entries() == items@,
            r.acked() == 0,
            r.emitted() == 0,
            !r.timeout_reported(),
            r.deadline() == now + per_command_timeout * items@.len(),
    {
        let n = items.len() as u64;
        proof {
            assert(per_command_timeout * n == per_command_timeout * items@.len());
        }
        let deadline = now + per_command_timeout * n;
        CommandChain { items, cursor: 0, outstanding: false, deadline, timeout_reported: false }
    }

    /// One step of the chain. An entry is emitted only when every earlier
    /// entry has been acknowledged and no request is out; the deadline is
    /// reported exactly once.
    pub fn poll(&mut self, now: u64) -> (r: ChainPoll)
        requires
            old(self).wf(),
        ensures
            final(self).wf(),
            final(self).entries() == old(self).entries(),
            final(self).acked() == old(self).acked(),
            final(self).deadline() == old(self).deadline(),
            r matches ChainPoll::Emit(e) ==> {
                &&& !old(self).timeout_reported()
                &&& old(self).emitted() == old(self).acked()
                &&& old(self).acked() < old(self).entries().len()
                &&& now < old(self).deadline()
                &&& e.method@ == old(self).entries()[old(self).acked()].method@
                &&& e.params@ == old(self).entries()[old(self).acked()].params@
                &&& final(self).emitted() == old(self).emitted() + 1
                &&& !final(self).timeout_reported()
            },
            (r is Pending) ==> {
                &&& old(self).emitted() == old(self).acked() + 1
                &&& now < old(self).deadline()
                &&& !old(self).timeout_reported()
                &&& *final(self) == *old(self)
            },
            r matches ChainPoll::TimedOut(d) ==> {
                &&& now >= old(self).deadline()
                &&& !old(self).timeout_reported()
                &&& old(self).acked() < old(self).entries().len()
                &&& d.now == now && d.deadline == old(self).deadline()
                &&& final(self).timeout_reported()
                &&& final(self).emitted() == old(self).emitted()
            },
            (r is Done) ==> {
                &&& old(self).acked() == old(self).entries().len() || old(
                    self,
                ).timeout_reported()
                &&& *final(self) == *old(self)
            },
    {
        if self.cursor >= self.items.len() {
            return ChainPoll::Done;
        }
        if self.timeout_reported {
            return ChainPoll::Done;
        }
        if now >= self.deadline {
            self.timeout_reported = true;
            return ChainPoll::TimedOut(DeadlineExceeded { now, deadline: self.deadline });
        }
        if self.outstanding {
            return ChainPoll::Pending;
        }
        let entry = &self.items[self.cursor];
        let emit = CommandEntry { method: entry.method.clone(), params: entry.params.clone() };
        self.outstanding = true;
        ChainPoll::Emit(emit)
    }

    /// A response whose method matches the outstanding entry acknowledges
    /// it; any other method leaves the chain unchanged.
    pub fn received_response(&mut self, method: &str) -> (advanced: bool)
        requires
            old(self).wf(),
        ensures
            final(self).wf(),
            final(self).entries() == old(self).entries(),
            final(self).deadline() == old(self).deadline(),
            final(self).timeout_reported() == old(self).timeout_reported(),
            advanced == (old(self).emitted() == old(self).acked() + 1 && method@ == old(
                self,
            ).entries()[old(self).acked()].method@),
            advanced ==> {
                &&& final(self).acked() == old(self).acked() + 1
                &&& final(self).emitted() == old(self).acked() + 1
            },
            !advanced ==> *final(self) == *old(self),
    {
        if self.outstanding && str_eq(method, self.items[self.cursor].method.as_str()) {
            self.cursor = self.cursor + 1;
            self.outstanding = false;
            true
        } else {
            false
        }
    }

    /// Whether every entry of the chain has been acknowledged.
    pub fn is_complete(&self) -> (r: bool)
        requires
            self.wf(),
        ensures
            r == (self.acked() == self.entries().len()),
    {
        self.cursor >= self.items.len()
    }
}

/// A chain never has more than one request out beyond its
/// acknowledgements: the (k+1)-th request cannot be emitted before the
/// k-th response was observed.
pub proof fn lemma_chain_bounded_ahead(c: CommandChain)
    requires
        c.wf(),
    ensures
        c.acked() <= c.emitted() <= c.acked() + 1,
        c.emitted() <= c.entries().len(),
{
}

} // verus!
