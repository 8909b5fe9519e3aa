//! The event loop's state: the transport's owner, the call-id
//! allocator, the table of pending calls, and the set of targets.

use vstd::prelude::*;
use crate::emulation::Viewport;
use crate::frame::{NavigationError, NavigationId, NavigationOk};
use crate::strutil::str_eq;
use crate::target::{
    Target, TargetEvent, TargetInfo, TargetMessage, WaiterId,
};
use crate::types::{
    CallId, CdpError, CdpEvent, DeadlineExceeded, Error, MethodCall, Response, SessionId,
};
use vstd::string::StringExecFns;

verus! {

/// Who a pending call answers to.
#[derive(Debug, Copy, Clone, PartialEq, Eq, Structural)]
pub enum CallOrigin {
    /// A caller's reply channel.
    User(WaiterId),
    /// An initialization chain call; the owning target is told.
    Internal,
    /// A navigation request; its outcome is keyed by the navigation id.
    Navigation(NavigationId),
}

/// One pending call: the waiter parked under a call id.
#[derive(Debug)]
pub struct CallEntry {
    pub id: usize,
    pub origin: CallOrigin,
    /// The target the call belongs to, when it belongs to one.
    pub target_id: Option<String>,
    pub method: String,
    /// When the call gives up, in milliseconds.
    pub deadline: u64,
}

/// The mathematical image of a pending call.
pub ghost struct CallEntryView {
    pub id: int,
    pub origin: CallOrigin,
    pub target_id: Option<Seq<char>>,
    pub method: Seq<char>,
    pub deadline: u64,
}

impl View for CallEntry {
    type V = CallEntryView;

    open spec fn view(&self) -> CallEntryView {
        CallEntryView {
            id: self.id as int,
            origin: self.origin,
            target_id: match self.target_id {
                Some(t) => Some(t@),
                None => None,
            },
            method: self.method@,
            deadline: self.deadline,
        }
    }
}

/// Index of the entry with the given call id, `-1` when there is none.
pub open spec fn call_idx(calls: Seq<CallEntryView>, id: int) -> int
    decreases calls.len(),
{
    if calls.len() == 0 {
        -1
    } else if calls[0].id == id {
        0
    } else {
        let rest = call_idx(calls.drop_first(), id);
        if rest == -1 {
            -1
        } else {
            rest + 1
        }
    }
}

pub proof fn lemma_call_idx_located(calls: Seq<CallEntryView>, id: int, i: int)
    requires
        0 <= i <= calls.len(),
        forall|k: int| 0 <= k < i ==> calls[k].id != id,
        i == calls.len() || calls[i].id == id,
    ensures
        call_idx(calls, id) == if i == calls.len() { -1int } else { i },
    decreases i,
{
    if calls.len() > 0 && i > 0 {
        lemma_call_idx_located(calls.drop_first(), id, i - 1);
    }
}

pub proof fn lemma_call_idx_props(calls: Seq<CallEntryView>, id: int)
    ensures
        -1 <= call_idx(calls, id) < calls.len(),
        call_idx(calls, id) >= 0 ==> calls[call_idx(calls, id)].id == id,
        call_idx(calls, id) == -1 ==> forall|k: int| 0 <= k < calls.len() ==> calls[k].id != id,
    decreases calls.len(),
{
    if calls.len() > 0 && calls[0].id != id {
        lemma_call_idx_props(calls.drop_first(), id);
        assert forall|k: int|
            call_idx(calls, id) == -1 && 0 <= k < calls.len() implies calls[k].id != id by {
            if k > 0 {
                assert(calls.drop_first()[k - 1] == calls[k]);
            }
        }
    }
}

/// The call table after the entry for `id` was taken, if one was there.
pub open spec fn table_without(calls: Seq<CallEntryView>, id: int) -> Seq<CallEntryView> {
    if call_idx(calls, id) >= 0 {
        calls.remove(call_idx(calls, id))
    } else {
        calls
    }
}

/// Law: taking a call id out of the table twice is the same as taking
/// it once — removal is idempotent, and a dropped or duplicated
/// response can never corrupt the table.
pub proof fn lemma_removal_idempotent(calls: Seq<CallEntryView>, id: int)
    requires
        forall|i: int, j: int| 0 <= i < j < calls.len() ==> calls[i].id != calls[j].id,
    ensures
        table_without(table_without(calls, id), id) == table_without(calls, id),
{
    lemma_call_idx_props(calls, id);
    let idx = call_idx(calls, id);
    if idx >= 0 {
        let removed = calls.remove(idx);
        assert forall|k: int| 0 <= k < removed.len() implies removed[k].id != id by {
            if k < idx {
                assert(removed[k] == calls[k]);
            } else {
                assert(removed[k] == calls[k + 1]);
            }
        }
        lemma_call_idx_none(removed, id);
    }
}

/// Law: once the entry for a call id has been taken, no entry with that
/// id remains — a response is delivered to at most one waiter, and a
/// second response with the same id finds nothing.
pub proof fn lemma_delivery_at_most_once(calls: Seq<CallEntryView>, id: int)
    requires
        forall|i: int, j: int| 0 <= i < j < calls.len() ==> calls[i].id != calls[j].id,
        call_idx(calls, id) >= 0,
    ensures
        call_idx(calls.remove(call_idx(calls, id)), id) == -1,
{
    lemma_call_idx_props(calls, id);
    let idx = call_idx(calls, id);
    let removed = calls.remove(idx);
    assert forall|k: int| 0 <= k < removed.len() implies removed[k].id != id by {
        if k < idx {
            assert(removed[k] == calls[k]);
        } else {
            assert(removed[k] == calls[k + 1]);
        }
    }
    lemma_call_idx_none(removed, id);
}

proof fn lemma_call_idx_none(calls: Seq<CallEntryView>, id: int)
    requires
        forall|k: int| 0 <= k < calls.len() ==> calls[k].id != id,
    ensures
        call_idx(calls, id) == -1,
    decreases calls.len(),
{
    if calls.len() > 0 {
        assert forall|k: int| 0 <= k < calls.drop_first().len() implies calls.drop_first()[k].id
            != id by {
            assert(calls.drop_first()[k] == calls[k + 1]);
        }
        lemma_call_idx_none(calls.drop_first(), id);
    }
}

/// What a response amounts to for the caller: the result payload, or
/// the browser's error.
pub type CommandOutcome = Result<Option<String>, Error>;

/// The target a session was registered for: the first matching entry,
/// or nothing.
pub open spec fn session_lookup(
    sessions: Seq<(Seq<char>, Seq<char>)>,
    s: Seq<char>,
) -> Option<Seq<char>>
    decreases sessions.len(),
{
    if sessions.len() == 0 {
        None
    } else if sessions[0].0 == s {
        Some(sessions[0].1)
    } else {
        session_lookup(sessions.drop_first(), s)
    }
}

pub proof fn lemma_session_lookup_located(
    sessions: Seq<(Seq<char>, Seq<char>)>,
    s: Seq<char>,
    i: int,
)
    requires
        0 <= i <= sessions.len(),
        forall|k: int| 0 <= k < i ==> (#[trigger] sessions[k]).0 != s,
        i == sessions.len() || sessions[i].0 == s,
    ensures
        session_lookup(sessions, s) == if i == sessions.len() {
            None::<Seq<char>>
        } else {
            Some(sessions[i].1)
        },
    decreases i,
{
    if sessions.len() > 0 && i > 0 {
        lemma_session_lookup_located(sessions.drop_first(), s, i - 1);
    }
}

/// The pending calls whose deadline has not yet passed, in order.
pub open spec fn live_calls(calls: Seq<CallEntryView>, now: u64) -> Seq<CallEntryView>
    decreases calls.len(),
{
    if calls.len() == 0 {
        Seq::empty()
    } else {
        let rest = live_calls(calls.drop_first(), now);
        if calls[0].deadline > now {
            seq![calls[0]] + rest
        } else {
            rest
        }
    }
}

/// The failures owed when the calls whose deadline passed are swept:
/// one per expired waiter, in table order.
pub open spec fn expiry_actions(calls: Seq<CallEntryView>, now: u64) -> Seq<HandlerAction>
    decreases calls.len(),
{
    if calls.len() == 0 {
        Seq::empty()
    } else {
        let rest = expiry_actions(calls.drop_first(), now);
        if calls[0].deadline <= now {
            match calls[0].origin {
                CallOrigin::User(w) => seq![
                    HandlerAction::Fail(
                        w,
                        CdpError::DeadlineExceeded(
                            DeadlineExceeded { now, deadline: calls[0].deadline },
                        ),
                    ),
                ] + rest,
                CallOrigin::Navigation(n) => seq![
                    HandlerAction::NavigationFinished(
                        Err(
                            NavigationError::Timeout {
                                id: n,
                                deadline: DeadlineExceeded { now, deadline: calls[0].deadline },
                            },
                        ),
                    ),
                ] + rest,
                CallOrigin::Internal => rest,
            }
        } else {
            rest
        }
    }
}

/// The waiters a target still holds: inbox waiters, parked navigation
/// waiters, and the page's creator.
pub open spec fn pending_waiters_of(t: Target) -> Seq<WaiterId> {
    t.incoming_v().map_values(|m: TargetMessage| crate::target::waiter_of(m)) + t.parked() + (
    match t.initiator_v() {
        Some(w) => seq![w],
        None => Seq::<WaiterId>::empty(),
    })
}

/// The failures owed to targets' own waiters when the transport
/// closes, target by target in order.
pub open spec fn targets_close_actions(targets: Seq<Target>) -> Seq<HandlerAction>
    decreases targets.len(),
{
    if targets.len() == 0 {
        Seq::empty()
    } else {
        pending_waiters_of(targets[0]).map_values(
            |w: WaiterId| HandlerAction::Fail(w, CdpError::TransportClosed),
        ) + targets_close_actions(targets.drop_first())
    }
}

/// The failures owed when the transport closes: every pending waiter
/// fails with a transport-closed error, exactly once, in table order.
pub open spec fn close_actions(calls: Seq<CallEntryView>) -> Seq<HandlerAction>
    decreases calls.len(),
{
    if calls.len() == 0 {
        Seq::empty()
    } else {
        let rest = close_actions(calls.drop_first());
        match calls[0].origin {
            CallOrigin::User(w) => seq![HandlerAction::Fail(w, CdpError::TransportClosed)] + rest,
            CallOrigin::Navigation(n) => seq![
                HandlerAction::NavigationFinished(
                    Err(NavigationError::TransportClosed { id: n }),
                ),
            ] + rest,
            CallOrigin::Internal => rest,
        }
    }
}

/// What the handler tells its embedding to do.
#[derive(Debug)]
pub enum HandlerAction {
    /// Write this call to the transport, under this session envelope.
    Send(MethodCall, Option<String>),
    /// Resolve a caller's reply channel with the call's outcome.
    Deliver(WaiterId, CommandOutcome),
    /// Fail a caller's reply channel.
    Fail(WaiterId, CdpError),
    /// Resolve a navigation watcher.
    NavigationFinished(Result<NavigationOk, NavigationError>),
    /// Hand the main frame back to its asker.
    MainFrame(WaiterId, Option<String>),
    /// Hand the page url back to its asker.
    Url(WaiterId, Option<String>),
    /// Resolve a navigation waiter with the loaded url.
    FrameLoaded(WaiterId, Result<String, CdpError>),
    /// Tell the page's creator that it is ready.
    PageReady(WaiterId),
}

/// How the handler is configured.
#[derive(Debug, Copy, Clone, PartialEq, Eq, Structural)]
pub struct HandlerConfig {
    /// Default per-call timeout, in milliseconds.
    pub request_timeout: u64,
    pub viewport: Viewport,
    pub ignore_https_errors: bool,
    pub request_intercept: bool,
    pub cache_enabled: bool,
    pub wait_for_initial_page: bool,
}

impl Default for HandlerConfig {
    /// The defaults: a thirty-second timeout and the default viewport.
    fn default() -> (r: Self)
        ensures
            r.request_timeout == 30000,
            r.viewport == (Viewport {
                width: 800u32,
                height: 600u32,
                device_scale_factor_hundredths: 100u32,
                mobile: false,
                has_touch: false,
            }),
    {
        HandlerConfig {
            request_timeout: 30000,
            viewport: Viewport::default(),
            ignore_https_errors: false,
            request_intercept: false,
            cache_enabled: true,
            wait_for_initial_page: true,
        }
    }
}

/// Owns the transport end of the protocol: allocates call ids, parks
/// waiters, demuxes responses, routes events, and drives every target.
#[derive(Debug)]
pub struct Handler {
    next_id: usize,
    calls: Vec<CallEntry>,
    targets: Vec<Target>,
    /// Session id to target id.
    session_map: Vec<(String, String)>,
    closed: bool,
    config: HandlerConfig,
}

impl Handler {
    /// The pending calls, by view.
    pub closed spec fn calls(self) -> Seq<CallEntryView> {
        self.calls@.map_values(|c: CallEntry| c@)
    }

    /// The next call id to be allocated. Ids below it are spent.
    pub closed spec fn next(self) -> int {
        self.next_id as int
    }

    pub closed spec fn is_closed_v(self) -> bool {
        self.closed
    }

    pub closed spec fn config_v(self) -> HandlerConfig {
        self.config
    }

    pub closed spec fn targets_v(self) -> Seq<Target> {
        self.targets@
    }

    pub closed spec fn sessions_v(self) -> Seq<(Seq<char>, Seq<char>)> {
        self.session_map@.map_values(|p: (String, String)| (p.0@, p.1@))
    }

    /// Call ids are unique and below the allocator's next id; targets
    /// are well formed.
    pub closed spec fn wf(self) -> bool {
        &&& (forall|i: int, j: int|
            0 <= i < j < self.calls().len() ==> self.calls()[i].id != self.calls()[j].id)
        &&& (forall|i: int| 0 <= i < self.calls().len() ==> (#[trigger] self.calls()[i]).id < self.next())
        &&& (forall|i: int|
            0 <= i < self.targets@.len() ==> (#[trigger] self.targets@[i]).wf()
                && self.targets@[i].cmd_timeout() == self.config.request_timeout)
        &&& (forall|i: int, j: int|
            0 <= i < j < self.targets@.len() ==> (#[trigger] self.targets@[i]).tid() != (
            #[trigger] self.targets@[j]).tid())
    }

    pub fn new(config: HandlerConfig) -> (r: Self)
        ensures
            r.wf(),
            r.next() == 0,
            r.calls() == Seq::<CallEntryView>::empty(),
            !r.is_closed_v(),
            r.config_v() == config,
            r.targets_v() == Seq::<Target>::empty(),
    {
        let r = Handler {
            next_id: 0,
            calls: Vec::new(),
            targets: Vec::new(),
            session_map: Vec::new(),
            closed: false,
            config,
        };
        proof {
            assert(r.calls() =~= Seq::<CallEntryView>::empty());
        }
        r
    }

    /// Allocate the next call id and park the caller under it. The id
    /// in the framed call equals the id recorded for the waiter.
    pub fn dispatch(
        &mut self,
        method: String,
        params: String,
        session: Option<String>,
        target_id: Option<String>,
        origin: CallOrigin,
        now: u64,
    ) -> (r: (CallId, MethodCall, Option<String>))
        requires
            old(self).wf(),
            old(self).next() < usize::MAX,
            now + old(self).config_v().request_timeout <= u64::MAX,
        ensures
            final(self).wf(),
            r.0.0 == old(self).next(),
            final(self).next() == old(self).next() + 1,
            final(self).calls() == old(self).calls().push(
                CallEntryView {
                    id: old(self).next(),
                    origin,
                    target_id: match target_id {
                        Some(t) => Some(t@),
                        None => None,
                    },
                    method: method@,
                    deadline: (now + old(self).config_v().request_timeout) as u64,
                },
            ),
            r.1.id == r.0,
            r.1.method@ == method@,
            r.1.params@ == params@,
            (match session {
                Some(s) => r.2 matches Some(s2) && s2@ == s@,
                None => r.2 is None,
            }),
            final(self).is_closed_v() == old(self).is_closed_v(),
            final(self).config_v() == old(self).config_v(),
            final(self).targets_v() == old(self).targets_v(),
            final(self).sessions_v() == old(self).sessions_v(),
    {
        let id = CallId::new(self.next_id);
        self.next_id = self.next_id + 1;
        let deadline = now + self.config.request_timeout;
        let entry = CallEntry {
            id: id.0,
            origin,
            target_id,
            method: method.clone(),
            deadline,
        };
        self.calls.push(entry);
        proof {
            assert(self.calls() =~= old(self).calls().push(
                self.calls@[self.calls@.len() - 1]@,
            ));
        }
        let mc = MethodCall { id, method, params };
        (id, mc, session)
    }

    /// Position of the pending call with this id.
    fn call_position(&self, id: usize) -> (r: Option<usize>)
        ensures
            match r {
                Some(i) => i == call_idx(self.calls(), id as int) && i < self.calls().len(),
                None => call_idx(self.calls(), id as int) == -1,
            },
    {
        let n = self.calls.len();
        let mut i: usize = 0;
        while i < n
            invariant
                i <= n,
                n == self.calls.len(),
                forall|k: int| 0 <= k < i ==> self.calls()[k].id != id as int,
            decreases n - i,
        {
            if self.calls[i].id == id {
                proof {
                    lemma_call_idx_located(self.calls(), id as int, i as int);
                }
                return Some(i);
            }
            i = i + 1;
        }
        proof {
            lemma_call_idx_located(self.calls(), id as int, n as int);
        }
        None
    }

    /// Demultiplex one response: the entry parked under its id is
    /// taken out — exactly once, a repeated id finds nothing and is
    /// dropped — the owning target is told, and a user waiter gets the
    /// outcome whose id was assigned to it at dispatch.
    pub fn on_response(&mut self, resp: &Response) -> (r: Option<HandlerAction>)
        requires
            old(self).wf(),
        ensures
            final(self).wf(),
            final(self).next() == old(self).next(),
            final(self).is_closed_v() == old(self).is_closed_v(),
            final(self).config_v() == old(self).config_v(),
            final(self).sessions_v() == old(self).sessions_v(),
            final(self).calls() == table_without(old(self).calls(), resp.id.0 as int),
            final(self).targets_v().len() == old(self).targets_v().len(),
            ({
                let idx = call_idx(old(self).calls(), resp.id.0 as int);
                if idx >= 0 {
                    match old(self).calls()[idx].origin {
                        CallOrigin::User(w) => r matches Some(HandlerAction::Deliver(w2, outcome))
                            && w2 == w && (match resp.error {
                            Some(err) => outcome matches Err(e2) && e2.code == err.code
                                && e2.message@ == err.message@,
                            None => outcome matches Ok(res) && (match resp.result {
                                Some(s) => res matches Some(s2) && s2@ == s@,
                                None => res is None,
                            }),
                        }),
                        CallOrigin::Internal => r is None,
                        CallOrigin::Navigation(_) => r is None,
                    }
                } else {
                    r is None
                }
            }),
    {
        let entry = match self.take_call(resp.id.0) {
            Some(e) => e,
            None => {
                return None;
            },
        };
        match &entry.target_id {
            Some(tid) => {
                let tid: String = tid.clone();
                match self.target_position(tid.as_str()) {
                    Some(j) => {
                        let t = &mut self.targets[j];
                        t.on_response(resp, entry.method.as_str());
                        proof {
                            assert forall|k: int|
                                0 <= k < self.targets@.len() implies (
                            #[trigger] self.targets@[k]).wf() && self.targets@[k].cmd_timeout()
                                == self.config.request_timeout by {
                                if k != j {
                                    assert(self.targets@[k] == old(self).targets_v()[k]);
                                }
                            }
                        }
                    },
                    None => {},
                }
            },
            None => {},
        }
        match entry.origin {
            CallOrigin::User(w) => {
                let outcome: CommandOutcome = match &resp.error {
                    Some(err) => Err(Error { code: err.code, message: err.message.clone() }),
                    None => Ok(
                        match &resp.result {
                            Some(s) => Some(s.clone()),
                            None => None,
                        },
                    ),
                };
                Some(HandlerAction::Deliver(w, outcome))
            },
            CallOrigin::Internal => None,
            CallOrigin::Navigation(_) => None,
        }
    }

    /// Position of the target with this id.
    fn target_position(&self, tid: &str) -> (r: Option<usize>)
        ensures
            match r {
                Some(i) => i < self.targets_v().len() && self.targets_v()[i as int].tid() == tid@,
                None => forall|k: int|
                    0 <= k < self.targets_v().len() ==> (#[trigger] self.targets_v()[k]).tid()
                        != tid@,
            },
    {
        let n = self.targets.len();
        let mut i: usize = 0;
        while i < n
            invariant
                i <= n,
                n == self.targets.len(),
                forall|k: int| 0 <= k < i ==> (#[trigger] self.targets_v()[k]).tid() != tid@,
            decreases n - i,
        {
            if str_eq(self.targets[i].target_id().as_str(), tid) {
                return Some(i);
            }
            i = i + 1;
        }
        None
    }

    /// A borrowed view of a target, for inspection.
    pub fn find_target(&self, tid: &str) -> (r: Option<&Target>)
        ensures
            match r {
                Some(t) => t.tid() == tid@ && self.targets_v().contains(*t),
                None => forall|k: int|
                    0 <= k < self.targets_v().len() ==> (#[trigger] self.targets_v()[k]).tid()
                        != tid@,
            },
    {
        match self.target_position(tid) {
            Some(i) => {
                let t = &self.targets[i];
                proof {
                    assert(self.targets_v().contains(self.targets_v()[i as int]));
                }
                Some(t)
            },
            None => None,
        }
    }

    /// Feed a page handle's message to its target.
    pub fn send_target_message(&mut self, tid: &str, msg: TargetMessage) -> (ok: bool)
        requires
            old(self).wf(),
        ensures
            final(self).wf(),
            final(self).next() == old(self).next(),
            final(self).calls() == old(self).calls(),
            final(self).is_closed_v() == old(self).is_closed_v(),
            final(self).config_v() == old(self).config_v(),
            final(self).sessions_v() == old(self).sessions_v(),
            final(self).targets_v().len() == old(self).targets_v().len(),
            ok == exists|k: int|
                0 <= k < old(self).targets_v().len() && (#[trigger] old(
                    self,
                ).targets_v()[k]).tid() == tid@,
            ok ==> exists|j: int|
                {
                    &&& 0 <= j < old(self).targets_v().len()
                    &&& (#[trigger] old(self).targets_v()[j]).tid() == tid@
                    &&& final(self).targets_v()[j].incoming_v()
                        == old(self).targets_v()[j].incoming_v().push(msg)
                    &&& (forall|k: int|
                        0 <= k < old(self).targets_v().len() && k != j
                            ==> final(self).targets_v()[k] == (#[trigger] old(
                            self,
                        ).targets_v()[k]))
                },
            !ok ==> final(self).targets_v() == old(self).targets_v(),
    {
        match self.target_position(tid) {
            Some(j) => {
                self.targets[j].push_message(msg);
                proof {
                    assert(old(self).targets_v()[j as int].tid() == tid@);
                    assert forall|k: int|
                        0 <= k < self.targets@.len() implies (#[trigger] self.targets@[k]).wf()
                            && self.targets@[k].cmd_timeout() == self.config.request_timeout by {
                        if k != j {
                            assert(self.targets@[k] == old(self).targets_v()[k]);
                        }
                    }
                }
                true
            },
            None => false,
        }
    }

    /// Route one inbound event: attach responses register sessions,
    /// created targets join the set, destroyed ones are closed, and
    /// session-scoped events go to their target. The pending-call table
    /// is never touched by an event.
    pub fn on_event(&mut self, ev: &CdpEvent, now: u64)
        requires
            old(self).wf(),
        ensures
            final(self).wf(),
            final(self).next() == old(self).next(),
            final(self).calls() == old(self).calls(),
            final(self).is_closed_v() == old(self).is_closed_v(),
            final(self).config_v() == old(self).config_v(),
            ({
                let m = ev.method@;
                let p = ev.params@;
                if m == "Target.attachedToTarget"@ {
                    match (
                        crate::codec::json_str_field(p, "sessionId"@),
                        crate::codec::json_str_field(p, "targetId"@),
                    ) {
                        (Some(sess), Some(t)) => {
                            if exists|j: int|
                                0 <= j < old(self).targets_v().len() && (#[trigger] old(
                                    self,
                                ).targets_v()[j]).tid() == t {
                                (exists|j: int|
                                    {
                                        &&& 0 <= j < old(self).targets_v().len()
                                        &&& (#[trigger] old(self).targets_v()[j]).tid() == t
                                        &&& final(self).targets_v()[j].session() == Some(sess)
                                        &&& final(self).targets_v()[j].rank() == old(
                                            self,
                                        ).targets_v()[j].rank()
                                        &&& (forall|k: int|
                                            0 <= k < old(self).targets_v().len() && k != j
                                                ==> final(self).targets_v()[k] == (
                                            #[trigger] old(self).targets_v()[k]))
                                    }) && final(self).sessions_v() == old(
                                    self,
                                ).sessions_v().push((sess, t))
                            } else {
                                final(self).targets_v() == old(self).targets_v() && final(self).sessions_v() == old(self).sessions_v()
                            }
                        },
                        _ => final(self).targets_v() == old(self).targets_v() && final(self).sessions_v() == old(self).sessions_v(),
                    }
                } else if m == "Target.targetCreated"@ {
                    final(self).sessions_v() == old(self).sessions_v() && (match (
                        crate::codec::json_str_field(p, "targetId"@),
                        crate::codec::json_str_field(p, "type"@),
                    ) {
                        (Some(t), Some(tt)) => {
                            if exists|j: int|
                                0 <= j < old(self).targets_v().len() && (#[trigger] old(
                                    self,
                                ).targets_v()[j]).tid() == t {
                                final(self).targets_v() == old(self).targets_v()
                            } else {
                                ({
                                    let fresh = final(self).targets_v().last();
                                    &&& final(self).targets_v().len() == old(
                                        self,
                                    ).targets_v().len() + 1
                                    &&& (forall|k: int|
                                        0 <= k < old(self).targets_v().len() ==> final(self).targets_v()[k] == (#[trigger] old(
                                            self,
                                        ).targets_v()[k]))
                                    &&& fresh.tid() == t
                                    &&& fresh.ttype() == tt
                                    &&& fresh.rank() == 0
                                    &&& !fresh.closed()
                                    &&& fresh.session() is None
                                    &&& fresh.initialize_requested() == (tt == "page"@ && old(
                                        self,
                                    ).config_v().wait_for_initial_page)
                                })
                            }
                        },
                        _ => final(self).targets_v() == old(self).targets_v(),
                    })
                } else if m == "Target.targetDestroyed"@ {
                    final(self).sessions_v() == old(self).sessions_v() && (match
                        crate::codec::json_str_field(p, "targetId"@) {
                        Some(t) => {
                            if exists|j: int|
                                0 <= j < old(self).targets_v().len() && (#[trigger] old(
                                    self,
                                ).targets_v()[j]).tid() == t {
                                exists|j: int|
                                    {
                                        &&& 0 <= j < old(self).targets_v().len()
                                        &&& (#[trigger] old(self).targets_v()[j]).tid() == t
                                        &&& final(self).targets_v()[j].closed()
                                        &&& final(self).targets_v()[j].rank() == old(
                                            self,
                                        ).targets_v()[j].rank()
                                        &&& (forall|k: int|
                                            0 <= k < old(self).targets_v().len() && k != j
                                                ==> final(self).targets_v()[k] == (
                                            #[trigger] old(self).targets_v()[k]))
                                    }
                            } else {
                                final(self).targets_v() == old(self).targets_v()
                            }
                        },
                        None => final(self).targets_v() == old(self).targets_v(),
                    })
                } else {
                    final(self).sessions_v() == old(self).sessions_v() && (match ev.session_id {
                        Some(sess) => {
                            match session_lookup(old(self).sessions_v(), sess@) {
                                Some(t) => {
                                    if exists|j: int|
                                        0 <= j < old(self).targets_v().len() && (#[trigger] old(
                                            self,
                                        ).targets_v()[j]).tid() == t {
                                        exists|j: int|
                                            {
                                                &&& 0 <= j < old(self).targets_v().len()
                                                &&& (#[trigger] old(self).targets_v()[j]).tid()
                                                    == t
                                                &&& final(self).targets_v()[j].frames()
                                                    == crate::target::frames_after_event(
                                                    old(self).targets_v()[j].frames(),
                                                    m,
                                                    p,
                                                )
                                                &&& final(self).targets_v()[j].records()
                                                    == crate::target::records_after_event(
                                                    old(self).targets_v()[j].records(),
                                                    m,
                                                    p,
                                                )
                                                &&& final(self).targets_v()[j].rank() == old(
                                                    self,
                                                ).targets_v()[j].rank()
                                                &&& final(self).targets_v()[j].session() == old(
                                                    self,
                                                ).targets_v()[j].session()
                                                &&& final(self).targets_v()[j].closed() == old(
                                                    self,
                                                ).targets_v()[j].closed()
                                                &&& (forall|k: int|
                                                    0 <= k < old(self).targets_v().len() && k
                                                        != j ==> final(self).targets_v()[k] == (
                                                    #[trigger] old(self).targets_v()[k]))
                                            }
                                    } else {
                                        final(self).targets_v() == old(self).targets_v()
                                    }
                                },
                                None => final(self).targets_v() == old(self).targets_v(),
                            }
                        },
                        None => final(self).targets_v() == old(self).targets_v(),
                    })
                }
            }),
    {
        proof {
            reveal_strlit("Target.attachedToTarget");
            reveal_strlit("Target.targetCreated");
            reveal_strlit("Target.targetDestroyed");
        }
        let method = ev.method.as_str();
        if str_eq(method, "Target.attachedToTarget") {
            let params = ev.params.as_str();
            match (
                crate::codec::get_str_field(params, "sessionId"),
                crate::codec::get_str_field(params, "targetId"),
            ) {
                (Some(session), Some(tid)) => {
                    let ghost sv = session@;
                    let ghost tv = tid@;
                    match self.target_position(tid.as_str()) {
                        Some(j) => {
                            self.targets[j].set_session_id(SessionId::new(session.clone()));
                            proof {
                                assert forall|k: int|
                                    0 <= k < self.targets@.len() implies (
                                #[trigger] self.targets@[k]).wf() && self.targets@[k].cmd_timeout()
                                    == self.config.request_timeout by {
                                    if k != j {
                                        assert(self.targets@[k] == old(self).targets_v()[k]);
                                    }
                                }
                                assert(old(self).targets_v()[j as int].tid() == tv);
                                assert(self.targets@[j as int].session() == Some(sv));
                            }
                            self.session_map.push((session, tid));
                            proof {
                                assert(self.sessions_v() =~= old(self).sessions_v().push(
                                    (sv, tv),
                                ));
                            }
                        },
                        None => {},
                    }
                },
                _ => {},
            }
        } else if str_eq(method, "Target.targetCreated") {
            let params = ev.params.as_str();
            match (
                crate::codec::get_str_field(params, "targetId"),
                crate::codec::get_str_field(params, "type"),
            ) {
                (Some(tid), Some(ttype)) => {
                    let ghost tv = tid@;
                    let ghost ttv = ttype@;
                    match self.target_position(tid.as_str()) {
                        Some(_) => {},
                        None => {
                            let is_page = str_eq(ttype.as_str(), "page");
                            let info = TargetInfo {
                                target_id: tid,
                                target_type: ttype,
                                browser_context_id: None,
                                opener_id: None,
                            };
                            let mut t = Target::new(
                                info,
                                self.config.viewport,
                                self.config.request_timeout,
                            );
                            if is_page && self.config.wait_for_initial_page {
                                t.initialize();
                            }
                            proof {
                                assert(t.tid() == tv && t.ttype() == ttv && t.rank() == 0
                                    && !t.closed() && t.session() is None
                                    && t.initialize_requested() == (ttv == "page"@
                                    && old(self).config_v().wait_for_initial_page));
                            }
                            self.targets.push(t);
                            proof {
                                assert(self.targets@.len() == old(self).targets_v().len() + 1);
                                assert(self.targets@.last() == t);
                            }
                            proof {
                                assert forall|k: int|
                                    0 <= k < self.targets@.len() implies (
                                #[trigger] self.targets@[k]).wf() by {
                                    if k < self.targets@.len() - 1 {
                                        assert(self.targets@[k] == old(self).targets_v()[k]);
                                    }
                                }
                                assert forall|k: int|
                                    0 <= k < self.targets@.len() implies (
                                #[trigger] self.targets@[k]).cmd_timeout() == self.config.request_timeout by {
                                    if k < self.targets@.len() - 1 {
                                        assert(self.targets@[k] == old(self).targets_v()[k]);
                                    }
                                }
                            }
                        },
                    }
                },
                _ => {},
            }
        } else if str_eq(method, "Target.targetDestroyed") {
            let params = ev.params.as_str();
            match crate::codec::get_str_field(params, "targetId") {
                Some(tid) => {
                    let ghost tv = tid@;
                    match self.target_position(tid.as_str()) {
                        Some(j) => {
                            self.targets[j].close();
                            proof {
                                assert forall|k: int|
                                    0 <= k < self.targets@.len() implies (
                                #[trigger] self.targets@[k]).wf() && self.targets@[k].cmd_timeout()
                                    == self.config.request_timeout by {
                                    if k != j {
                                        assert(self.targets@[k] == old(self).targets_v()[k]);
                                    }
                                }
                                assert(old(self).targets_v()[j as int].tid() == tv);
                                assert(self.targets@[j as int].closed());
                            }
                        },
                        None => {},
                    }
                },
                None => {},
            }
        } else {
            match &ev.session_id {
                Some(session) => {
                    let tid = self.session_target(session.as_str());
                    match tid {
                        Some(tid) => {
                            match self.target_position(tid.as_str()) {
                                Some(j) => {
                                    let ghost tv = tid@;
                                    self.targets[j].on_event(ev);
                                    proof {
                                        assert forall|k: int|
                                            0 <= k < self.targets@.len() implies (
                                        #[trigger] self.targets@[k]).wf()
                                            && self.targets@[k].cmd_timeout()
                                            == self.config.request_timeout by {
                                            if k != j {
                                                assert(self.targets@[k] == old(
                                                    self,
                                                ).targets_v()[k]);
                                            }
                                        }
                                        assert(old(self).targets_v()[j as int].tid() == tv);
                                        assert(self.targets@[j as int].frames()
                                            == crate::target::frames_after_event(
                                            old(self).targets_v()[j as int].frames(),
                                            ev.method@,
                                            ev.params@,
                                        ));
                                    }
                                },
                                None => {},
                            }
                        },
                        None => {},
                    }
                },
                None => {},
            }
        }
    }

    /// The target a session is mapped to.
    fn session_target(&self, session: &str) -> (r: Option<String>)
        ensures
            match r {
                Some(t) => session_lookup(self.sessions_v(), session@) == Some(t@),
                None => session_lookup(self.sessions_v(), session@) is None,
            },
    {
        let n = self.session_map.len();
        let mut i: usize = 0;
        while i < n
            invariant
                i <= n,
                n == self.session_map.len(),
                forall|k: int| 0 <= k < i ==> (#[trigger] self.sessions_v()[k]).0 != session@,
            decreases n - i,
        {
            if str_eq(self.session_map[i].0.as_str(), session) {
                proof {
                    lemma_session_lookup_located(self.sessions_v(), session@, i as int);
                }
                return Some(self.session_map[i].1.clone());
            }
            i = i + 1;
        }
        proof {
            lemma_session_lookup_located(self.sessions_v(), session@, n as int);
        }
        None
    }

    /// Sweep the table for calls whose deadline has passed: each is
    /// failed with a deadline error, exactly once; live calls stay.
    pub fn check_timeouts(&mut self, now: u64) -> (r: Vec<HandlerAction>)
        requires
            old(self).wf(),
        ensures
            final(self).wf(),
            final(self).next() == old(self).next(),
            final(self).is_closed_v() == old(self).is_closed_v(),
            final(self).config_v() == old(self).config_v(),
            final(self).targets_v() == old(self).targets_v(),
            final(self).sessions_v() == old(self).sessions_v(),
            final(self).calls() == live_calls(old(self).calls(), now),
            r@ == expiry_actions(old(self).calls(), now),
    {
        let mut kept: Vec<CallEntry> = Vec::new();
        let mut acts: Vec<HandlerAction> = Vec::new();
        proof {
            assert(kept@.map_values(|c: CallEntry| c@) =~= Seq::<CallEntryView>::empty());
            assert(self.calls() =~= old(self).calls());
        }
        while self.calls.len() > 0
            invariant
                self.wf(),
                self.next() == old(self).next(),
                self.is_closed_v() == old(self).is_closed_v(),
                self.config_v() == old(self).config_v(),
                self.targets_v() == old(self).targets_v(),
                self.sessions_v() == old(self).sessions_v(),
                kept@.map_values(|c: CallEntry| c@) + live_calls(self.calls(), now) == live_calls(
                    old(self).calls(),
                    now,
                ),
                acts@ + expiry_actions(self.calls(), now) == expiry_actions(
                    old(self).calls(),
                    now,
                ),
                forall|i: int, j: int|
                    0 <= i < j < kept@.len() ==> (#[trigger] kept@[i])@.id != (
                    #[trigger] kept@[j])@.id,
                forall|i: int|
                    0 <= i < kept@.len() ==> (#[trigger] kept@[i])@.id < self.next()
                        && kept@[i]@.deadline > now,
                forall|i: int, j: int|
                    0 <= i < kept@.len() && 0 <= j < self.calls().len() ==> (
                    #[trigger] kept@[i])@.id != (#[trigger] self.calls()[j]).id,
            decreases self.calls.len(),
        {
            let ghost pre = self.calls();
            let e = self.calls.remove(0);
            proof {
                assert(self.calls() =~= pre.drop_first());
                assert(e@ == pre[0]);
            }
            if e.deadline <= now {
                match e.origin {
                    CallOrigin::User(w) => {
                        acts.push(
                            HandlerAction::Fail(
                                w,
                                CdpError::DeadlineExceeded(
                                    DeadlineExceeded { now, deadline: e.deadline },
                                ),
                            ),
                        );
                        proof {
                            assert(acts@ + expiry_actions(self.calls(), now) =~= expiry_actions(
                                old(self).calls(),
                                now,
                            ));
                        }
                    },
                    CallOrigin::Navigation(n) => {
                        acts.push(
                            HandlerAction::NavigationFinished(
                                Err(
                                    NavigationError::Timeout {
                                        id: n,
                                        deadline: DeadlineExceeded { now, deadline: e.deadline },
                                    },
                                ),
                            ),
                        );
                        proof {
                            assert(acts@ + expiry_actions(self.calls(), now) =~= expiry_actions(
                                old(self).calls(),
                                now,
                            ));
                        }
                    },
                    CallOrigin::Internal => {},
                }
            } else {
                kept.push(e);
                proof {
                    assert(kept@.map_values(|c: CallEntry| c@) =~= kept@.map_values(
                        |c: CallEntry| c@,
                    ).drop_last().push(e@));
                    assert(kept@.map_values(|c: CallEntry| c@) + live_calls(self.calls(), now)
                        =~= live_calls(old(self).calls(), now));
                }
            }
        }
        proof {
            assert(live_calls(self.calls(), now) =~= Seq::<CallEntryView>::empty());
            assert(expiry_actions(self.calls(), now) =~= Seq::<HandlerAction>::empty());
        }
        self.calls = kept;
        proof {
            assert(self.calls() + Seq::<CallEntryView>::empty() =~= self.calls());
            assert(acts@ + Seq::<HandlerAction>::empty() =~= acts@);
        }
        acts
    }

    /// The transport closed: every pending waiter — parked under a call
    /// id or still held by a target — is failed with a transport-closed
    /// error, exactly once, and the handler stops.
    pub fn on_transport_closed(&mut self) -> (r: Vec<HandlerAction>)
        requires
            old(self).wf(),
        ensures
            final(self).wf(),
            final(self).is_closed_v(),
            final(self).calls() == Seq::<CallEntryView>::empty(),
            final(self).next() == old(self).next(),
            final(self).config_v() == old(self).config_v(),
            final(self).targets_v().len() == old(self).targets_v().len(),
            forall|k: int|
                0 <= k < final(self).targets_v().len() ==> (#[trigger] final(self).targets_v()[k]).incoming_v().len() == 0 && final(self).targets_v()[k].parked().len() == 0 && final(self).targets_v()[k].initiator_v()
                    is None,
            r@ == close_actions(old(self).calls()) + targets_close_actions(old(self).targets_v()),
    {
        let mut acts: Vec<HandlerAction> = Vec::new();
        while self.calls.len() > 0
            invariant
                self.wf(),
                self.next() == old(self).next(),
                self.config_v() == old(self).config_v(),
                self.targets_v() == old(self).targets_v(),
                self.closed == old(self).is_closed_v(),
                acts@ + close_actions(self.calls()) == close_actions(old(self).calls()),
            decreases self.calls.len(),
        {
            let ghost pre = self.calls();
            let e = self.calls.remove(0);
            proof {
                assert(self.calls() =~= pre.drop_first());
                assert(e@ == pre[0]);
            }
            match e.origin {
                CallOrigin::User(w) => {
                    acts.push(HandlerAction::Fail(w, CdpError::TransportClosed));
                    proof {
                        assert(acts@ + close_actions(self.calls()) =~= close_actions(
                            old(self).calls(),
                        ));
                    }
                },
                CallOrigin::Navigation(n) => {
                    acts.push(
                        HandlerAction::NavigationFinished(
                            Err(NavigationError::TransportClosed { id: n }),
                        ),
                    );
                    proof {
                        assert(acts@ + close_actions(self.calls()) =~= close_actions(
                            old(self).calls(),
                        ));
                    }
                },
                CallOrigin::Internal => {},
            }
        }
        self.closed = true;
        proof {
            assert(close_actions(self.calls()) =~= Seq::<HandlerAction>::empty());
            assert(acts@ + Seq::<HandlerAction>::empty() =~= acts@);
            assert(self.calls() =~= Seq::<CallEntryView>::empty());
            assert(acts@ =~= close_actions(old(self).calls()));
        }
        let ghost targets0 = self.targets@;
        let n = self.targets.len();
        proof {
            assert(targets0.skip(0) =~= targets0);
        }
        let mut j: usize = 0;
        while j < n
            invariant
                self.wf(),
                n == self.targets.len(),
                targets0.len() == n,
                j <= n,
                self.closed,
                self.next() == old(self).next(),
                self.config_v() == old(self).config_v(),
                self.calls() == Seq::<CallEntryView>::empty(),
                targets0 == old(self).targets_v(),
                forall|k: int| j <= k < n ==> self.targets@[k] == (#[trigger] targets0[k]),
                forall|k: int|
                    0 <= k < j ==> (#[trigger] self.targets@[k]).incoming_v().len() == 0
                        && self.targets@[k].parked().len() == 0 && self.targets@[k].initiator_v()
                        is None,
                acts@ + targets_close_actions(targets0.skip(j as int)) == close_actions(
                    old(self).calls(),
                ) + targets_close_actions(targets0),
            decreases n - j,
        {
            let ghost pre_targets = self.targets@;
            let waiters = self.targets[j].take_pending_waiters();
            proof {
                assert forall|k: int|
                    0 <= k < self.targets@.len() implies (#[trigger] self.targets@[k]).wf()
                        && self.targets@[k].cmd_timeout() == self.config.request_timeout by {
                    if k != j {
                        assert(self.targets@[k] == pre_targets[k]);
                    }
                }
                assert(targets0.skip(j as int)[0] == targets0[j as int]);
                assert(targets0.skip(j as int).drop_first() =~= targets0.skip(j as int + 1));
                assert(waiters@ == pending_waiters_of(targets0[j as int]));
            }
            let ghost acts_pre = acts@;
            let mut wi: usize = 0;
            while wi < waiters.len()
                invariant
                    wi <= waiters.len(),
                    acts@ == acts_pre + waiters@.take(wi as int).map_values(
                        |w: WaiterId| HandlerAction::Fail(w, CdpError::TransportClosed),
                    ),
                decreases waiters.len() - wi,
            {
                acts.push(HandlerAction::Fail(waiters[wi], CdpError::TransportClosed));
                proof {
                    assert(acts@ =~= acts_pre + waiters@.take(wi as int + 1).map_values(
                        |w: WaiterId| HandlerAction::Fail(w, CdpError::TransportClosed),
                    ));
                }
                wi = wi + 1;
            }
            proof {
                assert(waiters@.take(waiters@.len() as int) =~= waiters@);
                assert(acts@ =~= acts_pre + pending_waiters_of(targets0[j as int]).map_values(
                    |w: WaiterId| HandlerAction::Fail(w, CdpError::TransportClosed),
                ));
                assert(acts@ + targets_close_actions(targets0.skip(j as int + 1))
                    =~= close_actions(old(self).calls()) + targets_close_actions(targets0));
            }
            j = j + 1;
        }
        proof {
            assert(targets_close_actions(targets0.skip(n as int)) =~= Seq::<
                HandlerAction,
            >::empty());
            assert(acts@ =~= close_actions(old(self).calls()) + targets_close_actions(
                old(self).targets_v(),
            ));
        }
        acts
    }

    /// The transport came up: discover targets and auto-attach, with
    /// the debugger held until each target's pipeline releases it.
    pub fn on_transport_up(&mut self, now: u64) -> (r: Vec<HandlerAction>)
        requires
            old(self).wf(),
            old(self).next() + 2 <= usize::MAX,
            now + old(self).config_v().request_timeout <= u64::MAX,
        ensures
            final(self).wf(),
            final(self).next() == old(self).next() + 2,
            r@.len() == 2,
            r@[0] matches HandlerAction::Send(mc, s) && mc.method@
                == "Target.setDiscoverTargets"@ && mc.params@ == "{\"discover\":true}"@ && s
                is None,
            r@[1] matches HandlerAction::Send(mc, s) && mc.method@ == "Target.setAutoAttach"@
                && mc.params@
                == "{\"autoAttach\":true,\"waitForDebuggerOnStart\":true,\"flatten\":true}"@
                && s is None,
    {
        let mut acts: Vec<HandlerAction> = Vec::new();
        let (_, mc, sess) = self.dispatch(
            "Target.setDiscoverTargets".to_owned(),
            "{\"discover\":true}".to_owned(),
            None,
            None,
            CallOrigin::Internal,
            now,
        );
        acts.push(HandlerAction::Send(mc, sess));
        let (_, mc2, sess2) = self.dispatch(
            "Target.setAutoAttach".to_owned(),
            "{\"autoAttach\":true,\"waitForDebuggerOnStart\":true,\"flatten\":true}".to_owned(),
            None,
            None,
            CallOrigin::Internal,
            now,
        );
        acts.push(HandlerAction::Send(mc2, sess2));
        acts
    }

    /// Drain every target once: pipeline requests and user commands are
    /// framed and parked under fresh call ids; resolved waiters and
    /// navigation outcomes are handed out.
    pub fn poll_targets(&mut self, now: u64) -> (r: Vec<HandlerAction>)
        requires
            old(self).wf(),
            now + old(self).config_v().request_timeout * 5 <= u64::MAX,
        ensures
            final(self).wf(),
            final(self).next() >= old(self).next(),
            final(self).is_closed_v() == old(self).is_closed_v(),
            final(self).config_v() == old(self).config_v(),
            final(self).targets_v().len() == old(self).targets_v().len(),
            r@.len() == 0 ==> final(self).next() == old(self).next(),
            r@.len() == 0 && final(self).next() < usize::MAX ==> forall|k: int|
                0 <= k < final(self).targets_v().len() ==> (#[trigger] final(self).targets_v()[k]).quiescent(now),
            forall|i: int|
                0 <= i < r@.len() ==> ((#[trigger] r@[i]) matches HandlerAction::Send(mc, _)
                    ==> old(self).next() <= mc.id.0 < final(self).next()),
    {
        let ghost t0 = old(self).config_v().request_timeout;
        proof {
            assert(t0 * 1 <= t0 * 5) by (nonlinear_arith);
        }
        let mut acts: Vec<HandlerAction> = Vec::new();
        let n = self.targets.len();
        let mut j: usize = 0;
        while j < n
            invariant
                self.wf(),
                n == self.targets.len(),
                j <= n,
                self.next() >= old(self).next(),
                self.is_closed_v() == old(self).is_closed_v(),
                self.config_v() == old(self).config_v(),
                self.targets_v().len() == old(self).targets_v().len(),
                now + self.config_v().request_timeout * 5 <= u64::MAX,
                now + self.config_v().request_timeout <= u64::MAX,
                acts@.len() == 0 ==> self.next() == old(self).next(),
                acts@.len() == 0 && self.next() < usize::MAX ==> forall|k: int|
                    0 <= k < j ==> (#[trigger] self.targets_v()[k]).quiescent(now),
                forall|i: int|
                    0 <= i < acts@.len() ==> ((#[trigger] acts@[i]) matches HandlerAction::Send(
                        mc,
                        _,
                    ) ==> old(self).next() <= mc.id.0 < self.next()),
            decreases n - j,
        {
            let mut fuel = self.targets[j].pending_units();
            let ghost fuel0 = fuel;
            let mut target_done = false;
            while fuel > 0 && !target_done
                invariant
                    target_done ==> self.targets_v()[j as int].quiescent(now),
                    self.wf(),
                    n == self.targets.len(),
                    j < n,
                    self.next() >= old(self).next(),
                    self.is_closed_v() == old(self).is_closed_v(),
                    self.config_v() == old(self).config_v(),
                    self.targets_v().len() == old(self).targets_v().len(),
                    now + self.config_v().request_timeout * 5 <= u64::MAX,
                    now + self.config_v().request_timeout <= u64::MAX,
                    acts@.len() == 0 ==> self.next() == old(self).next(),
                    acts@.len() == 0 && self.next() < usize::MAX ==> forall|k: int|
                        0 <= k < j ==> (#[trigger] self.targets_v()[k]).quiescent(now),
                    acts@.len() == 0 && self.next() < usize::MAX && fuel != fuel0 ==> (
                    #[trigger] self.targets_v()[j as int]).quiescent(now),
                    forall|i: int|
                        0 <= i < acts@.len() ==> ((#[trigger] acts@[i]) matches
                            HandlerAction::Send(mc, _) ==> old(self).next() <= mc.id.0
                            < self.next()),
                decreases fuel,
            {
                fuel = fuel - 1;
                let tid = self.targets[j].target_id().clone();
                let ghost pre_targets = self.targets@;
                let ev = self.targets[j].poll(now);
                proof {
                    assert forall|k: int|
                        0 <= k < self.targets@.len() implies (#[trigger] self.targets@[k]).wf()
                            && self.targets@[k].cmd_timeout()
                            == self.config.request_timeout by {
                        if k != j {
                            assert(self.targets@[k] == pre_targets[k]);
                        }
                    }
                }
                match ev {
                    None => {
                        target_done = true;
                    },
                    Some(TargetEvent::Request(req)) => {
                        if self.next_id < usize::MAX {
                            let (_, mc, sess) = self.dispatch(
                                req.method,
                                req.params,
                                req.session_id,
                                Some(tid),
                                CallOrigin::Internal,
                                now,
                            );
                            acts.push(HandlerAction::Send(mc, sess));
                        }
                    },
                    Some(TargetEvent::Command(cmd)) => {
                        if self.next_id < usize::MAX {
                            let (_, mc, sess) = self.dispatch(
                                cmd.method,
                                cmd.params,
                                cmd.session_id,
                                Some(tid),
                                CallOrigin::User(cmd.waiter),
                                now,
                            );
                            acts.push(HandlerAction::Send(mc, sess));
                        }
                    },
                    Some(TargetEvent::NavigationRequest(nid, req)) => {
                        if self.next_id < usize::MAX {
                            let (_, mc, sess) = self.dispatch(
                                req.method,
                                req.params,
                                req.session_id,
                                Some(tid),
                                CallOrigin::Navigation(nid),
                                now,
                            );
                            acts.push(HandlerAction::Send(mc, sess));
                        }
                    },
                    Some(TargetEvent::NavigationResult(res)) => {
                        acts.push(HandlerAction::NavigationFinished(res));
                    },
                    Some(TargetEvent::RequestTimeout(d)) => {
                        let waiters = self.targets[j].take_pending_waiters();
                        proof {
                            assert forall|k: int|
                                0 <= k < self.targets@.len() implies (
                            #[trigger] self.targets@[k]).wf() && self.targets@[k].cmd_timeout()
                                == self.config.request_timeout by {
                                if k != j {
                                    assert(self.targets@[k] == pre_targets[k]);
                                }
                            }
                        }
                        let mut wi: usize = 0;
                        while wi < waiters.len()
                            invariant
                                wi <= waiters.len(),
                                acts@.len() == 0 ==> self.next() == old(self).next(),
                                acts@.len() == 0 && self.next() < usize::MAX ==> forall|k: int|
                                    0 <= k < j ==> (#[trigger] self.targets_v()[k]).quiescent(
                                        now,
                                    ),
                                acts@.len() == 0 && self.next() < usize::MAX && fuel != fuel0
                                    ==> (#[trigger] self.targets_v()[j as int]).quiescent(now),
                                forall|i: int|
                                    0 <= i < acts@.len() ==> ((#[trigger] acts@[i]) matches
                                        HandlerAction::Send(mc, _) ==> old(self).next() <= mc.id.0
                                        < self.next()),
                            decreases waiters.len() - wi,
                        {
                            acts.push(
                                HandlerAction::Fail(
                                    waiters[wi],
                                    CdpError::DeadlineExceeded(d),
                                ),
                            );
                            wi = wi + 1;
                        }
                        let mut failures = self.fail_target_calls(tid.as_str());
                        let ghost acts_before = acts@;
                        let ghost failures_v = failures@;
                        acts.append(&mut failures);
                        proof {
                            assert forall|i: int|
                                0 <= i < acts@.len() implies ((#[trigger] acts@[i]) matches
                                    HandlerAction::Send(mc, _) ==> old(self).next() <= mc.id.0
                                    < self.next()) by {
                                if i < acts_before.len() {
                                    assert(acts@[i] == acts_before[i]);
                                } else {
                                    assert(acts@[i] == failures_v[i - acts_before.len()]);
                                }
                            }
                        }
                    },
                    Some(TargetEvent::FrameLoaded(w, res)) => {
                        acts.push(HandlerAction::FrameLoaded(w, res));
                    },
                    Some(TargetEvent::MainFrameReply(w, v)) => {
                        acts.push(HandlerAction::MainFrame(w, v));
                    },
                    Some(TargetEvent::UrlReply(w, v)) => {
                        acts.push(HandlerAction::Url(w, v));
                    },
                    Some(TargetEvent::PageReady(w)) => {
                        acts.push(HandlerAction::PageReady(w));
                    },
                }
            }
            j = j + 1;
        }
        acts
    }

    /// Ask a target's page to navigate; the request is watched and
    /// dispatched on the next polling pass.
    pub fn navigate(&mut self, tid: &str, req: crate::frame::FrameNavigationRequest) -> (ok: bool)
        requires
            old(self).wf(),
        ensures
            final(self).wf(),
            final(self).next() == old(self).next(),
            final(self).calls() == old(self).calls(),
            final(self).is_closed_v() == old(self).is_closed_v(),
            final(self).config_v() == old(self).config_v(),
            final(self).targets_v().len() == old(self).targets_v().len(),
            ok == exists|j: int|
                0 <= j < old(self).targets_v().len() && (#[trigger] old(
                    self,
                ).targets_v()[j]).tid() == tid@ && old(
                    self,
                ).targets_v()[j].fm().next_navigation_id() < u64::MAX,
            ok ==> exists|j: int|
                {
                    &&& 0 <= j < old(self).targets_v().len()
                    &&& (#[trigger] old(self).targets_v()[j]).tid() == tid@
                    &&& final(self).targets_v()[j].navigations().len() == old(
                        self,
                    ).targets_v()[j].navigations().len() + 1
                    &&& final(self).targets_v()[j].queued().len() == old(
                        self,
                    ).targets_v()[j].queued().len() + 1
                    &&& (forall|k: int|
                        0 <= k < old(self).targets_v().len() && k != j
                            ==> final(self).targets_v()[k] == (#[trigger] old(
                            self,
                        ).targets_v()[k]))
                },
            !ok ==> final(self).targets_v() == old(self).targets_v(),
    {
        match self.target_position(tid) {
            Some(j) => {
                let ok = self.targets[j].try_goto(req);
                proof {
                    assert forall|k: int|
                        0 <= k < self.targets@.len() implies (#[trigger] self.targets@[k]).wf()
                            && self.targets@[k].cmd_timeout()
                            == self.config.request_timeout by {
                        if k != j {
                            assert(self.targets@[k] == old(self).targets_v()[k]);
                        }
                    }
                }
                ok
            },
            None => false,
        }
    }

    /// Fail every pending call that belongs to a closed target with a
    /// deadline error.
    fn fail_target_calls(&mut self, tid: &str) -> (r: Vec<HandlerAction>)
        requires
            old(self).wf(),
        ensures
            final(self).wf(),
            final(self).next() == old(self).next(),
            final(self).is_closed_v() == old(self).is_closed_v(),
            final(self).config_v() == old(self).config_v(),
            final(self).targets_v() == old(self).targets_v(),
            final(self).sessions_v() == old(self).sessions_v(),
            forall|i: int|
                0 <= i < r@.len() ==> !((#[trigger] r@[i]) matches HandlerAction::Send(_, _)),
    {
        let mut kept: Vec<CallEntry> = Vec::new();
        let mut acts: Vec<HandlerAction> = Vec::new();
        while self.calls.len() > 0
            invariant
                self.wf(),
                self.next() == old(self).next(),
                self.is_closed_v() == old(self).is_closed_v(),
                self.config_v() == old(self).config_v(),
                self.targets_v() == old(self).targets_v(),
                self.sessions_v() == old(self).sessions_v(),
                forall|i: int|
                    0 <= i < acts@.len() ==> !((#[trigger] acts@[i]) matches HandlerAction::Send(
                        _,
                        _,
                    )),
                forall|i: int, j: int|
                    0 <= i < j < kept@.len() ==> (#[trigger] kept@[i])@.id != (
                    #[trigger] kept@[j])@.id,
                forall|i: int|
                    0 <= i < kept@.len() ==> (#[trigger] kept@[i])@.id < self.next(),
                forall|i: int, j: int|
                    0 <= i < kept@.len() && 0 <= j < self.calls().len() ==> (
                    #[trigger] kept@[i])@.id != (#[trigger] self.calls()[j]).id,
            decreases self.calls.len(),
        {
            let ghost pre = self.calls();
            let e = self.calls.remove(0);
            proof {
                assert(self.calls() =~= pre.drop_first());
                assert(e@ == pre[0]);
            }
            let belongs = match &e.target_id {
                Some(t) => str_eq(t.as_str(), tid),
                None => false,
            };
            if belongs {
                match e.origin {
                    CallOrigin::User(w) => {
                        acts.push(
                            HandlerAction::Fail(
                                w,
                                CdpError::DeadlineExceeded(
                                    DeadlineExceeded { now: e.deadline, deadline: e.deadline },
                                ),
                            ),
                        );
                    },
                    CallOrigin::Navigation(n) => {
                        acts.push(
                            HandlerAction::NavigationFinished(
                                Err(
                                    NavigationError::Timeout {
                                        id: n,
                                        deadline: DeadlineExceeded {
                                            now: e.deadline,
                                            deadline: e.deadline,
                                        },
                                    },
                                ),
                            ),
                        );
                    },
                    CallOrigin::Internal => {},
                }
            } else {
                kept.push(e);
                proof {
                    assert(kept@.map_values(|c: CallEntry| c@) =~= kept@.map_values(
                        |c: CallEntry| c@,
                    ).drop_last().push(e@));
                }
            }
        }
        self.calls = kept;
        acts
    }

    /// Take the pending call for an id out of the table. Removal is
    /// exact: absent ids leave the table untouched.
    pub fn take_call(&mut self, id: usize) -> (r: Option<CallEntry>)
        requires
            old(self).wf(),
        ensures
            final(self).wf(),
            final(self).next() == old(self).next(),
            final(self).is_closed_v() == old(self).is_closed_v(),
            final(self).config_v() == old(self).config_v(),
            final(self).targets_v() == old(self).targets_v(),
            final(self).sessions_v() == old(self).sessions_v(),
            final(self).calls() == table_without(old(self).calls(), id as int),
            match r {
                Some(e) => call_idx(old(self).calls(), id as int) >= 0 && e@ == old(
                    self,
                ).calls()[call_idx(old(self).calls(), id as int)] && e@.id == id,
                None => call_idx(old(self).calls(), id as int) == -1,
            },
    {
        proof {
            lemma_call_idx_props(self.calls(), id as int);
        }
        match self.call_position(id) {
            Some(i) => {
                let e = self.calls.remove(i);
                proof {
                    assert(self.calls() =~= old(self).calls().remove(i as int));
                }
                Some(e)
            },
            None => None,
        }
    }
}

/// Open corollary of the handler's closed invariant: pending call ids
/// are unique and below the allocator's next id, so the at-most-once
/// and idempotent-removal laws apply to the live table.
pub proof fn lemma_handler_wf_open(h: Handler)
    requires
        h.wf(),
    ensures
        forall|i: int, j: int| 0 <= i < j < h.calls().len() ==> h.calls()[i].id != h.calls()[j].id,
        forall|i: int| 0 <= i < h.calls().len() ==> (#[trigger] h.calls()[i]).id < h.next(),
        forall|i: int, j: int|
            0 <= i < j < h.targets_v().len() ==> (#[trigger] h.targets_v()[i]).tid() != (
            #[trigger] h.targets_v()[j]).tid(),
{
}

} // verus!
