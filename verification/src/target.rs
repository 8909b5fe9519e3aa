//! One browser target: the linear initialization pipeline, event
//! routing to the sub-managers, and the work it reports to the handler.

use vstd::prelude::*;
use crate::chain::{ChainPoll, CommandChain, CommandEntry};
use crate::codec::{get_str_field, json_str_field, json_num_field, get_num_field};
use crate::emulation::EmulationManager;
use crate::emulation::Viewport;
use crate::frame::{
    frame_loaded, frames_after_attached, frames_after_detached, frames_after_lifecycle,
    frames_after_navigated, frames_after_navigated_within, frames_after_started_loading,
    FrameEvent, FrameManager, FrameNavigationRequest, FrameView, NavigationError, NavigationId,
    NavigationOk, NavigationView,
};
use crate::network::{
    records_after_sent, records_after_update, record_idx, NetworkManager, RequestRecordView,
};
use crate::strutil::str_eq;
use crate::types::{CdpError, CdpEvent, DeadlineExceeded, Request, Response, SessionId};
use vstd::string::StringExecFns;

verus! {

/// A token standing for a parked reply channel; the embedding maps it
/// back to the real channel.
#[derive(Debug, Copy, Clone, PartialEq, Eq, Structural, Hash)]
pub struct WaiterId(pub u64);

/// A command submitted by a caller through a page handle.
#[derive(Debug)]
pub struct CommandMessage {
    pub method: String,
    pub params: String,
    pub session_id: Option<String>,
    /// Who awaits the response.
    pub waiter: WaiterId,
}

/// What a page handle can ask of its target.
#[derive(Debug)]
pub enum TargetMessage {
    /// Execute a command within the session of this target.
    Command(CommandMessage),
    /// Report the main frame of this target.
    MainFrame(WaiterId),
    /// Report the url of this target's page.
    Url(WaiterId),
    /// Resolve when the main frame has finished loading.
    WaitForNavigation(WaiterId),
}

/// The reply token a page-handle message waits on.
pub open spec fn waiter_of(m: TargetMessage) -> WaiterId {
    match m {
        TargetMessage::Command(cmd) => cmd.waiter,
        TargetMessage::MainFrame(w) => w,
        TargetMessage::Url(w) => w,
        TargetMessage::WaitForNavigation(w) => w,
    }
}

/// What a target reports to the handler from one poll.
#[derive(Debug)]
pub enum TargetEvent {
    /// An outbound protocol call of the target's own.
    Request(Request),
    /// An outbound call whose response resolves a navigation.
    NavigationRequest(NavigationId, Request),
    /// A previously requested navigation finished.
    NavigationResult(Result<NavigationOk, NavigationError>),
    /// An initialization chain ran out of time; terminal for the target.
    RequestTimeout(DeadlineExceeded),
    /// A caller's command, passed through for dispatch.
    Command(CommandMessage),
    /// A parked navigation waiter resolves with the main frame's url.
    FrameLoaded(WaiterId, Result<String, CdpError>),
    /// The main frame of this target, as asked for.
    MainFrameReply(WaiterId, Option<String>),
    /// The url of this target's page, as asked for.
    UrlReply(WaiterId, Option<String>),
    /// The page finished initializing for its creator.
    PageReady(WaiterId),
}

/// Identity of a target as the browser reported it. Immutable for the
/// target's lifetime.
#[derive(Debug)]
pub struct TargetInfo {
    pub target_id: String,
    pub target_type: String,
    pub browser_context_id: Option<String>,
    pub opener_id: Option<String>,
}

/// The linear initialization pipeline of a target. Only the four
/// `Initializing` stages hold a command chain.
#[derive(Debug)]
pub enum TargetInit {
    InitializingFrame(CommandChain),
    InitializingNetwork(CommandChain),
    InitializingPage(CommandChain),
    InitializingEmulation(CommandChain),
    AttachToTarget,
    Initialized,
}

/// Position of a state on the pipeline; it only ever moves forward.
pub open spec fn init_rank(s: TargetInit) -> int {
    match s {
        TargetInit::AttachToTarget => 0,
        TargetInit::InitializingFrame(_) => 1,
        TargetInit::InitializingNetwork(_) => 2,
        TargetInit::InitializingPage(_) => 3,
        TargetInit::InitializingEmulation(_) => 4,
        TargetInit::Initialized => 5,
    }
}

/// The chain driving a state, when it holds one.
pub open spec fn chain_of(s: TargetInit) -> Option<CommandChain> {
    match s {
        TargetInit::InitializingFrame(c) => Some(c),
        TargetInit::InitializingNetwork(c) => Some(c),
        TargetInit::InitializingPage(c) => Some(c),
        TargetInit::InitializingEmulation(c) => Some(c),
        TargetInit::AttachToTarget => None,
        TargetInit::Initialized => None,
    }
}

/// The same state carrying another chain.
pub open spec fn with_chain(s: TargetInit, c: CommandChain) -> TargetInit {
    match s {
        TargetInit::InitializingFrame(_) => TargetInit::InitializingFrame(c),
        TargetInit::InitializingNetwork(_) => TargetInit::InitializingNetwork(c),
        TargetInit::InitializingPage(_) => TargetInit::InitializingPage(c),
        TargetInit::InitializingEmulation(_) => TargetInit::InitializingEmulation(c),
        TargetInit::AttachToTarget => TargetInit::AttachToTarget,
        TargetInit::Initialized => TargetInit::Initialized,
    }
}

/// The pipeline has exactly six positions: a rank is never outside
/// them.
pub proof fn lemma_rank_bounded(s: TargetInit)
    ensures
        0 <= init_rank(s) <= 5,
{
}

/// Law: the pipeline position identifies the stage, so a rank that
/// never decreases means no stage is ever re-entered.
pub proof fn lemma_rank_identifies_stage(a: TargetInit, b: TargetInit)
    requires
        init_rank(a) == init_rank(b),
    ensures
        a is AttachToTarget <==> b is AttachToTarget,
        a is InitializingFrame <==> b is InitializingFrame,
        a is InitializingNetwork <==> b is InitializingNetwork,
        a is InitializingPage <==> b is InitializingPage,
        a is InitializingEmulation <==> b is InitializingEmulation,
        a is Initialized <==> b is Initialized,
{
}

impl TargetInit {
    /// The command chain of the current stage, when one does.
    pub fn commands_mut(&mut self) -> (r: Option<&mut CommandChain>)
        ensures
            match r {
                Some(c) => chain_of(*old(self)) == Some(*c) && *final(self) == with_chain(
                    *old(self),
                    *final(c),
                ),
                None => chain_of(*old(self)) is None && *final(self) == *old(self),
            },
    {
        match self {
            TargetInit::InitializingFrame(c) => Some(c),
            TargetInit::InitializingNetwork(c) => Some(c),
            TargetInit::InitializingPage(c) => Some(c),
            TargetInit::InitializingEmulation(c) => Some(c),
            TargetInit::AttachToTarget => None,
            TargetInit::Initialized => None,
        }
    }
}

/// The frame list after one event was routed by its method name:
/// exactly the transition of the frame manager handler the method
/// names, and no change for any other method or malformed parameters.
pub open spec fn frames_after_event(
    frames: Seq<FrameView>,
    method: Seq<char>,
    params: Seq<char>,
) -> Seq<FrameView> {
    if method == "Page.frameAttached"@ {
        match json_str_field(params, "frameId"@) {
            Some(fid) => frames_after_attached(
                frames,
                fid,
                json_str_field(params, "parentFrameId"@),
            ),
            None => frames,
        }
    } else if method == "Page.frameDetached"@ {
        match json_str_field(params, "frameId"@) {
            Some(fid) => frames_after_detached(frames, fid),
            None => frames,
        }
    } else if method == "Page.frameNavigated"@ {
        match (
            json_str_field(params, "id"@),
            json_str_field(params, "url"@),
            json_str_field(params, "loaderId"@),
        ) {
            (Some(fid), Some(url), Some(loader)) => frames_after_navigated(
                frames,
                fid,
                url,
                loader,
            ),
            _ => frames,
        }
    } else if method == "Page.navigatedWithinDocument"@ {
        match (json_str_field(params, "frameId"@), json_str_field(params, "url"@)) {
            (Some(fid), Some(url)) => frames_after_navigated_within(frames, fid, url),
            _ => frames,
        }
    } else if method == "Page.frameStartedLoading"@ {
        match json_str_field(params, "frameId"@) {
            Some(fid) => frames_after_started_loading(frames, fid),
            None => frames,
        }
    } else if method == "Page.lifecycleEvent"@ {
        match (
            json_str_field(params, "frameId"@),
            json_str_field(params, "loaderId"@),
            json_str_field(params, "name"@),
        ) {
            (Some(fid), Some(loader), Some(name)) => frames_after_lifecycle(
                frames,
                fid,
                loader,
                name,
            ),
            _ => frames,
        }
    } else {
        frames
    }
}

/// The network records after one event was routed by its method name.
pub open spec fn records_after_event(
    records: Seq<RequestRecordView>,
    method: Seq<char>,
    params: Seq<char>,
) -> Seq<RequestRecordView> {
    if method == "Network.requestWillBeSent"@ {
        match (json_str_field(params, "requestId"@), json_str_field(params, "url"@)) {
            (Some(rid), Some(url)) => records_after_sent(records, rid, url),
            _ => records,
        }
    } else if method == "Network.responseReceived"@ {
        match (json_str_field(params, "requestId"@), json_num_field(params, "status"@)) {
            (Some(rid), Some(status)) => {
                if status <= u64::MAX {
                    records_after_update(
                        records,
                        rid,
                        RequestRecordView {
                            response_status: Some(status as u64),
                            ..records[record_idx(records, rid)]
                        },
                    )
                } else {
                    records
                }
            },
            _ => records,
        }
    } else if method == "Network.loadingFinished"@ {
        match json_str_field(params, "requestId"@) {
            Some(rid) => records_after_update(
                records,
                rid,
                RequestRecordView { finished: true, ..records[record_idx(records, rid)] },
            ),
            None => records,
        }
    } else if method == "Network.loadingFailed"@ {
        match json_str_field(params, "requestId"@) {
            Some(rid) => records_after_update(
                records,
                rid,
                RequestRecordView { failed: true, ..records[record_idx(records, rid)] },
            ),
            None => records,
        }
    } else if method == "Network.requestServedFromCache"@ {
        match json_str_field(params, "requestId"@) {
            Some(rid) => records_after_update(
                records,
                rid,
                RequestRecordView { from_cache: true, ..records[record_idx(records, rid)] },
            ),
            None => records,
        }
    } else {
        records
    }
}

/// The serialized parameters of the attach call for a target id.
pub open spec fn attach_params(tid: Seq<char>) -> Seq<char> {
    "{\"targetId\":\""@ + tid + "\",\"flatten\":true}"@
}

/// What one step of the initialization pipeline came to.
enum InitStep {
    /// An event for the handler.
    Yield(TargetEvent),
    /// Waiting on a session or a response; nothing else runs this pass.
    Blocked,
    /// The pipeline has completed; ordinary work may proceed.
    Through,
}

/// One browser target under the handler's care.
#[derive(Debug)]
pub struct Target {
    info: TargetInfo,
    is_closed: bool,
    frame_manager: FrameManager,
    network_manager: NetworkManager,
    emulation_manager: EmulationManager,
    session_id: Option<SessionId>,
    init_state: TargetInit,
    /// Work queued for the handler, drained one event per poll.
    queued_events: Vec<TargetEvent>,
    /// Messages from the page handle, fed in by the embedding.
    incoming: Vec<TargetMessage>,
    /// Waiters parked until the main frame has loaded.
    wait_until_frame_loaded: Vec<WaiterId>,
    /// Who asked for this page to be created, when somebody did.
    initiator: Option<WaiterId>,
    /// Whether this target should initialize its state.
    initialize: bool,
    /// Per-command timeout for initialization chains, in milliseconds.
    command_timeout: u64,
}

impl Target {
    pub closed spec fn tid(self) -> Seq<char> {
        self.info.target_id@
    }

    pub closed spec fn ttype(self) -> Seq<char> {
        self.info.target_type@
    }

    pub closed spec fn closed(self) -> bool {
        self.is_closed
    }

    pub closed spec fn session(self) -> Option<Seq<char>> {
        match self.session_id {
            Some(s) => Some(s@),
            None => None,
        }
    }

    pub closed spec fn rank(self) -> int {
        init_rank(self.init_state)
    }

    pub closed spec fn chain(self) -> Option<CommandChain> {
        chain_of(self.init_state)
    }

    pub closed spec fn fm(self) -> FrameManager {
        self.frame_manager
    }

    pub closed spec fn frames(self) -> Seq<FrameView> {
        self.frame_manager.frames()
    }

    pub closed spec fn main_view(self) -> Option<FrameView> {
        self.frame_manager.main_frame_view()
    }

    pub closed spec fn navigations(self) -> Seq<NavigationView> {
        self.frame_manager.navigations()
    }

    pub closed spec fn records(self) -> Seq<RequestRecordView> {
        self.network_manager.records()
    }

    pub closed spec fn queued(self) -> Seq<TargetEvent> {
        self.queued_events@
    }

    pub closed spec fn incoming_v(self) -> Seq<TargetMessage> {
        self.incoming@
    }

    pub closed spec fn parked(self) -> Seq<WaiterId> {
        self.wait_until_frame_loaded@
    }

    pub closed spec fn initiator_v(self) -> Option<WaiterId> {
        self.initiator
    }

    pub closed spec fn initialize_requested(self) -> bool {
        self.initialize
    }

    pub closed spec fn cmd_timeout(self) -> u64 {
        self.command_timeout
    }

    /// The sub-managers' state is untouched.
    pub open spec fn calls_like_unchanged(self, other: Target) -> bool {
        &&& self.frames() == other.frames()
        &&& self.records() == other.records()
        &&& self.navigations() == other.navigations()
        &&& self.main_id_v() == other.main_id_v()
    }

    pub closed spec fn wf(self) -> bool {
        &&& self.frame_manager.wf()
        &&& self.network_manager.wf()
        &&& (chain_of(self.init_state) matches Some(c) ==> c.wf())
        &&& (forall|i: int|
            0 <= i < self.queued_events@.len() ==> (#[trigger] self.queued_events@[i]) matches
                TargetEvent::NavigationRequest(_, _))
    }

    /// A fresh target, not yet attached and not yet initializing.
    pub fn new(info: TargetInfo, viewport: Viewport, command_timeout: u64) -> (r: Self)
        ensures
            r.wf(),
            r.tid() == info.target_id@,
            r.ttype() == info.target_type@,
            !r.closed(),
            r.session() is None,
            r.rank() == 0,
            r.frames() == Seq::<FrameView>::empty(),
            r.records() == Seq::<RequestRecordView>::empty(),
            r.navigations() == Seq::<NavigationView>::empty(),
            r.queued() == Seq::<TargetEvent>::empty(),
            r.incoming_v() == Seq::<TargetMessage>::empty(),
            r.parked() == Seq::<WaiterId>::empty(),
            r.initiator_v() is None,
            !r.initialize_requested(),
            r.cmd_timeout() == command_timeout,
    {
        let r = Target {
            info,
            is_closed: false,
            frame_manager: FrameManager::new(),
            network_manager: NetworkManager::new(),
            emulation_manager: EmulationManager::new(viewport),
            session_id: None,
            init_state: TargetInit::AttachToTarget,
            queued_events: Vec::new(),
            incoming: Vec::new(),
            wait_until_frame_loaded: Vec::new(),
            initiator: None,
            initialize: false,
            command_timeout,
        };
        proof {
            assert(r.queued() =~= Seq::<TargetEvent>::empty());
            assert(r.incoming_v() =~= Seq::<TargetMessage>::empty());
            assert(r.parked() =~= Seq::<WaiterId>::empty());
        }
        r
    }

    /// The handler observed the attach response: the session is set.
    pub fn set_session_id(&mut self, id: SessionId)
        ensures
            final(self).session() == Some(id@),
            final(self).wf() == old(self).wf(),
            final(self).tid() == old(self).tid(),
            final(self).ttype() == old(self).ttype(),
            final(self).closed() == old(self).closed(),
            final(self).rank() == old(self).rank(),
            final(self).chain() == old(self).chain(),
            final(self).fm() == old(self).fm(),
            final(self).records() == old(self).records(),
            final(self).queued() == old(self).queued(),
            final(self).incoming_v() == old(self).incoming_v(),
            final(self).parked() == old(self).parked(),
            final(self).initiator_v() == old(self).initiator_v(),
            final(self).initialize_requested() == old(self).initialize_requested(),
            final(self).cmd_timeout() == old(self).cmd_timeout(),
    {
        self.session_id = Some(id);
    }

    pub fn session_id(&self) -> (r: Option<&SessionId>)
        ensures
            match r {
                Some(s) => self.session() == Some(s@),
                None => self.session() is None,
            },
    {
        self.session_id.as_ref()
    }

    /// The identifier for this target.
    pub fn target_id(&self) -> (r: &String)
        ensures
            r@ == self.tid(),
    {
        &self.info.target_id
    }

    /// Whether this target has run its whole pipeline.
    pub fn is_initialized(&self) -> (r: bool)
        ensures
            r == (self.rank() == 5),
    {
        match self.init_state {
            TargetInit::Initialized => true,
            _ => false,
        }
    }

    /// Whether this target is a page, by the type the browser reported.
    pub fn is_page(&self) -> (r: bool)
        ensures
            r == (self.ttype() == "page"@),
    {
        str_eq(self.info.target_type.as_str(), "page")
    }

    pub fn browser_context_id(&self) -> (r: Option<&String>)
        ensures
            match r {
                Some(b) => self.info_browser_context() == Some(b@),
                None => self.info_browser_context() is None,
            },
    {
        self.info.browser_context_id.as_ref()
    }

    pub closed spec fn info_browser_context(self) -> Option<Seq<char>> {
        match self.info.browser_context_id {
            Some(b) => Some(b@),
            None => None,
        }
    }

    pub closed spec fn info_opener(self) -> Option<Seq<char>> {
        match self.info.opener_id {
            Some(o) => Some(o@),
            None => None,
        }
    }

    pub fn info(&self) -> (r: &TargetInfo)
        ensures
            r.target_id@ == self.tid(),
            r.target_type@ == self.ttype(),
    {
        &self.info
    }

    /// The target that opened this one; top-level targets have none.
    pub fn opener(&self) -> (r: Option<&String>)
        ensures
            match r {
                Some(o) => self.info_opener() == Some(o@),
                None => self.info_opener() is None,
            },
    {
        self.info.opener_id.as_ref()
    }

    /// Whether this target was marked closed.
    pub fn is_closed(&self) -> (r: bool)
        ensures
            r == self.closed(),
    {
        self.is_closed
    }

    /// Mark the target closed; a closed target's waiters are failed by
    /// the handler.
    pub fn close(&mut self)
        ensures
            final(self).closed(),
            final(self).wf() == old(self).wf(),
            final(self).rank() == old(self).rank(),
            final(self).tid() == old(self).tid(),
            final(self).cmd_timeout() == old(self).cmd_timeout(),
            final(self).session() == old(self).session(),
            final(self).calls_like_unchanged(*old(self)),
    {
        self.is_closed = true;
    }

    /// Ask the target to run its initialization pipeline.
    pub fn initialize(&mut self)
        ensures
            final(self).initialize_requested(),
            final(self).rank() == old(self).rank(),
            final(self).wf() == old(self).wf(),
            final(self).tid() == old(self).tid(),
            final(self).ttype() == old(self).ttype(),
            final(self).cmd_timeout() == old(self).cmd_timeout(),
            final(self).session() == old(self).session(),
            final(self).closed() == old(self).closed(),
            final(self).initiator_v() == old(self).initiator_v(),
            final(self).calls_like_unchanged(*old(self)),
    {
        self.initialize = true;
    }

    /// Remember who asked for this page; initialization starts.
    pub fn set_initiator(&mut self, w: WaiterId)
        ensures
            final(self).initiator_v() == Some(w),
            final(self).initialize_requested(),
            final(self).rank() == old(self).rank(),
            final(self).wf() == old(self).wf(),
    {
        self.initiator = Some(w);
        self.initialize = true;
    }

    /// Feed one message from the page handle.
    pub fn push_message(&mut self, msg: TargetMessage)
        ensures
            final(self).incoming_v() == old(self).incoming_v().push(msg),
            final(self).wf() == old(self).wf(),
            final(self).rank() == old(self).rank(),
            final(self).queued() == old(self).queued(),
            final(self).parked() == old(self).parked(),
            final(self).tid() == old(self).tid(),
            final(self).cmd_timeout() == old(self).cmd_timeout(),
            final(self).session() == old(self).session(),
            final(self).closed() == old(self).closed(),
            final(self).calls_like_unchanged(*old(self)),
    {
        self.incoming.push(msg);
    }

    pub closed spec fn main_id_v(self) -> Option<Seq<char>> {
        self.frame_manager.main_id()
    }

    /// The emulation settings this target was created with.
    pub closed spec fn emu(self) -> Viewport {
        self.emulation_manager.viewport
    }

    /// The main frame exists and has finished loading.
    pub open spec fn main_loaded_v(self) -> bool {
        match self.main_view() {
            Some(f) => frame_loaded(f),
            None => false,
        }
    }

    /// Nothing is owed from a poll right now: the target is inert or
    /// closed, blocked mid-pipeline on its session or an outstanding
    /// call, or initialized with no queued work, no unanswered message,
    /// no resolvable waiter or initiator, and no navigation that
    /// completes or expires.
    pub open spec fn quiescent(self, now: u64) -> bool {
        ||| !self.initialize_requested()
        ||| self.closed()
        ||| {
            &&& 1 <= self.rank() <= 4
            &&& ((self.rank() == 1 && self.session() is None) || (self.chain() matches Some(c)
                && c.emitted() == c.acked() + 1 && now < c.deadline() && !c.timeout_reported()))
        }
        ||| {
            &&& self.rank() == 5
            &&& self.queued().len() == 0
            &&& self.incoming_v().len() == 0
            &&& (self.initiator_v() is Some ==> !(self.main_loaded_v() && self.session()
                is Some))
            &&& (self.main_loaded_v() ==> self.parked().len() == 0)
            &&& (forall|i: int|
                0 <= i < self.navigations().len() ==> !self.fm().nav_completes(
                    #[trigger] self.navigations()[i],
                ) && now < self.navigations()[i].deadline)
        }
    }

    /// The message `m` was the first answerable message of the inbox:
    /// everything before it was a navigation waiter, now parked, and
    /// the inbox continues after it.
    pub open spec fn took_from_incoming(self, post: Target, m: TargetMessage) -> bool {
        exists|k: int|
            {
                &&& 0 <= k < self.incoming_v().len()
                &&& (#[trigger] self.incoming_v()[k]) == m
                &&& post.incoming_v() == self.incoming_v().skip(k + 1)
                &&& (forall|j: int|
                    0 <= j < k ==> (#[trigger] self.incoming_v()[j]) matches
                        TargetMessage::WaitForNavigation(_))
                &&& post.parked() == self.parked() + self.incoming_v().take(k).map_values(
                    |mm: TargetMessage| waiter_of(mm),
                )
            }
    }

    /// Route an event to the sub-manager its domain names; unhandled
    /// events and malformed parameters change nothing.
    pub fn on_event(&mut self, ev: &CdpEvent)
        requires
            old(self).wf(),
        ensures
            final(self).wf(),
            final(self).frames() == frames_after_event(
                old(self).frames(),
                ev.method@,
                ev.params@,
            ),
            final(self).records() == records_after_event(
                old(self).records(),
                ev.method@,
                ev.params@,
            ),
            final(self).main_id_v() == old(self).main_id_v(),
            final(self).navigations() == old(self).navigations(),
            final(self).rank() == old(self).rank(),
            final(self).chain() == old(self).chain(),
            final(self).session() == old(self).session(),
            final(self).closed() == old(self).closed(),
            final(self).tid() == old(self).tid(),
            final(self).ttype() == old(self).ttype(),
            final(self).emu() == old(self).emu(),
            final(self).queued() == old(self).queued(),
            final(self).incoming_v() == old(self).incoming_v(),
            final(self).parked() == old(self).parked(),
            final(self).initiator_v() == old(self).initiator_v(),
            final(self).initialize_requested() == old(self).initialize_requested(),
            final(self).cmd_timeout() == old(self).cmd_timeout(),
    {
        self.route_frame_event(ev);
        self.route_network_event(ev);
    }

    /// The page-domain part of event routing.
    fn route_frame_event(&mut self, ev: &CdpEvent)
        requires
            old(self).wf(),
        ensures
            final(self).wf(),
            final(self).frames() == frames_after_event(
                old(self).frames(),
                ev.method@,
                ev.params@,
            ),
            final(self).main_id_v() == old(self).main_id_v(),
            final(self).navigations() == old(self).navigations(),
            final(self).records() == old(self).records(),
            final(self).rank() == old(self).rank(),
            final(self).chain() == old(self).chain(),
            final(self).session() == old(self).session(),
            final(self).closed() == old(self).closed(),
            final(self).tid() == old(self).tid(),
            final(self).ttype() == old(self).ttype(),
            final(self).emu() == old(self).emu(),
            final(self).queued() == old(self).queued(),
            final(self).incoming_v() == old(self).incoming_v(),
            final(self).parked() == old(self).parked(),
            final(self).initiator_v() == old(self).initiator_v(),
            final(self).initialize_requested() == old(self).initialize_requested(),
            final(self).cmd_timeout() == old(self).cmd_timeout(),
    {
        proof {
            reveal_strlit("Page.frameAttached");
            reveal_strlit("Page.frameDetached");
            reveal_strlit("Page.frameNavigated");
            reveal_strlit("Page.navigatedWithinDocument");
            reveal_strlit("Page.frameStartedLoading");
            reveal_strlit("Page.lifecycleEvent");
        }
        let method = ev.method.as_str();
        let params = ev.params.as_str();
        if str_eq(method, "Page.frameAttached") {
            match get_str_field(params, "frameId") {
                Some(fid) => {
                    let parent = get_str_field(params, "parentFrameId");
                    self.frame_manager.on_frame_attached(fid, parent);
                },
                None => {},
            }
        } else if str_eq(method, "Page.frameDetached") {
            match get_str_field(params, "frameId") {
                Some(fid) => {
                    self.frame_manager.on_frame_detached(fid.as_str());
                },
                None => {},
            }
        } else if str_eq(method, "Page.frameNavigated") {
            match (
                get_str_field(params, "id"),
                get_str_field(params, "url"),
                get_str_field(params, "loaderId"),
            ) {
                (Some(fid), Some(url), Some(loader)) => {
                    self.frame_manager.on_frame_navigated(fid.as_str(), url, loader);
                },
                _ => {},
            }
        } else if str_eq(method, "Page.navigatedWithinDocument") {
            match (get_str_field(params, "frameId"), get_str_field(params, "url")) {
                (Some(fid), Some(url)) => {
                    self.frame_manager.on_frame_navigated_within_document(fid.as_str(), url);
                },
                _ => {},
            }
        } else if str_eq(method, "Page.frameStartedLoading") {
            match get_str_field(params, "frameId") {
                Some(fid) => {
                    self.frame_manager.on_frame_started_loading(fid.as_str());
                },
                None => {},
            }
        } else if str_eq(method, "Page.lifecycleEvent") {
            match (
                get_str_field(params, "frameId"),
                get_str_field(params, "loaderId"),
                get_str_field(params, "name"),
            ) {
                (Some(fid), Some(loader), Some(name)) => {
                    self.frame_manager.on_page_lifecycle_event(
                        fid.as_str(),
                        loader.as_str(),
                        name.as_str(),
                    );
                },
                _ => {},
            }
        }
    }

    /// The network-domain part of event routing.
    fn route_network_event(&mut self, ev: &CdpEvent)
        requires
            old(self).wf(),
        ensures
            final(self).wf(),
            final(self).records() == records_after_event(
                old(self).records(),
                ev.method@,
                ev.params@,
            ),
            final(self).frames() == old(self).frames(),
            final(self).main_id_v() == old(self).main_id_v(),
            final(self).navigations() == old(self).navigations(),
            final(self).rank() == old(self).rank(),
            final(self).chain() == old(self).chain(),
            final(self).session() == old(self).session(),
            final(self).closed() == old(self).closed(),
            final(self).tid() == old(self).tid(),
            final(self).ttype() == old(self).ttype(),
            final(self).emu() == old(self).emu(),
            final(self).queued() == old(self).queued(),
            final(self).incoming_v() == old(self).incoming_v(),
            final(self).parked() == old(self).parked(),
            final(self).initiator_v() == old(self).initiator_v(),
            final(self).initialize_requested() == old(self).initialize_requested(),
            final(self).cmd_timeout() == old(self).cmd_timeout(),
    {
        proof {
            reveal_strlit("Network.requestWillBeSent");
            reveal_strlit("Network.responseReceived");
            reveal_strlit("Network.loadingFinished");
            reveal_strlit("Network.loadingFailed");
            reveal_strlit("Network.requestServedFromCache");
        }
        let method = ev.method.as_str();
        let params = ev.params.as_str();
        if str_eq(method, "Network.requestWillBeSent") {
            match (get_str_field(params, "requestId"), get_str_field(params, "url")) {
                (Some(rid), Some(url)) => {
                    self.network_manager.on_request_will_be_sent(rid.as_str(), url);
                },
                _ => {},
            }
        } else if str_eq(method, "Network.responseReceived") {
            match (get_str_field(params, "requestId"), get_num_field(params, "status")) {
                (Some(rid), Some(status)) => {
                    self.network_manager.on_response_received(rid.as_str(), status);
                },
                _ => {},
            }
        } else if str_eq(method, "Network.loadingFinished") {
            match get_str_field(params, "requestId") {
                Some(rid) => {
                    self.network_manager.on_network_loading_finished(rid.as_str());
                },
                None => {},
            }
        } else if str_eq(method, "Network.loadingFailed") {
            match get_str_field(params, "requestId") {
                Some(rid) => {
                    self.network_manager.on_network_loading_failed(rid.as_str());
                },
                None => {},
            }
        } else if str_eq(method, "Network.requestServedFromCache") {
            match get_str_field(params, "requestId") {
                Some(rid) => {
                    self.network_manager.on_request_served_from_cache(rid.as_str());
                },
                None => {},
            }
        }
    }

    /// A response to a call this target issued: the init chain advances
    /// on a matching method, and a frame tree snapshot is ingested.
    pub fn on_response(&mut self, resp: &Response, method: &str)
        requires
            old(self).wf(),
        ensures
            final(self).wf(),
            final(self).rank() == old(self).rank(),
            final(self).session() == old(self).session(),
            final(self).closed() == old(self).closed(),
            final(self).tid() == old(self).tid(),
            final(self).ttype() == old(self).ttype(),
            final(self).emu() == old(self).emu(),
            final(self).records() == old(self).records(),
            final(self).navigations() == old(self).navigations(),
            final(self).queued() == old(self).queued(),
            final(self).incoming_v() == old(self).incoming_v(),
            final(self).parked() == old(self).parked(),
            final(self).initiator_v() == old(self).initiator_v(),
            final(self).initialize_requested() == old(self).initialize_requested(),
            final(self).cmd_timeout() == old(self).cmd_timeout(),
            old(self).chain() is None ==> final(self).chain() is None,
            old(self).chain() matches Some(c) ==> final(self).chain() matches Some(c2)
                && c2.entries() == c.entries() && c2.deadline() == c.deadline()
                && c2.timeout_reported() == c.timeout_reported() && (if (c.emitted() == c.acked()
                + 1 && method@ == c.entries()[c.acked()].method@) {
                c2.acked() == c.acked() + 1 && c2.emitted() == c.acked() + 1
            } else {
                c2 == c
            }),
            ({
                if method@ == "Page.getFrameTree"@ {
                    match resp.result {
                        Some(res) => match json_str_field(res@, "id"@) {
                            Some(fid) => final(self).frames() == crate::frame::frames_after_tree(
                                old(self).frames(),
                                fid,
                                json_str_field(res@, "url"@),
                                json_str_field(res@, "loaderId"@),
                            ) && final(self).main_id_v() == Some(fid),
                            None => final(self).frames() == old(self).frames()
                                && final(self).main_id_v() == old(self).main_id_v(),
                        },
                        None => final(self).frames() == old(self).frames()
                            && final(self).main_id_v() == old(self).main_id_v(),
                    }
                } else {
                    final(self).frames() == old(self).frames()
                        && final(self).main_id_v() == old(self).main_id_v()
                }
            }),
    {
        match self.init_state.commands_mut() {
            Some(cmds) => {
                cmds.received_response(method);
            },
            None => {},
        }
        if str_eq(method, "Page.getFrameTree") {
            match &resp.result {
                Some(res) => {
                    match get_str_field(res.as_str(), "id") {
                        Some(fid) => {
                            let url = get_str_field(res.as_str(), "url");
                            let loader = get_str_field(res.as_str(), "loaderId");
                            self.frame_manager.on_frame_tree(fid.as_str(), url, loader);
                        },
                        None => {},
                    }
                },
                None => {},
            }
        }
    }

    /// Ask to navigate: the navigation is registered with the frame
    /// manager and the request queued for the handler, carrying this
    /// target's session.
    pub fn goto(&mut self, req: FrameNavigationRequest)
        requires
            old(self).wf(),
            old(self).fm().next_navigation_id() < u64::MAX,
        ensures
            final(self).wf(),
            final(self).rank() == old(self).rank(),
            final(self).frames() == old(self).frames(),
            final(self).records() == old(self).records(),
            final(self).session() == old(self).session(),
            final(self).tid() == old(self).tid(),
            final(self).cmd_timeout() == old(self).cmd_timeout(),
            final(self).closed() == old(self).closed(),
            final(self).incoming_v() == old(self).incoming_v(),
            final(self).parked() == old(self).parked(),
            final(self).initiator_v() == old(self).initiator_v(),
            final(self).initialize_requested() == old(self).initialize_requested(),
            final(self).main_id_v() == old(self).main_id_v(),
            final(self).navigations().len() == old(self).navigations().len() + 1,
            final(self).navigations() == old(self).navigations().push(
                NavigationView {
                    id: NavigationId(old(self).fm().next_navigation_id()),
                    url: req.url@,
                    deadline: req.deadline,
                    issued_loader: match old(self).main_view() {
                        Some(f) => f.loader_id,
                        None => None,
                    },
                },
            ),
            final(self).queued().len() == old(self).queued().len() + 1,
            final(self).queued()[final(self).queued().len() - 1] matches
                TargetEvent::NavigationRequest(id, r2) && id == NavigationId(
                old(self).fm().next_navigation_id(),
            ) && r2.method@ == "Page.navigate"@ && r2.params@ == req.params@ && (match old(
                self,
            ).session() {
                Some(sv) => r2.session_id matches Some(s2) && s2@ == sv,
                None => r2.session_id is None,
            }),
            forall|i: int|
                0 <= i < old(self).queued().len() ==> final(self).queued()[i] == old(
                    self,
                ).queued()[i],
    {
        let (id, request) = self.frame_manager.goto(req);
        let request = match &self.session_id {
            Some(s) => Request {
                method: request.method,
                session_id: Some(s.0.clone()),
                params: request.params,
            },
            None => request,
        };
        self.queued_events.push(TargetEvent::NavigationRequest(id, request));
        proof {
            assert(final(self).queued() =~= old(self).queued().push(
                self.queued_events@[self.queued_events@.len() - 1],
            ));
        }
    }

    /// The calls that finish bringing a page target up.
    pub fn page_init_commands(now: u64, per_command_timeout: u64) -> (r: CommandChain)
        requires
            now + per_command_timeout * 3 <= u64::MAX,
        ensures
            r.wf(),
            r.acked() == 0,
            r.emitted() == 0,
            !r.timeout_reported(),
            r.deadline() == now + per_command_timeout * 3,
            r.entries().len() == 3,
            r.entries()[0].method@ == "Target.setAutoAttach"@,
            r.entries()[0].params@
                == "{\"autoAttach\":true,\"waitForDebuggerOnStart\":true,\"flatten\":true}"@,
            r.entries()[1].method@ == "Performance.enable"@,
            r.entries()[1].params@ == "{}"@,
            r.entries()[2].method@ == "Log.enable"@,
            r.entries()[2].params@ == "{}"@,
    {
        let mut items: Vec<CommandEntry> = Vec::new();
        items.push(
            CommandEntry::new(
                "Target.setAutoAttach".to_owned(),
                "{\"autoAttach\":true,\"waitForDebuggerOnStart\":true,\"flatten\":true}".to_owned(),
            ),
        );
        items.push(CommandEntry::new("Performance.enable".to_owned(), "{}".to_owned()));
        items.push(CommandEntry::new("Log.enable".to_owned(), "{}".to_owned()));
        CommandChain::new(items, now, per_command_timeout)
    }

    /// Drive the initialization pipeline as far as it goes right now.
    fn advance_init(&mut self, now: u64) -> (r: InitStep)
        requires
            old(self).wf(),
            old(self).initialize_requested(),
            now + old(self).cmd_timeout() * 5 <= u64::MAX,
        ensures
            final(self).wf(),
            final(self).rank() >= old(self).rank(),
            final(self).tid() == old(self).tid(),
            final(self).ttype() == old(self).ttype(),
            final(self).session() == old(self).session(),
            final(self).fm() == old(self).fm(),
            final(self).records() == old(self).records(),
            final(self).emu() == old(self).emu(),
            final(self).queued() == old(self).queued(),
            final(self).incoming_v() == old(self).incoming_v(),
            final(self).parked() == old(self).parked(),
            final(self).initiator_v() == old(self).initiator_v(),
            final(self).initialize_requested() == old(self).initialize_requested(),
            final(self).cmd_timeout() == old(self).cmd_timeout(),
            r matches InitStep::Yield(ev) ==> ((ev matches TargetEvent::Request(_)) || (
            ev matches TargetEvent::RequestTimeout(_))),
            r matches InitStep::Yield(ev) ==> (ev matches TargetEvent::Request(req) ==> (if old(
                self,
            ).rank() == 0 {
                req.method@ == "Target.attachToTarget"@ && req.params@ == attach_params(
                    old(self).tid(),
                ) && req.session_id is None && final(self).rank() == 1
            } else {
                final(self).chain() matches Some(c) && c.emitted() == c.acked() + 1
                    && req.method@ == c.entries()[c.acked()].method@ && req.params@
                    == c.entries()[c.acked()].params@ && (match old(self).session() {
                    Some(sv) => req.session_id matches Some(s2) && s2@ == sv,
                    None => req.session_id is None,
                })
            })),
            r matches InitStep::Yield(ev) ==> (ev matches TargetEvent::RequestTimeout(_)
                ==> final(self).closed()),
            r matches InitStep::Yield(ev) ==> (ev matches TargetEvent::Request(_)
                ==> final(self).closed() == old(self).closed()),
            old(self).rank() == 0 ==> (r matches InitStep::Yield(TargetEvent::Request(req))
                && req.method@ == "Target.attachToTarget"@ && req.params@ == attach_params(
                old(self).tid(),
            ) && req.session_id is None && final(self).rank() == 1),
            old(self).rank() == 1 && old(self).session() is None ==> r is Blocked && *final(self)
                == *old(self),
            r is Blocked ==> final(self).closed() == old(self).closed() && 1 <= final(self).rank()
                <= 4 && ((final(self).rank() == 1 && final(self).session() is None)
                || (final(self).chain() matches Some(c) && c.emitted() == c.acked() + 1 && now
                < c.deadline() && !c.timeout_reported())),
            r is Through ==> final(self).rank() == 5 && final(self).closed() == old(
                self,
            ).closed(),
        decreases 5 - init_rank(self.init_state),
    {
        let timeout = self.command_timeout;
        proof {
            assert(timeout * 1 <= timeout * 5 && timeout * 2 <= timeout * 5 && timeout * 3
                <= timeout * 5) by (nonlinear_arith);
        }
        match &self.init_state {
            TargetInit::AttachToTarget => {
                self.init_state = TargetInit::InitializingFrame(
                    FrameManager::init_commands(now, timeout),
                );
                let mut params = "{\"targetId\":\"".to_owned();
                params.append(self.info.target_id.as_str());
                params.append("\",\"flatten\":true}");
                proof {
                    assert(params@ =~= attach_params(self.tid()));
                }
                let req = Request::new("Target.attachToTarget".to_owned(), params);
                return InitStep::Yield(TargetEvent::Request(req));
            },
            TargetInit::Initialized => {
                return InitStep::Through;
            },
            TargetInit::InitializingFrame(_) => {
                if self.session_id.is_none() {
                    return InitStep::Blocked;
                }
            },
            _ => {},
        }
        let stage: u8;
        let pollres: ChainPoll;
        match &mut self.init_state {
            TargetInit::InitializingFrame(c) => {
                pollres = c.poll(now);
                stage = 1;
            },
            TargetInit::InitializingNetwork(c) => {
                pollres = c.poll(now);
                stage = 2;
            },
            TargetInit::InitializingPage(c) => {
                pollres = c.poll(now);
                stage = 3;
            },
            TargetInit::InitializingEmulation(c) => {
                pollres = c.poll(now);
                stage = 4;
            },
            _ => {
                proof {
                    assert(false);
                }
                pollres = ChainPoll::Done;
                stage = 0;
            },
        }
        assert(stage as int == init_rank(self.init_state));
        match pollres {
            ChainPoll::Emit(e) => {
                let req = match &self.session_id {
                    Some(s) => Request::with_session(e.method, e.params, s.0.clone()),
                    None => Request::new(e.method, e.params),
                };
                InitStep::Yield(TargetEvent::Request(req))
            },
            ChainPoll::Pending => InitStep::Blocked,
            ChainPoll::TimedOut(d) => {
                self.is_closed = true;
                InitStep::Yield(TargetEvent::RequestTimeout(d))
            },
            ChainPoll::Done => {
                let next = if stage == 1 {
                    TargetInit::InitializingNetwork(NetworkManager::init_commands(now, timeout))
                } else if stage == 2 {
                    TargetInit::InitializingPage(Target::page_init_commands(now, timeout))
                } else if stage == 3 {
                    TargetInit::InitializingEmulation(
                        self.emulation_manager.init_commands(now, timeout),
                    )
                } else {
                    TargetInit::Initialized
                };
                self.init_state = next;
                self.advance_init(now)
            },
        }
    }

    /// Advance this target and report at most one event: pipeline
    /// progress first, then queued work, then page-handle messages,
    /// then navigation outcomes.
    /// Advance this target and report at most one event: pipeline
    /// progress first, then queued work, then page-handle messages,
    /// then navigation outcomes. A `None` means nothing was owed:
    /// the target is quiescent for this instant.
    pub fn poll(&mut self, now: u64) -> (r: Option<TargetEvent>)
        requires
            old(self).wf(),
            now + old(self).cmd_timeout() * 5 <= u64::MAX,
        ensures
            final(self).wf(),
            old(self).rank() <= final(self).rank() <= 5,
            final(self).tid() == old(self).tid(),
            final(self).ttype() == old(self).ttype(),
            final(self).emu() == old(self).emu(),
            final(self).cmd_timeout() == old(self).cmd_timeout(),
            final(self).session() == old(self).session(),
            final(self).records() == old(self).records(),
            final(self).frames() == old(self).frames(),
            final(self).main_id_v() == old(self).main_id_v(),
            final(self).initialize_requested() == old(self).initialize_requested(),
            !old(self).initialize_requested() ==> r is None && *final(self) == *old(self),
            old(self).closed() ==> r is None && *final(self) == *old(self),
            !(r matches Some(TargetEvent::RequestTimeout(_))) ==> final(self).closed() == old(
                self,
            ).closed(),
            !(r matches Some(TargetEvent::PageReady(_))) ==> final(self).initiator_v() == old(
                self,
            ).initiator_v(),
            !(r matches Some(TargetEvent::NavigationResult(_))) ==> final(self).navigations()
                == old(self).navigations(),
            !(r matches Some(TargetEvent::NavigationRequest(_, _))) ==> final(self).queued()
                == old(self).queued(),
            old(self).initialize_requested() && !old(self).closed() && old(self).rank() == 0 ==> (
            r matches Some(TargetEvent::Request(req)) && req.method@ == "Target.attachToTarget"@
                && req.params@ == attach_params(old(self).tid()) && req.session_id is None
                && final(self).rank() == 1),
            old(self).initialize_requested() && !old(self).closed() && old(self).rank() == 1
                && old(self).session() is None ==> r is None && *final(self) == *old(self),
            r is None ==> final(self).quiescent(now),
            r matches Some(TargetEvent::RequestTimeout(_)) ==> final(self).closed(),
            r matches Some(TargetEvent::Request(req)) ==> (if old(self).rank() == 0 {
                req.method@ == "Target.attachToTarget"@ && req.params@ == attach_params(
                    old(self).tid(),
                ) && req.session_id is None && final(self).rank() == 1
            } else {
                final(self).chain() matches Some(c) && c.emitted() == c.acked() + 1
                    && req.method@ == c.entries()[c.acked()].method@ && req.params@
                    == c.entries()[c.acked()].params@ && (match old(self).session() {
                    Some(sv) => req.session_id matches Some(s2) && s2@ == sv,
                    None => req.session_id is None,
                })
            }),
            r matches Some(TargetEvent::NavigationRequest(id, rq)) ==> ({
                &&& old(self).queued().len() > 0
                &&& old(self).queued()[0] == TargetEvent::NavigationRequest(id, rq)
                &&& final(self).queued() == old(self).queued().drop_first()
            }),
            r matches Some(TargetEvent::FrameLoaded(w, res)) ==> ({
                &&& final(self).rank() == 5
                &&& (match old(self).main_view() {
                    Some(f) => frame_loaded(f) && (match res {
                        Ok(u) => f.url == Some(u@),
                        Err(e) => f.url is None && (e matches CdpError::NotFound),
                    }),
                    None => false,
                })
                &&& ({
                    ||| (old(self).parked().len() > 0 && w == old(self).parked().last()
                        && final(self).parked() == old(self).parked().drop_last()
                        && final(self).incoming_v() == old(self).incoming_v())
                    ||| old(self).took_from_incoming(
                        *final(self),
                        TargetMessage::WaitForNavigation(w),
                    )
                })
            }),
            r matches Some(TargetEvent::MainFrameReply(w, mf)) ==> ({
                &&& old(self).took_from_incoming(*final(self), TargetMessage::MainFrame(w))
                &&& (match old(self).main_view() {
                    Some(f) => mf matches Some(m) && m@ == f.id,
                    None => mf is None,
                })
            }),
            r matches Some(TargetEvent::UrlReply(w, u)) ==> ({
                &&& old(self).took_from_incoming(*final(self), TargetMessage::Url(w))
                &&& (match old(self).main_view() {
                    Some(f) => (match u {
                        Some(us) => f.url == Some(us@),
                        None => f.url is None,
                    }),
                    None => u is None,
                })
            }),
            r matches Some(TargetEvent::Command(cmd)) ==> old(self).took_from_incoming(
                *final(self),
                TargetMessage::Command(cmd),
            ),
            r matches Some(TargetEvent::PageReady(w)) ==> ({
                &&& old(self).initiator_v() == Some(w)
                &&& final(self).initiator_v() is None
                &&& old(self).main_loaded_v()
                &&& old(self).session() is Some
                &&& final(self).incoming_v() == old(self).incoming_v()
                &&& final(self).parked() == old(self).parked()
            }),
            r matches Some(TargetEvent::NavigationResult(res))
                ==> final(self).incoming_v().len() == 0 && (exists|i: int|
                {
                    &&& 0 <= i < old(self).navigations().len()
                    &&& final(self).navigations() == old(self).navigations().remove(i)
                    &&& (match res {
                        Ok(ok) => old(self).fm().nav_completes(old(self).navigations()[i])
                            && ok.id == old(self).navigations()[i].id,
                        Err(NavigationError::Timeout { id, deadline }) => now >= old(
                            self,
                        ).navigations()[i].deadline && id == old(self).navigations()[i].id,
                        Err(NavigationError::TransportClosed { .. }) => false,
                    })
                }),
    {
        if !self.initialize {
            return None;
        }
        if self.is_closed {
            return None;
        }
        match self.advance_init(now) {
            InitStep::Yield(ev) => {
                return Some(ev);
            },
            InitStep::Blocked => {
                return None;
            },
            InitStep::Through => {},
        }
        if self.queued_events.len() > 0 {
            let ev = self.queued_events.remove(0);
            proof {
                assert(ev == old(self).queued()[0]);
                assert(old(self).queued()[0] matches TargetEvent::NavigationRequest(_, _));
                assert(self.queued() =~= old(self).queued().drop_first());
            }
            return Some(ev);
        }
        let main_loaded: bool;
        let main_url: Option<String>;
        let main_id: Option<String>;
        match self.frame_manager.main_frame() {
            Some(f) => {
                main_loaded = f.is_loaded();
                main_url = match &f.url {
                    Some(u) => Some(u.clone()),
                    None => None,
                };
                main_id = Some(f.id.clone());
            },
            None => {
                main_loaded = false;
                main_url = None;
                main_id = None;
            },
        }
        if main_loaded {
            match self.initiator {
                Some(w) => {
                    if self.session_id.is_some() {
                        self.initiator = None;
                        return Some(TargetEvent::PageReady(w));
                    }
                },
                None => {},
            }
            if self.wait_until_frame_loaded.len() > 0 {
                match self.wait_until_frame_loaded.pop() {
                    Some(w) => {
                        let res: Result<String, CdpError> = match &main_url {
                            Some(u) => Ok(u.clone()),
                            None => Err(CdpError::NotFound),
                        };
                        proof {
                            assert(self.parked() =~= old(self).parked().drop_last());
                        }
                        return Some(TargetEvent::FrameLoaded(w, res));
                    },
                    None => {},
                }
            }
        }
        let ghost mut processed: Seq<TargetMessage> = Seq::empty();
        proof {
            assert(old(self).incoming_v() =~= processed + self.incoming@);
            assert(self.parked() =~= old(self).parked() + processed.map_values(
                |mm: TargetMessage| waiter_of(mm),
            ));
        }
        while self.incoming.len() > 0
            invariant
                self.wf(),
                old(self).incoming_v() == processed + self.incoming@,
                self.parked() == old(self).parked() + processed.map_values(
                    |mm: TargetMessage| waiter_of(mm),
                ),
                forall|j: int|
                    0 <= j < processed.len() ==> (#[trigger] processed[j]) matches
                        TargetMessage::WaitForNavigation(_),
                processed.len() > 0 ==> !main_loaded,
                self.rank() == 5,
                self.initialize_requested(),
                old(self).initialize_requested(),
                !old(self).closed(),
                old(self).rank() >= 1,
                !(old(self).rank() == 1 && old(self).session() is None),
                self.rank() >= old(self).rank(),
                self.tid() == old(self).tid(),
                self.ttype() == old(self).ttype(),
                self.emu() == old(self).emu(),
                self.cmd_timeout() == old(self).cmd_timeout(),
                self.session() == old(self).session(),
                self.records() == old(self).records(),
                self.fm() == old(self).fm(),
                self.queued() == old(self).queued(),
                old(self).queued().len() == 0,
                self.closed() == old(self).closed(),
                self.initiator_v() == old(self).initiator_v(),
                main_loaded ==> self.parked().len() == 0,
                main_loaded ==> (self.initiator_v() is None || self.session() is None),
                main_loaded == (match old(self).main_view() {
                    Some(f) => frame_loaded(f),
                    None => false,
                }),
                (match old(self).main_view() {
                    Some(f) => (match main_url {
                        Some(u) => f.url == Some(u@),
                        None => f.url is None,
                    }),
                    None => main_url is None,
                }),
                (match old(self).main_view() {
                    Some(f) => main_id matches Some(m) && m@ == f.id,
                    None => main_id is None,
                }),
            decreases self.incoming.len(),
        {
            let msg = self.incoming.remove(0);
            let ghost k = processed.len() as int;
            proof {
                assert(old(self).incoming_v()[k] == msg);
                assert(old(self).incoming_v().take(k) =~= processed);
                processed = processed.push(msg);
                assert(old(self).incoming_v() =~= processed + self.incoming@);
                assert(self.incoming@ =~= old(self).incoming_v().skip(k + 1));
            }
            match msg {
                TargetMessage::Command(cmd) => {
                    proof {
                        assert(old(self).took_from_incoming(*self, msg)) by {
                            assert(old(self).incoming_v()[k] == msg);
                        }
                    }
                    return Some(TargetEvent::Command(cmd));
                },
                TargetMessage::MainFrame(w) => {
                    let reply = match &main_id {
                        Some(m) => Some(m.clone()),
                        None => None,
                    };
                    proof {
                        assert(old(self).took_from_incoming(*self, msg)) by {
                            assert(old(self).incoming_v()[k] == msg);
                        }
                    }
                    return Some(TargetEvent::MainFrameReply(w, reply));
                },
                TargetMessage::Url(w) => {
                    let reply = match &main_url {
                        Some(u) => Some(u.clone()),
                        None => None,
                    };
                    proof {
                        assert(old(self).took_from_incoming(*self, msg)) by {
                            assert(old(self).incoming_v()[k] == msg);
                        }
                    }
                    return Some(TargetEvent::UrlReply(w, reply));
                },
                TargetMessage::WaitForNavigation(w) => {
                    if main_loaded {
                        let res: Result<String, CdpError> = match &main_url {
                            Some(u) => Ok(u.clone()),
                            None => Err(CdpError::NotFound),
                        };
                        proof {
                            assert(old(self).took_from_incoming(*self, msg)) by {
                                assert(old(self).incoming_v()[k] == msg);
                            }
                        }
                        return Some(TargetEvent::FrameLoaded(w, res));
                    } else {
                        self.wait_until_frame_loaded.push(w);
                        proof {
                            assert(self.parked() =~= old(self).parked()
                                + processed.map_values(|mm: TargetMessage| waiter_of(mm)));
                        }
                    }
                },
            }
        }
        let ghost prefm = self.frame_manager;
        match self.frame_manager.poll(now) {
            Some(FrameEvent::NavigationResult(res)) => {
                proof {
                    let i = choose|i: int|
                        {
                            &&& 0 <= i < prefm.navigations().len()
                            &&& self.frame_manager.navigations() == prefm.navigations().remove(i)
                            &&& match res {
                                Ok(ok) => {
                                    &&& prefm.nav_completes(prefm.navigations()[i])
                                    &&& ok.id == prefm.navigations()[i].id
                                    &&& match prefm.main_frame_view() {
                                        Some(f) => (match ok.url {
                                            Some(u) => f.url == Some(u@),
                                            None => f.url is None,
                                        }),
                                        None => false,
                                    }
                                },
                                Err(NavigationError::Timeout { id, deadline }) => {
                                    &&& !prefm.nav_completes(prefm.navigations()[i])
                                    &&& now >= prefm.navigations()[i].deadline
                                    &&& id == prefm.navigations()[i].id
                                    &&& deadline.now == now
                                    &&& deadline.deadline == prefm.navigations()[i].deadline
                                },
                                Err(NavigationError::TransportClosed { .. }) => false,
                            }
                        };
                    assert({
                        &&& 0 <= i < old(self).navigations().len()
                        &&& self.navigations() == old(self).navigations().remove(i)
                        &&& (match res {
                            Ok(ok) => old(self).fm().nav_completes(old(self).navigations()[i])
                                && ok.id == old(self).navigations()[i].id,
                            Err(NavigationError::Timeout { id, deadline }) => now >= old(
                                self,
                            ).navigations()[i].deadline && id == old(self).navigations()[i].id,
                            Err(NavigationError::TransportClosed { .. }) => false,
                        })
                    });
                }
                Some(TargetEvent::NavigationResult(res))
            },
            Some(FrameEvent::NavigationRequest(_, _)) => {
                proof {
                    assert(false);
                }
                None
            },
            None => {
                proof {
                    assert(self.main_loaded_v() == main_loaded);
                    assert forall|i: int|
                        0 <= i < self.navigations().len() implies !self.fm().nav_completes(
                        #[trigger] self.navigations()[i],
                    ) && now < self.navigations()[i].deadline by {
                        assert(!prefm.nav_completes(prefm.navigations()[i]));
                        assert(self.fm().main_frame_view() == prefm.main_frame_view());
                    }
                    assert(self.quiescent(now));
                }
                None
            },
        }
    }

    /// Ask to navigate, unless the id space is spent.
    pub fn try_goto(&mut self, req: FrameNavigationRequest) -> (ok: bool)
        requires
            old(self).wf(),
        ensures
            final(self).wf(),
            final(self).rank() == old(self).rank(),
            final(self).tid() == old(self).tid(),
            final(self).cmd_timeout() == old(self).cmd_timeout(),
            final(self).session() == old(self).session(),
            ok == (old(self).fm().next_navigation_id() < u64::MAX),
            ok ==> final(self).navigations().len() == old(self).navigations().len() + 1,
            ok ==> final(self).queued().len() == old(self).queued().len() + 1,
            !ok ==> *final(self) == *old(self),
    {
        if self.frame_manager.next_navigation_id_value() < u64::MAX {
            self.goto(req);
            true
        } else {
            false
        }
    }

    /// Take every parked or queued waiter of this target, in inbox
    /// order then parking order then the initiator, so that a fatal
    /// error can fail each of them exactly once.
    pub fn take_pending_waiters(&mut self) -> (r: Vec<WaiterId>)
        requires
            old(self).wf(),
        ensures
            final(self).wf(),
            final(self).rank() == old(self).rank(),
            final(self).tid() == old(self).tid(),
            final(self).ttype() == old(self).ttype(),
            final(self).cmd_timeout() == old(self).cmd_timeout(),
            final(self).session() == old(self).session(),
            final(self).closed() == old(self).closed(),
            final(self).incoming_v().len() == 0,
            final(self).parked().len() == 0,
            final(self).initiator_v() is None,
            final(self).calls_like_unchanged(*old(self)),
            r@ == old(self).incoming_v().map_values(|m: TargetMessage| waiter_of(m)) + old(
                self,
            ).parked() + (match old(self).initiator_v() {
                Some(w) => seq![w],
                None => Seq::<WaiterId>::empty(),
            }),
    {
        let mut out: Vec<WaiterId> = Vec::new();
        let ghost mut taken: Seq<TargetMessage> = Seq::empty();
        proof {
            assert(old(self).incoming_v() =~= taken + self.incoming@);
            assert(out@ =~= taken.map_values(|m: TargetMessage| waiter_of(m)));
        }
        while self.incoming.len() > 0
            invariant
                self.wf(),
                self.rank() == old(self).rank(),
                self.tid() == old(self).tid(),
                self.ttype() == old(self).ttype(),
                self.cmd_timeout() == old(self).cmd_timeout(),
                self.session() == old(self).session(),
                self.closed() == old(self).closed(),
                self.parked() == old(self).parked(),
                self.initiator_v() == old(self).initiator_v(),
                self.calls_like_unchanged(*old(self)),
                old(self).incoming_v() == taken + self.incoming@,
                out@ == taken.map_values(|m: TargetMessage| waiter_of(m)),
            decreases self.incoming.len(),
        {
            let msg = self.incoming.remove(0);
            proof {
                assert(old(self).incoming_v()[taken.len() as int] == msg);
                taken = taken.push(msg);
                assert(old(self).incoming_v() =~= taken + self.incoming@);
            }
            match msg {
                TargetMessage::Command(cmd) => {
                    out.push(cmd.waiter);
                },
                TargetMessage::MainFrame(w) => {
                    out.push(w);
                },
                TargetMessage::Url(w) => {
                    out.push(w);
                },
                TargetMessage::WaitForNavigation(w) => {
                    out.push(w);
                },
            }
            proof {
                assert(out@ =~= taken.map_values(|m: TargetMessage| waiter_of(m)));
            }
        }
        proof {
            assert(taken =~= old(self).incoming_v());
        }
        let ghost parked0 = self.wait_until_frame_loaded@;
        let ghost mut dropped: int = 0;
        while self.wait_until_frame_loaded.len() > 0
            invariant
                self.wf(),
                self.rank() == old(self).rank(),
                self.tid() == old(self).tid(),
                self.ttype() == old(self).ttype(),
                self.cmd_timeout() == old(self).cmd_timeout(),
                self.session() == old(self).session(),
                self.closed() == old(self).closed(),
                self.incoming_v().len() == 0,
                self.initiator_v() == old(self).initiator_v(),
                self.calls_like_unchanged(*old(self)),
                parked0 == old(self).parked(),
                0 <= dropped <= parked0.len(),
                self.parked() == parked0.skip(dropped),
                out@ == old(self).incoming_v().map_values(|m: TargetMessage| waiter_of(m))
                    + parked0.take(dropped),
            decreases self.wait_until_frame_loaded.len(),
        {
            let w = self.wait_until_frame_loaded.remove(0);
            out.push(w);
            proof {
                assert(parked0[dropped] == w);
                dropped = dropped + 1;
                assert(self.parked() =~= parked0.skip(dropped));
                assert(out@ =~= old(self).incoming_v().map_values(
                    |m: TargetMessage| waiter_of(m),
                ) + parked0.take(dropped));
            }
        }
        proof {
            assert(parked0.take(dropped) =~= old(self).parked());
        }
        match self.initiator {
            Some(w) => {
                out.push(w);
                self.initiator = None;
            },
            None => {},
        }
        proof {
            assert(out@ =~= old(self).incoming_v().map_values(|m: TargetMessage| waiter_of(m))
                + old(self).parked() + (match old(self).initiator_v() {
                Some(w) => seq![w],
                None => Seq::<WaiterId>::empty(),
            }));
        }
        out
    }

    /// A bound on how many events one drain of this target can yield;
    /// used by the handler to bound its polling pass.
    pub fn pending_units(&self) -> (r: usize)
        ensures
            r >= 2,
    {
        let mut units: usize = 2;
        units = if units <= usize::MAX - self.queued_events.len() {
            units + self.queued_events.len()
        } else {
            usize::MAX
        };
        units = if units <= usize::MAX - self.incoming.len() {
            units + self.incoming.len()
        } else {
            usize::MAX
        };
        units = if units <= usize::MAX - self.wait_until_frame_loaded.len() {
            units + self.wait_until_frame_loaded.len()
        } else {
            usize::MAX
        };
        let navs = self.frame_manager.pending_navigation_count();
        units = if units <= usize::MAX - navs {
            units + navs
        } else {
            usize::MAX
        };
        units
    }

    pub fn frame_manager_mut(&mut self) -> (r: &mut FrameManager)
        ensures
            *r == old(self).fm(),
            final(self).fm() == *final(r),
            final(self).rank() == old(self).rank(),
            final(self).queued() == old(self).queued(),
    {
        &mut self.frame_manager
    }
}

/// Open corollary of the target's closed invariant: every frame under
/// a well-formed target satisfies the frame invariant, frame ids are
/// unique, and any chain it holds is well formed.
pub proof fn lemma_target_wf_open(t: Target)
    requires
        t.wf(),
    ensures
        forall|i: int| 0 <= i < t.frames().len() ==> crate::frame::frame_wf(#[trigger] t.frames()[i]),
        forall|i: int, j: int|
            0 <= i < j < t.frames().len() ==> t.frames()[i].id != t.frames()[j].id,
        t.chain() matches Some(c) ==> c.wf(),
{
    crate::frame::lemma_fm_wf_open(t.fm());
}

} // verus!
