//! The frame tree of one target: lifecycle tracking, pending
//! navigations, load completion.

use vstd::prelude::*;
use crate::chain::{CommandChain, CommandEntry};
use crate::strutil::str_eq;
use crate::types::{DeadlineExceeded, Request};

verus! {

/// Identifier minted per navigation request, used to tie the eventual
/// outcome back to the caller.
#[derive(Debug, Copy, Clone, PartialEq, Eq, Structural, Hash)]
pub struct NavigationId(pub u64);

/// A navigation asked for by a caller, before it is dispatched.
#[derive(Debug)]
pub struct FrameNavigationRequest {
    /// The url being navigated to.
    pub url: String,
    /// The serialized parameters of the `Page.navigate` call.
    pub params: String,
    /// When the navigation gives up, in milliseconds.
    pub deadline: u64,
}

/// A finished navigation.
#[derive(Debug)]
pub struct NavigationOk {
    pub id: NavigationId,
    /// The url recorded on the main frame when the load completed.
    pub url: Option<String>,
}

/// A navigation that did not finish.
#[derive(Debug)]
pub enum NavigationError {
    /// The deadline passed before the frame finished loading.
    Timeout { id: NavigationId, deadline: DeadlineExceeded },
    /// The transport closed while the navigation was pending.
    TransportClosed { id: NavigationId },
}

/// What the frame manager reports to its target.
#[derive(Debug)]
pub enum FrameEvent {
    NavigationRequest(NavigationId, Request),
    NavigationResult(Result<NavigationOk, NavigationError>),
}

/// One document context in the page.
#[derive(Debug)]
pub struct Frame {
    pub id: String,
    pub parent: Option<String>,
    pub url: Option<String>,
    pub loader_id: Option<String>,
    /// Lifecycle event names observed for the current loader.
    pub lifecycle: Vec<String>,
}

/// The mathematical image of a frame.
pub ghost struct FrameView {
    pub id: Seq<char>,
    pub parent: Option<Seq<char>>,
    pub url: Option<Seq<char>>,
    pub loader_id: Option<Seq<char>>,
    pub lifecycle: Seq<Seq<char>>,
}

impl View for Frame {
    type V = FrameView;

    open spec fn view(&self) -> FrameView {
        FrameView {
            id: self.id@,
            parent: match self.parent {
                Some(p) => Some(p@),
                None => None,
            },
            url: match self.url {
                Some(u) => Some(u@),
                None => None,
            },
            loader_id: match self.loader_id {
                Some(l) => Some(l@),
                None => None,
            },
            lifecycle: self.lifecycle@.map_values(|s: String| s@),
        }
    }
}

/// Lifecycle events are only recorded once a loader is known.
pub open spec fn frame_wf(f: FrameView) -> bool {
    f.lifecycle.len() > 0 ==> f.loader_id is Some
}

/// The `load` milestone has been observed for the frame's current
/// loader.
pub open spec fn frame_loaded(f: FrameView) -> bool {
    exists|k: int| 0 <= k < f.lifecycle.len() && f.lifecycle[k] == "load"@
}

/// A loaded frame has a loader, and the `load` lifecycle event was
/// observed for it: loadedness is never invented.
pub proof fn lemma_loaded_has_loader(f: FrameView)
    requires
        frame_wf(f),
        frame_loaded(f),
    ensures
        f.loader_id is Some,
        exists|k: int| 0 <= k < f.lifecycle.len() && f.lifecycle[k] == "load"@,
{
}

impl Frame {
    pub fn new(id: String, parent: Option<String>) -> (r: Self)
        ensures
            r@ == (FrameView {
                id: id@,
                parent: match parent {
                    Some(p) => Some(p@),
                    None => None,
                },
                url: None,
                loader_id: None,
                lifecycle: Seq::empty(),
            }),
            frame_wf(r@),
    {
        let r = Frame { id, parent, url: None, loader_id: None, lifecycle: Vec::new() };
        proof {
            assert(r@.lifecycle =~= Seq::<Seq<char>>::empty());
        }
        r
    }

    /// Whether the current loader has observed the `load` event.
    pub fn is_loaded(&self) -> (r: bool)
        ensures
            r == frame_loaded(self@),
    {
        let mut i: usize = 0;
        let n = self.lifecycle.len();
        while i < n
            invariant
                i <= n,
                n == self.lifecycle.len(),
                forall|k: int| 0 <= k < i ==> self@.lifecycle[k] != "load"@,
            decreases n - i,
        {
            if str_eq(self.lifecycle[i].as_str(), "load") {
                assert(self@.lifecycle[i as int] == "load"@);
                return true;
            }
            i = i + 1;
        }
        false
    }
}

/// An in-flight navigation being watched by the manager.
#[derive(Debug)]
struct Navigation {
    id: NavigationId,
    url: String,
    deadline: u64,
    /// The main frame's loader when the navigation was issued; the
    /// navigation completes only for a different loader.
    issued_loader: Option<String>,
}

/// The mathematical image of a pending navigation.
pub ghost struct NavigationView {
    pub id: NavigationId,
    pub url: Seq<char>,
    pub deadline: u64,
    pub issued_loader: Option<Seq<char>>,
}

impl View for Navigation {
    type V = NavigationView;

    closed spec fn view(&self) -> NavigationView {
        NavigationView {
            id: self.id,
            url: self.url@,
            deadline: self.deadline,
            issued_loader: match self.issued_loader {
                Some(l) => Some(l@),
                None => None,
            },
        }
    }
}

/// Index of the frame with the given id, `-1` when there is none.
pub open spec fn frame_idx(frames: Seq<FrameView>, id: Seq<char>) -> int
    decreases frames.len(),
{
    if frames.len() == 0 {
        -1
    } else if frames[0].id == id {
        0
    } else {
        let rest = frame_idx(frames.drop_first(), id);
        if rest == -1 {
            -1
        } else {
            rest + 1
        }
    }
}

pub proof fn lemma_frame_idx_located(frames: Seq<FrameView>, id: Seq<char>, i: int)
    requires
        0 <= i <= frames.len(),
        forall|k: int| 0 <= k < i ==> frames[k].id != id,
        i == frames.len() || frames[i].id == id,
    ensures
        frame_idx(frames, id) == if i == frames.len() { -1int } else { i },
    decreases i,
{
    if frames.len() > 0 && i > 0 {
        lemma_frame_idx_located(frames.drop_first(), id, i - 1);
    }
}

pub proof fn lemma_frame_idx_props(frames: Seq<FrameView>, id: Seq<char>)
    ensures
        -1 <= frame_idx(frames, id) < frames.len(),
        frame_idx(frames, id) >= 0 ==> frames[frame_idx(frames, id)].id == id,
        frame_idx(frames, id) == -1 ==> forall|k: int|
            0 <= k < frames.len() ==> frames[k].id != id,
    decreases frames.len(),
{
    if frames.len() > 0 && frames[0].id != id {
        lemma_frame_idx_props(frames.drop_first(), id);
        assert forall|k: int|
            frame_idx(frames, id) == -1 && 0 <= k < frames.len() implies frames[k].id
            != id by {
            if k > 0 {
                assert(frames.drop_first()[k - 1] == frames[k]);
            }
        }
    }
}

/// The frame list after a frame was attached: a new frame appears
/// unless the id is already present.
pub open spec fn frames_after_attached(
    frames: Seq<FrameView>,
    id: Seq<char>,
    parent: Option<Seq<char>>,
) -> Seq<FrameView> {
    if frame_idx(frames, id) >= 0 {
        frames
    } else {
        frames.push(
            FrameView { id, parent, url: None, loader_id: None, lifecycle: Seq::empty() },
        )
    }
}

/// The frame list after a frame was detached.
pub open spec fn frames_after_detached(frames: Seq<FrameView>, id: Seq<char>) -> Seq<FrameView> {
    if frame_idx(frames, id) >= 0 {
        frames.remove(frame_idx(frames, id))
    } else {
        frames
    }
}

/// The frame list after a committed navigation: url and loader replaced,
/// lifecycle cleared; an unknown frame is created.
pub open spec fn frames_after_navigated(
    frames: Seq<FrameView>,
    id: Seq<char>,
    url: Seq<char>,
    loader: Seq<char>,
) -> Seq<FrameView> {
    let i = frame_idx(frames, id);
    let navigated = FrameView {
        id,
        parent: if i >= 0 {
            frames[i].parent
        } else {
            None
        },
        url: Some(url),
        loader_id: Some(loader),
        lifecycle: Seq::empty(),
    };
    if i >= 0 {
        frames.update(i, navigated)
    } else {
        frames.push(navigated)
    }
}

/// The frame list after a same-document navigation: only the url moves.
pub open spec fn frames_after_navigated_within(
    frames: Seq<FrameView>,
    id: Seq<char>,
    url: Seq<char>,
) -> Seq<FrameView> {
    let i = frame_idx(frames, id);
    if i >= 0 {
        frames.update(i, FrameView { url: Some(url), ..frames[i] })
    } else {
        frames
    }
}

/// The frame list after a load began: the frame's lifecycle resets.
pub open spec fn frames_after_started_loading(
    frames: Seq<FrameView>,
    id: Seq<char>,
) -> Seq<FrameView> {
    let i = frame_idx(frames, id);
    if i >= 0 {
        frames.update(i, FrameView { lifecycle: Seq::empty(), ..frames[i] })
    } else {
        frames
    }
}

/// The frame list after a lifecycle milestone: recorded only when it
/// belongs to the frame's current loader.
pub open spec fn frames_after_lifecycle(
    frames: Seq<FrameView>,
    id: Seq<char>,
    loader: Seq<char>,
    name: Seq<char>,
) -> Seq<FrameView> {
    let i = frame_idx(frames, id);
    if i >= 0 && frames[i].loader_id == Some(loader) {
        frames.update(i, FrameView { lifecycle: frames[i].lifecycle.push(name), ..frames[i] })
    } else {
        frames
    }
}

/// The frame list after the initial tree snapshot was ingested.
pub open spec fn frames_after_tree(
    frames: Seq<FrameView>,
    id: Seq<char>,
    url: Option<Seq<char>>,
    loader: Option<Seq<char>>,
) -> Seq<FrameView> {
    let i = frame_idx(frames, id);
    if i >= 0 {
        frames.update(
            i,
            FrameView {
                url,
                loader_id: loader,
                lifecycle: if frames[i].loader_id == loader {
                    frames[i].lifecycle
                } else {
                    Seq::empty()
                },
                ..frames[i]
            },
        )
    } else {
        frames.push(
            FrameView { id, parent: None, url, loader_id: loader, lifecycle: Seq::empty() },
        )
    }
}

/// Maintains the frame tree of one target, dispatches lifecycle events
/// and resolves pending navigations.
#[derive(Debug)]
pub struct FrameManager {
    frames: Vec<Frame>,
    main_frame_id: Option<String>,
    pending: Vec<Navigation>,
    next_nav_id: u64,
}

impl FrameManager {
    /// The frames under management, by view.
    pub closed spec fn frames(self) -> Seq<FrameView> {
        self.frames@.map_values(|f: Frame| f@)
    }

    /// The id of the root frame, once the initial tree was observed.
    pub closed spec fn main_id(self) -> Option<Seq<char>> {
        match self.main_frame_id {
            Some(id) => Some(id@),
            None => None,
        }
    }

    /// The pending navigations, by view.
    pub closed spec fn navigations(self) -> Seq<NavigationView> {
        self.pending@.map_values(|n: Navigation| n@)
    }

    pub closed spec fn next_navigation_id(self) -> u64 {
        self.next_nav_id
    }

    /// Frame ids are unique and every frame is well formed.
    pub closed spec fn wf(self) -> bool {
        &&& (forall|i: int, j: int|
            0 <= i < j < self.frames().len() ==> self.frames()[i].id != self.frames()[j].id)
        &&& (forall|i: int| 0 <= i < self.frames().len() ==> frame_wf(#[trigger] self.frames()[i]))
    }

    /// The view of the main frame, when the root is known and present.
    pub open spec fn main_frame_view(self) -> Option<FrameView> {
        match self.main_id() {
            Some(id) => {
                if frame_idx(self.frames(), id) >= 0 {
                    Some(self.frames()[frame_idx(self.frames(), id)])
                } else {
                    None
                }
            },
            None => None,
        }
    }

    pub fn new() -> (r: Self)
        ensures
            r.wf(),
            r.frames() == Seq::<FrameView>::empty(),
            r.main_id() is None,
            r.navigations() == Seq::<NavigationView>::empty(),
            r.next_navigation_id() == 0,
    {
        let r = FrameManager {
            frames: Vec::new(),
            main_frame_id: None,
            pending: Vec::new(),
            next_nav_id: 0,
        };
        proof {
            assert(r.frames() =~= Seq::<FrameView>::empty());
            assert(r.navigations() =~= Seq::<NavigationView>::empty());
        }
        r
    }

    /// Position of a frame in the managed list.
    fn frame_position(&self, id: &str) -> (r: Option<usize>)
        ensures
            match r {
                Some(i) => i == frame_idx(self.frames(), id@) && i < self.frames().len(),
                None => frame_idx(self.frames(), id@) == -1,
            },
    {
        let n = self.frames.len();
        let mut i: usize = 0;
        while i < n
            invariant
                i <= n,
                n == self.frames.len(),
                forall|k: int| 0 <= k < i ==> self.frames()[k].id != id@,
            decreases n - i,
        {
            if str_eq(self.frames[i].id.as_str(), id) {
                proof {
                    lemma_frame_idx_located(self.frames(), id@, i as int);
                }
                return Some(i);
            }
            i = i + 1;
        }
        proof {
            lemma_frame_idx_located(self.frames(), id@, n as int);
        }
        None
    }

    /// A new frame was attached under a parent. An id already present is
    /// left untouched.
    pub fn on_frame_attached(&mut self, id: String, parent: Option<String>)
        requires
            old(self).wf(),
        ensures
            final(self).wf(),
            final(self).main_id() == old(self).main_id(),
            final(self).navigations() == old(self).navigations(),
            final(self).next_navigation_id() == old(self).next_navigation_id(),
            final(self).frames() == frames_after_attached(
                old(self).frames(),
                id@,
                match parent {
                    Some(p) => Some(p@),
                    None => None,
                },
            ),
    {
        match self.frame_position(id.as_str()) {
            Some(_) => {},
            None => {
                proof {
                    lemma_frame_idx_props(self.frames(), id@);
                }
                let f = Frame::new(id, parent);
                self.frames.push(f);
                proof {
                    assert(self.frames() =~= old(self).frames().push(f@));
                }
            },
        }
    }

    /// A frame was detached; it leaves the tree.
    pub fn on_frame_detached(&mut self, id: &str)
        requires
            old(self).wf(),
        ensures
            final(self).wf(),
            final(self).main_id() == old(self).main_id(),
            final(self).navigations() == old(self).navigations(),
            final(self).next_navigation_id() == old(self).next_navigation_id(),
            final(self).frames() == frames_after_detached(old(self).frames(), id@),
    {
        match self.frame_position(id) {
            Some(i) => {
                self.frames.remove(i);
                proof {
                    assert(self.frames() =~= old(self).frames().remove(i as int));
                }
            },
            None => {},
        }
    }

    /// The frame committed a navigation: its url and loader are replaced
    /// and its lifecycle set cleared. An unknown frame is created.
    pub fn on_frame_navigated(&mut self, id: &str, url: String, loader_id: String)
        requires
            old(self).wf(),
        ensures
            final(self).wf(),
            final(self).main_id() == old(self).main_id(),
            final(self).navigations() == old(self).navigations(),
            final(self).next_navigation_id() == old(self).next_navigation_id(),
            final(self).frames() == frames_after_navigated(
                old(self).frames(),
                id@,
                url@,
                loader_id@,
            ),
    {
        proof {
            lemma_frame_idx_props(self.frames(), id@);
        }
        match self.frame_position(id) {
            Some(i) => {
                let mut f = self.frames.remove(i);
                f.url = Some(url);
                f.loader_id = Some(loader_id);
                f.lifecycle = Vec::new();
                self.frames.insert(i, f);
                proof {
                    assert(f@.lifecycle =~= Seq::<Seq<char>>::empty());
                    assert(self.frames() =~= old(self).frames().update(i as int, f@));
                }
            },
            None => {
                let f = Frame {
                    id: id.to_owned(),
                    parent: None,
                    url: Some(url),
                    loader_id: Some(loader_id),
                    lifecycle: Vec::new(),
                };
                self.frames.push(f);
                proof {
                    assert(f@.lifecycle =~= Seq::<Seq<char>>::empty());
                    assert(self.frames() =~= old(self).frames().push(f@));
                }
            },
        }
    }

    /// A navigation inside the same document: the url changes, the
    /// lifecycle set stays.
    pub fn on_frame_navigated_within_document(&mut self, id: &str, url: String)
        requires
            old(self).wf(),
        ensures
            final(self).wf(),
            final(self).main_id() == old(self).main_id(),
            final(self).navigations() == old(self).navigations(),
            final(self).next_navigation_id() == old(self).next_navigation_id(),
            final(self).frames() == frames_after_navigated_within(
                old(self).frames(),
                id@,
                url@,
            ),
    {
        match self.frame_position(id) {
            Some(i) => {
                let mut f = self.frames.remove(i);
                f.url = Some(url);
                self.frames.insert(i, f);
                proof {
                    assert(self.frames() =~= old(self).frames().update(i as int, f@));
                    assert(f@.id == old(self).frames()[i as int].id);
                    assert forall|a: int, b: int|
                        0 <= a < b < self.frames().len() implies self.frames()[a].id
                        != self.frames()[b].id by {
                        assert(old(self).frames()[a].id != old(self).frames()[b].id);
                    }
                }
            },
            None => {},
        }
    }

    /// A new load began in the frame: lifecycle milestones of the old
    /// loader no longer apply.
    pub fn on_frame_started_loading(&mut self, id: &str)
        requires
            old(self).wf(),
        ensures
            final(self).wf(),
            final(self).main_id() == old(self).main_id(),
            final(self).navigations() == old(self).navigations(),
            final(self).next_navigation_id() == old(self).next_navigation_id(),
            final(self).frames() == frames_after_started_loading(old(self).frames(), id@),
    {
        match self.frame_position(id) {
            Some(i) => {
                let mut f = self.frames.remove(i);
                f.lifecycle = Vec::new();
                self.frames.insert(i, f);
                proof {
                    assert(f@.lifecycle =~= Seq::<Seq<char>>::empty());
                    assert(self.frames() =~= old(self).frames().update(i as int, f@));
                    assert(f@.id == old(self).frames()[i as int].id);
                    assert forall|a: int, b: int|
                        0 <= a < b < self.frames().len() implies self.frames()[a].id
                        != self.frames()[b].id by {
                        assert(old(self).frames()[a].id != old(self).frames()[b].id);
                    }
                }
            },
            None => {},
        }
    }

    /// A lifecycle milestone was reported. It is recorded only when it
    /// belongs to the frame's current loader.
    pub fn on_page_lifecycle_event(&mut self, frame_id: &str, loader_id: &str, name: &str)
        requires
            old(self).wf(),
        ensures
            final(self).wf(),
            final(self).main_id() == old(self).main_id(),
            final(self).navigations() == old(self).navigations(),
            final(self).next_navigation_id() == old(self).next_navigation_id(),
            final(self).frames() == frames_after_lifecycle(
                old(self).frames(),
                frame_id@,
                loader_id@,
                name@,
            ),
    {
        match self.frame_position(frame_id) {
            Some(i) => {
                let matches_loader = match &self.frames[i].loader_id {
                    Some(l) => str_eq(l.as_str(), loader_id),
                    None => false,
                };
                if matches_loader {
                    let mut f = self.frames.remove(i);
                    f.lifecycle.push(name.to_owned());
                    self.frames.insert(i, f);
                    proof {
                        assert(f@.lifecycle =~= old(self).frames()[i as int].lifecycle.push(
                            name@,
                        ));
                        assert(self.frames() =~= old(self).frames().update(i as int, f@));
                    }
                }
            },
            None => {},
        }
    }

    /// The initial frame tree snapshot: the root becomes the main frame.
    /// A known root keeps its lifecycle when its loader is unchanged.
    pub fn on_frame_tree(&mut self, id: &str, url: Option<String>, loader_id: Option<String>)
        requires
            old(self).wf(),
        ensures
            final(self).wf(),
            final(self).main_id() == Some(id@),
            final(self).navigations() == old(self).navigations(),
            final(self).next_navigation_id() == old(self).next_navigation_id(),
            final(self).frames() == frames_after_tree(
                old(self).frames(),
                id@,
                match url {
                    Some(u) => Some(u@),
                    None => None,
                },
                match loader_id {
                    Some(l) => Some(l@),
                    None => None,
                },
            ),
    {
        proof {
            lemma_frame_idx_props(self.frames(), id@);
        }
        match self.frame_position(id) {
            Some(i) => {
                let mut f = self.frames.remove(i);
                let same_loader = match (&f.loader_id, &loader_id) {
                    (Some(a), Some(b)) => str_eq(a.as_str(), b.as_str()),
                    (None, None) => true,
                    _ => false,
                };
                if !same_loader {
                    f.lifecycle = Vec::new();
                }
                f.url = url;
                f.loader_id = loader_id;
                self.frames.insert(i, f);
                proof {
                    if !(old(self).frames()[i as int].loader_id == f@.loader_id) {
                        assert(f@.lifecycle =~= Seq::<Seq<char>>::empty());
                    }
                    assert(self.frames() =~= old(self).frames().update(i as int, f@));
                }
            },
            None => {
                let f = Frame {
                    id: id.to_owned(),
                    parent: None,
                    url,
                    loader_id,
                    lifecycle: Vec::new(),
                };
                self.frames.push(f);
                proof {
                    assert(f@.lifecycle =~= Seq::<Seq<char>>::empty());
                    assert(self.frames() =~= old(self).frames().push(f@));
                }
            },
        }
        self.main_frame_id = Some(id.to_owned());
    }

    /// A caller asked to navigate. A navigation id is minted, the
    /// request is handed back for dispatch, and the navigation is
    /// watched until the main frame loads under a new loader.
    pub fn goto(&mut self, req: FrameNavigationRequest) -> (r: (NavigationId, Request))
        requires
            old(self).wf(),
            old(self).next_navigation_id() < u64::MAX,
        ensures
            final(self).wf(),
            final(self).frames() == old(self).frames(),
            final(self).main_id() == old(self).main_id(),
            final(self).next_navigation_id() == old(self).next_navigation_id() + 1,
            r.0 == NavigationId(old(self).next_navigation_id()),
            r.1.method@ == "Page.navigate"@,
            r.1.params@ == req.params@,
            r.1.session_id is None,
            final(self).navigations() == old(self).navigations().push(
                NavigationView {
                    id: NavigationId(old(self).next_navigation_id()),
                    url: req.url@,
                    deadline: req.deadline,
                    issued_loader: match old(self).main_frame_view() {
                        Some(f) => f.loader_id,
                        None => None,
                    },
                },
            ),
    {
        let id = NavigationId(self.next_nav_id);
        self.next_nav_id = self.next_nav_id + 1;
        let issued_loader: Option<String> = match self.main_frame() {
            Some(f) => match &f.loader_id {
                Some(l) => Some(l.clone()),
                None => None,
            },
            None => None,
        };
        let nav = Navigation { id, url: req.url, deadline: req.deadline, issued_loader };
        self.pending.push(nav);
        proof {
            assert(self.navigations() =~= old(self).navigations().push(nav@));
        }
        let request = Request::new("Page.navigate".to_owned(), req.params);
        (id, request)
    }

    /// Does this pending navigation complete now: the main frame is
    /// loaded under a loader other than the one seen at issue time.
    pub open spec fn nav_completes(self, nv: NavigationView) -> bool {
        match self.main_frame_view() {
            Some(f) => frame_loaded(f) && f.loader_id != nv.issued_loader,
            None => false,
        }
    }

    /// Resolve at most one pending navigation: completed ones resolve
    /// `Ok` with the url now on the main frame, expired ones `Err`.
    pub fn poll(&mut self, now: u64) -> (r: Option<FrameEvent>)
        requires
            old(self).wf(),
        ensures
            final(self).wf(),
            final(self).frames() == old(self).frames(),
            final(self).main_id() == old(self).main_id(),
            final(self).next_navigation_id() == old(self).next_navigation_id(),
            match r {
                Some(FrameEvent::NavigationResult(res)) => exists|i: int|
                    {
                        &&& 0 <= i < old(self).navigations().len()
                        &&& final(self).navigations() == old(self).navigations().remove(i)
                        &&& match res {
                            Ok(ok) => {
                                &&& old(self).nav_completes(old(self).navigations()[i])
                                &&& ok.id == old(self).navigations()[i].id
                                &&& match old(self).main_frame_view() {
                                    Some(f) => (match ok.url {
                                        Some(u) => f.url == Some(u@),
                                        None => f.url is None,
                                    }),
                                    None => false,
                                }
                            },
                            Err(NavigationError::Timeout { id, deadline }) => {
                                &&& !old(self).nav_completes(old(self).navigations()[i])
                                &&& now >= old(self).navigations()[i].deadline
                                &&& id == old(self).navigations()[i].id
                                &&& deadline.now == now
                                &&& deadline.deadline == old(self).navigations()[i].deadline
                            },
                            Err(NavigationError::TransportClosed { .. }) => false,
                        }
                    },
                Some(FrameEvent::NavigationRequest(_, _)) => false,
                None => {
                    &&& final(self).navigations() == old(self).navigations()
                    &&& forall|i: int|
                        0 <= i < old(self).navigations().len() ==> !old(self).nav_completes(
                            #[trigger] old(self).navigations()[i],
                        ) && now < old(self).navigations()[i].deadline
                },
            },
    {
        let main_loaded: bool;
        let main_loader: Option<String>;
        let main_url: Option<String>;
        match self.main_frame() {
            Some(f) => {
                main_loaded = f.is_loaded();
                main_loader = match &f.loader_id {
                    Some(l) => Some(l.clone()),
                    None => None,
                };
                main_url = match &f.url {
                    Some(u) => Some(u.clone()),
                    None => None,
                };
            },
            None => {
                main_loaded = false;
                main_loader = None;
                main_url = None;
            },
        }
        let n = self.pending.len();
        let mut i: usize = 0;
        while i < n
            invariant
                i <= n,
                n == self.pending.len(),
                self == old(self),
                old(self).wf(),
                main_loaded == (match old(self).main_frame_view() {
                    Some(f) => frame_loaded(f),
                    None => false,
                }),
                (match old(self).main_frame_view() {
                    Some(f) => (match main_loader {
                        Some(l) => f.loader_id == Some(l@),
                        None => f.loader_id is None,
                    }) && (match main_url {
                        Some(u) => f.url == Some(u@),
                        None => f.url is None,
                    }),
                    None => main_loader is None,
                }),
                forall|k: int|
                    0 <= k < i ==> !old(self).nav_completes(
                        #[trigger] old(self).navigations()[k],
                    ) && now < old(self).navigations()[k].deadline,
            decreases n - i,
        {
            let completes: bool = main_loaded && {
                let differs = match (&main_loader, &self.pending[i].issued_loader) {
                    (Some(a), Some(b)) => !str_eq(a.as_str(), b.as_str()),
                    (None, None) => false,
                    _ => true,
                };
                differs
            };
            if completes {
                let nav = self.pending.remove(i);
                proof {
                    assert(old(self).nav_completes(old(self).navigations()[i as int]));
                    assert(self.navigations() =~= old(self).navigations().remove(i as int));
                }
                let url = match main_url {
                    Some(u) => Some(u),
                    None => None,
                };
                return Some(
                    FrameEvent::NavigationResult(Ok(NavigationOk { id: nav.id, url })),
                );
            }
            if now >= self.pending[i].deadline {
                let nav = self.pending.remove(i);
                proof {
                    assert(self.navigations() =~= old(self).navigations().remove(i as int));
                }
                return Some(
                    FrameEvent::NavigationResult(
                        Err(
                            NavigationError::Timeout {
                                id: nav.id,
                                deadline: DeadlineExceeded { now, deadline: nav.deadline },
                            },
                        ),
                    ),
                );
            }
            i = i + 1;
        }
        None
    }

    /// The calls that bring the page and runtime domains of a fresh
    /// target up, in the order they must be issued.
    pub fn init_commands(now: u64, per_command_timeout: u64) -> (r: CommandChain)
        requires
            now + per_command_timeout * 5 <= u64::MAX,
        ensures
            r.wf(),
            r.acked() == 0,
            r.emitted() == 0,
            !r.timeout_reported(),
            r.deadline() == now + per_command_timeout * 5,
            r.entries().len() == 5,
            r.entries()[0].method@ == "Page.enable"@,
            r.entries()[0].params@ == "{}"@,
            r.entries()[1].method@ == "Page.getFrameTree"@,
            r.entries()[1].params@ == "{}"@,
            r.entries()[2].method@ == "Page.setLifecycleEventsEnabled"@,
            r.entries()[2].params@ == "{\"enabled\":true}"@,
            r.entries()[3].method@ == "Runtime.enable"@,
            r.entries()[3].params@ == "{}"@,
            r.entries()[4].method@ == "Runtime.runIfWaitingForDebugger"@,
            r.entries()[4].params@ == "{}"@,
    {
        let mut items: Vec<CommandEntry> = Vec::new();
        items.push(CommandEntry::new("Page.enable".to_owned(), "{}".to_owned()));
        items.push(CommandEntry::new("Page.getFrameTree".to_owned(), "{}".to_owned()));
        items.push(
            CommandEntry::new(
                "Page.setLifecycleEventsEnabled".to_owned(),
                "{\"enabled\":true}".to_owned(),
            ),
        );
        items.push(CommandEntry::new("Runtime.enable".to_owned(), "{}".to_owned()));
        items.push(
            CommandEntry::new("Runtime.runIfWaitingForDebugger".to_owned(), "{}".to_owned()),
        );
        CommandChain::new(items, now, per_command_timeout)
    }

    /// The id the next navigation will be minted with.
    pub fn next_navigation_id_value(&self) -> (r: u64)
        ensures
            r == self.next_navigation_id(),
    {
        self.next_nav_id
    }

    /// How many navigations are being watched.
    pub fn pending_navigation_count(&self) -> (r: usize)
        ensures
            r == self.navigations().len(),
    {
        self.pending.len()
    }

    /// A borrowed view of the main frame, when the tree has a root.
    pub fn main_frame(&self) -> (r: Option<&Frame>)
        ensures
            match r {
                Some(f) => self.main_frame_view() == Some(f@),
                None => self.main_frame_view() is None,
            },
    {
        match &self.main_frame_id {
            Some(id) => {
                let id_str: String = id.clone();
                match self.frame_position(id_str.as_str()) {
                    Some(i) => Some(&self.frames[i]),
                    None => None,
                }
            },
            None => None,
        }
    }
}

/// Open corollary of the manager's closed invariant: every frame is
/// well formed and frame ids are unique.
pub proof fn lemma_fm_wf_open(fm: FrameManager)
    requires
        fm.wf(),
    ensures
        forall|i: int| 0 <= i < fm.frames().len() ==> frame_wf(#[trigger] fm.frames()[i]),
        forall|i: int, j: int|
            0 <= i < j < fm.frames().len() ==> fm.frames()[i].id != fm.frames()[j].id,
{
}

} // verus!
