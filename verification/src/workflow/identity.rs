//! The multiplexer identity of one worktree's window or session.
//!
//! `workmux list` answers "which worktrees exist"; this answers "what exactly
//! is the live multiplexer object behind this handle, right now". Supervisors
//! that record an agent's identity before starting it need the durable ids —
//! the session, the stable window id, the pane ids, and the server incarnation
//! they belong to — because a name is not an identity: window names are
//! renamed by terminal integrations, and window and pane ids are reissued from
//! zero when the server restarts, so an id without its incarnation beside it
//! means nothing.
//!
//! Nothing here is a status read. It does not reconcile, delete, or write
//! state; two lookups in a row describe the same world.
//!
//! The lookup asks git and the multiplexer one question at a time: the
//! caller performs each [`MuxQuery`] that [`identity`] returns, hands the
//! reply back through [`IdentityLookup::answer`], and asks again, until the
//! lookup is done.

use vstd::prelude::*;
use vstd::string::StringExecFns;

pub use crate::workflow::panes::{
    LivePaneInfo, PaneSnapshot, pane_ordinal, panes_in_session, panes_in_window, sorted_pane_ids,
};
use crate::text::{decimal, push_decimal};
use crate::workflow::panes::{
    clone_opt, lemma_pane_listing_unique, LivePaneView, lists_in_pane_order, opt_str_view, opt_view, session_pane_set, str_views,
    window_pane_set,
};

verus! {

/// Whether a worktree's multiplexer object is a window or a whole session.
#[derive(Clone, Copy, Debug, PartialEq, Eq, Structural)]
pub enum MuxMode {
    Window,
    Session,
}

/// A name with the configured prefix in front of it.
///
/// Assumed: workmux's own `multiplexer::util::prefixed` helper is not part of
/// this crate, and it is taken to put the prefix directly in front of the name,
/// as the window name `wm-work` of the handle `work` under the prefix `wm-`
/// shows.
pub open spec fn prefixed(prefix: Seq<char>, name: Seq<char>) -> Seq<char> {
    prefix + name
}

fn prefixed_name(prefix: &String, name: &String) -> (r: String)
    ensures
        r@ == prefixed(prefix@, name@),
{
    let mut r = prefix.clone();
    r.append(name.as_str());
    r
}

/// What git reports of a worktree: its path, the name of its directory (the
/// handle; `None` when the path has none), and its branch.
#[derive(Debug)]
pub struct WorktreeInfo {
    pub path: String,
    pub handle: Option<String>,
    pub branch: String,
}

pub struct WorktreeView {
    pub path: Seq<char>,
    pub handle: Option<Seq<char>>,
    pub branch: Seq<char>,
}

impl View for WorktreeInfo {
    type V = WorktreeView;

    open spec fn view(&self) -> WorktreeView {
        WorktreeView { path: self.path@, handle: opt_view(self.handle), branch: self.branch@ }
    }
}

/// A window as the multiplexer addresses it: its full name, its stable id
/// when the backend has one, and the session it was opened in.
#[derive(Debug)]
pub struct WindowTarget {
    pub full_name: String,
    pub window_id: Option<String>,
    pub parent_session: Option<String>,
}

pub struct WindowTargetView {
    pub full_name: Seq<char>,
    pub window_id: Option<Seq<char>>,
    pub parent_session: Option<Seq<char>>,
}

impl View for WindowTarget {
    type V = WindowTargetView;

    open spec fn view(&self) -> WindowTargetView {
        WindowTargetView {
            full_name: self.full_name@,
            window_id: opt_view(self.window_id),
            parent_session: opt_view(self.parent_session),
        }
    }
}

impl WindowTarget {
    /// A window known by its name alone.
    pub fn new(full_name: String, parent_session: Option<String>) -> (r: WindowTarget)
        ensures
            r@ == (WindowTargetView {
                full_name: full_name@,
                window_id: None,
                parent_session: opt_view(parent_session),
            }),
    {
        WindowTarget { full_name, window_id: None, parent_session }
    }

    pub fn duplicate(&self) -> (r: WindowTarget)
        ensures
            r@ == self@,
    {
        WindowTarget {
            full_name: self.full_name.clone(),
            window_id: clone_opt(&self.window_id),
            parent_session: clone_opt(&self.parent_session),
        }
    }
}

/// A window that carries a handle's ownership token, and whether it is the
/// handle's primary window.
#[derive(Debug)]
pub struct OwnedWindowTarget {
    pub target: WindowTarget,
    pub is_primary: bool,
}

pub struct OwnedWindowView {
    pub target: WindowTargetView,
    pub is_primary: bool,
}

impl View for OwnedWindowTarget {
    type V = OwnedWindowView;

    open spec fn view(&self) -> OwnedWindowView {
        OwnedWindowView { target: self.target@, is_primary: self.is_primary }
    }
}

pub open spec fn owned_views(v: Seq<OwnedWindowTarget>) -> Seq<OwnedWindowView> {
    v.map_values(|o: OwnedWindowTarget| o@)
}

/// Why a lookup failed.
#[derive(Debug)]
pub enum IdentityError {
    /// No worktree has this handle or branch.
    WorktreeNotFound { name: String },
    /// The worktree's path has no directory name.
    NoDirectoryName,
    /// Several windows carry the handle's token and none is its primary one.
    DuplicateWindows { handle: String, count: usize },
    /// The multiplexer failed to resolve the handle's windows.
    Backend { message: String },
}

pub enum IdentityErrorView {
    WorktreeNotFound { name: Seq<char> },
    NoDirectoryName,
    DuplicateWindows { handle: Seq<char>, count: nat },
    Backend { message: Seq<char> },
}

impl View for IdentityError {
    type V = IdentityErrorView;

    open spec fn view(&self) -> IdentityErrorView {
        match self {
            IdentityError::WorktreeNotFound { name } => IdentityErrorView::WorktreeNotFound {
                name: name@,
            },
            IdentityError::NoDirectoryName => IdentityErrorView::NoDirectoryName,
            IdentityError::DuplicateWindows { handle, count } =>
                IdentityErrorView::DuplicateWindows { handle: handle@, count: *count as nat },
            IdentityError::Backend { message } => IdentityErrorView::Backend {
                message: message@,
            },
        }
    }
}

/// The text of an error, as the command reports it.
pub open spec fn error_message(e: IdentityErrorView) -> Seq<char> {
    match e {
        IdentityErrorView::WorktreeNotFound { name } => "Worktree '"@ + name
            + "' not found. Use 'workmux list' to see available worktrees."@,
        IdentityErrorView::NoDirectoryName => "Invalid worktree path: no directory name"@,
        IdentityErrorView::DuplicateWindows { handle, count } => "'"@ + handle + "' owns "@
            + decimal(count) + (" windows and none of them is the primary window; "@
            + "close the duplicates before asking for its identity"@),
        IdentityErrorView::Backend { message } => message,
    }
}

impl IdentityError {
    pub fn message(&self) -> (r: String)
        ensures
            r@ == error_message(self@),
    {
        match self {
            IdentityError::WorktreeNotFound { name } => {
                let mut r = String::from_str("Worktree '");
                r.append(name.as_str());
                r.append("' not found. Use 'workmux list' to see available worktrees.");
                r
            },
            IdentityError::NoDirectoryName => String::from_str(
                "Invalid worktree path: no directory name",
            ),
            IdentityError::DuplicateWindows { handle, count } => {
                let mut r = String::from_str("'");
                r.append(handle.as_str());
                r.append("' owns ");
                push_decimal(&mut r, *count);
                r.append(" windows and none of them is the primary window; ");
                r.append("close the duplicates before asking for its identity");
                assert(r@ =~= error_message(self@));
                r
            },
            IdentityError::Backend { message } => message.clone(),
        }
    }
}

/// Everything durable about the live multiplexer object behind one handle.
#[derive(Clone, Debug, PartialEq)]
pub struct MuxIdentity {
    /// The worktree handle (the worktree directory's name).
    pub handle: String,
    pub branch: String,
    pub path: String,
    pub mode: MuxMode,
    /// The multiplexer backend that answered, e.g. `tmux`.
    pub backend: String,
    /// The server incarnation every id below belongs to. `None` when the
    /// backend does not expose one.
    pub server_start_time: Option<String>,
    /// Whether a live window or session was found for this handle.
    pub is_open: bool,
    pub session: Option<String>,
    /// The stable window id (e.g. `@42`). `None` in session mode, and on
    /// backends without stable window ids.
    pub window_id: Option<String>,
    pub window_name: Option<String>,
    /// Every pane of that window, or of that session in session mode.
    pub pane_ids: Vec<String>,
}

pub struct MuxIdentityView {
    pub handle: Seq<char>,
    pub branch: Seq<char>,
    pub path: Seq<char>,
    pub mode: MuxMode,
    pub backend: Seq<char>,
    pub server_start_time: Option<Seq<char>>,
    pub is_open: bool,
    pub session: Option<Seq<char>>,
    pub window_id: Option<Seq<char>>,
    pub window_name: Option<Seq<char>>,
    pub pane_ids: Seq<Seq<char>>,
}

impl View for MuxIdentity {
    type V = MuxIdentityView;

    open spec fn view(&self) -> MuxIdentityView {
        MuxIdentityView {
            handle: self.handle@,
            branch: self.branch@,
            path: self.path@,
            mode: self.mode,
            backend: self.backend@,
            server_start_time: opt_view(self.server_start_time),
            is_open: self.is_open,
            session: opt_view(self.session),
            window_id: opt_view(self.window_id),
            window_name: opt_view(self.window_name),
            pane_ids: str_views(self.pane_ids@),
        }
    }
}

/// The first primary window at index `i` or after it.
pub open spec fn first_primary(owned: Seq<OwnedWindowView>, i: int) -> Option<int>
    decreases owned.len() - i,
{
    if i < 0 || i >= owned.len() {
        None
    } else if owned[i].is_primary {
        Some(i)
    } else {
        first_primary(owned, i + 1)
    }
}

/// The window a handle owns: its primary window among those that carry its
/// token; else the only one that does; several without a primary are an
/// error; with none, the window is known by its name alone.
pub open spec fn window_target_choice(
    handle: Seq<char>,
    window_name: Seq<char>,
    parent_session: Option<Seq<char>>,
    owned: Seq<OwnedWindowView>,
) -> Result<WindowTargetView, IdentityErrorView> {
    match first_primary(owned, 0) {
        Some(i) => Ok(owned[i].target),
        None => if owned.len() == 1 {
            Ok(owned[0].target)
        } else if owned.len() > 1 {
            Err(IdentityErrorView::DuplicateWindows { handle, count: owned.len() })
        } else {
            Ok(WindowTargetView { full_name: window_name, window_id: None, parent_session })
        },
    }
}

/// The window this handle owns, given the windows that carry its ownership
/// token (none when the backend has no tokens or the handle has none).
///
/// The ownership-token resolution survives a rename, so it is preferred over
/// the window's current name. The primary window, not merely the first:
/// `workmux open --new` gives one handle several windows, and only one of them
/// is the worktree's own.
pub fn window_target(
    handle: &str,
    window_name: &str,
    parent_session: Option<&str>,
    owned: &Vec<OwnedWindowTarget>,
) -> (r: Result<WindowTarget, IdentityError>)
    ensures
        match (r, window_target_choice(
            handle@,
            window_name@,
            opt_str_view(parent_session),
            owned_views(owned@),
        )) {
            (Ok(t), Ok(v)) => t@ == v,
            (Err(e), Err(v)) => e@ == v,
            _ => false,
        },
{
    let ghost views = owned_views(owned@);
    let mut i: usize = 0;
    while i < owned.len()
        invariant
            i <= owned@.len(),
            views == owned_views(owned@),
            first_primary(views, 0) == first_primary(views, i as int),
        decreases owned.len() - i,
    {
        if owned[i].is_primary {
            return Ok(owned[i].target.duplicate());
        }
        i = i + 1;
    }
    if owned.len() == 1 {
        return Ok(owned[0].target.duplicate());
    }
    if owned.len() > 1 {
        return Err(IdentityError::DuplicateWindows { handle: String::from_str(handle), count: owned.len() });
    }
    let parent = match parent_session {
        Some(s) => Some(String::from_str(s)),
        None => None,
    };
    Ok(WindowTarget::new(String::from_str(window_name), parent))
}

/// A question the lookup asks of git or of the multiplexer. None of them
/// changes anything.
#[derive(Debug)]
pub enum MuxQuery {
    /// git: the worktree whose handle, or else whose branch, is `name`.
    FindWorktree { name: String },
    /// git: whether the worktree was opened as a window or as a session.
    WorktreeMode { handle: String },
    /// multiplexer: whether its server is running.
    ServerRunning,
    /// multiplexer: the server incarnation's id.
    ServerBootId,
    /// multiplexer: every live pane.
    LivePanes,
    /// git: the session name recorded for the worktree.
    TargetSession { handle: String },
    /// multiplexer: whether the session exists.
    SessionExists { session: String },
    /// git: the window name recorded for the worktree.
    TargetWindow { handle: String },
    /// git: the session the worktree's window was opened in.
    WindowSession { handle: String },
    /// multiplexer: whether the backend supports window ownership tokens.
    SupportsWindowOwnership,
    /// git: the worktree's window ownership token.
    WindowToken { handle: String },
    /// multiplexer: the windows that carry the token.
    OwnedWindows {
        token: String,
        window_name: String,
        parent_session: Option<String>,
        path: String,
    },
    /// multiplexer: whether the window exists.
    WindowExists { target: WindowTarget },
}

pub enum QueryView {
    FindWorktree { name: Seq<char> },
    WorktreeMode { handle: Seq<char> },
    ServerRunning,
    ServerBootId,
    LivePanes,
    TargetSession { handle: Seq<char> },
    SessionExists { session: Seq<char> },
    TargetWindow { handle: Seq<char> },
    WindowSession { handle: Seq<char> },
    SupportsWindowOwnership,
    WindowToken { handle: Seq<char> },
    OwnedWindows {
        token: Seq<char>,
        window_name: Seq<char>,
        parent_session: Option<Seq<char>>,
        path: Seq<char>,
    },
    WindowExists { target: WindowTargetView },
}

impl View for MuxQuery {
    type V = QueryView;

    open spec fn view(&self) -> QueryView {
        match self {
            MuxQuery::FindWorktree { name } => QueryView::FindWorktree { name: name@ },
            MuxQuery::WorktreeMode { handle } => QueryView::WorktreeMode { handle: handle@ },
            MuxQuery::ServerRunning => QueryView::ServerRunning,
            MuxQuery::ServerBootId => QueryView::ServerBootId,
            MuxQuery::LivePanes => QueryView::LivePanes,
            MuxQuery::TargetSession { handle } => QueryView::TargetSession { handle: handle@ },
            MuxQuery::SessionExists { session } => QueryView::SessionExists { session: session@ },
            MuxQuery::TargetWindow { handle } => QueryView::TargetWindow { handle: handle@ },
            MuxQuery::WindowSession { handle } => QueryView::WindowSession { handle: handle@ },
            MuxQuery::SupportsWindowOwnership => QueryView::SupportsWindowOwnership,
            MuxQuery::WindowToken { handle } => QueryView::WindowToken { handle: handle@ },
            MuxQuery::OwnedWindows { token, window_name, parent_session, path } =>
                QueryView::OwnedWindows {
                token: token@,
                window_name: window_name@,
                parent_session: opt_view(*parent_session),
                path: path@,
            },
            MuxQuery::WindowExists { target } => QueryView::WindowExists { target: target@ },
        }
    }
}

/// The reply to a [`MuxQuery`]. Where a variant holds an `Option` of a
/// multiplexer reply, `None` means that the call failed.
#[derive(Debug)]
pub enum MuxAnswer {
    /// `None`: no such worktree.
    Worktree(Option<WorktreeInfo>),
    Mode(MuxMode),
    ServerRunning(Option<bool>),
    /// `Some(None)`: the backend exposes no incarnation id.
    ServerBootId(Option<Option<String>>),
    LivePanes(Option<PaneSnapshot>),
    /// `None`: nothing recorded.
    TargetSession(Option<String>),
    SessionExists(Option<bool>),
    /// `None`: nothing recorded.
    TargetWindow(Option<String>),
    /// `None`: nothing recorded.
    WindowSession(Option<String>),
    SupportsWindowOwnership(bool),
    /// `None`: the worktree has no token.
    WindowToken(Option<String>),
    /// `Err`: the multiplexer's error message.
    OwnedWindows(Result<Vec<OwnedWindowTarget>, String>),
    WindowExists(Option<bool>),
}

pub open spec fn opt_opt_view(o: Option<Option<String>>) -> Option<Option<Seq<char>>> {
    match o {
        Some(inner) => Some(opt_view(inner)),
        None => None,
    }
}

/// What the lookup knows: its arguments, and each reply it has been given.
pub struct LookupView {
    pub name: Seq<char>,
    pub prefix: Seq<char>,
    pub backend: Seq<char>,
    pub worktree: Option<Option<WorktreeView>>,
    pub mode: Option<MuxMode>,
    pub running: Option<Option<bool>>,
    pub boot_id: Option<Option<Option<Seq<char>>>>,
    pub panes: Option<Option<Map<Seq<char>, LivePaneView>>>,
    pub target_session: Option<Option<Seq<char>>>,
    pub session_exists: Option<Option<bool>>,
    pub target_window: Option<Option<Seq<char>>>,
    pub window_session: Option<Option<Seq<char>>>,
    pub ownership: Option<bool>,
    pub token: Option<Option<Seq<char>>>,
    pub owned: Option<Result<Seq<OwnedWindowView>, Seq<char>>>,
    pub window_exists: Option<Option<bool>>,
}

impl LookupView {
    /// The lookup after a reply.
    pub open spec fn answered(self, a: MuxAnswer) -> LookupView {
        match a {
            MuxAnswer::Worktree(w) => LookupView {
                worktree: Some(
                    match w {
                        Some(info) => Some(info@),
                        None => None,
                    },
                ),
                ..self
            },
            MuxAnswer::Mode(m) => LookupView { mode: Some(m), ..self },
            MuxAnswer::ServerRunning(r) => LookupView { running: Some(r), ..self },
            MuxAnswer::ServerBootId(b) => LookupView { boot_id: Some(opt_opt_view(b)), ..self },
            MuxAnswer::LivePanes(p) => LookupView {
                panes: Some(
                    match p {
                        Some(snapshot) => Some(snapshot@),
                        None => None,
                    },
                ),
                ..self
            },
            MuxAnswer::TargetSession(t) => LookupView {
                target_session: Some(opt_view(t)),
                ..self
            },
            MuxAnswer::SessionExists(e) => LookupView { session_exists: Some(e), ..self },
            MuxAnswer::TargetWindow(t) => LookupView { target_window: Some(opt_view(t)), ..self },
            MuxAnswer::WindowSession(s) => LookupView {
                window_session: Some(opt_view(s)),
                ..self
            },
            MuxAnswer::SupportsWindowOwnership(b) => LookupView { ownership: Some(b), ..self },
            MuxAnswer::WindowToken(t) => LookupView { token: Some(opt_view(t)), ..self },
            MuxAnswer::OwnedWindows(o) => LookupView {
                owned: Some(
                    match o {
                        Ok(v) => Ok(owned_views(v@)),
                        Err(m) => Err(m@),
                    },
                ),
                ..self
            },
            MuxAnswer::WindowExists(e) => LookupView { window_exists: Some(e), ..self },
        }
    }

    /// The live panes, none when the multiplexer failed to list them.
    pub open spec fn pane_map(self) -> Map<Seq<char>, LivePaneView> {
        match self.panes {
            Some(Some(m)) => m,
            _ => Map::empty(),
        }
    }

    /// The server incarnation, none when the multiplexer failed to give it.
    pub open spec fn boot(self) -> Option<Seq<char>> {
        match self.boot_id {
            Some(Some(b)) => b,
            _ => None,
        }
    }
}

pub open spec fn or_else(a: Option<Seq<char>>, b: Option<Seq<char>>) -> Option<Seq<char>> {
    match a {
        Some(x) => Some(x),
        None => b,
    }
}

pub open spec fn unwrap_or(a: Option<Seq<char>>, b: Seq<char>) -> Seq<char> {
    match a {
        Some(x) => x,
        None => b,
    }
}

/// The session a handle's session mode names.
pub open spec fn session_name(f: LookupView, handle: Seq<char>, target: Option<Seq<char>>) -> Seq<
    char,
> {
    prefixed(f.prefix, unwrap_or(target, handle))
}

/// How far the window a handle owns is resolved.
pub enum TargetProgress {
    Ask(QueryView),
    Resolved(Result<WindowTargetView, IdentityErrorView>),
}

/// Resolving the handle's window: with ownership tokens, by the windows that
/// carry the handle's token; else, and for a handle without a token, by name.
pub open spec fn target_progress(
    f: LookupView,
    path: Seq<char>,
    handle: Seq<char>,
    window_name: Seq<char>,
    parent_session: Option<Seq<char>>,
    supported: bool,
) -> TargetProgress {
    let by_name = window_target_choice(handle, window_name, parent_session, Seq::empty());
    if !supported {
        TargetProgress::Resolved(by_name)
    } else {
        match f.token {
            None => TargetProgress::Ask(QueryView::WindowToken { handle }),
            Some(None) => TargetProgress::Resolved(by_name),
            Some(Some(token)) => match f.owned {
                None => TargetProgress::Ask(
                    QueryView::OwnedWindows { token, window_name, parent_session, path },
                ),
                Some(Err(message)) => TargetProgress::Resolved(
                    Err(IdentityErrorView::Backend { message }),
                ),
                Some(Ok(owned)) => TargetProgress::Resolved(
                    window_target_choice(handle, window_name, parent_session, owned),
                ),
            },
        }
    }
}

/// The question a session-mode lookup asks next, if any.
pub open spec fn session_query(f: LookupView, handle: Seq<char>) -> Option<QueryView> {
    match f.target_session {
        None => Some(QueryView::TargetSession { handle }),
        Some(target) => match f.session_exists {
            None => Some(QueryView::SessionExists { session: session_name(f, handle, target) }),
            Some(_) => None,
        },
    }
}

/// The question a window-mode lookup asks next, if any.
pub open spec fn window_query(f: LookupView, path: Seq<char>, handle: Seq<char>) -> Option<
    QueryView,
> {
    match f.target_window {
        None => Some(QueryView::TargetWindow { handle }),
        Some(target) => match f.window_session {
            None => Some(QueryView::WindowSession { handle }),
            Some(parent_session) => match f.ownership {
                None => Some(QueryView::SupportsWindowOwnership),
                Some(supported) => match target_progress(
                    f,
                    path,
                    handle,
                    prefixed(f.prefix, unwrap_or(target, handle)),
                    parent_session,
                    supported,
                ) {
                    TargetProgress::Ask(q) => Some(q),
                    TargetProgress::Resolved(Err(_)) => None,
                    TargetProgress::Resolved(Ok(t)) => match f.window_exists {
                        None => Some(QueryView::WindowExists { target: t }),
                        Some(_) => None,
                    },
                },
            },
        },
    }
}

/// The question the lookup asks next; `None` once it is done.
///
/// The worktree comes first, then its mode; a server that is not running is
/// asked nothing more. A running one is asked for its incarnation and its
/// panes, then for the session or window the handle names.
pub open spec fn next_query(f: LookupView) -> Option<QueryView> {
    match f.worktree {
        None => Some(QueryView::FindWorktree { name: f.name }),
        Some(None) => None,
        Some(Some(w)) => match w.handle {
            None => None,
            Some(h) => match f.mode {
                None => Some(QueryView::WorktreeMode { handle: h }),
                Some(mode) => match f.running {
                    None => Some(QueryView::ServerRunning),
                    Some(running) => if running != Some(true) {
                        None
                    } else if f.boot_id is None {
                        Some(QueryView::ServerBootId)
                    } else if f.panes is None {
                        Some(QueryView::LivePanes)
                    } else {
                        match mode {
                            MuxMode::Session => session_query(f, h),
                            MuxMode::Window => window_query(f, w.path, h),
                        }
                    },
                },
            },
        },
    }
}

/// The identity before anything live is known of it: the handle's worktree,
/// and nothing open.
pub open spec fn closed_identity(f: LookupView, w: WorktreeView, handle: Seq<char>, mode: MuxMode) -> MuxIdentityView {
    MuxIdentityView {
        handle,
        branch: w.branch,
        path: w.path,
        mode,
        backend: f.backend,
        server_start_time: None,
        is_open: false,
        session: None,
        window_id: None,
        window_name: None,
        pane_ids: Seq::empty(),
    }
}

/// The live pane that an id names.
pub open spec fn first_pane(ids: Seq<Seq<char>>, panes: Map<Seq<char>, LivePaneView>) -> Option<
    LivePaneView,
> {
    if ids.len() > 0 && panes.contains_key(ids[0]) {
        Some(panes[ids[0]])
    } else {
        None
    }
}

pub open spec fn pane_session(p: Option<LivePaneView>) -> Option<Seq<char>> {
    match p {
        Some(pane) => pane.session,
        None => None,
    }
}

pub open spec fn pane_window_id(p: Option<LivePaneView>) -> Option<Seq<char>> {
    match p {
        Some(pane) => pane.window_id,
        None => None,
    }
}

/// The identity of a handle in session mode: the session's panes, reported
/// whether or not the session exists, and the session itself only when it does.
pub open spec fn session_outcome(
    f: LookupView,
    base: MuxIdentityView,
    handle: Seq<char>,
    r: Result<MuxIdentityView, IdentityErrorView>,
) -> bool {
    match (f.target_session, f.session_exists) {
        (Some(target), Some(exists)) => {
            let session = session_name(f, handle, target);
            let open = exists == Some(true);
            match r {
                Ok(id) => {
                    &&& id == MuxIdentityView {
                        server_start_time: f.boot(),
                        is_open: open,
                        session: if open {
                            Some(session)
                        } else {
                            None
                        },
                        pane_ids: id.pane_ids,
                        ..base
                    }
                    &&& lists_in_pane_order(id.pane_ids, session_pane_set(f.pane_map(), session))
                },
                Err(_) => false,
            }
        },
        _ => false,
    }
}

/// The identity of a handle in window mode. A window that does not exist
/// reports no ids. One that does reports its name, its panes, the session its
/// first pane is in (where it is now, not where it was opened; the recorded
/// parent session when there is no such pane), and its stable id (the first
/// pane's when the window's own was not resolved).
pub open spec fn window_outcome(
    f: LookupView,
    base: MuxIdentityView,
    path: Seq<char>,
    handle: Seq<char>,
    r: Result<MuxIdentityView, IdentityErrorView>,
) -> bool {
    match (f.target_window, f.window_session, f.ownership) {
        (Some(target), Some(parent_session), Some(supported)) => match target_progress(
            f,
            path,
            handle,
            prefixed(f.prefix, unwrap_or(target, handle)),
            parent_session,
            supported,
        ) {
            TargetProgress::Ask(_) => false,
            TargetProgress::Resolved(Err(e)) => r == Err::<MuxIdentityView, _>(e),
            TargetProgress::Resolved(Ok(t)) => match f.window_exists {
                None => false,
                Some(exists) => if exists != Some(true) {
                    r == Ok::<_, IdentityErrorView>(
                        MuxIdentityView { server_start_time: f.boot(), ..base },
                    )
                } else {
                    match r {
                        Ok(id) => {
                            let first = first_pane(id.pane_ids, f.pane_map());
                            &&& id == MuxIdentityView {
                                server_start_time: f.boot(),
                                is_open: true,
                                window_name: Some(t.full_name),
                                window_id: or_else(t.window_id, pane_window_id(first)),
                                session: or_else(pane_session(first), parent_session),
                                pane_ids: id.pane_ids,
                                ..base
                            }
                            &&& lists_in_pane_order(
                                id.pane_ids,
                                window_pane_set(
                                    f.pane_map(),
                                    t.window_id,
                                    t.full_name,
                                    t.parent_session,
                                ),
                            )
                        },
                        Err(_) => false,
                    }
                },
            },
        },
        _ => false,
    }
}

/// What a finished lookup reports. A worktree that does not exist is an
/// error; one that exists but has no window is not: it reports `is_open:
/// false`, a different fact that callers need to tell apart. A server that is
/// not running has no ids to report.
pub open spec fn identity_outcome(f: LookupView, r: Result<MuxIdentityView, IdentityErrorView>) -> bool {
    match f.worktree {
        Some(None) => r == Err::<MuxIdentityView, _>(
            IdentityErrorView::WorktreeNotFound { name: f.name },
        ),
        Some(Some(w)) => match w.handle {
            None => r == Err::<MuxIdentityView, _>(IdentityErrorView::NoDirectoryName),
            Some(h) => match (f.mode, f.running) {
                (Some(mode), Some(running)) => {
                    let base = closed_identity(f, w, h, mode);
                    if running != Some(true) {
                        r == Ok::<_, IdentityErrorView>(base)
                    } else {
                        match mode {
                            MuxMode::Session => session_outcome(f, base, h, r),
                            MuxMode::Window => window_outcome(f, base, w.path, h, r),
                        }
                    }
                },
                _ => false,
            },
        },
        None => false,
    }
}

pub open spec fn result_view(r: Result<MuxIdentity, IdentityError>) -> Result<
    MuxIdentityView,
    IdentityErrorView,
> {
    match r {
        Ok(id) => Ok(id@),
        Err(e) => Err(e@),
    }
}

/// The state of one identity lookup: the name it resolves, the window prefix
/// and backend name it was started with, and each reply it has been given.
#[derive(Debug)]
pub struct IdentityLookup {
    name: String,
    prefix: String,
    backend: String,
    worktree: Option<Option<WorktreeInfo>>,
    mode: Option<MuxMode>,
    running: Option<Option<bool>>,
    boot_id: Option<Option<Option<String>>>,
    panes: Option<Option<PaneSnapshot>>,
    target_session: Option<Option<String>>,
    session_exists: Option<Option<bool>>,
    target_window: Option<Option<String>>,
    window_session: Option<Option<String>>,
    ownership: Option<bool>,
    token: Option<Option<String>>,
    owned: Option<Result<Vec<OwnedWindowTarget>, String>>,
    window_exists: Option<Option<bool>>,
}

impl View for IdentityLookup {
    type V = LookupView;

    closed spec fn view(&self) -> LookupView {
        LookupView {
            name: self.name@,
            prefix: self.prefix@,
            backend: self.backend@,
            worktree: match self.worktree {
                Some(Some(w)) => Some(Some(w@)),
                Some(None) => Some(None),
                None => None,
            },
            mode: self.mode,
            running: self.running,
            boot_id: match self.boot_id {
                Some(b) => Some(opt_opt_view(b)),
                None => None,
            },
            panes: match self.panes {
                Some(Some(p)) => Some(Some(p@)),
                Some(None) => Some(None),
                None => None,
            },
            target_session: opt_opt_view(self.target_session),
            session_exists: self.session_exists,
            target_window: opt_opt_view(self.target_window),
            window_session: opt_opt_view(self.window_session),
            ownership: self.ownership,
            token: opt_opt_view(self.token),
            owned: match self.owned {
                Some(Ok(v)) => Some(Ok(owned_views(v@))),
                Some(Err(m)) => Some(Err(m@)),
                None => None,
            },
            window_exists: self.window_exists,
        }
    }
}

/// What the lookup needs next: a reply to a query, or nothing more.
#[derive(Debug)]
pub enum LookupStep {
    Ask(MuxQuery),
    Done(Result<MuxIdentity, IdentityError>),
}

/// The contract of one step of the lookup.
pub open spec fn step_follows(f: LookupView, step: LookupStep) -> bool {
    match step {
        LookupStep::Ask(q) => next_query(f) == Some(q@),
        LookupStep::Done(r) => next_query(f) is None && identity_outcome(f, result_view(r)),
    }
}

enum TargetStep {
    Ask(MuxQuery),
    Resolved(Result<WindowTarget, IdentityError>),
}

spec fn target_step_follows(step: TargetStep, progress: TargetProgress) -> bool {
    match (step, progress) {
        (TargetStep::Ask(q), TargetProgress::Ask(v)) => q@ == v,
        (TargetStep::Resolved(Ok(t)), TargetProgress::Resolved(Ok(v))) => t@ == v,
        (TargetStep::Resolved(Err(e)), TargetProgress::Resolved(Err(v))) => e@ == v,
        _ => false,
    }
}

fn opt_as_str(o: &Option<String>) -> (r: Option<&str>)
    ensures
        opt_str_view(r) == opt_view(*o),
{
    match o {
        Some(s) => Some(s.as_str()),
        None => None,
    }
}

fn pane_session_of(p: Option<&LivePaneInfo>) -> (r: Option<String>)
    ensures
        opt_view(r) == pane_session(
            match p {
                Some(info) => Some(info@),
                None => None,
            },
        ),
{
    match p {
        Some(info) => clone_opt(&info.session),
        None => None,
    }
}

fn pane_window_id_of(p: Option<&LivePaneInfo>) -> (r: Option<String>)
    ensures
        opt_view(r) == pane_window_id(
            match p {
                Some(info) => Some(info@),
                None => None,
            },
        ),
{
    match p {
        Some(info) => clone_opt(&info.window_id),
        None => None,
    }
}

fn or_else_exec(a: Option<String>, b: Option<String>) -> (r: Option<String>)
    ensures
        opt_view(r) == or_else(opt_view(a), opt_view(b)),
{
    match a {
        Some(x) => Some(x),
        None => b,
    }
}

impl IdentityLookup {
    /// A lookup of the worktree whose handle, or else whose branch, is `name`,
    /// with the configured window prefix and the name of the multiplexer
    /// backend that will answer.
    pub fn new(name: String, prefix: String, backend: String) -> (r: IdentityLookup)
        ensures
            r@ == (LookupView {
                name: name@,
                prefix: prefix@,
                backend: backend@,
                worktree: None,
                mode: None,
                running: None,
                boot_id: None,
                panes: None,
                target_session: None,
                session_exists: None,
                target_window: None,
                window_session: None,
                ownership: None,
                token: None,
                owned: None,
                window_exists: None,
            }),
    {
        IdentityLookup {
            name,
            prefix,
            backend,
            worktree: None,
            mode: None,
            running: None,
            boot_id: None,
            panes: None,
            target_session: None,
            session_exists: None,
            target_window: None,
            window_session: None,
            ownership: None,
            token: None,
            owned: None,
            window_exists: None,
        }
    }

    /// Records the reply to a query.
    pub fn answer(&mut self, answer: MuxAnswer)
        ensures
            final(self)@ == old(self)@.answered(answer),
    {
        match answer {
            MuxAnswer::Worktree(w) => self.worktree = Some(w),
            MuxAnswer::Mode(m) => self.mode = Some(m),
            MuxAnswer::ServerRunning(r) => self.running = Some(r),
            MuxAnswer::ServerBootId(b) => self.boot_id = Some(b),
            MuxAnswer::LivePanes(p) => self.panes = Some(p),
            MuxAnswer::TargetSession(t) => self.target_session = Some(t),
            MuxAnswer::SessionExists(e) => self.session_exists = Some(e),
            MuxAnswer::TargetWindow(t) => self.target_window = Some(t),
            MuxAnswer::WindowSession(s) => self.window_session = Some(s),
            MuxAnswer::SupportsWindowOwnership(b) => self.ownership = Some(b),
            MuxAnswer::WindowToken(t) => self.token = Some(t),
            MuxAnswer::OwnedWindows(o) => self.owned = Some(o),
            MuxAnswer::WindowExists(e) => self.window_exists = Some(e),
        }
    }

    fn boot(&self) -> (r: Option<String>)
        ensures
            opt_view(r) == self@.boot(),
    {
        match &self.boot_id {
            Some(Some(b)) => clone_opt(b),
            _ => None,
        }
    }

    fn closed(&self, w: &WorktreeInfo, handle: &String, mode: MuxMode) -> (r: MuxIdentity)
        ensures
            r@ == closed_identity(self@, w@, handle@, mode),
    {
        let r = MuxIdentity {
            handle: handle.clone(),
            branch: w.branch.clone(),
            path: w.path.clone(),
            mode,
            backend: self.backend.clone(),
            server_start_time: None,
            is_open: false,
            session: None,
            window_id: None,
            window_name: None,
            pane_ids: Vec::new(),
        };
        assert(r@.pane_ids =~= Seq::<Seq<char>>::empty());
        r
    }

    fn session_step(&self, w: &WorktreeInfo, handle: &String) -> (step: LookupStep)
        requires
            self@.worktree == Some(Some(w@)),
            w@.handle == Some(handle@),
            self@.mode == Some(MuxMode::Session),
            self@.running == Some(Some(true)),
            self@.boot_id is Some,
            self@.panes is Some,
        ensures
            step_follows(self@, step),
    {
        let target = match &self.target_session {
            None => return LookupStep::Ask(MuxQuery::TargetSession { handle: handle.clone() }),
            Some(t) => t,
        };
        let base_name = match target {
            Some(t) => t.clone(),
            None => handle.clone(),
        };
        let session = prefixed_name(&self.prefix, &base_name);
        assert(session@ == session_name(self@, handle@, opt_view(*target)));
        let exists = match &self.session_exists {
            None => return LookupStep::Ask(MuxQuery::SessionExists { session }),
            Some(e) => *e,
        };
        let empty = PaneSnapshot::new();
        let panes: &PaneSnapshot = match &self.panes {
            Some(Some(p)) => p,
            _ => &empty,
        };
        assert(panes@ == self@.pane_map());
        let pane_ids = panes_in_session(panes, session.as_str());
        let is_open = match exists {
            Some(b) => b,
            None => false,
        };
        let mut id = self.closed(w, handle, MuxMode::Session);
        id.server_start_time = self.boot();
        id.is_open = is_open;
        id.pane_ids = pane_ids;
        if is_open {
            id.session = Some(session);
        }
        LookupStep::Done(Ok(id))
    }

    fn resolve_target(
        &self,
        w: &WorktreeInfo,
        handle: &String,
        window_name: &String,
        parent_session: &Option<String>,
        supported: bool,
    ) -> (step: TargetStep)
        ensures
            target_step_follows(
                step,
                target_progress(
                    self@,
                    w@.path,
                    handle@,
                    window_name@,
                    opt_view(*parent_session),
                    supported,
                ),
            ),
    {
        let no_windows: Vec<OwnedWindowTarget> = Vec::new();
        assert(owned_views(no_windows@) =~= Seq::<OwnedWindowView>::empty());
        let parent = opt_as_str(parent_session);
        if !supported {
            return TargetStep::Resolved(
                window_target(handle.as_str(), window_name.as_str(), parent, &no_windows),
            );
        }
        let token = match &self.token {
            None => return TargetStep::Ask(MuxQuery::WindowToken { handle: handle.clone() }),
            Some(None) => {
                return TargetStep::Resolved(
                    window_target(handle.as_str(), window_name.as_str(), parent, &no_windows),
                );
            },
            Some(Some(t)) => t,
        };
        match &self.owned {
            None => TargetStep::Ask(
                MuxQuery::OwnedWindows {
                    token: token.clone(),
                    window_name: window_name.clone(),
                    parent_session: clone_opt(parent_session),
                    path: w.path.clone(),
                },
            ),
            Some(Err(message)) => TargetStep::Resolved(
                Err(IdentityError::Backend { message: message.clone() }),
            ),
            Some(Ok(owned)) => TargetStep::Resolved(
                window_target(handle.as_str(), window_name.as_str(), parent, owned),
            ),
        }
    }

    fn window_step(&self, w: &WorktreeInfo, handle: &String) -> (step: LookupStep)
        requires
            self@.worktree == Some(Some(w@)),
            w@.handle == Some(handle@),
            self@.mode == Some(MuxMode::Window),
            self@.running == Some(Some(true)),
            self@.boot_id is Some,
            self@.panes is Some,
        ensures
            step_follows(self@, step),
    {
        let target = match &self.target_window {
            None => return LookupStep::Ask(MuxQuery::TargetWindow { handle: handle.clone() }),
            Some(t) => t,
        };
        let parent_session = match &self.window_session {
            None => return LookupStep::Ask(MuxQuery::WindowSession { handle: handle.clone() }),
            Some(s) => s,
        };
        let supported = match self.ownership {
            None => return LookupStep::Ask(MuxQuery::SupportsWindowOwnership),
            Some(b) => b,
        };
        let base_name = match target {
            Some(t) => t.clone(),
            None => handle.clone(),
        };
        let window_name = prefixed_name(&self.prefix, &base_name);
        let resolved = match self.resolve_target(w, handle, &window_name, parent_session, supported) {
            TargetStep::Ask(q) => return LookupStep::Ask(q),
            TargetStep::Resolved(Err(e)) => return LookupStep::Done(Err(e)),
            TargetStep::Resolved(Ok(t)) => t,
        };
        let exists = match &self.window_exists {
            None => return LookupStep::Ask(MuxQuery::WindowExists { target: resolved }),
            Some(e) => *e,
        };
        let is_open = match exists {
            Some(b) => b,
            None => false,
        };
        let mut id = self.closed(w, handle, MuxMode::Window);
        id.server_start_time = self.boot();
        if !is_open {
            return LookupStep::Done(Ok(id));
        }
        let empty = PaneSnapshot::new();
        let panes: &PaneSnapshot = match &self.panes {
            Some(Some(p)) => p,
            _ => &empty,
        };
        assert(panes@ == self@.pane_map());
        let pane_ids = panes_in_window(
            panes,
            opt_as_str(&resolved.window_id),
            resolved.full_name.as_str(),
            opt_as_str(&resolved.parent_session),
        );
        let first = if pane_ids.len() > 0 {
            panes.get(pane_ids[0].as_str())
        } else {
            None
        };
        let ghost first_view = first_pane(str_views(pane_ids@), panes@);
        assert(match first {
            Some(info) => first_view == Some(info@),
            None => first_view is None,
        });
        id.is_open = true;
        id.window_name = Some(resolved.full_name.clone());
        id.window_id = or_else_exec(clone_opt(&resolved.window_id), pane_window_id_of(first));
        id.session = or_else_exec(pane_session_of(first), clone_opt(parent_session));
        id.pane_ids = pane_ids;
        LookupStep::Done(Ok(id))
    }
}

/// The next step of a lookup: the query to answer next, or, once every query
/// it needs is answered, the identity behind the handle.
///
/// The name is resolved the way every other command resolves it: handle
/// first, then branch.
pub fn identity(lookup: &IdentityLookup) -> (step: LookupStep)
    ensures
        step_follows(lookup@, step),
{
    let w = match &lookup.worktree {
        None => return LookupStep::Ask(MuxQuery::FindWorktree { name: lookup.name.clone() }),
        Some(None) => {
            return LookupStep::Done(
                Err(IdentityError::WorktreeNotFound { name: lookup.name.clone() }),
            );
        },
        Some(Some(w)) => w,
    };
    let handle = match &w.handle {
        None => return LookupStep::Done(Err(IdentityError::NoDirectoryName)),
        Some(h) => h,
    };
    let mode = match lookup.mode {
        None => return LookupStep::Ask(MuxQuery::WorktreeMode { handle: handle.clone() }),
        Some(m) => m,
    };
    let running = match lookup.running {
        None => return LookupStep::Ask(MuxQuery::ServerRunning),
        Some(r) => r,
    };
    let is_running = match running {
        Some(b) => b,
        None => false,
    };
    // A server that is not running has no ids to report, and saying so is the
    // whole answer: every field would otherwise be an invention.
    if !is_running {
        return LookupStep::Done(Ok(lookup.closed(w, handle, mode)));
    }
    if lookup.boot_id.is_none() {
        return LookupStep::Ask(MuxQuery::ServerBootId);
    }
    if lookup.panes.is_none() {
        return LookupStep::Ask(MuxQuery::LivePanes);
    }
    match mode {
        MuxMode::Session => lookup.session_step(w, handle),
        MuxMode::Window => lookup.window_step(w, handle),
    }
}

/// A lookup describes the world it was answered from and nothing else: two
/// lookups given the same replies report the same thing.
pub proof fn lemma_lookup_outcome_unique(
    f: LookupView,
    r1: Result<MuxIdentityView, IdentityErrorView>,
    r2: Result<MuxIdentityView, IdentityErrorView>,
)
    requires
        identity_outcome(f, r1),
        identity_outcome(f, r2),
    ensures
        r1 == r2,
{
    if let Some(Some(w)) = f.worktree {
        if let Some(h) = w.handle {
            if let (Some(mode), Some(running)) = (f.mode, f.running) {
                if running == Some(true) {
                    if let (Ok(id1), Ok(id2)) = (r1, r2) {
                        match mode {
                            MuxMode::Session => {
                                let session = session_name(f, h, f.target_session->0);
                                lemma_pane_listing_unique(
                                    id1.pane_ids,
                                    id2.pane_ids,
                                    session_pane_set(f.pane_map(), session),
                                );
                            },
                            MuxMode::Window => {
                                let target = f.target_window->0;
                                let parent_session = f.window_session->0;
                                let progress = target_progress(
                                    f,
                                    w.path,
                                    h,
                                    prefixed(f.prefix, unwrap_or(target, h)),
                                    parent_session,
                                    f.ownership->0,
                                );
                                if let TargetProgress::Resolved(Ok(t)) = progress {
                                    if f.window_exists == Some(Some(true)) {
                                        lemma_pane_listing_unique(
                                            id1.pane_ids,
                                            id2.pane_ids,
                                            window_pane_set(
                                                f.pane_map(),
                                                t.window_id,
                                                t.full_name,
                                                t.parent_session,
                                            ),
                                        );
                                    }
                                }
                            },
                        }
                    }
                }
            }
        }
    }
}

/// A server that is not running, or that could not say whether it is, has no
/// ids to report: the lookup reports the worktree with nothing open.
pub proof fn lemma_stopped_server_reports_no_ids(
    f: LookupView,
    r: Result<MuxIdentityView, IdentityErrorView>,
)
    requires
        identity_outcome(f, r),
        f.worktree matches Some(Some(w)) && w.handle is Some,
        f.running != Some(Some(true)),
    ensures
        r matches Ok(id) && {
            &&& !id.is_open
            &&& id.server_start_time is None
            &&& id.session is None
            &&& id.window_id is None
            &&& id.window_name is None
            &&& id.pane_ids.len() == 0
        },
{
}

/// A worktree whose window does not exist is not an error: the lookup
/// reports it with `is_open` false and no panes. The only errors of a
/// worktree in window mode are the handle's windows failing to resolve.
pub proof fn lemma_missing_window_is_not_an_error(
    f: LookupView,
    r: Result<MuxIdentityView, IdentityErrorView>,
)
    requires
        identity_outcome(f, r),
        f.worktree matches Some(Some(w)) && w.handle is Some,
        f.mode == Some(MuxMode::Window),
        f.window_exists != Some(Some(true)),
    ensures
        r matches Ok(id) ==> !id.is_open && id.pane_ids.len() == 0,
        r matches Err(e) ==> (e is DuplicateWindows || e is Backend),
{
}

/// A session that does not exist is not an error either: the lookup reports
/// it with `is_open` false and no session.
pub proof fn lemma_missing_session_is_not_an_error(
    f: LookupView,
    r: Result<MuxIdentityView, IdentityErrorView>,
)
    requires
        identity_outcome(f, r),
        f.worktree matches Some(Some(w)) && w.handle is Some,
        f.mode == Some(MuxMode::Session),
        f.session_exists != Some(Some(true)),
    ensures
        r matches Ok(id) && !id.is_open && id.session is None,
{
}

/// Whether a reply is the kind that answers a query.
pub open spec fn answers(q: QueryView, a: MuxAnswer) -> bool {
    match (q, a) {
        (QueryView::FindWorktree { .. }, MuxAnswer::Worktree(_)) => true,
        (QueryView::WorktreeMode { .. }, MuxAnswer::Mode(_)) => true,
        (QueryView::ServerRunning, MuxAnswer::ServerRunning(_)) => true,
        (QueryView::ServerBootId, MuxAnswer::ServerBootId(_)) => true,
        (QueryView::LivePanes, MuxAnswer::LivePanes(_)) => true,
        (QueryView::TargetSession { .. }, MuxAnswer::TargetSession(_)) => true,
        (QueryView::SessionExists { .. }, MuxAnswer::SessionExists(_)) => true,
        (QueryView::TargetWindow { .. }, MuxAnswer::TargetWindow(_)) => true,
        (QueryView::WindowSession { .. }, MuxAnswer::WindowSession(_)) => true,
        (QueryView::SupportsWindowOwnership, MuxAnswer::SupportsWindowOwnership(_)) => true,
        (QueryView::WindowToken { .. }, MuxAnswer::WindowToken(_)) => true,
        (QueryView::OwnedWindows { .. }, MuxAnswer::OwnedWindows(_)) => true,
        (QueryView::WindowExists { .. }, MuxAnswer::WindowExists(_)) => true,
        _ => false,
    }
}

/// How many of the lookup's questions have no reply yet.
pub open spec fn unanswered(f: LookupView) -> nat {
    (if f.worktree is None { 1nat } else { 0nat }) + (if f.mode is None { 1nat } else { 0nat })
        + (if f.running is None { 1nat } else { 0nat }) + (if f.boot_id is None {
        1nat
    } else {
        0nat
    }) + (if f.panes is None { 1nat } else { 0nat }) + (if f.target_session is None {
        1nat
    } else {
        0nat
    }) + (if f.session_exists is None { 1nat } else { 0nat }) + (if f.target_window is None {
        1nat
    } else {
        0nat
    }) + (if f.window_session is None { 1nat } else { 0nat }) + (if f.ownership is None {
        1nat
    } else {
        0nat
    }) + (if f.token is None { 1nat } else { 0nat }) + (if f.owned is None {
        1nat
    } else {
        0nat
    }) + (if f.window_exists is None { 1nat } else { 0nat })
}

/// The lookup only asks what it has no reply to yet: each reply to the query
/// it asked brings it closer to done, so it never asks one question twice
/// and ends after as many replies as it has questions.
pub proof fn lemma_each_reply_brings_the_lookup_closer_to_done(
    f: LookupView,
    q: QueryView,
    a: MuxAnswer,
)
    requires
        next_query(f) == Some(q),
        answers(q, a),
    ensures
        unanswered(f.answered(a)) < unanswered(f),
{
}

/// In session mode the session asked about, and reported when it exists, is
/// the configured prefix followed by the session recorded for the worktree,
/// or by the handle when none is recorded; its panes are the live panes whose
/// session it is.
pub proof fn lemma_session_is_prefix_then_target_or_handle(
    f: LookupView,
    w: WorktreeView,
    handle: Seq<char>,
    target: Option<Seq<char>>,
    r: Result<MuxIdentityView, IdentityErrorView>,
)
    requires
        f.worktree == Some(Some(w)),
        w.handle == Some(handle),
        f.mode == Some(MuxMode::Session),
        f.running == Some(Some(true)),
        f.boot_id is Some,
        f.panes is Some,
        f.target_session == Some(target),
    ensures
        ({
            let session = f.prefix + match target {
                Some(t) => t,
                None => handle,
            };
            &&& f.session_exists is None ==> next_query(f) == Some(
                QueryView::SessionExists { session },
            )
            &&& f.session_exists == Some(Some(true)) && identity_outcome(f, r) ==> (r matches Ok(
                id,
            ) && id.is_open && id.session == Some(session) && id.pane_ids.to_set() == Set::new(
                |p: Seq<char>|
                    f.pane_map().contains_key(p) && f.pane_map()[p].session == Some(session),
            ))
        }),
{
    let session = f.prefix + match target {
        Some(t) => t,
        None => handle,
    };
    if f.session_exists == Some(Some(true)) && identity_outcome(f, r) {
        let id = r->Ok_0;
        assert(id.pane_ids.to_set() =~= Set::new(
            |p: Seq<char>| f.pane_map().contains_key(p) && f.pane_map()[p].session == Some(session),
        ));
    }
}

/// A window moved between sessions is still the same window, and the caller
/// wants where it is: when the window is open and its first pane is live with
/// a known session, the reported session is that pane's, whatever session was
/// recorded for the worktree.
pub proof fn lemma_open_window_reports_where_its_first_pane_is(
    f: LookupView,
    id: MuxIdentityView,
    session: Seq<char>,
)
    requires
        identity_outcome(f, Ok(id)),
        f.mode == Some(MuxMode::Window),
        f.running == Some(Some(true)),
        id.is_open,
        id.pane_ids.len() > 0,
        f.pane_map().contains_key(id.pane_ids[0]),
        f.pane_map()[id.pane_ids[0]].session == Some(session),
    ensures
        id.session == Some(session),
{
}

/// For a running server the reported incarnation is the boot id the server
/// gave, in either mode and whether or not anything is open.
pub proof fn lemma_running_server_reports_its_boot_id(f: LookupView, id: MuxIdentityView)
    requires
        identity_outcome(f, Ok(id)),
        f.running == Some(Some(true)),
    ensures
        id.server_start_time == match f.boot_id {
            Some(Some(boot)) => boot,
            _ => None,
        },
{
}

/// The window a handle owns: the first primary window among those carrying its
/// token; else, when exactly one carries it, that one, primary or not; several
/// without a primary are an error naming how many; with none, the window is
/// known by its name and the recorded session, without a stable id.
pub proof fn lemma_window_target_choice_laws(
    handle: Seq<char>,
    window_name: Seq<char>,
    parent_session: Option<Seq<char>>,
    owned: Seq<OwnedWindowView>,
)
    ensures
        forall|i: int|
            0 <= i < owned.len() && owned[i].is_primary && (forall|j: int|
                0 <= j < i ==> !(#[trigger] owned[j]).is_primary) ==> window_target_choice(
                handle,
                window_name,
                parent_session,
                owned,
            ) == Ok::<_, IdentityErrorView>(owned[i].target),
        owned.len() == 1 ==> window_target_choice(handle, window_name, parent_session, owned)
            == Ok::<_, IdentityErrorView>(owned[0].target),
        owned.len() > 1 && (forall|j: int| 0 <= j < owned.len() ==> !(#[trigger] owned[j]).is_primary)
            ==> window_target_choice(handle, window_name, parent_session, owned) == Err::<
            WindowTargetView,
            _,
        >(IdentityErrorView::DuplicateWindows { handle, count: owned.len() }),
        owned.len() == 0 ==> window_target_choice(handle, window_name, parent_session, owned)
            == Ok::<_, IdentityErrorView>(
            WindowTargetView { full_name: window_name, window_id: None, parent_session },
        ),
{
    assert forall|i: int|
        0 <= i < owned.len() && owned[i].is_primary && (forall|j: int|
            0 <= j < i ==> !(#[trigger] owned[j]).is_primary) implies window_target_choice(
        handle,
        window_name,
        parent_session,
        owned,
    ) == Ok::<_, IdentityErrorView>(owned[i].target) by {
        lemma_first_primary_is(owned, 0, i);
    }
    if owned.len() == 1 {
        if owned[0].is_primary {
            lemma_first_primary_is(owned, 0, 0);
        } else {
            lemma_first_primary_none(owned, 0);
        }
    }
    if owned.len() > 1 && (forall|j: int| 0 <= j < owned.len() ==> !(#[trigger] owned[j]).is_primary) {
        lemma_first_primary_none(owned, 0);
    }
}

proof fn lemma_first_primary_is(owned: Seq<OwnedWindowView>, from: int, i: int)
    requires
        0 <= from <= i < owned.len(),
        owned[i].is_primary,
        forall|j: int| from <= j < i ==> !(#[trigger] owned[j]).is_primary,
    ensures
        first_primary(owned, from) == Some(i),
    decreases i - from,
{
    if from < i {
        lemma_first_primary_is(owned, from + 1, i);
    }
}

proof fn lemma_first_primary_none(owned: Seq<OwnedWindowView>, from: int)
    requires
        0 <= from,
        forall|j: int| from <= j < owned.len() ==> !(#[trigger] owned[j]).is_primary,
    ensures
        first_primary(owned, from) is None,
    decreases owned.len() - from,
{
    if from < owned.len() {
        lemma_first_primary_none(owned, from + 1);
    }
}

} // verus!
