//! `workmux identity` — the durable multiplexer identity of one handle, as
//! machine-readable fields and as text for a person.

use vstd::prelude::*;
use vstd::string::StringExecFns;

use crate::text::join;
use crate::workflow::identity::{MuxIdentity, MuxIdentityView, MuxMode};
use crate::workflow::panes::{push_joined, clone_opt, clone_strings, opt_view, str_views};

verus! {

/// The identity as machine-readable output.
///
/// A flat object on purpose: every field is one of the facts a caller records,
/// and nesting them would only make the ids harder to read back. Absent ids
/// stay present as `None` rather than being left out, so that a caller tells
/// "no window" from "field missing because this build is older".
#[derive(Debug)]
pub struct JsonIdentity {
    pub handle: String,
    pub branch: String,
    pub path: String,
    pub mode: String,
    pub backend: String,
    pub server_start_time: Option<String>,
    pub is_open: bool,
    pub session: Option<String>,
    pub window_id: Option<String>,
    pub window_name: Option<String>,
    pub pane_ids: Vec<String>,
}

pub struct JsonIdentityView {
    pub handle: Seq<char>,
    pub branch: Seq<char>,
    pub path: Seq<char>,
    pub mode: Seq<char>,
    pub backend: Seq<char>,
    pub server_start_time: Option<Seq<char>>,
    pub is_open: bool,
    pub session: Option<Seq<char>>,
    pub window_id: Option<Seq<char>>,
    pub window_name: Option<Seq<char>>,
    pub pane_ids: Seq<Seq<char>>,
}

impl View for JsonIdentity {
    type V = JsonIdentityView;

    open spec fn view(&self) -> JsonIdentityView {
        JsonIdentityView {
            handle: self.handle@,
            branch: self.branch@,
            path: self.path@,
            mode: self.mode@,
            backend: self.backend@,
            server_start_time: opt_view(self.server_start_time),
            is_open: self.is_open,
            session: opt_view(self.session),
            window_id: opt_view(self.window_id),
            window_name: opt_view(self.window_name),
            pane_ids: str_views(self.pane_ids@),
        }
    }
}

/// How a mode is spelled in the output.
pub open spec fn mode_name(mode: MuxMode) -> Seq<char> {
    match mode {
        MuxMode::Window => "window"@,
        MuxMode::Session => "session"@,
    }
}

/// The output fields of an identity: its own, with the mode spelled out.
pub open spec fn json_of(identity: MuxIdentityView) -> JsonIdentityView {
    JsonIdentityView {
        handle: identity.handle,
        branch: identity.branch,
        path: identity.path,
        mode: mode_name(identity.mode),
        backend: identity.backend,
        server_start_time: identity.server_start_time,
        is_open: identity.is_open,
        session: identity.session,
        window_id: identity.window_id,
        window_name: identity.window_name,
        pane_ids: identity.pane_ids,
    }
}

impl JsonIdentity {
    /// The output fields of an identity.
    pub fn from_identity(identity: &MuxIdentity) -> (r: JsonIdentity)
        ensures
            r@ == json_of(identity@),
    {
        JsonIdentity {
            handle: identity.handle.clone(),
            branch: identity.branch.clone(),
            path: identity.path.clone(),
            mode: match identity.mode {
                MuxMode::Window => String::from_str("window"),
                MuxMode::Session => String::from_str("session"),
            },
            backend: identity.backend.clone(),
            server_start_time: clone_opt(&identity.server_start_time),
            is_open: identity.is_open,
            session: clone_opt(&identity.session),
            window_id: clone_opt(&identity.window_id),
            window_name: clone_opt(&identity.window_name),
            pane_ids: clone_strings(&identity.pane_ids),
        }
    }
}

/// An optional field as the text shows it: `-` for none.
pub open spec fn or_dash(o: Option<Seq<char>>) -> Seq<char> {
    match o {
        Some(s) => s,
        None => "-"@,
    }
}

pub open spec fn bool_text(b: bool) -> Seq<char> {
    if b {
        "true"@
    } else {
        "false"@
    }
}

/// The pane ids as the text shows them: separated by spaces, `-` for none.
pub open spec fn panes_text(ids: Seq<Seq<char>>) -> Seq<char> {
    if ids.len() == 0 {
        "-"@
    } else {
        join(ids, " "@)
    }
}

/// The identity as text for a person: one labelled line per field.
pub open spec fn human_text(j: JsonIdentityView) -> Seq<char> {
    "handle            "@ + j.handle + "\n"@ + "branch            "@ + j.branch + "\n"@
        + "path              "@ + j.path + "\n"@ + "mode              "@ + j.mode + "\n"@
        + "backend           "@ + j.backend + "\n"@ + "server start time "@ + or_dash(
        j.server_start_time,
    ) + "\n"@ + "open              "@ + bool_text(j.is_open) + "\n"@ + "session           "@
        + or_dash(j.session) + "\n"@ + "window id         "@ + or_dash(j.window_id) + "\n"@
        + "window name       "@ + or_dash(j.window_name) + "\n"@ + "panes             "@
        + panes_text(j.pane_ids) + "\n"@
}

fn push_opt(out: &mut String, o: &Option<String>)
    ensures
        final(out)@ == old(out)@ + or_dash(opt_view(*o)),
{
    match o {
        Some(s) => out.append(s.as_str()),
        None => out.append("-"),
    }
}

fn push_panes(out: &mut String, ids: &Vec<String>)
    ensures
        final(out)@ == old(out)@ + panes_text(str_views(ids@)),
{
    if ids.len() == 0 {
        out.append("-");
    } else {
        push_joined(out, ids, " ");
    }
}

/// The identity as text for a person.
pub fn render_human(json: &JsonIdentity) -> (r: String)
    ensures
        r@ == human_text(json@),
{
    let mut out = String::new();
    out.append("handle            ");
    out.append(json.handle.as_str());
    out.append("\n");
    out.append("branch            ");
    out.append(json.branch.as_str());
    out.append("\n");
    out.append("path              ");
    out.append(json.path.as_str());
    out.append("\n");
    out.append("mode              ");
    out.append(json.mode.as_str());
    out.append("\n");
    out.append("backend           ");
    out.append(json.backend.as_str());
    out.append("\n");
    out.append("server start time ");
    push_opt(&mut out, &json.server_start_time);
    out.append("\n");
    out.append("open              ");
    if json.is_open {
        out.append("true");
    } else {
        out.append("false");
    }
    out.append("\n");
    out.append("session           ");
    push_opt(&mut out, &json.session);
    out.append("\n");
    out.append("window id         ");
    push_opt(&mut out, &json.window_id);
    out.append("\n");
    out.append("window name       ");
    push_opt(&mut out, &json.window_name);
    out.append("\n");
    out.append("panes             ");
    push_panes(&mut out, &json.pane_ids);
    out.append("\n");
    assert(out@ =~= human_text(json@));
    out
}

} // verus!
