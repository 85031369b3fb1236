//! `workmux spawn` — run a command as the foreground process of a handle's pane.
//!
//! `workmux run` splits a fresh pane and streams the result back, which is the
//! right shape for a human asking a question. A supervisor needs the opposite:
//! the process has to become the foreground command of a pane whose id it
//! already recorded, so that the pane's exit *is* the process's exit and a
//! caller watching that id learns when the agent is gone. `respawn` keeps the
//! pane id across the replacement, which is what makes the identity recorded
//! before the spawn still describe the thing afterwards.

use vstd::prelude::*;
use vstd::string::StringExecFns;

use crate::text::join;
use crate::workflow::identity::{MuxIdentity, MuxMode};
use crate::workflow::panes::{push_joined, clone_strings, opt_str_view, str_eq, str_views};

verus! {

/// Why a spawn is refused.
#[derive(Debug)]
pub enum SpawnError {
    /// No command was given.
    NoCommand,
    /// The handle's window or session is not open.
    NotOpen { handle: String, mode: MuxMode },
    /// The requested pane is not one of the handle's.
    ForeignPane { pane_id: String, handle: String, pane_ids: Vec<String> },
    /// The handle's window has no pane.
    NoPanes { handle: String },
}

pub enum SpawnErrorView {
    NoCommand,
    NotOpen { handle: Seq<char>, mode: MuxMode },
    ForeignPane { pane_id: Seq<char>, handle: Seq<char>, pane_ids: Seq<Seq<char>> },
    NoPanes { handle: Seq<char> },
}

impl View for SpawnError {
    type V = SpawnErrorView;

    open spec fn view(&self) -> SpawnErrorView {
        match self {
            SpawnError::NoCommand => SpawnErrorView::NoCommand,
            SpawnError::NotOpen { handle, mode } => SpawnErrorView::NotOpen {
                handle: handle@,
                mode: *mode,
            },
            SpawnError::ForeignPane { pane_id, handle, pane_ids } => SpawnErrorView::ForeignPane {
                pane_id: pane_id@,
                handle: handle@,
                pane_ids: str_views(pane_ids@),
            },
            SpawnError::NoPanes { handle } => SpawnErrorView::NoPanes { handle: handle@ },
        }
    }
}

/// A handle's panes as an error lists them: separated by commas, `none` for
/// none.
pub open spec fn pane_list_text(ids: Seq<Seq<char>>) -> Seq<char> {
    if ids.len() == 0 {
        "none"@
    } else {
        join(ids, ", "@)
    }
}

pub open spec fn mode_noun(mode: MuxMode) -> Seq<char> {
    match mode {
        MuxMode::Session => "session"@,
        MuxMode::Window => "window"@,
    }
}

/// The text of a refusal, as the command reports it.
pub open spec fn spawn_error_message(e: SpawnErrorView) -> Seq<char> {
    match e {
        SpawnErrorView::NoCommand => "No command provided"@,
        SpawnErrorView::NotOpen { handle, mode } => "'"@ + handle + "' has no open "@ + mode_noun(
            mode,
        ) + ". Open one first: workmux open --background --no-pane-cmds "@ + handle,
        SpawnErrorView::ForeignPane { pane_id, handle, pane_ids } => "Pane '"@ + pane_id
            + "' is not part of '"@ + handle + "' (its panes are: "@ + pane_list_text(pane_ids)
            + ")"@,
        SpawnErrorView::NoPanes { handle } => "'"@ + handle + "' has no panes to spawn into"@,
    }
}

fn push_pane_list(out: &mut String, ids: &Vec<String>)
    ensures
        final(out)@ == old(out)@ + pane_list_text(str_views(ids@)),
{
    if ids.len() == 0 {
        out.append("none");
    } else {
        push_joined(out, ids, ", ");
    }
}

impl SpawnError {
    pub fn message(&self) -> (r: String)
        ensures
            r@ == spawn_error_message(self@),
    {
        match self {
            SpawnError::NoCommand => String::from_str("No command provided"),
            SpawnError::NotOpen { handle, mode } => {
                let mut r = String::from_str("'");
                r.append(handle.as_str());
                r.append("' has no open ");
                match mode {
                    MuxMode::Session => r.append("session"),
                    MuxMode::Window => r.append("window"),
                }
                r.append(". Open one first: workmux open --background --no-pane-cmds ");
                r.append(handle.as_str());
                assert(r@ =~= spawn_error_message(self@));
                r
            },
            SpawnError::ForeignPane { pane_id, handle, pane_ids } => {
                let mut r = String::from_str("Pane '");
                r.append(pane_id.as_str());
                r.append("' is not part of '");
                r.append(handle.as_str());
                r.append("' (its panes are: ");
                push_pane_list(&mut r, pane_ids);
                r.append(")");
                assert(r@ =~= spawn_error_message(self@));
                r
            },
            SpawnError::NoPanes { handle } => {
                let mut r = String::from_str("'");
                r.append(handle.as_str());
                r.append("' has no panes to spawn into");
                r
            },
        }
    }
}

/// The pane a spawn goes into: the requested one when it is one of the
/// handle's panes (else a refusal), and the handle's first pane when none is
/// requested (a refusal when it has none).
pub open spec fn target_pane_choice(
    handle: Seq<char>,
    pane_ids: Seq<Seq<char>>,
    requested: Option<Seq<char>>,
) -> Result<Seq<char>, SpawnErrorView> {
    match requested {
        Some(pane_id) => if pane_ids.contains(pane_id) {
            Ok(pane_id)
        } else {
            Err(SpawnErrorView::ForeignPane { pane_id, handle, pane_ids })
        },
        None => if pane_ids.len() > 0 {
            Ok(pane_ids[0])
        } else {
            Err(SpawnErrorView::NoPanes { handle })
        },
    }
}

/// Which pane to respawn, given what the caller asked for.
///
/// A pane the caller names must belong to this handle's window. Respawning
/// kills whatever is in the pane, so accepting an id from another window would
/// let one handle's spawn take down another's agent — and the caller would be
/// told it had succeeded.
pub fn target_pane<'a>(identity: &'a MuxIdentity, requested: Option<&'a str>) -> (r: Result<
    &'a str,
    SpawnError,
>)
    ensures
        match (r, target_pane_choice(
            identity@.handle,
            identity@.pane_ids,
            opt_str_view(requested),
        )) {
            (Ok(p), Ok(v)) => p@ == v,
            (Err(e), Err(v)) => e@ == v,
            _ => false,
        },
{
    let ghost ids = str_views(identity.pane_ids@);
    match requested {
        Some(pane_id) => {
            let mut i: usize = 0;
            while i < identity.pane_ids.len()
                invariant
                    i <= identity.pane_ids@.len(),
                    ids == str_views(identity.pane_ids@),
                    opt_str_view(requested) == Some(pane_id@),
                    forall|j: int| 0 <= j < i ==> ids[j] != pane_id@,
                decreases identity.pane_ids.len() - i,
            {
                if str_eq(identity.pane_ids[i].as_str(), pane_id) {
                    assert(ids[i as int] == pane_id@);
                    assert(ids.contains(pane_id@));
                    return Ok(pane_id);
                }
                i = i + 1;
            }
            Err(
                SpawnError::ForeignPane {
                    pane_id: String::from_str(pane_id),
                    handle: identity.handle.clone(),
                    pane_ids: clone_strings(&identity.pane_ids),
                },
            )
        },
        None => {
            if identity.pane_ids.len() > 0 {
                Ok(identity.pane_ids[0].as_str())
            } else {
                Err(SpawnError::NoPanes { handle: identity.handle.clone() })
            }
        },
    }
}

/// A spawn needs a command to run.
pub fn require_command(command_parts: &[String]) -> (r: Result<(), SpawnError>)
    ensures
        r is Ok <==> command_parts@.len() > 0,
        r matches Err(e) ==> e@ == SpawnErrorView::NoCommand,
{
    if command_parts.len() == 0 {
        Err(SpawnError::NoCommand)
    } else {
        Ok(())
    }
}

/// The pane a spawn replaces the foreground process of: only an open window
/// or session can take one, and then the pane is chosen as `target_pane`
/// chooses it.
pub fn spawn_pane(identity: &MuxIdentity, requested: Option<&str>) -> (r: Result<String, SpawnError>)
    ensures
        !identity.is_open ==> (r matches Err(e) && e@ == (SpawnErrorView::NotOpen {
            handle: identity@.handle,
            mode: identity.mode,
        })),
        identity.is_open ==> match (r, target_pane_choice(
            identity@.handle,
            identity@.pane_ids,
            opt_str_view(requested),
        )) {
            (Ok(p), Ok(v)) => p@ == v,
            (Err(e), Err(v)) => e@ == v,
            _ => false,
        },
{
    if !identity.is_open {
        return Err(SpawnError::NotOpen { handle: identity.handle.clone(), mode: identity.mode });
    }
    match target_pane(identity, requested) {
        Ok(p) => Ok(String::from_str(p)),
        Err(e) => Err(e),
    }
}

/// A spawn only ever goes into one of the handle's own panes, and a pane the
/// caller names is never swapped for another.
pub proof fn lemma_spawn_stays_in_the_handle(
    handle: Seq<char>,
    pane_ids: Seq<Seq<char>>,
    requested: Option<Seq<char>>,
)
    ensures
        target_pane_choice(handle, pane_ids, requested) matches Ok(p) ==> pane_ids.contains(p),
        target_pane_choice(handle, pane_ids, requested) matches Ok(p) ==> (requested matches Some(
            r,
        ) ==> p == r),
{
    if let Ok(p) = target_pane_choice(handle, pane_ids, requested) {
        if requested is None {
            assert(pane_ids[0] == p);
        }
    }
}

} // verus!
