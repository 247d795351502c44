//! Names of the events that the UI is sent.
use crate::effects::Effect;
use crate::effects::EffectView;
use vstd::prelude::*;

verus! {

/// A session was created or any field of its
/// [`SessionInfo`](crate::model::SessionInfo) changed. Payload: `SessionInfo`.
pub const SESSION_UPDATE: &'static str = "session:update";

/// A session was removed from the registry. Payload: `{ "id": SessionId }`.
pub const SESSION_REMOVED: &'static str = "session:removed";

/// A new structured log line. Payload: `LogEntry`.
pub const LOG: &'static str = "log";

/// Raw terminal bytes for an attached interactive session.
/// Payload: `{ "session_id": SessionId, "data": base64, "replay": bool }`.
pub const TERM_DATA: &'static str = "term:data";

/// A task's status changed. Payload: `Task`.
pub const TASK_UPDATE: &'static str = "task:update";

/// Periodic system + aggregate resource sample. Payload: `SystemMetrics`.
pub const METRICS: &'static str = "metrics";

/// The event by which the UI learns of an effect. Killing a process sends none.
pub open spec fn announced_by(effect: EffectView) -> Option<Seq<char>> {
    match effect {
        EffectView::SessionChanged(_) => Some(SESSION_UPDATE@),
        EffectView::SessionShown(_) => Some(SESSION_UPDATE@),
        EffectView::SessionRemoved(_) => Some(SESSION_REMOVED@),
        EffectView::Log { .. } => Some(LOG@),
        EffectView::TaskChanged(_) => Some(TASK_UPDATE@),
        EffectView::TermData { .. } => Some(TERM_DATA@),
        EffectView::Kill(_) => None,
    }
}

/// The event by which the UI learns of an effect, if any.
pub fn event_name(effect: &Effect) -> (r: Option<&'static str>)
    ensures
        match r {
            Some(name) => announced_by(effect@) == Some(name@),
            None => announced_by(effect@) is None,
        },
{
    match effect {
        Effect::SessionChanged(_) => Some(SESSION_UPDATE),
        Effect::SessionShown(_) => Some(SESSION_UPDATE),
        Effect::SessionRemoved(_) => Some(SESSION_REMOVED),
        Effect::Log { .. } => Some(LOG),
        Effect::TaskChanged(_) => Some(TASK_UPDATE),
        Effect::TermData { .. } => Some(TERM_DATA),
        Effect::Kill(_) => None,
    }
}

} // verus!
