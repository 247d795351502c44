//! What the host has to do after an operation on the orchestrator's state, in
//! the order given.
use crate::model::SessionId;
use crate::model::SessionInfo;
use crate::model::SessionInfoView;
use crate::model::Task;
use crate::model::TaskView;
use vstd::prelude::*;

verus! {

/// One thing for the host to do.
#[derive(Debug)]
pub enum Effect {
    /// Persist a session's info and announce it to the UI.
    SessionChanged(SessionInfo),
    /// Announce a session's info to the UI without persisting it.
    SessionShown(SessionInfo),
    /// Announce that a session left the registry.
    SessionRemoved(SessionId),
    /// Persist a log line and stream it to the UI.
    Log { session_id: SessionId, kind: String, text: String },
    /// Persist a task and announce it to the UI.
    TaskChanged(Task),
    /// Send terminal output to the UI.
    TermData { session_id: SessionId, data: Vec<u8>, replay: bool },
    /// Kill a session's process.
    Kill(SessionId),
}

/// The mathematical content of an [`Effect`].
pub enum EffectView {
    SessionChanged(SessionInfoView),
    SessionShown(SessionInfoView),
    SessionRemoved(Seq<char>),
    Log { session_id: Seq<char>, kind: Seq<char>, text: Seq<char> },
    TaskChanged(TaskView),
    TermData { session_id: Seq<char>, data: Seq<u8>, replay: bool },
    Kill(Seq<char>),
}

impl View for Effect {
    type V = EffectView;

    open spec fn view(&self) -> EffectView {
        match *self {
            Effect::SessionChanged(info) => EffectView::SessionChanged(info@),
            Effect::SessionShown(info) => EffectView::SessionShown(info@),
            Effect::SessionRemoved(sid) => EffectView::SessionRemoved(sid@),
            Effect::Log { session_id, kind, text } => EffectView::Log {
                session_id: session_id@,
                kind: kind@,
                text: text@,
            },
            Effect::TaskChanged(task) => EffectView::TaskChanged(task@),
            Effect::TermData { session_id, data, replay } => EffectView::TermData {
                session_id: session_id@,
                data: data@,
                replay,
            },
            Effect::Kill(sid) => EffectView::Kill(sid@),
        }
    }
}

/// The views of a list of effects.
pub open spec fn effects_of(v: Seq<Effect>) -> Seq<EffectView> {
    v.map_values(|e: Effect| e@)
}

/// No effect yet.
pub(crate) fn no_effects() -> (r: Vec<Effect>)
    ensures
        effects_of(r@) == Seq::<EffectView>::empty(),
{
    let r: Vec<Effect> = Vec::new();
    assert(effects_of(r@) =~= Seq::<EffectView>::empty());
    r
}

/// Add an effect.
pub(crate) fn add_effect(out: &mut Vec<Effect>, effect: Effect)
    ensures
        effects_of(final(out)@) == effects_of(old(out)@).push(effect@),
{
    out.push(effect);
    assert(effects_of(out@) =~= effects_of(old(out)@).push(effect@));
}

/// Add a log line.
pub(crate) fn add_log(out: &mut Vec<Effect>, sid: &str, kind: &str, text: String)
    ensures
        effects_of(final(out)@) == effects_of(old(out)@).push(
            EffectView::Log { session_id: sid@, kind: kind@, text: text@ },
        ),
{
    add_effect(
        out,
        Effect::Log { session_id: sid.to_owned(), kind: kind.to_owned(), text },
    );
}

/// Add all effects of another list.
pub(crate) fn add_all(out: &mut Vec<Effect>, more: Vec<Effect>)
    ensures
        effects_of(final(out)@) == effects_of(old(out)@) + effects_of(more@),
{
    let mut more = more;
    let ghost tail = more@;
    out.append(&mut more);
    assert(effects_of(out@) =~= effects_of(old(out)@) + effects_of(tail));
}

} // verus!
