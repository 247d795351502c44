//! What an event from a worker does to its session, field by field, and what it
//! has the host do.
use crate::effects::EffectView;
use crate::headless::event_fits;
use crate::headless::on_event;
use crate::headless::turn_complete;
use crate::laws::agree_elsewhere;
use crate::laws::lemma_put_session;
use crate::laws::tasks_agree_elsewhere;
use crate::model::F64Bits;
use crate::model::SessionInfoView;
use crate::model::SessionStatus;
use crate::model::TaskStatus;
use crate::model::TaskView;
use crate::model::TokenUsage;
use crate::protocol::EventView;
use crate::queue_laws::a_turn_ends_its_task;
use crate::state::lemma_put_session_valid;
use crate::state::lemma_session_at;
use crate::state::CoreView;
use crate::state::SessionView;
use crate::text::trimmed;
use vstd::prelude::*;

verus! {

/// Whether `shown` is what a log line of at most `max` characters shows of a
/// text: all of it, or its beginning and an ellipsis.
pub open spec fn shows(shown: Seq<char>, text: Seq<char>, max: int) -> bool {
    if text.len() <= max {
        shown == text
    } else {
        &&& shown.len() == max + 1
        &&& shown.last() == '\u{2026}'
        &&& forall|i: int| 0 <= i < max ==> shown[i] == text[i]
    }
}

/// A session's info is all that an event changes in the registry.
pub open spec fn only_info_changed(c: CoreView, d: CoreView, sid: Seq<char>) -> bool {
    &&& agree_elsewhere(c, d, sid)
    &&& d.tasks == c.tasks
    &&& d.config == c.config
    &&& d.attach_lru == c.attach_lru
    &&& d.has_session(sid) == c.has_session(sid)
    &&& c.has_session(sid) ==> d.session(sid) == (SessionView {
        info: d.info(sid),
        ..c.session(sid)
    })
}

proof fn lemma_info(c: CoreView, sid: Seq<char>, info: SessionInfoView)
    requires
        c.valid(),
        c.has_session(sid),
        info.id == sid,
    ensures
        only_info_changed(c, c.put_info(sid, info), sid),
        c.put_info(sid, info).info(sid) == info,
        c.update_info(sid, info).state == c.put_info(sid, info),
{
    lemma_put_session(c, sid, SessionView { info, ..c.session(sid) });
}

/// The handshake makes a session that was starting available, and no other. It
/// records the conversation, the model and the directory that it names, and
/// leaves each that it does not name.
pub proof fn a_handshake_makes_ready(
    c: CoreView,
    sid: Seq<char>,
    conversation: Option<Seq<char>>,
    model: Option<Seq<char>>,
    cwd: Option<Seq<char>>,
    now: i64,
)
    requires
        c.valid(),
        c.has_session(sid),
    ensures
        ({
            let step = on_event(
                c,
                sid,
                EventView::Init { session_id: conversation, model, cwd },
                now,
            );
            let was = c.info(sid);
            let is = step.state.info(sid);
            &&& only_info_changed(c, step.state, sid)
            &&& was.status == SessionStatus::Starting ==> is.status == SessionStatus::Idle
            &&& was.status != SessionStatus::Starting ==> is.status == was.status
            &&& conversation is Some ==> is.agent_session_id == conversation
            &&& conversation is None ==> is.agent_session_id == was.agent_session_id
            &&& model is Some ==> is.model == model
            &&& model is None ==> is.model == was.model
            &&& cwd is Some ==> is.cwd == cwd->0
            &&& cwd is None ==> is.cwd == was.cwd
            &&& is.activity == "ready"@
            &&& is.last_activity == now
            &&& is == (SessionInfoView {
                status: is.status,
                agent_session_id: is.agent_session_id,
                model: is.model,
                cwd: is.cwd,
                activity: is.activity,
                last_activity: is.last_activity,
                ..was
            })
            &&& step.effects == seq![
                EffectView::SessionChanged(is),
                EffectView::Log {
                    session_id: sid,
                    kind: "system"@,
                    text: "session initialized"@,
                },
            ]
        }),
{
    let info = c.info(sid).initialized(conversation, model, cwd).touched(now);
    lemma_id(c, sid);
    lemma_info(c, sid, info);
    let step = on_event(c, sid, EventView::Init { session_id: conversation, model, cwd }, now);
    assert(step.effects =~= seq![
        EffectView::SessionChanged(info),
        EffectView::Log { session_id: sid, kind: "system"@, text: "session initialized"@ },
    ]);
}

proof fn lemma_id(c: CoreView, sid: Seq<char>)
    requires
        c.has_session(sid),
    ensures
        c.info(sid).id == sid,
{
}

/// A system line is logged under its subtype, at most 200 characters of it. One
/// that tells of a retry shows on the session; no other changes anything.
pub proof fn a_system_line_is_logged(
    c: CoreView,
    sid: Seq<char>,
    subtype: Seq<char>,
    text: Seq<char>,
    now: i64,
)
    requires
        c.valid(),
        c.has_session(sid),
    ensures
        ({
            let step = on_event(c, sid, EventView::System { subtype, text }, now);
            let n = step.effects.len() - 1;
            let is = step.state.info(sid);
            &&& step.effects.last() is Log
            &&& step.effects.last()->Log_session_id == sid
            &&& step.effects.last()->kind == "system"@
            &&& step.effects.last()->text.len() >= subtype.len() + 2
            &&& step.effects.last()->text.take(subtype.len() as int + 2) == subtype + ": "@
            &&& shows(step.effects.last()->text.skip(subtype.len() as int + 2), text, 200)
            &&& subtype != "api_retry"@ ==> step.state == c && n == 0
            &&& subtype == "api_retry"@ ==> {
                &&& only_info_changed(c, step.state, sid)
                &&& is == (SessionInfoView {
                    activity: "retrying request"@,
                    last_activity: now,
                    ..c.info(sid)
                })
                &&& n == 1
                &&& step.effects[0] == EffectView::SessionChanged(is)
            }
        }),
{
    lemma_id(c, sid);
    let info = c.info(sid).doing("retrying request"@).touched(now);
    lemma_info(c, sid, info);
    reveal_strlit(": ");
    let step = on_event(c, sid, EventView::System { subtype, text }, now);
    let head = subtype + ": "@;
    let shown = if text.len() <= 200 {
        text
    } else {
        text.take(200).push('\u{2026}')
    };
    assert(step.effects.last()->text == head + shown);
    assert((head + shown).take(subtype.len() as int + 2) =~= head);
    assert((head + shown).skip(subtype.len() as int + 2) =~= shown);
}

/// A message makes its session busy. It names the first tool that is used, or
/// says that the session responds; each tool is logged, in order, and then the
/// text, unless it is blank.
pub proof fn a_message_keeps_busy(
    c: CoreView,
    sid: Seq<char>,
    text: Seq<char>,
    tools: Seq<Seq<char>>,
    now: i64,
)
    requires
        c.valid(),
        c.has_session(sid),
    ensures
        ({
            let step = on_event(c, sid, EventView::Assistant { text, tools }, now);
            let is = step.state.info(sid);
            let blank = trimmed(text).len() == 0;
            &&& only_info_changed(c, step.state, sid)
            &&& tools.len() == 0 ==> is.activity == "responding"@
            &&& tools.len() > 0 ==> is.activity == "using "@ + tools[0]
            &&& is == (SessionInfoView {
                status: SessionStatus::Busy,
                activity: is.activity,
                last_activity: now,
                ..c.info(sid)
            })
            &&& blank ==> step.effects.len() == tools.len() + 1
            &&& !blank ==> step.effects.len() == tools.len() + 2 && step.effects.last() == (
            EffectView::Log { session_id: sid, kind: "assistant"@, text })
            &&& step.effects[0] == EffectView::SessionChanged(is)
            &&& forall|i: int|
                0 <= i < tools.len() ==> #[trigger] step.effects[i + 1] == (EffectView::Log {
                    session_id: sid,
                    kind: "tool_use"@,
                    text: tools[i],
                })
        }),
{
    lemma_id(c, sid);
    lemma_info(c, sid, c.info(sid).responding(tools).touched(now));
}

/// A tool's answer is logged, at most 400 characters of it, unless it is blank;
/// nothing else happens.
pub proof fn a_tools_answer_is_logged(c: CoreView, sid: Seq<char>, text: Seq<char>, now: i64)
    ensures
        ({
            let step = on_event(c, sid, EventView::ToolResult { text }, now);
            &&& step.state == c
            &&& trimmed(text).len() == 0 ==> step.effects.len() == 0
            &&& trimmed(text).len() > 0 ==> {
                &&& step.effects.len() == 1
                &&& step.effects[0] is Log
                &&& step.effects[0]->Log_session_id == sid
                &&& step.effects[0]->kind == "tool_result"@
                &&& shows(step.effects[0]->text, text, 400)
            }
        }),
{
}

/// Incremental text, and what is not known, is passed over.
pub proof fn the_rest_is_passed_over(c: CoreView, sid: Seq<char>, text: Seq<char>, now: i64)
    ensures
        on_event(c, sid, EventView::TextDelta { text }, now).state == c,
        on_event(c, sid, EventView::TextDelta { text }, now).effects.len() == 0,
        on_event(c, sid, EventView::Other { kind: text }, now).state == c,
        on_event(c, sid, EventView::Other { kind: text }, now).effects.len() == 0,
{
}

/// The end of a turn makes a session available, whatever it was. Tokens add up,
/// kind by kind; the cost is the last one reported; turns are as reported, or one
/// more; the conversation is the one named, or stays. The summary is logged, at
/// most 600 characters of it.
pub proof fn the_end_of_a_turn_frees(
    c: CoreView,
    sid: Seq<char>,
    is_error: bool,
    text: Option<Seq<char>>,
    usage: TokenUsage,
    cost_usd: Option<F64Bits>,
    num_turns: Option<u32>,
    conversation: Option<Seq<char>>,
    now: i64,
)
    requires
        c.valid(),
        c.has_session(sid),
        c.info(sid).current_task is None,
        c.info(sid).usage.input_tokens + usage.input_tokens <= u64::MAX,
        c.info(sid).usage.output_tokens + usage.output_tokens <= u64::MAX,
        c.info(sid).usage.cache_creation_tokens + usage.cache_creation_tokens <= u64::MAX,
        c.info(sid).usage.cache_read_tokens + usage.cache_read_tokens <= u64::MAX,
        num_turns is None ==> c.info(sid).turns < u32::MAX,
    ensures
        ({
            let step = on_event(
                c,
                sid,
                EventView::Result {
                    is_error,
                    text,
                    usage,
                    cost_usd,
                    num_turns,
                    session_id: conversation,
                },
                now,
            );
            let was = c.info(sid);
            let is = step.state.info(sid);
            &&& only_info_changed(c, step.state, sid)
            &&& is.status == SessionStatus::Idle
            &&& is_error ==> is.activity == "turn failed"@
            &&& !is_error ==> is.activity == "idle"@
            &&& is.usage.input_tokens == was.usage.input_tokens + usage.input_tokens
            &&& is.usage.output_tokens == was.usage.output_tokens + usage.output_tokens
            &&& is.usage.cache_creation_tokens == was.usage.cache_creation_tokens
                + usage.cache_creation_tokens
            &&& is.usage.cache_read_tokens == was.usage.cache_read_tokens + usage.cache_read_tokens
            &&& cost_usd is Some ==> is.cost_usd == cost_usd->0
            &&& cost_usd is None ==> is.cost_usd == was.cost_usd
            &&& num_turns is Some ==> is.turns == num_turns->0
            &&& num_turns is None ==> is.turns == was.turns + 1
            &&& conversation is Some ==> is.agent_session_id == conversation
            &&& conversation is None ==> is.agent_session_id == was.agent_session_id
            &&& is == (SessionInfoView {
                status: is.status,
                activity: is.activity,
                usage: is.usage,
                cost_usd: is.cost_usd,
                turns: is.turns,
                agent_session_id: is.agent_session_id,
                last_activity: now,
                ..was
            })
            &&& step.effects.len() == 2
            &&& step.effects[0] == EffectView::SessionChanged(is)
            &&& step.effects[1] is Log
            &&& step.effects[1]->Log_session_id == sid
            &&& step.effects[1]->kind == "result"@
            &&& text is Some ==> shows(step.effects[1]->text, text->0, 600)
            &&& text is None ==> step.effects[1]->text == "(turn complete)"@
        }),
{
    lemma_id(c, sid);
    reveal_strlit("(turn complete)");
    lemma_info(
        c,
        sid,
        c.info(sid).turn_over(is_error, usage, cost_usd, num_turns, conversation).touched(now),
    );
}

/// A worker that is not registered changes nothing: its lines are only logged.
pub proof fn a_stranger_changes_nothing(c: CoreView, sid: Seq<char>, ev: EventView, now: i64)
    requires
        !c.has_session(sid),
    ensures
        on_event(c, sid, ev, now).state == c,
        forall|i: int|
            0 <= i < on_event(c, sid, ev, now).effects.len() ==> (#[trigger] on_event(
                c,
                sid,
                ev,
                now,
            ).effects[i]) is Log,
{
}

/// The end of a turn settles the task that the session ran: done with the text of
/// the turn, or failed with it as the reason, cut to 300 characters; a turn
/// without a text counts as "(turn complete)". The session is free for another
/// task and the task is announced, after the session and its log line.
pub proof fn the_end_of_a_turn_settles_its_task(
    c: CoreView,
    sid: Seq<char>,
    is_error: bool,
    text: Option<Seq<char>>,
    usage: TokenUsage,
    cost_usd: Option<F64Bits>,
    num_turns: Option<u32>,
    conversation: Option<Seq<char>>,
    now: i64,
)
    requires
        c.valid(),
        c.has_session(sid),
        c.info(sid).current_task is Some,
        c.has_task(c.info(sid).current_task->0),
    ensures
        ({
            let ev = EventView::Result {
                is_error,
                text,
                usage,
                cost_usd,
                num_turns,
                session_id: conversation,
            };
            let step = on_event(c, sid, ev, now);
            let tid = c.info(sid).current_task->0;
            let was = c.task(tid);
            let is = step.state.task(tid);
            let said = if text is Some {
                text->0
            } else {
                "(turn complete)"@
            };
            &&& step.state.info(sid).status == SessionStatus::Idle
            &&& step.state.info(sid).current_task is None
            &&& is_error ==> is.error is Some && shows(is.error->0, said, 300) && is == (TaskView {
                status: TaskStatus::Failed,
                finished_at: Some(now),
                error: is.error,
                ..was
            })
            &&& !is_error ==> is.result_summary is Some && shows(is.result_summary->0, said, 300)
                && is == (TaskView {
                status: TaskStatus::Done,
                finished_at: Some(now),
                result_summary: is.result_summary,
                ..was
            })
            &&& tasks_agree_elsewhere(c, step.state, tid)
            &&& step.effects.len() == 3
            &&& step.effects[0] is SessionChanged
            &&& step.effects[1] is Log
            &&& step.effects[1]->kind == "result"@
            &&& shows(step.effects[1]->text, said, 600)
            &&& step.effects[2] == EffectView::TaskChanged(is)
        }),
{
    lemma_id(c, sid);
    let tid = c.info(sid).current_task->0;
    let info = c.info(sid).turn_over(is_error, usage, cost_usd, num_turns, conversation).touched(
        now,
    );
    lemma_info(c, sid, info);
    let b = c.put_info(sid, info);
    let k = choose|k: int| 0 <= k < c.sessions.len() && (#[trigger] c.sessions[k]).info.id == sid;
    lemma_session_at(c, k);
    assert(c.sessions[k].coherent());
    assert(c.sessions[k].info.attached ==> c.attach_lru.contains(c.sessions[k].info.id));
    lemma_put_session_valid(c, sid, SessionView { info, ..c.session(sid) });
    assert(b.tasks == c.tasks);
    assert(b.has_task(tid));
    assert(b.task(tid) == c.task(tid));
    let said = if text is Some {
        text->0
    } else {
        "(turn complete)"@
    };
    a_turn_ends_its_task(b, sid, is_error, said, now);
    let ev = EventView::Result {
        is_error,
        text,
        usage,
        cost_usd,
        num_turns,
        session_id: conversation,
    };
    let step = on_event(c, sid, ev, now);
    let d = step.state;
    assert(d == turn_complete(b, sid, is_error, said, now).state);
    assert forall|other: Seq<char>| #![trigger d.has_task(other)] other != tid implies d.has_task(
        other,
    ) == c.has_task(other) && (c.has_task(other) ==> d.task(other) == c.task(other)) by {
        assert(b.has_task(other) == c.has_task(other));
        assert(b.task(other) == c.task(other));
    }
}

/// Without a task there is nothing to settle; a task that is not there any more
/// is let go.
pub proof fn nothing_to_settle(
    c: CoreView,
    sid: Seq<char>,
    is_error: bool,
    summary: Seq<char>,
    now: i64,
)
    requires
        c.valid(),
    ensures
        ({
            let step = turn_complete(c, sid, is_error, summary, now);
            &&& !c.has_session(sid) || c.info(sid).current_task is None ==> step.state == c
                && step.effects.len() == 0
            &&& c.has_session(sid) && c.info(sid).current_task is Some && !c.has_task(
                c.info(sid).current_task->0,
            ) ==> {
                &&& only_info_changed(c, step.state, sid)
                &&& step.state.info(sid) == (SessionInfoView {
                    current_task: None,
                    ..c.info(sid)
                })
                &&& step.effects.len() == 0
            }
        }),
{
    if c.has_session(sid) && c.info(sid).current_task is Some {
        lemma_id(c, sid);
        let tid = c.info(sid).current_task->0;
        lemma_info(c, sid, c.info(sid).released());
        let b = c.put_info(sid, c.info(sid).released());
        assert(b.tasks == c.tasks);
        assert(b.has_task(tid) == c.has_task(tid));
    }
}

/// The end of a turn can be counted exactly where no token counter of its session
/// overflows, nor the count of turns where that is not reported; any other event,
/// and one of a session that is not registered, can always be taken.
pub proof fn when_an_event_fits(c: CoreView, sid: Seq<char>, ev: EventView)
    ensures
        !(ev is Result) || !c.has_session(sid) ==> event_fits(c, sid, ev),
        ev is Result && c.has_session(sid) ==> (event_fits(c, sid, ev) <==> {
            let u = c.info(sid).usage;
            &&& u.input_tokens + ev->usage.input_tokens <= u64::MAX
            &&& u.output_tokens + ev->usage.output_tokens <= u64::MAX
            &&& u.cache_creation_tokens + ev->usage.cache_creation_tokens <= u64::MAX
            &&& u.cache_read_tokens + ev->usage.cache_read_tokens <= u64::MAX
            &&& ev->num_turns is Some || c.info(sid).turns < u32::MAX
        }),
{
}

} // verus!
