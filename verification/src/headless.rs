//! What the output of a headless worker does to the orchestrator's state.
use crate::effects::add_all;
use crate::effects::add_log;
use crate::effects::effects_of;
use crate::effects::no_effects;
use crate::effects::Effect;
use crate::effects::EffectView;
use crate::model::F64Bits;
use crate::model::SessionInfoView;
use crate::model::SessionStatus;
use crate::model::TokenUsage;
use crate::protocol::line_event;
use crate::protocol::parse_line;
use crate::protocol::Event;
use crate::protocol::EventView;
use crate::state::Core;
use crate::state::CoreView;
use crate::state::Step;
use crate::text::is_blank;
use crate::text::opt_text;
use crate::text::or_text;
use crate::text::same_text;
use crate::text::texts;
use crate::text::trimmed;
use crate::text::truncate;
use crate::text::truncated;
use vstd::prelude::*;
use vstd::string::StringExecFns;

verus! {

/// How much of a system line is logged.
pub const SYSTEM_LOG_CHARS: usize = 200;

/// How much of a tool result is logged.
pub const TOOL_RESULT_LOG_CHARS: usize = 400;

/// How much of a turn's summary is logged.
pub const RESULT_LOG_CHARS: usize = 600;

// ---- what happens to a session's info --------------------------------------

impl SessionInfoView {
    /// Active at the given time.
    pub open spec fn touched(self, now: i64) -> SessionInfoView {
        SessionInfoView { last_activity: now, ..self }
    }

    /// Doing something else.
    pub open spec fn doing(self, activity: Seq<char>) -> SessionInfoView {
        SessionInfoView { activity, ..self }
    }

    /// After the handshake. A field that the handshake leaves out stays.
    pub open spec fn initialized(
        self,
        session_id: Option<Seq<char>>,
        model: Option<Seq<char>>,
        cwd: Option<Seq<char>>,
    ) -> SessionInfoView {
        SessionInfoView {
            agent_session_id: or_text(session_id, self.agent_session_id),
            model: or_text(model, self.model),
            cwd: match cwd {
                Some(c) => c,
                None => self.cwd,
            },
            status: if self.status is Starting {
                SessionStatus::Idle
            } else {
                self.status
            },
            activity: "ready"@,
            ..self
        }
    }

    /// In the middle of a turn, using the first of `tools` where there is one.
    pub open spec fn responding(self, tools: Seq<Seq<char>>) -> SessionInfoView {
        SessionInfoView {
            status: SessionStatus::Busy,
            activity: if tools.len() > 0 {
                "using "@ + tools[0]
            } else {
                "responding"@
            },
            ..self
        }
    }

    /// Whether the counters can take a turn's results.
    pub open spec fn has_room_for(self, usage: TokenUsage, num_turns: Option<u32>) -> bool {
        self.usage.can_add(usage) && (num_turns is None ==> self.turns < u32::MAX)
    }

    /// After a turn. Usage adds up; the cost and, where it is reported, the
    /// number of turns are cumulative already.
    pub open spec fn turn_over(
        self,
        is_error: bool,
        usage: TokenUsage,
        cost_usd: Option<F64Bits>,
        num_turns: Option<u32>,
        session_id: Option<Seq<char>>,
    ) -> SessionInfoView {
        SessionInfoView {
            usage: self.usage.plus(usage),
            cost_usd: match cost_usd {
                Some(c) => c,
                None => self.cost_usd,
            },
            turns: match num_turns {
                Some(n) => n,
                None => (self.turns + 1) as u32,
            },
            agent_session_id: or_text(session_id, self.agent_session_id),
            status: SessionStatus::Idle,
            activity: if is_error {
                "turn failed"@
            } else {
                "idle"@
            },
            ..self
        }
    }

    /// Free for another task.
    pub open spec fn released(self) -> SessionInfoView {
        SessionInfoView { current_task: None, ..self }
    }
}

// ---- what happens to the state ---------------------------------------------

/// A log line for each tool that a message uses.
pub open spec fn tool_logs(sid: Seq<char>, tools: Seq<Seq<char>>) -> Seq<EffectView> {
    tools.map_values(
        |t: Seq<char>| EffectView::Log { session_id: sid, kind: "tool_use"@, text: t },
    )
}

/// A log line, unless there is nothing to be read in it.
pub open spec fn visible_log(
    sid: Seq<char>,
    kind: Seq<char>,
    text: Seq<char>,
    shown: Seq<char>,
) -> Seq<EffectView> {
    if trimmed(text).len() == 0 {
        Seq::empty()
    } else {
        seq![EffectView::Log { session_id: sid, kind, text: shown }]
    }
}

/// The summary of a turn.
pub open spec fn summary_of(text: Option<Seq<char>>) -> Seq<char> {
    match text {
        Some(s) => s,
        None => "(turn complete)"@,
    }
}

/// A turn finished: the session is free again, and the task it ran, if any, is
/// done or failed.
pub open spec fn turn_complete(
    c: CoreView,
    sid: Seq<char>,
    is_error: bool,
    summary: Seq<char>,
    now: i64,
) -> Step {
    if c.has_session(sid) && c.info(sid).current_task is Some {
        let tid = c.info(sid).current_task->0;
        let freed = c.put_info(sid, c.info(sid).released());
        freed.update_task(tid, freed.task(tid).finished(is_error, summary, now))
    } else {
        c.unchanged()
    }
}

/// What an event from a session's worker does.
pub open spec fn on_event(c: CoreView, sid: Seq<char>, ev: EventView, now: i64) -> Step {
    match ev {
        EventView::Init { session_id, model, cwd } => c.update_info(
            sid,
            c.info(sid).initialized(session_id, model, cwd).touched(now),
        ).log(sid, "system"@, "session initialized"@),
        EventView::System { subtype, text } => (if subtype == "api_retry"@ {
            c.update_info(sid, c.info(sid).doing("retrying request"@).touched(now))
        } else {
            c.unchanged()
        }).log(
            sid,
            "system"@,
            subtype + ": "@ + truncated(text, SYSTEM_LOG_CHARS as int),
        ),
        EventView::Assistant { text, tools } => {
            let step = c.update_info(sid, c.info(sid).responding(tools).touched(now));
            Step {
                state: step.state,
                effects: step.effects + tool_logs(sid, tools) + visible_log(
                    sid,
                    "assistant"@,
                    text,
                    text,
                ),
            }
        },
        EventView::ToolResult { text } => Step {
            state: c,
            effects: visible_log(
                sid,
                "tool_result"@,
                text,
                truncated(text, TOOL_RESULT_LOG_CHARS as int),
            ),
        },
        EventView::TextDelta { text } => c.unchanged(),
        EventView::Other { kind } => c.unchanged(),
        EventView::Result { is_error, text, usage, cost_usd, num_turns, session_id } => {
            let step = c.update_info(
                sid,
                c.info(sid).turn_over(is_error, usage, cost_usd, num_turns, session_id).touched(
                    now,
                ),
            ).log(sid, "result"@, truncated(summary_of(text), RESULT_LOG_CHARS as int));
            step.then_step(turn_complete(step.state, sid, is_error, summary_of(text), now))
        },
    }
}

/// Whether the counters can take what an event brings.
pub open spec fn event_fits(c: CoreView, sid: Seq<char>, ev: EventView) -> bool {
    match ev {
        EventView::Result { usage, num_turns, .. } => c.has_session(sid) ==> c.info(
            sid,
        ).has_room_for(usage, num_turns),
        _ => true,
    }
}

impl Core {
    /// A headless turn finished: complete (or fail) the session's current task.
    pub fn on_turn_complete(
        &mut self,
        sid: &str,
        is_error: bool,
        summary: &str,
        now: i64,
    ) -> (r: Vec<Effect>)
        requires
            old(self).wf(),
        ensures
            final(self).wf(),
            final(self)@ == turn_complete(old(self)@, sid@, is_error, summary@, now).state,
            effects_of(r@) == turn_complete(old(self)@, sid@, is_error, summary@, now).effects,
    {
        match self.find_session(sid) {
            Some(i) => {
                let mut info = self.sessions[i].info.clone();
                match info.current_task {
                    Some(tid) => {
                        info.current_task = None;
                        assert(self@.sessions[i as int].info.attached ==> self@.attach_lru.contains(
                            sid@,
                        ));
                        self.set_info(i, info);
                        self.finish_task(tid.as_str(), is_error, summary, now)
                    },
                    None => no_effects(),
                }
            },
            None => no_effects(),
        }
    }

    /// Whether the counters can take what an event brings.
    pub fn has_room_for_event(&self, sid: &str, ev: &Event) -> (r: bool)
        requires
            self.wf(),
        ensures
            r == event_fits(self@, sid@, ev@),
    {
        match ev {
            Event::Result { usage, num_turns, .. } => match self.find_session(sid) {
                Some(i) => self.sessions[i].info.usage.has_room(usage) && (num_turns.is_some()
                    || self.sessions[i].info.turns < u32::MAX),
                None => true,
            },
            _ => true,
        }
    }

    /// The info of a registered session is attached only if it is in the order.
    proof fn lemma_attached(&self, i: int)
        requires
            self.wf(),
            0 <= i < self.sessions@.len(),
        ensures
            self@.sessions[i].info.attached ==> self@.attach_lru.contains(self@.sessions[i].info.id),
    {
    }

    fn on_init(
        &mut self,
        sid: &str,
        session_id: Option<String>,
        model: Option<String>,
        cwd: Option<String>,
        now: i64,
    ) -> (r: Vec<Effect>)
        requires
            old(self).wf(),
        ensures
            final(self).wf(),
            ({
                let ev = EventView::Init {
                    session_id: opt_text(session_id),
                    model: opt_text(model),
                    cwd: opt_text(cwd),
                };
                let step = on_event(old(self)@, sid@, ev, now);
                final(self)@ == step.state && effects_of(r@) == step.effects
            }),
    {
        let mut out = no_effects();
        let ghost step = self@.update_info(
            sid@,
            self@.info(sid@).initialized(
                opt_text(session_id),
                opt_text(model),
                opt_text(cwd),
            ).touched(now),
        );
        match self.find_session(sid) {
            Some(i) => {
                proof {
                    self.lemma_attached(i as int);
                }
                let mut info = self.sessions[i].info.clone();
                if session_id.is_some() {
                    info.agent_session_id = session_id;
                }
                if model.is_some() {
                    info.model = model;
                }
                match cwd {
                    Some(c) => {
                        info.cwd = c;
                    },
                    None => {},
                }
                if info.status == SessionStatus::Starting {
                    info.status = SessionStatus::Idle;
                }
                info.activity = "ready".to_owned();
                info.last_activity = now;
                self.change_info(i, info, &mut out);
            },
            None => {},
        }
        assert(effects_of(out@) =~= step.effects);
        add_log(&mut out, sid, "system", "session initialized".to_owned());
        out
    }

    fn on_system(&mut self, sid: &str, subtype: String, text: String, now: i64) -> (r: Vec<Effect>)
        requires
            old(self).wf(),
        ensures
            final(self).wf(),
            ({
                let ev = EventView::System { subtype: subtype@, text: text@ };
                let step = on_event(old(self)@, sid@, ev, now);
                final(self)@ == step.state && effects_of(r@) == step.effects
            }),
    {
        let mut out = no_effects();
        let ghost before = self@;
        if same_text(subtype.as_str(), "api_retry") {
            match self.find_session(sid) {
                Some(i) => {
                    proof {
                        self.lemma_attached(i as int);
                    }
                    let mut info = self.sessions[i].info.clone();
                    info.activity = "retrying request".to_owned();
                    info.last_activity = now;
                    self.change_info(i, info, &mut out);
                },
                None => {},
            }
            assert(effects_of(out@) =~= before.update_info(
                sid@,
                before.info(sid@).doing("retrying request"@).touched(now),
            ).effects);
        }
        let mut line = subtype.clone();
        line.append(": ");
        line.append(truncate(text.as_str(), SYSTEM_LOG_CHARS).as_str());
        add_log(&mut out, sid, "system", line);
        out
    }

    fn on_assistant(
        &mut self,
        sid: &str,
        text: String,
        tools: Vec<String>,
        now: i64,
    ) -> (r: Vec<Effect>)
        requires
            old(self).wf(),
        ensures
            final(self).wf(),
            ({
                let ev = EventView::Assistant { text: text@, tools: texts(tools@) };
                let step = on_event(old(self)@, sid@, ev, now);
                final(self)@ == step.state && effects_of(r@) == step.effects
            }),
    {
        let mut out = no_effects();
        let ghost step = self@.update_info(
            sid@,
            self@.info(sid@).responding(texts(tools@)).touched(now),
        );
        match self.find_session(sid) {
            Some(i) => {
                proof {
                    self.lemma_attached(i as int);
                }
                let mut info = self.sessions[i].info.clone();
                info.status = SessionStatus::Busy;
                info.activity = if tools.len() > 0 {
                    let mut activity = "using ".to_owned();
                    activity.append(tools[0].as_str());
                    assert(texts(tools@)[0] == tools@[0]@);
                    activity
                } else {
                    "responding".to_owned()
                };
                info.last_activity = now;
                self.change_info(i, info, &mut out);
            },
            None => {},
        }
        assert(effects_of(out@) =~= step.effects);
        let ghost logs = tool_logs(sid@, texts(tools@));
        let mut k: usize = 0;
        assert(step.effects + logs.take(0) =~= step.effects);
        while k < tools.len()
            invariant
                k <= tools@.len(),
                logs == tool_logs(sid@, texts(tools@)),
                effects_of(out@) == step.effects + logs.take(k as int),
            decreases tools@.len() - k,
        {
            add_log(&mut out, sid, "tool_use", tools[k].clone());
            k = k + 1;
            assert(logs[k - 1] == (EffectView::Log {
                session_id: sid@,
                kind: "tool_use"@,
                text: tools@[k - 1]@,
            }));
            assert(effects_of(out@) =~= step.effects + logs.take(k as int));
        }
        assert(logs.take(k as int) =~= logs);
        if !is_blank(text.as_str()) {
            add_log(&mut out, sid, "assistant", text);
        }
        assert(effects_of(out@) =~= step.effects + logs + visible_log(
            sid@,
            "assistant"@,
            text@,
            text@,
        ));
        out
    }

    fn on_tool_result(&self, sid: &str, text: &str) -> (r: Vec<Effect>)
        ensures
            effects_of(r@) == visible_log(
                sid@,
                "tool_result"@,
                text@,
                truncated(text@, TOOL_RESULT_LOG_CHARS as int),
            ),
    {
        let mut out = no_effects();
        if !is_blank(text) {
            add_log(&mut out, sid, "tool_result", truncate(text, TOOL_RESULT_LOG_CHARS));
        }
        assert(effects_of(out@) =~= visible_log(
            sid@,
            "tool_result"@,
            text@,
            truncated(text@, TOOL_RESULT_LOG_CHARS as int),
        ));
        out
    }

    fn on_result(
        &mut self,
        sid: &str,
        is_error: bool,
        text: Option<String>,
        usage: TokenUsage,
        cost_usd: Option<F64Bits>,
        num_turns: Option<u32>,
        session_id: Option<String>,
        now: i64,
    ) -> (r: Vec<Effect>)
        requires
            old(self).wf(),
            old(self)@.has_session(sid@) ==> old(self)@.info(sid@).has_room_for(usage, num_turns),
        ensures
            final(self).wf(),
            ({
                let ev = EventView::Result {
                    is_error,
                    text: opt_text(text),
                    usage,
                    cost_usd,
                    num_turns,
                    session_id: opt_text(session_id),
                };
                let step = on_event(old(self)@, sid@, ev, now);
                final(self)@ == step.state && effects_of(r@) == step.effects
            }),
    {
        let mut out = no_effects();
        let ghost step = self@.update_info(
            sid@,
            self@.info(sid@).turn_over(
                is_error,
                usage,
                cost_usd,
                num_turns,
                opt_text(session_id),
            ).touched(now),
        );
        match self.find_session(sid) {
            Some(i) => {
                proof {
                    self.lemma_attached(i as int);
                }
                let mut info = self.sessions[i].info.clone();
                info.usage.add(&usage);
                match cost_usd {
                    Some(c) => {
                        info.cost_usd = c;
                    },
                    None => {},
                }
                match num_turns {
                    Some(n) => {
                        info.turns = n;
                    },
                    None => {
                        info.turns = info.turns + 1;
                    },
                }
                if session_id.is_some() {
                    info.agent_session_id = session_id;
                }
                info.status = SessionStatus::Idle;
                info.activity = if is_error {
                    "turn failed".to_owned()
                } else {
                    "idle".to_owned()
                };
                info.last_activity = now;
                self.change_info(i, info, &mut out);
            },
            None => {},
        }
        assert(effects_of(out@) =~= step.effects);
        let summary = match text {
            Some(s) => s,
            None => "(turn complete)".to_owned(),
        };
        add_log(&mut out, sid, "result", truncate(summary.as_str(), RESULT_LOG_CHARS));
        let more = self.on_turn_complete(sid, is_error, summary.as_str(), now);
        add_all(&mut out, more);
        out
    }

    /// Apply an event from a session's worker.
    pub fn on_headless_event(&mut self, sid: &str, ev: Event, now: i64) -> (r: Vec<Effect>)
        requires
            old(self).wf(),
            event_fits(old(self)@, sid@, ev@),
        ensures
            final(self).wf(),
            final(self)@ == on_event(old(self)@, sid@, ev@, now).state,
            effects_of(r@) == on_event(old(self)@, sid@, ev@, now).effects,
    {
        match ev {
            Event::Init { session_id, model, cwd } => self.on_init(
                sid,
                session_id,
                model,
                cwd,
                now,
            ),
            Event::System { subtype, text } => self.on_system(sid, subtype, text, now),
            Event::Assistant { text, tools } => self.on_assistant(sid, text, tools, now),
            Event::ToolResult { text } => self.on_tool_result(sid, text.as_str()),
            Event::TextDelta { text: _ } => no_effects(),
            Event::Other { kind: _ } => no_effects(),
            Event::Result { is_error, text, usage, cost_usd, num_turns, session_id } =>
            self.on_result(
                sid,
                is_error,
                text,
                usage,
                cost_usd,
                num_turns,
                session_id,
                now,
            ),
        }
    }

    /// Apply one line of a worker's output. A line that is not JSON does
    /// nothing. Returns `None`, with the state unchanged, where a counter would
    /// overflow.
    pub fn on_headless_line(&mut self, sid: &str, line: &str, now: i64) -> (r: Option<Vec<Effect>>)
        requires
            old(self).wf(),
        ensures
            final(self).wf(),
            match line_event(line@) {
                None => {
                    &&& r is Some
                    &&& final(self)@ == old(self)@
                    &&& effects_of(r->0@) == Seq::<EffectView>::empty()
                },
                Some(ev) => if event_fits(old(self)@, sid@, ev) {
                    &&& r is Some
                    &&& final(self)@ == on_event(old(self)@, sid@, ev, now).state
                    &&& effects_of(r->0@) == on_event(old(self)@, sid@, ev, now).effects
                } else {
                    &&& r is None
                    &&& final(self)@ == old(self)@
                },
            },
    {
        match parse_line(line) {
            Some(ev) => if self.has_room_for_event(sid, &ev) {
                Some(self.on_headless_event(sid, ev, now))
            } else {
                None
            },
            None => Some(no_effects()),
        }
    }

    /// A line that a worker wrote to its error output: logged, unless blank.
    pub fn on_stderr_line(&self, sid: &str, line: &str) -> (r: Vec<Effect>)
        ensures
            effects_of(r@) == visible_log(sid@, "stderr"@, line@, line@),
    {
        let mut out = no_effects();
        if !is_blank(line) {
            add_log(&mut out, sid, "stderr", line.to_owned());
            assert(effects_of(out@) =~= visible_log(sid@, "stderr"@, line@, line@));
        }
        out
    }
}

} // verus!
