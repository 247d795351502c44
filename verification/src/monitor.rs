//! The resource monitor: per-process samples for the sessions, and the
//! aggregates that the dashboard shows.
use crate::counting::count_if;
use crate::counting::lemma_count_bound;
use crate::counting::lemma_count_disjoint;
use crate::counting::lemma_count_take;
use crate::counting::lemma_select_none;
use crate::counting::lemma_select_take;
use crate::counting::select;
use crate::effects::add_effect;
use crate::effects::effects_of;
use crate::effects::no_effects;
use crate::effects::Effect;
use crate::effects::EffectView;
use crate::lifecycle::live;
use crate::model::F32Bits;
use crate::model::F64Bits;
use crate::model::SessionInfoView;
use crate::model::SessionStatus;
use crate::model::SystemMetrics;
use crate::state::lemma_put_session_at;
use crate::state::lemma_session_at;
use crate::state::Core;
use crate::state::CoreView;
use crate::state::SessionView;
use crate::state::Step;
use crate::tasks::under_way;
use crate::tasks::waiting;
use vstd::prelude::*;

verus! {

/// How long the host waits between two rounds of sampling, in milliseconds.
pub const TICK_MS: u64 = 1500;

/// What one process uses.
#[derive(Debug, Clone, Copy, PartialEq, Eq, Structural)]
pub struct Sample {
    pub pid: u32,
    pub cpu: F32Bits,
    pub mem_bytes: u64,
}

/// What the machine as a whole uses.
#[derive(Debug, Clone, Copy, PartialEq, Eq, Structural)]
pub struct HostSample {
    pub cpu_percent: F32Bits,
    pub mem_used: u64,
    pub mem_total: u64,
}

// ---- samples ---------------------------------------------------------------

/// The sample of the process with this id: the first one in the list, if any.
pub open spec fn sample_of(samples: Seq<Sample>, pid: u32) -> Option<Sample>
    decreases samples.len(),
{
    if samples.len() == 0 {
        None
    } else if samples[0].pid == pid {
        Some(samples[0])
    } else {
        sample_of(samples.skip(1), pid)
    }
}

/// What a round of samples says of a session. Where its process is not among
/// them but the session has not ended yet, it uses no CPU.
pub open spec fn sampled(info: SessionInfoView, samples: Seq<Sample>) -> SessionInfoView {
    match info.pid {
        Some(pid) => match sample_of(samples, pid) {
            Some(s) => SessionInfoView { cpu: s.cpu, mem_bytes: s.mem_bytes, ..info },
            None => if info.status.terminal() {
                info
            } else {
                SessionInfoView { cpu: F32Bits(0), ..info }
            },
        },
        None => info,
    }
}

/// A session after a round of samples.
pub open spec fn sampled_session(samples: Seq<Sample>) -> spec_fn(SessionView) -> SessionView {
    |s: SessionView| SessionView { info: sampled(s.info, samples), ..s }
}

/// The condition of being shown with fresh numbers: active, and past the start.
pub open spec fn under_watch() -> spec_fn(SessionView) -> bool {
    |s: SessionView| s.info.status.active() && !(s.info.status is Starting)
}

/// The announcement of a session.
pub open spec fn announcement() -> spec_fn(SessionView) -> EffectView {
    |s: SessionView| EffectView::SessionShown(s.info)
}

/// A round of samples: every session takes its numbers, and the ones under watch
/// are announced.
pub open spec fn sampled_all(c: CoreView, samples: Seq<Sample>) -> Step {
    let sessions = c.sessions.map_values(sampled_session(samples));
    Step {
        state: CoreView { sessions, ..c },
        effects: select(sessions, under_watch(), announcement()),
    }
}

fn find_sample(samples: &Vec<Sample>, pid: u32) -> (r: Option<Sample>)
    ensures
        r == sample_of(samples@, pid),
{
    let mut i: usize = 0;
    proof {
        assert(samples@.skip(0) =~= samples@);
    }
    while i < samples.len()
        invariant
            i <= samples@.len(),
            sample_of(samples@, pid) == sample_of(samples@.skip(i as int), pid),
        decreases samples@.len() - i,
    {
        let s = samples[i];
        if s.pid == pid {
            return Some(s);
        }
        proof {
            assert(samples@.skip(i as int).skip(1) =~= samples@.skip(i + 1));
        }
        i = i + 1;
    }
    None
}

// ---- aggregates ------------------------------------------------------------

/// The tokens that a list of sessions used together.
pub open spec fn token_sum(sessions: Seq<SessionView>) -> int
    decreases sessions.len(),
{
    if sessions.len() == 0 {
        0
    } else {
        token_sum(sessions.drop_last()) + sessions.last().info.usage.sum()
    }
}

proof fn lemma_live_tokens(sessions: Seq<SessionView>, i: int)
    requires
        0 <= i <= sessions.len(),
    ensures
        0 <= live_tokens(sessions.take(i)) <= live_tokens(sessions),
        i < sessions.len() ==> live_tokens(sessions.take(i + 1)) == live_tokens(sessions.take(i))
            + if live()(sessions[i]) {
            sessions[i].info.usage.sum()
        } else {
            0
        },
    decreases sessions.len(),
{
    reveal(Seq::filter);
    if i < sessions.len() {
        let front = sessions.drop_last();
        lemma_live_step(sessions.take(i + 1));
        assert(sessions.take(i + 1).drop_last() =~= sessions.take(i));
        assert(front.take(i) =~= sessions.take(i));
        lemma_live_tokens(front, i);
        lemma_live_step(sessions);
    } else {
        assert(sessions.take(i) =~= sessions);
        if sessions.len() > 0 {
            let front = sessions.drop_last();
            lemma_live_tokens(front, i - 1);
            assert(front.take(i - 1) =~= front);
            lemma_live_step(sessions);
        } else {
            assert(sessions.filter(live()) =~= Seq::empty());
        }
    }
}

pub(crate) proof fn lemma_live_step(sessions: Seq<SessionView>)
    requires
        sessions.len() > 0,
    ensures
        live_tokens(sessions) == live_tokens(sessions.drop_last()) + if live()(sessions.last()) {
            sessions.last().info.usage.sum()
        } else {
            0
        },
{
    reveal(Seq::filter);
    let kept = sessions.drop_last().filter(live());
    if live()(sessions.last()) {
        assert(kept.push(sessions.last()).drop_last() =~= kept);
    }
}

/// The tokens that all live sessions used together.
pub open spec fn live_tokens(sessions: Seq<SessionView>) -> int {
    token_sum(sessions.filter(live()))
}

/// The condition of being active.
pub open spec fn active() -> spec_fn(SessionView) -> bool {
    |s: SessionView| s.info.status.active()
}

/// The cost of each session.
pub open spec fn costs_of(sessions: Seq<SessionView>) -> Seq<F64Bits> {
    sessions.map_values(|s: SessionView| s.info.cost_usd)
}

/// The metrics of a state.
pub open spec fn metrics_of(
    c: CoreView,
    host: HostSample,
    total_cost_usd: F64Bits,
    ts: i64,
) -> SystemMetrics {
    SystemMetrics {
        cpu_percent: host.cpu_percent,
        mem_used: host.mem_used,
        mem_total: host.mem_total,
        active_sessions: count_if(c.sessions, active()) as usize,
        total_sessions: c.sessions.len() as usize,
        queued_tasks: count_if(c.tasks, waiting()) as usize,
        running_tasks: count_if(c.tasks, under_way()) as usize,
        total_tokens: live_tokens(c.sessions) as u64,
        total_cost_usd,
        ts,
    }
}

impl Core {
    /// Take a round of per-process samples.
    pub fn take_samples(&mut self, samples: &Vec<Sample>) -> (r: Vec<Effect>)
        requires
            old(self).wf(),
        ensures
            final(self).wf(),
            final(self)@ == sampled_all(old(self)@, samples@).state,
            effects_of(r@) == sampled_all(old(self)@, samples@).effects,
    {
        let ghost before = self@;
        let ghost goal = before.sessions.map_values(sampled_session(samples@));
        let mut out = no_effects();
        let mut i: usize = 0;
        proof {
            lemma_select_none(goal, under_watch(), announcement());
        }
        while i < self.sessions.len()
            invariant
                self.wf(),
                goal == before.sessions.map_values(sampled_session(samples@)),
                i <= self.sessions@.len(),
                self.sessions@.len() == before.sessions.len(),
                self@ == (CoreView { sessions: self@.sessions, ..before }),
                forall|j: int| 0 <= j < i ==> #[trigger] self@.sessions[j] == goal[j],
                forall|j: int|
                    i <= j < self@.sessions.len() ==> #[trigger] self@.sessions[j]
                        == before.sessions[j],
                effects_of(out@) == select(goal.take(i as int), under_watch(), announcement()),
            decreases self.sessions@.len() - i,
        {
            let ghost prev = self@;
            let mut info = self.sessions[i].info.clone();
            proof {
                lemma_session_at(prev, i as int);
                assert(prev.sessions[i as int].info.attached ==> prev.attach_lru.contains(
                    prev.sessions[i as int].info.id,
                ));
                lemma_select_take(goal, under_watch(), announcement(), i as int);
            }
            match info.pid {
                Some(pid) => match find_sample(samples, pid) {
                    Some(s) => {
                        info.cpu = s.cpu;
                        info.mem_bytes = s.mem_bytes;
                    },
                    None => {
                        if !info.status.is_terminal() {
                            info.cpu = F32Bits(0);
                        }
                    },
                },
                None => {},
            }
            assert(info@ == sampled(before.sessions[i as int].info, samples@));
            proof {
                lemma_put_session_at(
                    prev,
                    i as int,
                    SessionView { info: info@, ..prev.sessions[i as int] },
                );
            }
            self.set_info(i, info.clone());
            assert(self@.sessions[i as int] == goal[i as int]);
            if info.status.is_active() && info.status != SessionStatus::Starting {
                add_effect(&mut out, Effect::SessionShown(info));
            }
            i = i + 1;
        }
        proof {
            assert(self@.sessions =~= goal);
            assert(goal.take(i as int) =~= goal);
        }
        out
    }

    /// The tokens that all live sessions used together, where a counter can
    /// hold them.
    pub fn total_tokens(&self) -> (r: Option<u64>)
        ensures
            match r {
                Some(n) => n == live_tokens(self@.sessions),
                None => live_tokens(self@.sessions) > u64::MAX,
            },
    {
        let ghost all = self@.sessions;
        let mut n: u64 = 0;
        let mut i: usize = 0;
        proof {
            reveal(Seq::filter);
            assert(all.take(0).filter(live()) =~= Seq::empty());
        }
        while i < self.sessions.len()
            invariant
                all == self@.sessions,
                i <= self.sessions@.len(),
                n == live_tokens(all.take(i as int)),
            decreases self.sessions@.len() - i,
        {
            proof {
                lemma_live_tokens(all, i as int);
                lemma_live_tokens(all, i + 1);
            }
            if !self.sessions[i].info.status.is_terminal() {
                match self.sessions[i].info.usage.checked_total() {
                    Some(t) => match n.checked_add(t) {
                        Some(m) => {
                            n = m;
                        },
                        None => {
                            return None;
                        },
                    },
                    None => {
                        return None;
                    },
                }
            }
            i = i + 1;
        }
        assert(all.take(i as int) =~= all);
        Some(n)
    }

    /// The cost of each session. Adding doubles up is the host's.
    pub fn session_costs(&self) -> (r: Vec<F64Bits>)
        ensures
            r@ == costs_of(self@.sessions),
    {
        let mut out: Vec<F64Bits> = Vec::new();
        let mut i: usize = 0;
        while i < self.sessions.len()
            invariant
                i <= self.sessions@.len(),
                out@ == costs_of(self@.sessions).take(i as int),
            decreases self.sessions@.len() - i,
        {
            out.push(self.sessions[i].info.cost_usd);
            assert(out@ =~= costs_of(self@.sessions).take(i + 1));
            i = i + 1;
        }
        assert(out@ =~= costs_of(self@.sessions));
        out
    }

    /// How many sessions are active.
    pub fn count_active(&self) -> (r: usize)
        ensures
            r == count_if(self@.sessions, active()),
    {
        let mut n: usize = 0;
        let mut i: usize = 0;
        while i < self.sessions.len()
            invariant
                i <= self.sessions@.len(),
                n <= i,
                n == count_if(self@.sessions.take(i as int), active()),
            decreases self.sessions@.len() - i,
        {
            proof {
                lemma_count_take(self@.sessions, active(), i as int);
            }
            if self.sessions[i].info.status.is_active() {
                n = n + 1;
            }
            i = i + 1;
        }
        proof {
            assert(self@.sessions.take(i as int) =~= self@.sessions);
        }
        n
    }

    /// The metrics of this moment. [`Core::total_tokens`] tells whether the
    /// tokens can be counted.
    pub fn system_metrics(
        &self,
        host: HostSample,
        total_cost_usd: F64Bits,
        now: i64,
    ) -> (r: SystemMetrics)
        requires
            live_tokens(self@.sessions) <= u64::MAX,
        ensures
            r == metrics_of(self@, host, total_cost_usd, now),
            r.active_sessions == count_if(self@.sessions, active()),
            r.total_sessions == self@.sessions.len(),
            r.queued_tasks == count_if(self@.tasks, waiting()),
            r.running_tasks == count_if(self@.tasks, under_way()),
            r.total_tokens == live_tokens(self@.sessions),
    {
        let (queued_tasks, running_tasks) = self.task_counts();
        let active_sessions: usize = self.count_active();
        let total_tokens: u64 = match self.total_tokens() {
            Some(n) => n,
            None => 0,
        };
        SystemMetrics {
            cpu_percent: host.cpu_percent,
            mem_used: host.mem_used,
            mem_total: host.mem_total,
            active_sessions,
            total_sessions: self.sessions.len(),
            queued_tasks,
            running_tasks,
            total_tokens,
            total_cost_usd,
            ts: now,
        }
    }
}

// ---- laws ------------------------------------------------------------------

/// A round of samples touches resource numbers only: it starts, ends and
/// renames nothing, and no count of the metrics changes.
pub proof fn sampling_changes_no_count(c: CoreView, samples: Seq<Sample>)
    ensures
        ({
            let d = sampled_all(c, samples).state;
            &&& count_if(d.sessions, active()) == count_if(c.sessions, active())
            &&& d.sessions.len() == c.sessions.len()
            &&& live_tokens(d.sessions) == live_tokens(c.sessions)
            &&& d.tasks == c.tasks
            &&& d.attach_lru == c.attach_lru
        }),
{
    lemma_sampled_sums(c.sessions, samples);
}

proof fn lemma_sampled_sums(sessions: Seq<SessionView>, samples: Seq<Sample>)
    ensures
        count_if(sessions.map_values(sampled_session(samples)), active()) == count_if(
            sessions,
            active(),
        ),
        live_tokens(sessions.map_values(sampled_session(samples))) == live_tokens(sessions),
    decreases sessions.len(),
{
    if sessions.len() > 0 {
        lemma_sampled_sums(sessions.drop_last(), samples);
        let after = sessions.map_values(sampled_session(samples));
        assert(after.drop_last() =~= sessions.drop_last().map_values(sampled_session(samples)));
        lemma_live_step(sessions);
        lemma_live_step(after);
    } else {
        assert(sessions.map_values(sampled_session(samples)) =~= sessions);
    }
}

/// The counts of the metrics never exceed what is there.
pub proof fn counts_are_bounded(c: CoreView)
    ensures
        count_if(c.sessions, active()) <= c.sessions.len(),
        count_if(c.tasks, waiting()) + count_if(c.tasks, under_way()) <= c.tasks.len(),
{
    lemma_count_bound(c.sessions, active());
    lemma_count_disjoint(c.tasks, waiting(), under_way());
}

} // verus!
