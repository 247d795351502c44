//! Attaching and detaching: which sessions the UI renders, and what it is shown.
use crate::counting::count_if;
use crate::counting::lemma_filter_all;
use crate::effects::add_effect;
use crate::effects::effects_of;
use crate::effects::no_effects;
use crate::effects::Effect;
use crate::effects::EffectView;
use crate::lifecycle::ids_without;
use crate::lifecycle::lemma_lru_without;
use crate::lifecycle::other_id;
use crate::lifecycle::terminal_output;
use crate::model::OrchestratorConfigView;
use crate::model::SessionId;
use crate::model::SessionInfoView;
use crate::ring::chunking_is_irrelevant;
use crate::ring::last_bytes;
use crate::state::lemma_put_session_at;
use crate::state::lemma_put_session_valid;
use crate::state::lemma_session_at;
use crate::state::Core;
use crate::state::CoreView;
use crate::state::SessionView;
use crate::state::Step;
use crate::state::Transport;
use crate::state::MAX_RENDERED;
use crate::text::texts;
use vstd::prelude::*;

verus! {

// ---- what happens to the state ---------------------------------------------

/// How many sessions a policy lets the UI render: at least one and at most
/// [`MAX_RENDERED`].
pub open spec fn attach_cap(config: OrchestratorConfigView) -> int {
    if config.max_attached < 1 {
        1
    } else if config.max_attached > MAX_RENDERED {
        MAX_RENDERED as int
    } else {
        config.max_attached as int
    }
}

impl SessionInfoView {
    /// Rendered by the UI, or not.
    pub open spec fn shown(self, attached: bool) -> SessionInfoView {
        SessionInfoView { attached, ..self }
    }
}

/// A session is rendered from now on, or no longer. That is announced and not
/// persisted.
pub open spec fn set_attached(c: CoreView, sid: Seq<char>, attached: bool) -> Step {
    if c.has_session(sid) {
        let info = c.info(sid).shown(attached);
        Step { state: c.put_info(sid, info), effects: seq![EffectView::SessionShown(info)] }
    } else {
        c.unchanged()
    }
}

/// Sessions are detached one after the other.
pub open spec fn detach_each(c: CoreView, ids: Seq<Seq<char>>) -> Step
    decreases ids.len(),
{
    if ids.len() == 0 {
        c.unchanged()
    } else {
        let before = detach_each(c, ids.drop_last());
        before.then_step(set_attached(before.state, ids.last(), false))
    }
}

/// The attach order once a session is attached: it is the most recent.
pub open spec fn attach_order(lru: Seq<Seq<char>>, sid: Seq<char>) -> Seq<Seq<char>> {
    lru.filter(other_id(sid)).push(sid)
}

/// How many sessions are too many.
pub open spec fn excess(order: Seq<Seq<char>>, cap: int) -> int {
    if order.len() > cap {
        order.len() - cap
    } else {
        0
    }
}

/// The scrollback of a terminal is sent to the UI, so that it repaints.
pub open spec fn replayed(c: CoreView, sid: Seq<char>) -> Step {
    if c.has_session(sid) && c.session(sid).transport is Interactive && c.session(sid).ring.len()
        > 0 {
        c.unchanged().and(
            EffectView::TermData { session_id: sid, data: c.session(sid).ring, replay: true },
        )
    } else {
        c.unchanged()
    }
}

/// A session is attached: the ones attached longest ago give way to it, it is
/// rendered, and its scrollback is replayed.
pub open spec fn attached(c: CoreView, sid: Seq<char>) -> Step {
    let order = attach_order(c.attach_lru, sid);
    let n = excess(order, attach_cap(c.config));
    let evicted = detach_each(c, order.take(n));
    let room = Step {
        state: CoreView { attach_lru: order.skip(n), ..evicted.state },
        effects: evicted.effects,
    };
    let rendered = room.then_step(set_attached(room.state, sid, true));
    rendered.then_step(replayed(rendered.state, sid))
}

/// A session is detached.
pub open spec fn detached(c: CoreView, sid: Seq<char>) -> Step {
    let step = set_attached(c, sid, false);
    Step {
        state: CoreView { attach_lru: c.attach_lru.filter(other_id(sid)), ..step.state },
        effects: step.effects,
    }
}

/// The condition of being rendered.
pub open spec fn rendered() -> spec_fn(SessionView) -> bool {
    |s: SessionView| s.info.attached
}

// ---- facts about attaching -------------------------------------------------

proof fn lemma_set_attached(c: CoreView, sid: Seq<char>, attached: bool)
    requires
        c.valid(),
        attached ==> c.attach_lru.contains(sid),
    ensures
        ({
            let d = set_attached(c, sid, attached).state;
            &&& d.valid()
            &&& d.config == c.config
            &&& d.tasks == c.tasks
            &&& d.attach_lru == c.attach_lru
            &&& d.sessions.len() == c.sessions.len()
            &&& forall|i: int|
                0 <= i < c.sessions.len() ==> #[trigger] d.sessions[i] == (SessionView {
                    info: c.sessions[i].info.shown(
                        if c.sessions[i].info.id == sid {
                            attached
                        } else {
                            c.sessions[i].info.attached
                        },
                    ),
                    ..c.sessions[i]
                })
        }),
{
    let d = set_attached(c, sid, attached).state;
    if c.has_session(sid) {
        let k = choose|k: int| 0 <= k < c.sessions.len() && (#[trigger] c.sessions[k]).info.id == sid;
        let session = SessionView { info: c.info(sid).shown(attached), ..c.session(sid) };
        lemma_session_at(c, k);
        lemma_put_session_at(c, k, session);
        assert(c.sessions[k].coherent());
        lemma_put_session_valid(c, sid, session);
        assert forall|i: int| 0 <= i < c.sessions.len() implies #[trigger] d.sessions[i] == (
        SessionView {
            info: c.sessions[i].info.shown(
                if c.sessions[i].info.id == sid {
                    attached
                } else {
                    c.sessions[i].info.attached
                },
            ),
            ..c.sessions[i]
        }) by {
            if i < k {
                assert(c.sessions[i].info.id != c.sessions[k].info.id);
            } else if k < i {
                assert(c.sessions[k].info.id != c.sessions[i].info.id);
            }
        }
    } else {
        assert forall|i: int| 0 <= i < c.sessions.len() implies #[trigger] d.sessions[i] == (
        SessionView {
            info: c.sessions[i].info.shown(
                if c.sessions[i].info.id == sid {
                    attached
                } else {
                    c.sessions[i].info.attached
                },
            ),
            ..c.sessions[i]
        }) by {
            assert(c.sessions[i].info.id != sid);
        }
    }
}

proof fn lemma_detach_each(c: CoreView, ids: Seq<Seq<char>>)
    requires
        c.valid(),
    ensures
        ({
            let d = detach_each(c, ids).state;
            &&& d.valid()
            &&& d.config == c.config
            &&& d.tasks == c.tasks
            &&& d.attach_lru == c.attach_lru
            &&& d.sessions.len() == c.sessions.len()
            &&& forall|i: int|
                0 <= i < c.sessions.len() ==> #[trigger] d.sessions[i] == (SessionView {
                    info: c.sessions[i].info.shown(
                        c.sessions[i].info.attached && !ids.contains(c.sessions[i].info.id),
                    ),
                    ..c.sessions[i]
                })
        }),
    decreases ids.len(),
{
    if ids.len() > 0 {
        let front = ids.drop_last();
        lemma_detach_each(c, front);
        let b = detach_each(c, front).state;
        lemma_set_attached(b, ids.last(), false);
        let d = detach_each(c, ids).state;
        assert forall|i: int| 0 <= i < c.sessions.len() implies #[trigger] d.sessions[i] == (
        SessionView {
            info: c.sessions[i].info.shown(
                c.sessions[i].info.attached && !ids.contains(c.sessions[i].info.id),
            ),
            ..c.sessions[i]
        }) by {
            let x = c.sessions[i].info.id;
            assert(b.sessions[i].info.id == x);
            assert(ids =~= front.push(ids.last()));
            assert(ids.contains(x) <==> front.contains(x) || x == ids.last()) by {
                if front.contains(x) {
                    let j = choose|j: int| 0 <= j < front.len() && front[j] == x;
                    assert(ids[j] == x);
                }
                if x == ids.last() {
                    assert(ids[ids.len() - 1] == x);
                }
            }
        }
    }
}

/// The attach order stays free of duplicates and ends with the session.
proof fn lemma_attach_order(lru: Seq<Seq<char>>, sid: Seq<char>)
    requires
        lru.no_duplicates(),
    ensures
        attach_order(lru, sid).no_duplicates(),
        attach_order(lru, sid).last() == sid,
        forall|x: Seq<char>|
            #![trigger attach_order(lru, sid).contains(x)]
            attach_order(lru, sid).contains(x) <==> lru.contains(x) || x == sid,
{
    lemma_lru_without(lru, sid);
    let kept = lru.filter(other_id(sid));
    let order = attach_order(lru, sid);
    assert forall|x: Seq<char>| #![trigger order.contains(x)]
        order.contains(x) <==> lru.contains(x) || x == sid by {
        if x == sid {
            assert(order[order.len() - 1] == x);
        } else if lru.contains(x) {
            assert(kept.contains(x));
            let j = choose|j: int| 0 <= j < kept.len() && kept[j] == x;
            assert(order[j] == x);
        }
        if order.contains(x) && x != sid {
            let j = choose|j: int| 0 <= j < order.len() && order[j] == x;
            assert(kept[j] == x);
            assert(kept.contains(x));
        }
    }
    assert forall|a: int, b: int|
        0 <= a < order.len() && 0 <= b < order.len() && a != b implies order[a] != order[b] by {
        if a < kept.len() {
            assert(kept.contains(kept[a]));
        }
        if b < kept.len() {
            assert(kept.contains(kept[b]));
        }
    }
}

/// The state with room for a session is valid.
proof fn lemma_room(c: CoreView, sid: Seq<char>)
    requires
        c.valid(),
    ensures
        ({
            let order = attach_order(c.attach_lru, sid);
            let n = excess(order, attach_cap(c.config));
            let room = CoreView {
                attach_lru: order.skip(n),
                ..detach_each(c, order.take(n)).state
            };
            &&& room.valid()
            &&& room.attach_lru.len() <= attach_cap(c.config)
            &&& room.attach_lru.contains(sid)
        }),
{
    let order = attach_order(c.attach_lru, sid);
    let n = excess(order, attach_cap(c.config));
    lemma_attach_order(c.attach_lru, sid);
    lemma_detach_each(c, order.take(n));
    let d = detach_each(c, order.take(n)).state;
    let kept = order.skip(n);
    let room = CoreView { attach_lru: kept, ..d };
    assert(kept[kept.len() - 1] == sid);
    assert forall|i: int|
        0 <= i < room.sessions.len() && (#[trigger] room.sessions[i]).info.attached implies
        kept.contains(room.sessions[i].info.id) by {
        let x = c.sessions[i].info.id;
        assert(d.sessions[i].info.attached);
        assert(c.sessions[i].info.attached);
        assert(order.contains(x));
        let j = choose|j: int| 0 <= j < order.len() && order[j] == x;
        if j < n {
            assert(order.take(n)[j] == x);
        } else {
            assert(kept[j - n] == x);
        }
    }
    assert forall|i: int, j: int|
        #![trigger room.sessions[i], room.sessions[j]]
        0 <= i < j < room.sessions.len() implies room.sessions[i].info.id
        != room.sessions[j].info.id by {
        assert(d.sessions[i].info.id != d.sessions[j].info.id);
    }
    assert forall|i: int| 0 <= i < room.sessions.len() implies (
    #[trigger] room.sessions[i]).coherent() by {
        assert(d.sessions[i].coherent());
    }
    assert forall|i: int, j: int|
        #![trigger room.tasks[i], room.tasks[j]]
        0 <= i < j < room.tasks.len() implies room.tasks[i].id != room.tasks[j].id by {
        assert(d.tasks[i].id != d.tasks[j].id);
    }
}

impl Core {
    fn set_attached(&mut self, sid: &str, attached: bool, out: &mut Vec<Effect>)
        requires
            old(self).wf(),
            attached ==> old(self)@.attach_lru.contains(sid@),
        ensures
            final(self).wf(),
            final(self)@ == set_attached(old(self)@, sid@, attached).state,
            effects_of(final(out)@) == effects_of(old(out)@) + set_attached(
                old(self)@,
                sid@,
                attached,
            ).effects,
    {
        let ghost had = effects_of(out@);
        match self.find_session(sid) {
            Some(i) => {
                let mut info = self.sessions[i].info.clone();
                info.attached = attached;
                self.set_info(i, info.clone());
                add_effect(out, Effect::SessionShown(info));
            },
            None => {},
        }
        assert(effects_of(out@) =~= had + set_attached(old(self)@, sid@, attached).effects);
    }

    fn replay(&self, sid: &str, out: &mut Vec<Effect>)
        requires
            self.wf(),
        ensures
            effects_of(final(out)@) == effects_of(old(out)@) + replayed(self@, sid@).effects,
    {
        let ghost had = effects_of(out@);
        match self.find_session(sid) {
            Some(i) => {
                if self.sessions[i].transport == Transport::Interactive && self.sessions[i].ring.len()
                    > 0 {
                    let data = self.sessions[i].ring.snapshot();
                    add_effect(
                        out,
                        Effect::TermData { session_id: sid.to_owned(), data, replay: true },
                    );
                }
            },
            None => {},
        }
        assert(effects_of(out@) =~= had + replayed(self@, sid@).effects);
    }

    /// Render a session. Where that makes too many, the ones attached longest
    /// ago are detached.
    pub fn attach(&mut self, sid: &str) -> (r: Vec<Effect>)
        requires
            old(self).wf(),
        ensures
            final(self).wf(),
            final(self)@ == attached(old(self)@, sid@).state,
            effects_of(r@) == attached(old(self)@, sid@).effects,
    {
        let ghost before = self@;
        let max: usize = self.config.max_attached;
        let cap: usize = if max < 1 {
            1
        } else if max > MAX_RENDERED {
            MAX_RENDERED
        } else {
            max
        };
        let mut order = ids_without(&self.attach_lru, sid);
        order.push(sid.to_owned());
        let ghost all = attach_order(before.attach_lru, sid@);
        assert(texts(order@) =~= all);
        let n: usize = if order.len() > cap { order.len() - cap } else { 0 };
        assert(n == excess(all, attach_cap(before.config)));
        let mut out = no_effects();
        let mut k: usize = 0;
        proof {
            assert(all.take(0) =~= Seq::<Seq<char>>::empty());
        }
        while k < n
            invariant
                k <= n <= order@.len(),
                texts(order@) == all,
                before.valid(),
                self.wf(),
                self@ == detach_each(before, all.take(k as int)).state,
                effects_of(out@) == detach_each(before, all.take(k as int)).effects,
            decreases n - k,
        {
            proof {
                assert(all.take(k + 1).drop_last() =~= all.take(k as int));
                assert(all.take(k + 1).last() == order@[k as int]@);
            }
            self.set_attached(order[k].as_str(), false, &mut out);
            k = k + 1;
        }
        let mut kept: Vec<SessionId> = Vec::new();
        let mut j: usize = n;
        while j < order.len()
            invariant
                n <= j <= order@.len(),
                kept@.len() == j - n,
                forall|i: int| 0 <= i < kept@.len() ==> (#[trigger] kept@[i])@ == order@[n + i]@,
            decreases order@.len() - j,
        {
            kept.push(order[j].clone());
            j = j + 1;
        }
        proof {
            assert(texts(kept@) =~= all.skip(n as int));
            lemma_room(before, sid@);
        }
        self.attach_lru = kept;
        self.set_attached(sid, true, &mut out);
        self.replay(sid, &mut out);
        assert(effects_of(out@) =~= attached(before, sid@).effects);
        out
    }

    /// Stop rendering a session.
    pub fn detach(&mut self, sid: &str) -> (r: Vec<Effect>)
        requires
            old(self).wf(),
        ensures
            final(self).wf(),
            final(self)@ == detached(old(self)@, sid@).state,
            effects_of(r@) == detached(old(self)@, sid@).effects,
    {
        let ghost before = self@;
        let mut out = no_effects();
        self.set_attached(sid, false, &mut out);
        self.attach_lru = ids_without(&self.attach_lru, sid);
        proof {
            lemma_set_attached(before, sid@, false);
            lemma_detached_valid(before, sid@);
        }
        assert(effects_of(out@) =~= detached(before, sid@).effects);
        out
    }
}

proof fn lemma_detached_valid(c: CoreView, sid: Seq<char>)
    requires
        c.valid(),
    ensures
        detached(c, sid).state.valid(),
{
    lemma_set_attached(c, sid, false);
    lemma_lru_without(c.attach_lru, sid);
    let m = set_attached(c, sid, false).state;
    let d = detached(c, sid).state;
    c.attach_lru.lemma_filter_len(other_id(sid));
    assert forall|i: int| 0 <= i < d.sessions.len() && (#[trigger] d.sessions[i]).info.attached implies
        d.attach_lru.contains(d.sessions[i].info.id) by {
        assert(m.sessions[i].info.attached);
        assert(c.sessions[i].info.attached);
    }
    assert forall|i: int, j: int|
        #![trigger d.sessions[i], d.sessions[j]]
        0 <= i < j < d.sessions.len() implies d.sessions[i].info.id != d.sessions[j].info.id by {
        assert(m.sessions[i].info.id != m.sessions[j].info.id);
    }
    assert forall|i: int| 0 <= i < d.sessions.len() implies (
    #[trigger] d.sessions[i]).coherent() by {
        assert(m.sessions[i].coherent());
    }
    assert forall|i: int, j: int|
        #![trigger d.tasks[i], d.tasks[j]]
        0 <= i < j < d.tasks.len() implies d.tasks[i].id != d.tasks[j].id by {
        assert(m.tasks[i].id != m.tasks[j].id);
    }
}

// ---- laws ------------------------------------------------------------------

/// Distinct sessions that all stand in a list are no more than the list is long.
proof fn lemma_rendered_within(sessions: Seq<SessionView>, ids: Seq<Seq<char>>)
    requires
        forall|i: int, j: int|
            #![trigger sessions[i], sessions[j]]
            0 <= i < j < sessions.len() ==> sessions[i].info.id != sessions[j].info.id,
        forall|i: int|
            0 <= i < sessions.len() && (#[trigger] sessions[i]).info.attached ==> ids.contains(
                sessions[i].info.id,
            ),
    ensures
        count_if(sessions, rendered()) <= ids.len(),
    decreases sessions.len(),
{
    if sessions.len() > 0 {
        let front = sessions.drop_last();
        let last = sessions.last();
        if last.info.attached {
            assert(sessions[sessions.len() - 1].info.attached);
            let k = choose|k: int| 0 <= k < ids.len() && ids[k] == last.info.id;
            let rest = ids.remove(k);
            assert forall|i: int|
                0 <= i < front.len() && (#[trigger] front[i]).info.attached implies rest.contains(
                front[i].info.id,
            ) by {
                assert(sessions[i].info.id != sessions[sessions.len() - 1].info.id);
                let j = choose|j: int| 0 <= j < ids.len() && ids[j] == sessions[i].info.id;
                assert(rest[if j < k {
                    j
                } else {
                    j - 1
                }] == sessions[i].info.id);
            }
            assert forall|i: int, j: int|
                #![trigger front[i], front[j]]
                0 <= i < j < front.len() implies front[i].info.id != front[j].info.id by {
                assert(sessions[i].info.id != sessions[j].info.id);
            }
            lemma_rendered_within(front, rest);
        } else {
            assert forall|i: int|
                0 <= i < front.len() && (#[trigger] front[i]).info.attached implies ids.contains(
                front[i].info.id,
            ) by {
                assert(sessions[i].info.attached);
            }
            assert forall|i: int, j: int|
                #![trigger front[i], front[j]]
                0 <= i < j < front.len() implies front[i].info.id != front[j].info.id by {
                assert(sessions[i].info.id != sessions[j].info.id);
            }
            lemma_rendered_within(front, ids);
        }
    }
}

/// In every valid state no more sessions are rendered than stand in the attach
/// order, and never more than [`MAX_RENDERED`].
pub proof fn rendering_is_bounded(c: CoreView)
    requires
        c.valid(),
    ensures
        count_if(c.sessions, rendered()) <= c.attach_lru.len() <= MAX_RENDERED,
{
    lemma_rendered_within(c.sessions, c.attach_lru);
}

/// The state after attaching is valid, and no more sessions are rendered in it
/// than the policy allows.
pub proof fn attach_respects_the_cap(c: CoreView, sid: Seq<char>)
    requires
        c.valid(),
    ensures
        attached(c, sid).state.valid(),
        attached(c, sid).state.attach_lru.len() <= attach_cap(c.config),
        count_if(attached(c, sid).state.sessions, rendered()) <= attach_cap(c.config),
{
    let order = attach_order(c.attach_lru, sid);
    let n = excess(order, attach_cap(c.config));
    let room = CoreView { attach_lru: order.skip(n), ..detach_each(c, order.take(n)).state };
    lemma_room(c, sid);
    lemma_set_attached(room, sid, true);
    rendering_is_bounded(attached(c, sid).state);
}

/// What attaching does to each session: the attached one is rendered, the ones
/// that give way are not, and nothing else about any session changes.
pub proof fn attach_changes_rendering_only(c: CoreView, sid: Seq<char>)
    requires
        c.valid(),
    ensures
        ({
            let order = attach_order(c.attach_lru, sid);
            let n = excess(order, attach_cap(c.config));
            let d = attached(c, sid).state;
            &&& d.config == c.config
            &&& d.tasks == c.tasks
            &&& d.attach_lru == order.skip(n)
            &&& d.sessions.len() == c.sessions.len()
            &&& forall|i: int|
                0 <= i < c.sessions.len() ==> #[trigger] d.sessions[i] == (SessionView {
                    info: c.sessions[i].info.shown(
                        c.sessions[i].info.id == sid || (c.sessions[i].info.attached
                            && !order.take(n).contains(c.sessions[i].info.id)),
                    ),
                    ..c.sessions[i]
                })
        }),
{
    let order = attach_order(c.attach_lru, sid);
    let n = excess(order, attach_cap(c.config));
    let evicted = detach_each(c, order.take(n)).state;
    let room = CoreView { attach_lru: order.skip(n), ..evicted };
    lemma_detach_each(c, order.take(n));
    lemma_room(c, sid);
    lemma_set_attached(room, sid, true);
    let d = attached(c, sid).state;
    assert forall|i: int| 0 <= i < c.sessions.len() implies #[trigger] d.sessions[i] == (
    SessionView {
        info: c.sessions[i].info.shown(
            c.sessions[i].info.id == sid || (c.sessions[i].info.attached && !order.take(n).contains(
                c.sessions[i].info.id,
            )),
        ),
        ..c.sessions[i]
    }) by {
        assert(evicted.sessions[i].info.id == c.sessions[i].info.id);
        assert(room.sessions[i] == evicted.sessions[i]);
    }
}

/// Attaching an attached session once more changes nothing: it stays the most
/// recent one.
pub proof fn attaching_twice_is_attaching_once(c: CoreView, sid: Seq<char>)
    requires
        c.valid(),
    ensures
        attached(attached(c, sid).state, sid).state == attached(c, sid).state,
{
    let order = attach_order(c.attach_lru, sid);
    let n = excess(order, attach_cap(c.config));
    let d = attached(c, sid).state;
    attach_respects_the_cap(c, sid);
    attach_changes_rendering_only(c, sid);
    attach_changes_rendering_only(d, sid);
    lemma_attach_order(c.attach_lru, sid);
    let kept = order.skip(n);
    let front = kept.drop_last();
    assert(kept.last() == sid);
    assert(kept =~= front + seq![sid]);
    Seq::filter_distributes_over_add(front, seq![sid], other_id(sid));
    assert forall|i: int| 0 <= i < front.len() implies #[trigger] other_id(sid)(front[i]) by {
        assert(kept[i] != kept[kept.len() - 1]);
    }
    lemma_filter_all(front, other_id(sid));
    reveal_with_fuel(Seq::filter, 2);
    assert(seq![sid].drop_last() =~= Seq::<Seq<char>>::empty());
    assert(seq![sid].filter(other_id(sid)) =~= Seq::<Seq<char>>::empty());
    assert(attach_order(kept, sid) =~= kept);
    assert(kept.take(0) =~= Seq::<Seq<char>>::empty());
    assert(kept.skip(0) =~= kept);
    let e = attached(d, sid).state;
    assert(e.sessions =~= d.sessions);
}

/// A detached session is not rendered and stands no longer in the attach order;
/// every other session stays as it was.
pub proof fn detaching_frees_the_pane(c: CoreView, sid: Seq<char>)
    requires
        c.valid(),
    ensures
        ({
            let d = detached(c, sid).state;
            &&& d.valid()
            &&& !d.attach_lru.contains(sid)
            &&& d.sessions.len() == c.sessions.len()
            &&& forall|i: int|
                0 <= i < c.sessions.len() ==> #[trigger] d.sessions[i] == (SessionView {
                    info: c.sessions[i].info.shown(
                        c.sessions[i].info.attached && c.sessions[i].info.id != sid,
                    ),
                    ..c.sessions[i]
                })
        }),
{
    lemma_set_attached(c, sid, false);
    lemma_detached_valid(c, sid);
    lemma_lru_without(c.attach_lru, sid);
}

/// The chunks of a terminal's output, one after the other.
pub open spec fn joined(chunks: Seq<Seq<u8>>) -> Seq<u8>
    decreases chunks.len(),
{
    if chunks.len() == 0 {
        Seq::empty()
    } else {
        joined(chunks.drop_last()) + chunks.last()
    }
}

/// A terminal's output, chunk by chunk.
pub open spec fn outputs(c: CoreView, sid: Seq<char>, chunks: Seq<Seq<u8>>, now: i64) -> Step
    decreases chunks.len(),
{
    if chunks.len() == 0 {
        c.unchanged()
    } else {
        let before = outputs(c, sid, chunks.drop_last(), now);
        before.then_step(terminal_output(before.state, sid, chunks.last(), now))
    }
}

/// What a detached terminal prints is not sent to the UI but retained, and
/// attaching replays the end of it, once: as many bytes as the scrollback holds,
/// however the output was cut into chunks.
pub proof fn attach_replays_what_was_missed(
    c: CoreView,
    sid: Seq<char>,
    chunks: Seq<Seq<u8>>,
    now: i64,
)
    requires
        c.valid(),
        c.has_session(sid),
        c.session(sid).transport is Interactive,
        !c.info(sid).attached,
    ensures
        ({
            let d = outputs(c, sid, chunks, now);
            let missed = last_bytes(
                c.session(sid).ring + joined(chunks),
                c.session(sid).ring_capacity,
            );
            &&& d.effects.len() == 0
            &&& replayed(d.state, sid).effects == if missed.len() > 0 {
                seq![EffectView::TermData { session_id: sid, data: missed, replay: true }]
            } else {
                Seq::empty()
            }
            &&& replayed(attached(d.state, sid).state, sid).effects == replayed(
                d.state,
                sid,
            ).effects
        }),
{
    let d = outputs(c, sid, chunks, now);
    lemma_outputs(c, sid, chunks, now);
    let s = d.state.session(sid);
    assert(d.effects =~= Seq::empty());
    assert(replayed(d.state, sid).effects =~= if s.ring.len() > 0 {
        seq![EffectView::TermData { session_id: sid, data: s.ring, replay: true }]
    } else {
        Seq::empty()
    });
    attach_changes_rendering_only(d.state, sid);
    attach_respects_the_cap(d.state, sid);
    let e = attached(d.state, sid).state;
    let k = choose|k: int|
        0 <= k < d.state.sessions.len() && (#[trigger] d.state.sessions[k]).info.id == sid;
    lemma_session_at(d.state, k);
    assert(e.sessions[k].info.id == sid);
    lemma_session_at(e, k);
}

proof fn lemma_outputs(c: CoreView, sid: Seq<char>, chunks: Seq<Seq<u8>>, now: i64)
    requires
        c.valid(),
        c.has_session(sid),
        !c.info(sid).attached,
    ensures
        ({
            let d = outputs(c, sid, chunks, now);
            &&& d.state.valid()
            &&& d.state.has_session(sid)
            &&& d.state.session(sid).transport == c.session(sid).transport
            &&& d.state.session(sid).ring_capacity == c.session(sid).ring_capacity
            &&& d.state.session(sid).ring == last_bytes(
                c.session(sid).ring + joined(chunks),
                c.session(sid).ring_capacity,
            )
            &&& !d.state.info(sid).attached
            &&& d.effects.len() == 0
        }),
    decreases chunks.len(),
{
    let k = choose|k: int| 0 <= k < c.sessions.len() && (#[trigger] c.sessions[k]).info.id == sid;
    lemma_session_at(c, k);
    assert(c.sessions[k].coherent());
    if chunks.len() == 0 {
        assert(c.session(sid).ring + joined(chunks) =~= c.session(sid).ring);
        assert(last_bytes(c.session(sid).ring, c.session(sid).ring_capacity) =~= c.session(
            sid,
        ).ring);
    } else {
        let front = chunks.drop_last();
        lemma_outputs(c, sid, front, now);
        let b = outputs(c, sid, front, now).state;
        let s = b.session(sid);
        let next = SessionView {
            info: s.info.touched(now),
            ring: last_bytes(s.ring + chunks.last(), s.ring_capacity),
            ..s
        };
        let j = choose|j: int| 0 <= j < b.sessions.len() && (#[trigger] b.sessions[j]).info.id == sid;
        lemma_session_at(b, j);
        assert(b.sessions[j].coherent());
        lemma_put_session_at(b, j, next);
        lemma_put_session_valid(b, sid, next);
        let d = terminal_output(b, sid, chunks.last(), now).state;
        assert(d.sessions[j] == next);
        lemma_session_at(d, j);
        let old_ring = c.session(sid).ring;
        let cap = c.session(sid).ring_capacity;
        assert(joined(chunks) == joined(front) + chunks.last());
        chunking_is_irrelevant(old_ring, joined(front), chunks.last(), cap as nat);
    }
}

// ---- which sessions give way -----------------------------------------------

/// The sessions in an attach order but one, in their order.
pub open spec fn others_of(lru: Seq<Seq<char>>, sid: Seq<char>) -> Seq<Seq<char>> {
    lru.filter(|x: Seq<char>| x != sid)
}

/// Whether `cap` sessions can be rendered: as many as the policy says, but at
/// least one and at most four.
pub open spec fn can_render(config: OrchestratorConfigView, cap: int) -> bool {
    &&& 1 <= cap <= 4
    &&& config.max_attached >= 4 ==> cap == 4
    &&& 1 <= config.max_attached <= 4 ==> cap == config.max_attached
    &&& config.max_attached == 0 ==> cap == 1
}

/// An attached session is the most recent one. The others keep their order; none
/// gives way while there is room, and where there is none, those that were
/// attached longest ago give way, and no more of them than must.
pub proof fn the_most_recent_stay(c: CoreView, sid: Seq<char>, cap: int)
    requires
        c.valid(),
        can_render(c.config, cap),
    ensures
        ({
            let others = others_of(c.attach_lru, sid);
            let order = attached(c, sid).state.attach_lru;
            &&& order.len() > 0
            &&& order.last() == sid
            &&& others.len() < cap ==> order.drop_last() == others
            &&& others.len() >= cap ==> order.len() == cap && order.drop_last() == others.skip(
                others.len() - (cap - 1),
            )
        }),
{
    assert((|x: Seq<char>| x != sid) =~= other_id(sid));
    attach_changes_rendering_only(c, sid);
    let others = others_of(c.attach_lru, sid);
    let order = attached(c, sid).state.attach_lru;
    assert(cap == attach_cap(c.config));
    if others.len() < cap {
        assert(order.drop_last() =~= others);
    } else {
        assert(order.drop_last() =~= others.skip(others.len() - (cap - 1)));
    }
}

proof fn lemma_detach_effects(c: CoreView, ids: Seq<Seq<char>>)
    requires
        c.valid(),
        ids.no_duplicates(),
        forall|i: int| 0 <= i < ids.len() ==> c.has_session(#[trigger] ids[i]),
    ensures
        detach_each(c, ids).effects.len() == ids.len(),
        forall|i: int|
            0 <= i < ids.len() ==> #[trigger] detach_each(c, ids).effects[i]
                == EffectView::SessionShown(SessionInfoView { attached: false, ..c.info(ids[i]) }),
    decreases ids.len(),
{
    if ids.len() > 0 {
        let front = ids.drop_last();
        let x = ids.last();
        assert forall|i: int| 0 <= i < front.len() implies c.has_session(#[trigger] front[i]) by {
            assert(front[i] == ids[i]);
        }
        assert(front.no_duplicates()) by {
            assert forall|i: int, j: int|
                0 <= i < front.len() && 0 <= j < front.len() && i != j implies front[i]
                != front[j] by {
                assert(ids[i] != ids[j]);
            }
        }
        lemma_detach_effects(c, front);
        lemma_detach_each(c, front);
        let b = detach_each(c, front).state;
        assert(c.has_session(ids[ids.len() - 1]));
        let k = choose|k: int| 0 <= k < c.sessions.len() && (#[trigger] c.sessions[k]).info.id == x;
        lemma_session_at(c, k);
        assert(b.sessions[k].info.id == x);
        lemma_session_at(b, k);
        assert(!front.contains(x)) by {
            if front.contains(x) {
                let j = choose|j: int| 0 <= j < front.len() && front[j] == x;
                assert(ids[j] == ids[ids.len() - 1]);
            }
        }
        let all = detach_each(c, ids).effects;
        assert forall|i: int| 0 <= i < ids.len() implies #[trigger] all[i]
            == EffectView::SessionShown(SessionInfoView { attached: false, ..c.info(ids[i]) }) by {
            if i < front.len() {
                assert(all[i] == detach_each(c, front).effects[i]);
                assert(front[i] == ids[i]);
            }
        }
    }
}

/// What the UI is told when a session is attached: first that those that give way
/// are rendered no more, the one attached longest ago first; then that the session
/// is; and then, of a terminal that printed something, all that it retained, once.
pub proof fn what_attaching_shows(c: CoreView, sid: Seq<char>, cap: int)
    requires
        c.valid(),
        can_render(c.config, cap),
        c.has_session(sid),
        forall|i: int|
            0 <= i < c.attach_lru.len() ==> c.has_session(#[trigger] c.attach_lru[i]),
    ensures
        ({
            let others = others_of(c.attach_lru, sid);
            let out = if others.len() < cap {
                0
            } else {
                others.len() - (cap - 1)
            };
            let s = c.session(sid);
            let effects = attached(c, sid).effects;
            let replays = s.transport == Transport::Interactive && s.ring.len() > 0;
            &&& effects.len() == out + if replays {
                2int
            } else {
                1
            }
            &&& forall|i: int|
                0 <= i < out ==> #[trigger] effects[i] == EffectView::SessionShown(
                    SessionInfoView { attached: false, ..c.info(others[i]) },
                )
            &&& effects[out] == EffectView::SessionShown(
                SessionInfoView { attached: true, ..s.info },
            )
            &&& replays ==> effects[out + 1] == (EffectView::TermData {
                session_id: sid,
                data: s.ring,
                replay: true,
            })
        }),
{
    assert((|x: Seq<char>| x != sid) =~= other_id(sid));
    let others = others_of(c.attach_lru, sid);
    let order = attach_order(c.attach_lru, sid);
    let n = excess(order, attach_cap(c.config));
    let gone = order.take(n);
    lemma_attach_order(c.attach_lru, sid);
    lemma_lru_without(c.attach_lru, sid);
    assert(n <= others.len());
    assert forall|i: int| 0 <= i < gone.len() implies c.has_session(#[trigger] gone[i]) && gone[i]
        == others[i] && gone[i] != sid by {
        assert(others[i] == order[i]);
        assert(others.contains(others[i]));
        let j = choose|j: int| 0 <= j < c.attach_lru.len() && c.attach_lru[j] == others[i];
        assert(c.has_session(c.attach_lru[j]));
    }
    assert(gone.no_duplicates()) by {
        assert forall|i: int, j: int|
            0 <= i < gone.len() && 0 <= j < gone.len() && i != j implies gone[i] != gone[j] by {
            assert(order[i] != order[j]);
        }
    }
    lemma_detach_effects(c, gone);
    lemma_detach_each(c, gone);
    lemma_room(c, sid);
    let evicted = detach_each(c, gone);
    let room = CoreView { attach_lru: order.skip(n), ..evicted.state };
    let k = choose|k: int| 0 <= k < c.sessions.len() && (#[trigger] c.sessions[k]).info.id == sid;
    lemma_session_at(c, k);
    assert(evicted.state.sessions[k].info.id == sid);
    assert(room.sessions[k].info.id == sid);
    lemma_session_at(room, k);
    assert(!gone.contains(sid));
    assert(room.session(sid) == c.session(sid));
    lemma_set_attached(room, sid, true);
    let shown = set_attached(room, sid, true);
    assert(shown.state.sessions[k].info.id == sid);
    lemma_session_at(shown.state, k);
    let effects = attached(c, sid).effects;
    assert(effects == evicted.effects + shown.effects + replayed(shown.state, sid).effects);
    assert forall|i: int| 0 <= i < n implies #[trigger] effects[i] == EffectView::SessionShown(
        SessionInfoView { attached: false, ..c.info(others[i]) },
    ) by {
        assert(effects[i] == evicted.effects[i]);
        assert(gone[i] == others[i]);
    }
}

/// What the UI is told when a session is detached: that it is rendered no more.
/// The others keep their places.
pub proof fn what_detaching_shows(c: CoreView, sid: Seq<char>)
    requires
        c.valid(),
    ensures
        c.has_session(sid) ==> detached(c, sid).effects == seq![
            EffectView::SessionShown(SessionInfoView { attached: false, ..c.info(sid) }),
        ],
        !c.has_session(sid) ==> detached(c, sid).effects.len() == 0,
        detached(c, sid).state.attach_lru == others_of(c.attach_lru, sid),
        detached(c, sid).state.tasks == c.tasks,
        detached(c, sid).state.config == c.config,
{
    assert((|x: Seq<char>| x != sid) =~= other_id(sid));
    lemma_set_attached(c, sid, false);
}

} // verus!
