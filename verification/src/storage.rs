//! Rules about what is stored and read back: log lines and the policy.
use crate::model::default_config;
use crate::model::LogEntry;
use crate::model::LogEntryView;
use crate::model::OrchestratorConfig;
use crate::model::SessionId;
use crate::text::same_text;
use vstd::prelude::*;

verus! {

/// How many log lines are read where no limit is given.
pub const DEFAULT_LOG_LIMIT: i64 = 500;

/// A log line as it was stored under an id.
pub fn log_entry(
    id: i64,
    session_id: SessionId,
    ts: i64,
    kind: String,
    text: String,
) -> (r: LogEntry)
    ensures
        r@ == (LogEntryView {
            id,
            session_id: session_id@,
            ts,
            kind: kind@,
            text: text@,
            data: None,
        }),
{
    LogEntry { id, session_id, ts, kind, text, data: None }
}

/// How many log lines to read.
pub fn log_limit(limit: Option<i64>) -> (r: i64)
    ensures
        r == match limit {
            Some(n) => n,
            None => DEFAULT_LOG_LIMIT,
        },
{
    match limit {
        Some(n) => n,
        None => DEFAULT_LOG_LIMIT,
    }
}

/// The condition of belonging to a session.
pub open spec fn of_session(sid: Seq<char>) -> spec_fn(LogEntryView) -> bool {
    |e: LogEntryView| e.session_id == sid
}

/// The views of a list of log lines.
pub open spec fn log_views(v: Seq<LogEntry>) -> Seq<LogEntryView> {
    v.map_values(|e: LogEntry| e@)
}

/// The first `limit` items; all of them where `limit` is negative.
pub open spec fn at_most<A>(s: Seq<A>, limit: i64) -> Seq<A> {
    if limit < 0 || s.len() <= limit {
        s
    } else {
        s.take(limit as int)
    }
}

/// The most recent `limit` lines of a session among rows that hold the newest
/// first, turned oldest first.
pub open spec fn recent(rows: Seq<LogEntryView>, sid: Seq<char>, limit: i64) -> Seq<LogEntryView> {
    at_most(rows.filter(of_session(sid)), limit).reverse()
}

/// The most recent `limit` log lines of a session, oldest first, from rows that
/// hold the newest first. A negative limit is none.
pub fn recent_logs(rows: Vec<LogEntry>, session_id: &str, limit: i64) -> (r: Vec<LogEntry>)
    ensures
        log_views(r@) == recent(log_views(rows@), session_id@, limit),
{
    let ghost all = log_views(rows@);
    let ghost p = of_session(session_id@);
    let mut back: Vec<LogEntry> = Vec::new();
    let mut i: usize = 0;
    proof {
        reveal(Seq::filter);
        assert(all.take(0).filter(p) =~= Seq::<LogEntryView>::empty());
        assert(log_views(back@) =~= at_most(all.take(0).filter(p), limit));
    }
    while i < rows.len()
        invariant
            all == log_views(rows@),
            p == of_session(session_id@),
            i <= rows@.len(),
            log_views(back@) == at_most(all.take(i as int).filter(p), limit),
        decreases rows@.len() - i,
    {
        proof {
            reveal(Seq::filter);
            assert(all.take(i + 1).drop_last() =~= all.take(i as int));
            assert(all.take(i + 1).last() == all[i as int]);
        }
        let ghost had = back@;
        let ghost kept = all.take(i as int).filter(p);
        if same_text(rows[i].session_id.as_str(), session_id) {
            let has_room = limit < 0 || (back.len() as u64) < limit as u64;
            if has_room {
                back.push(rows[i].clone());
                assert(log_views(back@) =~= log_views(had).push(all[i as int]));
            }
            assert(log_views(back@) =~= at_most(kept.push(all[i as int]), limit));
        }
        i = i + 1;
    }
    assert(all.take(i as int) =~= all);
    let ghost found = log_views(back@);
    let mut out: Vec<LogEntry> = Vec::new();
    while back.len() > 0
        invariant
            back@.len() + out@.len() == found.len(),
            log_views(back@) == found.take(back@.len() as int),
            log_views(out@) == found.skip(back@.len() as int).reverse(),
        decreases back@.len(),
    {
        let ghost n = back@.len();
        let ghost before = log_views(back@);
        let ghost had = out@;
        match back.pop() {
            Some(e) => {
                assert(e@ == before[n - 1]);
                out.push(e);
                assert(log_views(back@) =~= found.take(n - 1));
                assert(log_views(out@) =~= log_views(had).push(found[n - 1]));
                assert(found.skip(n - 1).reverse() =~= found.skip(n as int).reverse().push(
                    found[n - 1],
                ));
            },
            None => {},
        }
    }
    assert(log_views(out@) =~= found.reverse());
    out
}

/// The stored policy, where one was stored and could be read, else the default.
pub fn load_config(stored: Option<OrchestratorConfig>) -> (r: OrchestratorConfig)
    ensures
        r@ == match stored {
            Some(config) => config@,
            None => default_config(),
        },
{
    match stored {
        Some(config) => config,
        None => OrchestratorConfig::default(),
    }
}

// ---- laws ------------------------------------------------------------------

/// Turning rows around turns what is selected of them around.
proof fn lemma_filter_reverse<A>(s: Seq<A>, p: spec_fn(A) -> bool)
    ensures
        s.reverse().filter(p) == s.filter(p).reverse(),
    decreases s.len(),
{
    reveal(Seq::filter);
    if s.len() > 0 {
        let front = s.drop_last();
        let last = s.last();
        lemma_filter_reverse(front, p);
        assert(s.reverse() =~= seq![last] + front.reverse());
        Seq::filter_distributes_over_add(seq![last], front.reverse(), p);
        assert(seq![last].drop_last() =~= Seq::<A>::empty());
        assert(Seq::<A>::empty().filter(p) =~= Seq::<A>::empty());
        assert(seq![last].filter(p) =~= if p(last) {
            seq![last]
        } else {
            Seq::empty()
        });
        assert(s.reverse().filter(p) =~= s.filter(p).reverse());
    } else {
        assert(s.reverse() =~= s);
        assert(s.filter(p) =~= Seq::<A>::empty());
        assert(s.filter(p).reverse() =~= s.filter(p));
    }
}

/// How many of `n` lines a limit lets through.
pub open spec fn shown_count(n: nat, limit: i64) -> int {
    if limit < 0 || n <= limit {
        n as int
    } else {
        limit as int
    }
}

/// Reading back gives the end of what was stored: the last `limit` lines of the
/// session and no line of another one, in the order in which they were stored.
pub proof fn recent_logs_are_the_last_ones(
    stored: Seq<LogEntryView>,
    sid: Seq<char>,
    limit: i64,
)
    ensures
        ({
            let own = stored.filter(of_session(sid));
            recent(stored.reverse(), sid, limit) == own.skip(
                own.len() - shown_count(own.len(), limit),
            )
        }),
{
    let own = stored.filter(of_session(sid));
    lemma_filter_reverse(stored, of_session(sid));
    assert(recent(stored.reverse(), sid, limit) =~= own.skip(
        own.len() - shown_count(own.len(), limit),
    ));
}

/// What a smaller limit gives is the end of what a larger one gives.
pub proof fn a_smaller_limit_gives_a_suffix(
    rows: Seq<LogEntryView>,
    sid: Seq<char>,
    less: i64,
    more: i64,
)
    requires
        0 <= less,
        more < 0 || less <= more,
    ensures
        ({
            let short = recent(rows, sid, less);
            let long = recent(rows, sid, more);
            &&& short.len() <= long.len()
            &&& short == long.skip(long.len() - short.len())
        }),
{
    let short = recent(rows, sid, less);
    let long = recent(rows, sid, more);
    assert(short =~= long.skip(long.len() - short.len()));
}

/// Rows stored under ascending ids are read back so, and all are the session's.
pub proof fn recent_logs_ascend(stored: Seq<LogEntryView>, sid: Seq<char>, limit: i64)
    requires
        forall|i: int, j: int|
            #![trigger stored[i], stored[j]]
            0 <= i < j < stored.len() ==> stored[i].id < stored[j].id,
    ensures
        ({
            let r = recent(stored.reverse(), sid, limit);
            &&& forall|i: int, j: int|
                #![trigger r[i], r[j]]
                0 <= i < j < r.len() ==> r[i].id < r[j].id
            &&& forall|i: int| 0 <= i < r.len() ==> (#[trigger] r[i]).session_id == sid
        }),
{
    let p = of_session(sid);
    let own = stored.filter(p);
    recent_logs_are_the_last_ones(stored, sid, limit);
    lemma_filter_ascends(stored, p);
    let r = recent(stored.reverse(), sid, limit);
    let from = own.len() - shown_count(own.len(), limit);
    assert forall|i: int, j: int|
        #![trigger r[i], r[j]]
        0 <= i < j < r.len() implies r[i].id < r[j].id by {
        assert(own[from + i].id < own[from + j].id);
    }
    assert forall|i: int| 0 <= i < r.len() implies (#[trigger] r[i]).session_id == sid by {
        stored.lemma_filter_pred(p, from + i);
    }
}

proof fn lemma_filter_ascends(s: Seq<LogEntryView>, p: spec_fn(LogEntryView) -> bool)
    requires
        forall|i: int, j: int|
            #![trigger s[i], s[j]]
            0 <= i < j < s.len() ==> s[i].id < s[j].id,
    ensures
        forall|i: int, j: int|
            #![trigger s.filter(p)[i], s.filter(p)[j]]
            0 <= i < j < s.filter(p).len() ==> s.filter(p)[i].id < s.filter(p)[j].id,
        forall|i: int|
            0 <= i < s.filter(p).len() ==> s.len() > 0 && (#[trigger] s.filter(p)[i]).id
                <= s.last().id,
    decreases s.len(),
{
    reveal(Seq::filter);
    if s.len() > 0 {
        let front = s.drop_last();
        assert forall|i: int, j: int|
            #![trigger front[i], front[j]]
            0 <= i < j < front.len() implies front[i].id < front[j].id by {
            assert(s[i].id < s[j].id);
        }
        lemma_filter_ascends(front, p);
        let kept = front.filter(p);
        let all = s.filter(p);
        if front.len() > 0 {
            assert(s[front.len() - 1].id < s[s.len() - 1].id);
        }
        assert forall|i: int, j: int|
            #![trigger all[i], all[j]]
            0 <= i < j < all.len() implies all[i].id < all[j].id by {
            assert(all[i] == kept[i]);
            if j < kept.len() {
                assert(all[j] == kept[j]);
                assert(kept[i].id < kept[j].id);
            } else {
                assert(kept[i].id <= front.last().id);
            }
        }
        assert forall|i: int| 0 <= i < all.len() implies (#[trigger] all[i]).id <= s.last().id by {
            if i < kept.len() {
                assert(all[i] == kept[i]);
                assert(kept[i].id <= front.last().id);
            }
        }
    }
}

} // verus!
