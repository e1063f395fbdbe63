use vstd::prelude::*;
use vstd::string::StringExecFns;
use crate::log::Entry;
use crate::time::{Time, Duration, time_of, nanos_between, parse_hms, signed_nanos_between};

verus! {

/// A stretch of work: opened by a start-like entry, closed by a "stop".
#[derive(Clone, Copy, Debug, PartialEq, Eq, Structural)]
pub struct Session {
    pub start: Option<Time>,
    pub end: Option<Time>,
}

/// The subject that closes the open session.
pub open spec fn is_stop_subject(subject: Seq<char>) -> bool {
    subject == "stop"@
}

/// Whether a subject is the one that closes the open session.
pub(crate) fn is_stop(subject: &String) -> (r: bool)
    ensures
        r == is_stop_subject(subject@),
{
    let stop = String::from_str("stop");
    *subject == stop
}

impl Session {
    pub open spec fn closed(self) -> bool {
        self.start is Some && self.end is Some
    }

    /// Every time the session holds is a real time of day.
    pub open spec fn valid(self) -> bool {
        &&& self.start matches Some(t) ==> t.valid()
        &&& self.end matches Some(t) ==> t.valid()
    }

    pub open spec fn opened_at(time: Seq<char>) -> Session {
        Session { start: time_of(time), end: None }
    }

    /// Closing keeps an already closed session as it is.
    pub open spec fn closed_at(self, time: Seq<char>) -> Session {
        if self.closed() {
            self
        } else {
            Session { start: self.start, end: time_of(time) }
        }
    }

    /// What the session adds to a total: its length if closed, else nothing.
    pub open spec fn span(self) -> int {
        if self.closed() {
            nanos_between(self.end.unwrap(), self.start.unwrap())
        } else {
            0
        }
    }

    /// A session opened at the given time, if it parses.
    pub fn new(time: String) -> (r: Session)
        ensures
            r == Session::opened_at(time@),
            r.valid(),
    {
        Session { start: parse_hms(time.as_str()), end: None }
    }

    /// Ends an open session at the given time; a closed one stays as it is.
    pub fn close(&mut self, time: String)
        requires
            old(self).valid(),
        ensures
            *final(self) == old(self).closed_at(time@),
            final(self).valid(),
    {
        if !self.is_closed() {
            self.end = parse_hms(time.as_str());
        }
    }

    pub fn is_closed(&self) -> (r: bool)
        ensures
            r == self.closed(),
    {
        self.start.is_some() && self.end.is_some()
    }
}

/// The sessions after one more entry: a "stop" closes the last session, any
/// other subject opens a new one unless the last is still open.
pub open spec fn next_sessions(ss: Seq<Session>, e: Entry) -> Seq<Session> {
    if is_stop_subject(e.subject@) {
        if ss.len() == 0 {
            ss
        } else {
            ss.update(ss.len() - 1, ss.last().closed_at(e.time@))
        }
    } else if ss.len() == 0 || ss.last().closed() {
        ss.push(Session::opened_at(e.time@))
    } else {
        ss
    }
}

/// The sessions a sequence of entries gives, read left to right.
pub open spec fn sessions_of(entries: Seq<Entry>) -> Seq<Session>
    decreases entries.len(),
{
    if entries.len() == 0 {
        seq![]
    } else {
        next_sessions(sessions_of(entries.drop_last()), entries.last())
    }
}

/// The summed length of the closed sessions, in nanoseconds.
pub open spec fn total_span(ss: Seq<Session>) -> int
    decreases ss.len(),
{
    if ss.len() == 0 {
        0
    } else {
        total_span(ss.drop_last()) + ss.last().span()
    }
}

/// The time worked over a sequence of entries, in nanoseconds.
pub open spec fn worked(entries: Seq<Entry>) -> int {
    total_span(sessions_of(entries))
}

pub open spec fn all_valid(ss: Seq<Session>) -> bool {
    forall|k: int| 0 <= k < ss.len() ==> #[trigger] ss[k].valid()
}

/// Rebuilding sessions depends on the entries alone: two days with the same
/// entries, or one day read twice, give the same sessions and the same total.
pub proof fn lemma_sessions_deterministic(a: Seq<Entry>, b: Seq<Entry>)
    requires
        a == b,
    ensures
        sessions_of(a) == sessions_of(b),
        worked(a) == worked(b),
{
}

/// At most one session is open at a time: every session but the last is
/// closed.
pub proof fn lemma_only_last_open(entries: Seq<Entry>)
    ensures
        forall|k: int|
            0 <= k < sessions_of(entries).len() - 1 ==> #[trigger] sessions_of(entries)[k].closed(),
    decreases entries.len(),
{
    if entries.len() > 0 {
        let ss = sessions_of(entries.drop_last());
        let e = entries.last();
        lemma_only_last_open(entries.drop_last());
        let r = sessions_of(entries);
        assert(r == next_sessions(ss, e));
        assert forall|k: int| 0 <= k < r.len() - 1 implies #[trigger] r[k].closed() by {
            if is_stop_subject(e.subject@) {
                if ss.len() > 0 {
                    assert(r[k] == ss[k]);
                }
            } else if ss.len() == 0 || ss.last().closed() {
                assert(r[k] == ss[k]);
            }
        }
    }
}

/// A bound on what one session of valid times can add to a total.
pub const SPAN_BOUND: i128 = 140_000_000_000_000;

proof fn lemma_span_bounded(s: Session)
    requires
        s.valid(),
    ensures
        -SPAN_BOUND <= s.span() <= SPAN_BOUND,
{
}

/// The summed length of the closed sessions.
pub fn total_duration(sessions: &Vec<Session>) -> (r: Duration)
    requires
        all_valid(sessions@),
    ensures
        r.nanos == total_span(sessions@),
{
    let mut acc: i128 = 0;
    let mut i: usize = 0;
    while i < sessions.len()
        invariant
            i <= sessions@.len(),
            all_valid(sessions@),
            acc == total_span(sessions@.take(i as int)),
            -(i as int) * SPAN_BOUND <= acc <= (i as int) * SPAN_BOUND,
        decreases sessions@.len() - i,
    {
        let s = sessions[i];
        proof {
            assert(sessions@.take(i + 1).drop_last() == sessions@.take(i as int));
            assert(sessions@[i as int].valid());
            lemma_span_bounded(s);
        }
        if s.is_closed() {
            let d = signed_nanos_between(s.end.unwrap(), s.start.unwrap());
            acc = acc + d as i128;
        }
        i = i + 1;
    }
    proof {
        assert(sessions@.take(i as int) == sessions@);
    }
    Duration { nanos: acc }
}

} // verus!
