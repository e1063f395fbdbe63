use vstd::prelude::*;
use crate::session::{Session, sessions_of, worked, all_valid, total_duration, is_stop};
use crate::time::Duration;

verus! {

/// One recorded observation: a time of day and a label.
#[derive(Clone, Debug, PartialEq)]
pub struct Entry {
    pub time: String,
    pub subject: String,
}

impl Entry {
    /// An entry equal to this one, field by field.
    pub fn duplicate(&self) -> (r: Entry)
        ensures
            r == *self,
    {
        Entry { time: self.time.clone(), subject: self.subject.clone() }
    }

    /// The entry as "<time> -> <subject>".
    pub fn to_string(&self) -> (r: String)
        ensures
            r@ == self.time@ + " -> "@ + self.subject@,
    {
        let mut r = self.time.clone();
        r.append(" -> ");
        r.append(self.subject.as_str());
        r
    }
}

/// The entries of one calendar date, in the order they were added.
#[derive(Debug, PartialEq)]
pub struct Day {
    pub date: String,
    pub entries: Vec<Entry>,
}

impl Day {
    /// Appends the entry after the ones already there.
    pub fn add_entry(&mut self, entry: Entry)
        ensures
            final(self).date == old(self).date,
            final(self).entries@ == old(self).entries@.push(entry),
    {
        self.entries.push(entry);
    }

    /// The work sessions the entries give, rebuilt on every call.
    pub fn get_work_sessions(&self) -> (r: Vec<Session>)
        ensures
            r@ == sessions_of(self.entries@),
            all_valid(r@),
    {
        let mut sessions: Vec<Session> = Vec::new();
        let mut i: usize = 0;
        while i < self.entries.len()
            invariant
                i <= self.entries@.len(),
                sessions@ == sessions_of(self.entries@.take(i as int)),
                all_valid(sessions@),
            decreases self.entries@.len() - i,
        {
            let entry = &self.entries[i];
            proof {
                assert(self.entries@.take(i + 1).drop_last() == self.entries@.take(i as int));
            }
            let n = sessions.len();
            if is_stop(&entry.subject) {
                if n > 0 {
                    proof {
                        assert(sessions@[n - 1].valid());
                    }
                    sessions[n - 1].close(entry.time.clone());
                }
            } else if n == 0 || sessions[n - 1].is_closed() {
                sessions.push(Session::new(entry.time.clone()));
            }
            i = i + 1;
        }
        proof {
            assert(self.entries@.take(i as int) == self.entries@);
        }
        sessions
    }
}

/// The log: one day for each date that has entries.
#[derive(Debug, PartialEq)]
pub struct Tik {
    pub days: Vec<Day>,
}

/// Whether day `i` is the first one of the given date.
pub open spec fn first_of_date(days: Seq<Day>, date: Seq<char>, i: int) -> bool {
    &&& 0 <= i < days.len()
    &&& days[i].date@ == date
    &&& forall|j: int| 0 <= j < i ==> days[j].date@ != date
}

pub open spec fn has_date(days: Seq<Day>, date: Seq<char>) -> bool {
    exists|i: int| 0 <= i < days.len() && days[i].date@ == date
}

impl Tik {
    /// No two days share a date.
    pub open spec fn wf(&self) -> bool {
        forall|i: int, j: int|
            0 <= i < j < self.days@.len() ==> self.days@[i].date@ != self.days@[j].date@
    }

    pub fn new() -> (r: Tik)
        ensures
            r.days@.len() == 0,
            r.wf(),
    {
        Tik { days: Vec::new() }
    }

    /// Appends the entry to the day of `date`, or starts that day with it.
    pub fn add_entry(&mut self, date: String, entry: Entry)
        ensures
            has_date(old(self).days@, date@) ==> {
                &&& final(self).days@.len() == old(self).days@.len()
                &&& forall|i: int|
                    0 <= i < old(self).days@.len() ==> {
                        &&& (#[trigger] final(self).days@[i]).date == old(self).days@[i].date
                        &&& final(self).days@[i].entries@ == if old(self).days@[i].date@ == date@ {
                            old(self).days@[i].entries@.push(entry)
                        } else {
                            old(self).days@[i].entries@
                        }
                    }
            },
            !has_date(old(self).days@, date@) ==> {
                &&& final(self).days@.len() == old(self).days@.len() + 1
                &&& final(self).days@.drop_last() == old(self).days@
                &&& final(self).days@.last().date == date
                &&& final(self).days@.last().entries@ == seq![entry]
            },
            old(self).wf() ==> final(self).wf(),
    {
        let ghost old_days = self.days@;
        let mut found = false;
        let mut i: usize = 0;
        while i < self.days.len()
            invariant
                i <= self.days@.len(),
                self.days@.len() == old_days.len(),
                found ==> has_date(old_days, date@),
                !found ==> forall|k: int| 0 <= k < i ==> old_days[k].date@ != date@,
                !found ==> self.days@ == old_days,
                forall|k: int|
                    0 <= k < old_days.len() ==> {
                        &&& (#[trigger] self.days@[k]).date == old_days[k].date
                        &&& self.days@[k].entries@ == if k < i && old_days[k].date@ == date@ {
                            old_days[k].entries@.push(entry)
                        } else {
                            old_days[k].entries@
                        }
                    },
            decreases old_days.len() - i,
        {
            let ghost before = self.days@;
            assert(before[i as int].date == old_days[i as int].date);
            if date == self.days[i].date {
                found = true;
                assert(old_days[i as int].date@ == date@);
                self.days[i].add_entry(entry.duplicate());
                assert(self.days@ == before.update(i as int, self.days@[i as int]));
                assert(self.days@[i as int].entries@ == old_days[i as int].entries@.push(entry));
            }
            assert forall|k: int| 0 <= k < old_days.len() implies {
                &&& (#[trigger] self.days@[k]).date == old_days[k].date
                &&& self.days@[k].entries@ == if k < i + 1 && old_days[k].date@ == date@ {
                    old_days[k].entries@.push(entry)
                } else {
                    old_days[k].entries@
                }
            } by {
                if k != i {
                    assert(self.days@[k] == before[k]);
                    assert(before[k].date == old_days[k].date);
                }
            }
            i = i + 1;
        }
        if !found {
            let mut entries: Vec<Entry> = Vec::new();
            entries.push(entry);
            self.days.push(Day { date: date, entries: entries });
            proof {
                assert(self.days@.drop_last() =~= old_days);
            }
        }
    }

    /// The time worked on `date`: the closed sessions of its day, summed;
    /// zero when no day has that date.
    pub fn count(&self, date: String) -> (r: Duration)
        ensures
            !has_date(self.days@, date@) ==> r.nanos == 0,
            forall|i: int|
                first_of_date(self.days@, date@, i) ==> r.nanos == worked(
                    #[trigger] self.days@[i].entries@,
                ),
    {
        let mut i: usize = 0;
        while i < self.days.len()
            invariant
                i <= self.days@.len(),
                forall|j: int| 0 <= j < i ==> self.days@[j].date@ != date@,
            decreases self.days@.len() - i,
        {
            if date == self.days[i].date {
                let sessions = self.days[i].get_work_sessions();
                return total_duration(&sessions);
            }
            i = i + 1;
        }
        Duration::zero()
    }
}

} // verus!
