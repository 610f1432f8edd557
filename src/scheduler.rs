//! The orchestrator of one ingestion run, as a state machine. The caller lists
//! the IDs, asks for the next action, runs each launched unit of work
//! (fetch, transform, write) and reports its outcome back. The machine never
//! has more units in flight than its cap, launches each distinct ID once,
//! lets no unit's failure stop the others, and finishes only when every
//! launched unit has reported.
use vstd::prelude::*;
use crate::record::{ErrorKind, RawDocument, has_required_fields};

verus! {

/// What the caller does next.
#[derive(Clone, Copy, Debug, PartialEq, Eq, Structural)]
pub enum Action {
    /// Start the unit of work for this ID.
    Launch(i64),
    /// Wait for a unit in flight to finish and report it.
    Wait,
    /// The run is over: take the report.
    Done,
}

/// The accounting of a run: the IDs whose unit succeeded, and the IDs whose
/// unit failed, each with its error.
#[derive(Clone, Debug)]
pub struct IngestionReport {
    pub succeeded: Vec<i64>,
    pub failed: Vec<(i64, ErrorKind)>,
}

/// The map of a list of outcomes; a later entry for an ID wins.
pub open spec fn outcome_map(s: Seq<(i64, ErrorKind)>) -> Map<i64, ErrorKind>
    decreases s.len(),
{
    if s.len() == 0 {
        Map::empty()
    } else {
        outcome_map(s.drop_last()).insert(s.last().0, s.last().1)
    }
}

impl IngestionReport {
    /// The IDs that succeeded.
    pub open spec fn succeeded_set(&self) -> Set<i64> {
        self.succeeded@.to_set()
    }

    /// The IDs that failed, with their errors.
    pub open spec fn failed_map(&self) -> Map<i64, ErrorKind> {
        outcome_map(self.failed@)
    }
}

/// The state of a run.
pub struct SchedulerView {
    /// The distinct IDs of the run, in launch order.
    pub ids: Seq<i64>,
    /// How many of `ids` have been launched: a prefix.
    pub launched: nat,
    /// Launched IDs whose outcome has not been reported.
    pub in_flight: Set<i64>,
    /// The cap on units in flight.
    pub max_in_flight: nat,
    pub succeeded: Set<i64>,
    pub failed: Map<i64, ErrorKind>,
    /// No new unit is launched once the run is cancelled.
    pub cancelled: bool,
}

/// Another unit can be launched now.
pub open spec fn can_launch(v: SchedulerView) -> bool {
    !v.cancelled && v.launched < v.ids.len() && v.in_flight.len() < v.max_in_flight
}

/// The state after launching the next ID.
pub open spec fn launch_next(v: SchedulerView) -> SchedulerView {
    SchedulerView {
        ids: v.ids,
        launched: v.launched + 1,
        in_flight: v.in_flight.insert(v.ids[v.launched as int]),
        max_in_flight: v.max_in_flight,
        succeeded: v.succeeded,
        failed: v.failed,
        cancelled: v.cancelled,
    }
}

/// The state after the unit of `id`, in flight, reported `outcome`.
pub open spec fn record_outcome(v: SchedulerView, id: i64, outcome: Result<(), ErrorKind>) -> SchedulerView {
    SchedulerView {
        ids: v.ids,
        launched: v.launched,
        in_flight: v.in_flight.remove(id),
        max_in_flight: v.max_in_flight,
        succeeded: if outcome is Ok {
            v.succeeded.insert(id)
        } else {
            v.succeeded
        },
        failed: if outcome is Err {
            v.failed.insert(id, outcome->Err_0)
        } else {
            v.failed
        },
        cancelled: v.cancelled,
    }
}

/// The state after a cancellation.
pub open spec fn cancelled_state(v: SchedulerView) -> SchedulerView {
    SchedulerView {
        ids: v.ids,
        launched: v.launched,
        in_flight: v.in_flight,
        max_in_flight: v.max_in_flight,
        succeeded: v.succeeded,
        failed: v.failed,
        cancelled: true,
    }
}

/// The orchestrator of one run.
pub struct Scheduler {
    ids: Vec<i64>,
    next: usize,
    in_flight: Vec<i64>,
    max_in_flight: usize,
    succeeded: Vec<i64>,
    failed: Vec<(i64, ErrorKind)>,
    cancelled: bool,
}

impl View for Scheduler {
    type V = SchedulerView;

    closed spec fn view(&self) -> SchedulerView {
        SchedulerView {
            ids: self.ids@,
            launched: self.next as nat,
            in_flight: self.in_flight@.to_set(),
            max_in_flight: self.max_in_flight as nat,
            succeeded: self.succeeded@.to_set(),
            failed: outcome_map(self.failed@),
            cancelled: self.cancelled,
        }
    }
}

proof fn lemma_outcome_map_push(s: Seq<(i64, ErrorKind)>, p: (i64, ErrorKind))
    ensures
        outcome_map(s.push(p)) == outcome_map(s).insert(p.0, p.1),
{
    assert(s.push(p).drop_last() == s);
}

proof fn lemma_remove_unique(s: Seq<i64>, i: int)
    requires
        s.no_duplicates(),
        0 <= i < s.len(),
    ensures
        s.remove(i).no_duplicates(),
        s.remove(i).to_set() == s.to_set().remove(s[i]),
        s.remove(i).len() == s.len() - 1,
{
    s.remove_ensures(i);
    let r = s.remove(i);
    assert forall|a: int, b: int| 0 <= a < r.len() && 0 <= b < r.len() && a != b implies r[a]
        != r[b] by {
        let sa = if a < i { a } else { a + 1 };
        let sb = if b < i { b } else { b + 1 };
        assert(r[a] == s[sa]);
        assert(r[b] == s[sb]);
    }
    assert forall|y: i64| r.contains(y) <==> (s.contains(y) && y != s[i]) by {
        if r.contains(y) {
            let a = choose|a: int| 0 <= a < r.len() && r[a] == y;
            let sa = if a < i { a } else { a + 1 };
            assert(s[sa] == y);
        }
        if s.contains(y) && y != s[i] {
            let k = choose|k: int| 0 <= k < s.len() && s[k] == y;
            let a = if k < i { k } else { k - 1 };
            assert(r[a] == y);
        }
    }
    assert(r.to_set() =~= s.to_set().remove(s[i]));
}

/// `x` is among the first `n` items of `s`.
pub open spec fn prefix_contains(s: Seq<i64>, n: int, x: i64) -> bool {
    s.subrange(0, n).contains(x)
}

impl Scheduler {
    /// The ID has been launched in this run.
    pub closed spec fn is_launched(&self, x: i64) -> bool {
        prefix_contains(self.ids@, self.next as int, x)
    }

    /// The state is consistent: the IDs are distinct, in-flight units stay
    /// within the cap, and each launched ID is in exactly one of in flight,
    /// succeeded and failed.
    pub closed spec fn wf(&self) -> bool {
        &&& self.ids@.no_duplicates()
        &&& self.next <= self.ids@.len()
        &&& self.max_in_flight >= 1
        &&& self.in_flight@.no_duplicates()
        &&& self.succeeded@.no_duplicates()
        &&& self.in_flight@.len() <= self.max_in_flight
        &&& forall|x: i64| #[trigger] self.in_flight@.contains(x) ==> self.is_launched(x)
        &&& forall|x: i64| #[trigger] self.succeeded@.contains(x) ==> self.is_launched(x)
        &&& forall|x: i64|
            #[trigger] outcome_map(self.failed@).dom().contains(x) ==> self.is_launched(x)
        &&& forall|x: i64| #[trigger]
            self.is_launched(x) ==> {
                &&& self.in_flight@.contains(x) || self.succeeded@.contains(x) || outcome_map(
                    self.failed@,
                ).dom().contains(x)
                &&& !(self.in_flight@.contains(x) && self.succeeded@.contains(x))
                &&& !(self.in_flight@.contains(x) && outcome_map(self.failed@).dom().contains(x))
                &&& !(self.succeeded@.contains(x) && outcome_map(self.failed@).dom().contains(x))
            }
    }

    proof fn lemma_view_counts(&self)
        requires
            self.wf(),
        ensures
            self@.in_flight.len() == self.in_flight@.len(),
    {
        self.in_flight@.unique_seq_to_set();
    }
}

proof fn lemma_push_contains(s: Seq<i64>, x: i64)
    ensures
        forall|y: i64| #[trigger] s.push(x).contains(y) <==> (s.contains(y) || y == x),
{
    assert forall|y: i64| #[trigger] s.push(x).contains(y) <==> (s.contains(y) || y == x) by {
        if s.push(x).contains(y) {
            let k = choose|k: int| 0 <= k < s.len() + 1 && s.push(x)[k] == y;
            if k < s.len() {
                assert(s[k] == y);
            }
        }
        if s.contains(y) {
            let k = choose|k: int| 0 <= k < s.len() && s[k] == y;
            assert(s.push(x)[k] == y);
        }
        if y == x {
            assert(s.push(x)[s.len() as int] == y);
        }
    }
}

fn contains_id(v: &Vec<i64>, x: i64) -> (r: bool)
    ensures
        r == v@.contains(x),
{
    let mut i: usize = 0;
    while i < v.len()
        invariant
            i <= v@.len(),
            forall|j: int| 0 <= j < i ==> v@[j] != x,
        decreases v@.len() - i,
    {
        if v[i] == x {
            return true;
        }
        i = i + 1;
    }
    false
}

/// The items of `s` in order, each at its first occurrence only.
pub open spec fn first_occurrences(s: Seq<i64>) -> Seq<i64>
    decreases s.len(),
{
    if s.len() == 0 {
        Seq::empty()
    } else {
        let p = first_occurrences(s.drop_last());
        if p.contains(s.last()) {
            p
        } else {
            p.push(s.last())
        }
    }
}

/// The IDs of a listing with repeats removed, each kept at its first
/// occurrence.
pub fn distinct_ids(list: &Vec<i64>) -> (r: Vec<i64>)
    ensures
        r@ == first_occurrences(list@),
        r@.no_duplicates(),
        r@.to_set() == list@.to_set(),
{
    let mut ids: Vec<i64> = Vec::new();
    let mut i: usize = 0;
    while i < list.len()
        invariant
            i <= list@.len(),
            ids@ == first_occurrences(list@.subrange(0, i as int)),
            ids@.no_duplicates(),
            ids@.to_set() == list@.subrange(0, i as int).to_set(),
        decreases list@.len() - i,
    {
        let x = list[i];
        let present = contains_id(&ids, x);
        let ghost before = ids@;
        if !present {
            ids.push(x);
        }
        proof {
            let pre = list@.subrange(0, i as int);
            assert(list@.subrange(0, i + 1 as int) == pre.push(x));
            assert(pre.push(x).drop_last() == pre);
            assert(before.contains(x) == present);
            lemma_push_contains(pre, x);
            lemma_push_contains(before, x);
            if !present {
                assert forall|a: int, b: int|
                    0 <= a < ids@.len() && 0 <= b < ids@.len() && a != b implies ids@[a]
                    != ids@[b] by {
                    if a == before.len() {
                        assert(before.contains(ids@[b]));
                    }
                    if b == before.len() {
                        assert(before.contains(ids@[a]));
                    }
                }
            }
            assert forall|y: i64| ids@.contains(y) <==> pre.push(x).contains(y) by {
                assert(before.to_set().contains(y) == pre.to_set().contains(y));
                if !present {
                    assert(ids@ == before.push(x));
                }
            }
            assert(ids@.to_set() =~= list@.subrange(0, i + 1 as int).to_set());
        }
        i = i + 1;
    }
    proof {
        assert(list@.subrange(0, i as int) == list@);
    }
    ids
}

impl Scheduler {
    /// Starts a run from the result of listing the IDs, with at most
    /// `max_in_flight` units in flight at once. A failed listing fails the run
    /// before any unit is launched. Otherwise the run will launch one unit per
    /// distinct listed ID.
    pub fn start(listing: Result<Vec<i64>, ErrorKind>, max_in_flight: usize) -> (r: Result<
        Scheduler,
        ErrorKind,
    >)
        requires
            max_in_flight >= 1,
        ensures
            listing is Err <==> r is Err,
            listing is Err ==> r == Err::<Scheduler, ErrorKind>(listing->Err_0),
            r is Ok ==> ({
                let v = r->Ok_0@;
                &&& r->Ok_0.wf()
                &&& v.ids == first_occurrences(listing->Ok_0@)
                &&& v.ids.no_duplicates()
                &&& v.ids.to_set() == listing->Ok_0@.to_set()
                &&& v.launched == 0
                &&& v.in_flight.is_empty()
                &&& v.max_in_flight == max_in_flight
                &&& v.succeeded.is_empty()
                &&& v.failed.is_empty()
                &&& !v.cancelled
            }),
    {
        match listing {
            Err(e) => Err(e),
            Ok(list) => {
                let ids = distinct_ids(&list);
                let s = Scheduler {
                    ids,
                    next: 0,
                    in_flight: Vec::new(),
                    max_in_flight,
                    succeeded: Vec::new(),
                    failed: Vec::new(),
                    cancelled: false,
                };
                proof {
                    assert(s@.in_flight =~= Set::empty());
                    assert(s@.succeeded =~= Set::empty());
                    assert(s@.failed =~= Map::empty());
                    assert forall|x: i64| !s.is_launched(x) by {
                        assert(s.ids@.subrange(0, 0).len() == 0);
                    }
                }
                Ok(s)
            },
        }
    }

    /// Decides what the caller does next. Launches the next ID while the run is
    /// not cancelled, IDs remain and fewer than the cap are in flight; else
    /// waits while units are in flight; else the run is done.
    pub fn next_action(&mut self) -> (r: Action)
        requires
            old(self).wf(),
        ensures
            final(self).wf(),
            can_launch(old(self)@) ==> r == Action::Launch(old(self)@.ids[old(self)@.launched as int])
                && final(self)@ == launch_next(old(self)@),
            !can_launch(old(self)@) ==> final(self)@ == old(self)@,
            !can_launch(old(self)@) && !old(self)@.in_flight.is_empty() ==> r == Action::Wait,
            !can_launch(old(self)@) && old(self)@.in_flight.is_empty() ==> r == Action::Done,
    {
        proof {
            self.lemma_view_counts();
        }
        if !self.cancelled && self.next < self.ids.len() && self.in_flight.len() < self.max_in_flight {
            let x = self.ids[self.next];
            proof {
                let pre = self.ids@.subrange(0, self.next as int);
                assert(!pre.contains(x)) by {
                    if pre.contains(x) {
                        let k = choose|k: int| 0 <= k < pre.len() && pre[k] == x;
                        assert(self.ids@[k] == self.ids@[self.next as int]);
                    }
                }
                assert(!self.in_flight@.contains(x));
                assert(!self.succeeded@.contains(x));
                assert(!outcome_map(self.failed@).dom().contains(x));
            }
            let ghost old_self = *self;
            self.in_flight.push(x);
            self.next = self.next + 1;
            proof {
                let pre = old_self.ids@.subrange(0, old_self.next as int);
                let fl = old_self.in_flight@;
                assert(self.ids@.subrange(0, self.next as int) == pre.push(x));
                lemma_push_contains(pre, x);
                lemma_push_contains(fl, x);
                assert(self.in_flight@ == fl.push(x));
                assert forall|a: int, b: int|
                    0 <= a < self.in_flight@.len() && 0 <= b < self.in_flight@.len() && a != b implies self.in_flight@[a]
                    != self.in_flight@[b] by {
                    if a == fl.len() {
                        assert(fl.contains(self.in_flight@[b]));
                    }
                    if b == fl.len() {
                        assert(fl.contains(self.in_flight@[a]));
                    }
                }
                assert(self@.in_flight =~= old_self@.in_flight.insert(x));
                assert(self@ == launch_next(old_self@));
                assert forall|y: i64| #[trigger] self.is_launched(y) implies {
                    &&& self.in_flight@.contains(y) || self.succeeded@.contains(y) || outcome_map(
                        self.failed@,
                    ).dom().contains(y)
                    &&& !(self.in_flight@.contains(y) && self.succeeded@.contains(y))
                    &&& !(self.in_flight@.contains(y) && outcome_map(self.failed@).dom().contains(y))
                    &&& !(self.succeeded@.contains(y) && outcome_map(self.failed@).dom().contains(y))
                } by {
                    if y != x {
                        assert(old_self.is_launched(y));
                    }
                }
                assert forall|y: i64| #[trigger] self.in_flight@.contains(y) implies self.is_launched(y) by {
                    if y != x {
                        assert(old_self.is_launched(y));
                    }
                }
                assert forall|y: i64| #[trigger] self.succeeded@.contains(y) implies self.is_launched(y) by {
                    assert(old_self.is_launched(y));
                }
                assert forall|y: i64| #[trigger] outcome_map(self.failed@).dom().contains(y) implies self.is_launched(y) by {
                    assert(old_self.is_launched(y));
                }
            }
            Action::Launch(x)
        } else if self.in_flight.len() > 0 {
            Action::Wait
        } else {
            Action::Done
        }
    }

    /// Records the outcome of the unit of `id`. Returns whether `id` was in
    /// flight; an ID that is not leaves the state as it was. A failed unit is
    /// recorded with its error and does not affect any other unit.
    pub fn complete(&mut self, id: i64, outcome: Result<(), ErrorKind>) -> (r: bool)
        requires
            old(self).wf(),
        ensures
            final(self).wf(),
            r == old(self)@.in_flight.contains(id),
            r ==> final(self)@ == record_outcome(old(self)@, id, outcome),
            !r ==> final(self)@ == old(self)@,
    {
        let mut i: usize = 0;
        while i < self.in_flight.len() && self.in_flight[i] != id
            invariant
                i <= self.in_flight@.len(),
                forall|j: int| 0 <= j < i ==> self.in_flight@[j] != id,
            decreases self.in_flight@.len() - i,
        {
            i = i + 1;
        }
        if i == self.in_flight.len() {
            proof {
                assert(!self.in_flight@.contains(id));
            }
            return false;
        }
        let ghost old_self = *self;
        proof {
            lemma_remove_unique(self.in_flight@, i as int);
            assert(self.in_flight@.contains(id));
        }
        self.in_flight.remove(i);
        match outcome {
            Ok(()) => {
                proof {
                    lemma_push_contains(self.succeeded@, id);
                }
                self.succeeded.push(id);
                proof {
                    let sc = old_self.succeeded@;
                    assert forall|a: int, b: int|
                        0 <= a < self.succeeded@.len() && 0 <= b < self.succeeded@.len() && a != b implies self.succeeded@[a]
                        != self.succeeded@[b] by {
                        if a == sc.len() {
                            assert(sc.contains(self.succeeded@[b]));
                        }
                        if b == sc.len() {
                            assert(sc.contains(self.succeeded@[a]));
                        }
                    }
                    assert(self@.succeeded =~= old_self@.succeeded.insert(id));
                }
            },
            Err(e) => {
                proof {
                    lemma_outcome_map_push(self.failed@, (id, e));
                }
                self.failed.push((id, e));
            },
        }
        proof {
            assert(self@.in_flight == old_self@.in_flight.remove(id));
            assert(self@ == record_outcome(old_self@, id, outcome));
            assert forall|y: i64| #[trigger] self.is_launched(y) implies {
                &&& self.in_flight@.contains(y) || self.succeeded@.contains(y) || outcome_map(
                    self.failed@,
                ).dom().contains(y)
                &&& !(self.in_flight@.contains(y) && self.succeeded@.contains(y))
                &&& !(self.in_flight@.contains(y) && outcome_map(self.failed@).dom().contains(y))
                &&& !(self.succeeded@.contains(y) && outcome_map(self.failed@).dom().contains(y))
            } by {
                assert(old_self.is_launched(y));
                assert(self.in_flight@.contains(y) == self@.in_flight.contains(y));
                assert(old_self.in_flight@.contains(y) == old_self@.in_flight.contains(y));
                assert(self.succeeded@.contains(y) == self@.succeeded.contains(y));
                assert(old_self.succeeded@.contains(y) == old_self@.succeeded.contains(y));
            }
            assert forall|y: i64| #[trigger] self.in_flight@.contains(y) implies self.is_launched(y) by {
                assert(self.in_flight@.contains(y) == self@.in_flight.contains(y));
                assert(old_self.in_flight@.contains(y) == old_self@.in_flight.contains(y));
            }
            assert forall|y: i64| #[trigger] self.succeeded@.contains(y) implies self.is_launched(y) by {
                assert(self.succeeded@.contains(y) == self@.succeeded.contains(y));
                assert(old_self.succeeded@.contains(y) == old_self@.succeeded.contains(y));
                assert(old_self.in_flight@.contains(y) == old_self@.in_flight.contains(y));
            }
        }
        true
    }

    /// Cancels the run: no new unit is launched; units in flight still report.
    pub fn cancel(&mut self)
        requires
            old(self).wf(),
        ensures
            final(self).wf(),
            final(self)@ == cancelled_state(old(self)@),
    {
        let ghost old_self = *self;
        self.cancelled = true;
        proof {
            assert forall|y: i64| #[trigger] self.is_launched(y) implies {
                &&& self.in_flight@.contains(y) || self.succeeded@.contains(y) || outcome_map(
                    self.failed@,
                ).dom().contains(y)
                &&& !(self.in_flight@.contains(y) && self.succeeded@.contains(y))
                &&& !(self.in_flight@.contains(y) && outcome_map(self.failed@).dom().contains(y))
                &&& !(self.succeeded@.contains(y) && outcome_map(self.failed@).dom().contains(y))
            } by {
                assert(old_self.is_launched(y));
            }
        }
    }

    /// Ends the run with its report.
    pub fn finish(self) -> (r: IngestionReport)
        requires
            self.wf(),
        ensures
            r.succeeded_set() == self@.succeeded,
            r.failed_map() == self@.failed,
            r.succeeded@.no_duplicates(),
    {
        IngestionReport { succeeded: self.succeeded, failed: self.failed }
    }

    /// The number of units in flight.
    pub fn in_flight_count(&self) -> (r: usize)
        requires
            self.wf(),
        ensures
            r == self@.in_flight.len(),
    {
        proof {
            self.lemma_view_counts();
        }
        self.in_flight.len()
    }

    /// Whatever happened so far, the units in flight never exceed the cap:
    /// every state reached from `start` through the methods above is
    /// well formed, and a well-formed state is within the cap.
    pub proof fn lemma_in_flight_within_cap(&self)
        requires
            self.wf(),
        ensures
            self@.in_flight.len() <= self@.max_in_flight,
            self@.max_in_flight >= 1,
    {
        self.lemma_view_counts();
    }

    /// When the run is done without a cancellation, every ID of the run is
    /// accounted for exactly once: it succeeded, or it failed with an error.
    pub proof fn lemma_done_accounts_for_every_id(&self)
        requires
            self.wf(),
            !can_launch(self@),
            self@.in_flight.is_empty(),
            !self@.cancelled,
        ensures
            self@.launched == self@.ids.len(),
            forall|x: i64|
                self@.ids.contains(x) ==> (#[trigger] self@.succeeded.contains(x)
                    <==> !self@.failed.dom().contains(x)),
            forall|x: i64|
                #[trigger] self@.succeeded.contains(x) || self@.failed.dom().contains(x)
                    ==> self@.ids.contains(x),
    {
        self.lemma_view_counts();
        assert(self@.in_flight.len() == 0);
        assert(self.ids@.subrange(0, self.next as int) == self.ids@);
        assert forall|x: i64| self@.ids.contains(x) implies (#[trigger] self@.succeeded.contains(x)
            <==> !self@.failed.dom().contains(x)) by {
            assert(self.is_launched(x));
            assert(!self.in_flight@.contains(x)) by {
                assert(!self@.in_flight.contains(x));
            }
        }
        assert forall|x: i64| #[trigger] self@.succeeded.contains(x) || self@.failed.dom().contains(x)
            implies self@.ids.contains(x) by {
            if self@.succeeded.contains(x) {
                assert(self.succeeded@.contains(x));
            }
            assert(self.is_launched(x));
        }
    }
}

/// A detail document without a position fails its unit with a decode error,
/// which the run records against that ID alone: the ID leaves the units in
/// flight, is not counted as a success, and the rest of the run is unchanged.
pub proof fn lemma_missing_position_fails_only_its_unit(raw: RawDocument, v: SchedulerView, id: i64)
    requires
        raw.position is None,
        v.in_flight.contains(id),
        !v.succeeded.contains(id),
    ensures
        !has_required_fields(raw),
        ({
            let n = record_outcome(v, id, Err(ErrorKind::Decode));
            &&& n.failed == v.failed.insert(id, ErrorKind::Decode)
            &&& !n.succeeded.contains(id)
            &&& !n.in_flight.contains(id)
            &&& n.succeeded == v.succeeded
            &&& n.ids == v.ids
            &&& n.launched == v.launched
            &&& n.cancelled == v.cancelled
            &&& forall|x: i64| x != id ==> (#[trigger] n.in_flight.contains(x) <==> v.in_flight.contains(x))
        }),
{
}

} // verus!
