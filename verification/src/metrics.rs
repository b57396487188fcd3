//! The metrics registry: a counter family keyed by (operation, outcome),
//! a duration-histogram family keyed by operation, and an up gauge.
//!
//! The registry's abstract state is the sequence of recorded events; the
//! concrete counters and histograms are proved to agree with the counts,
//! bucket tallies and sums that the event history determines. Durations are
//! carried as integer nanoseconds.

use vstd::prelude::*;
use vstd::string::StrSliceExecFns;
use vstd::string::StringExecFns;

use crate::text::str_eq;

verus! {

/// One recorded observation: an operation name, an outcome tag, and the
/// operation's duration in nanoseconds.
pub ghost struct Event {
    pub op: Seq<char>,
    pub outcome: Seq<char>,
    pub duration_nanos: nat,
}

/// How many of the events carry this (operation, outcome) pair.
pub open spec fn count_matching(events: Seq<Event>, op: Seq<char>, outcome: Seq<char>) -> nat
    decreases events.len(),
{
    if events.len() == 0 {
        0
    } else {
        count_matching(events.drop_last(), op, outcome) + if events.last().op == op
            && events.last().outcome == outcome {
            1nat
        } else {
            0nat
        }
    }
}

/// The durations of the events for this operation, in recording order.
pub open spec fn durations_of(events: Seq<Event>, op: Seq<char>) -> Seq<nat>
    decreases events.len(),
{
    if events.len() == 0 {
        Seq::<nat>::empty()
    } else {
        durations_of(events.drop_last(), op) + if events.last().op == op {
            seq![events.last().duration_nanos]
        } else {
            Seq::<nat>::empty()
        }
    }
}

/// The arithmetic sum of a sequence of durations.
pub open spec fn sum_of(durs: Seq<nat>) -> nat
    decreases durs.len(),
{
    if durs.len() == 0 {
        0
    } else {
        sum_of(durs.drop_last()) + durs.last()
    }
}

/// How many of the durations are at most `bound`.
pub open spec fn count_le(durs: Seq<nat>, bound: nat) -> nat
    decreases durs.len(),
{
    if durs.len() == 0 {
        0
    } else {
        count_le(durs.drop_last(), bound) + if durs.last() <= bound {
            1nat
        } else {
            0nat
        }
    }
}

/// Number of finite histogram bucket boundaries.
pub const BUCKET_COUNT: usize = 11;

/// The fixed bucket boundary ladder, in nanoseconds: 5ms, 10ms, 25ms, 50ms,
/// 100ms, 250ms, 500ms, 1s, 2.5s, 5s, 10s. The ladder is fixed at registry
/// construction and shared by every operation.
pub open spec fn bucket_bound(i: int) -> nat {
    if i == 0 {
        5_000_000
    } else if i == 1 {
        10_000_000
    } else if i == 2 {
        25_000_000
    } else if i == 3 {
        50_000_000
    } else if i == 4 {
        100_000_000
    } else if i == 5 {
        250_000_000
    } else if i == 6 {
        500_000_000
    } else if i == 7 {
        1_000_000_000
    } else if i == 8 {
        2_500_000_000
    } else if i == 9 {
        5_000_000_000
    } else {
        10_000_000_000
    }
}

/// The boundary of bucket `i` in nanoseconds.
pub fn bucket_bound_nanos(i: usize) -> (b: u64)
    requires
        i < BUCKET_COUNT,
    ensures
        b as nat == bucket_bound(i as int),
{
    if i == 0 {
        5_000_000
    } else if i == 1 {
        10_000_000
    } else if i == 2 {
        25_000_000
    } else if i == 3 {
        50_000_000
    } else if i == 4 {
        100_000_000
    } else if i == 5 {
        250_000_000
    } else if i == 6 {
        500_000_000
    } else if i == 7 {
        1_000_000_000
    } else if i == 8 {
        2_500_000_000
    } else if i == 9 {
        5_000_000_000
    } else {
        10_000_000_000
    }
}

/// One counter time series: the count of events for one (operation, outcome).
pub struct CounterEntry {
    pub op: String,
    pub outcome: String,
    pub count: u64,
}

/// One histogram time series: cumulative bucket tallies, duration sum and
/// observation count for one operation.
pub struct HistEntry {
    pub op: String,
    pub buckets: Vec<u64>,
    pub sum: u64,
    pub count: u64,
}

/// The registry. Label pairs are created lazily on first observation and,
/// once created, never removed; their counts never decrease.
pub struct Metrics {
    pub counters: Vec<CounterEntry>,
    pub hists: Vec<HistEntry>,
    pub up: u64,
    pub events: Ghost<Seq<Event>>,
}

/// Whether some counter entry carries this (operation, outcome) pair.
pub open spec fn has_counter(counters: Seq<CounterEntry>, op: Seq<char>, outcome: Seq<char>) -> bool {
    exists|j: int|
        0 <= j < counters.len() && counters[j].op@ == op && counters[j].outcome@ == outcome
}

/// Whether some histogram entry carries this operation.
pub open spec fn has_hist(hists: Seq<HistEntry>, op: Seq<char>) -> bool {
    exists|j: int| 0 <= j < hists.len() && hists[j].op@ == op
}

/// A histogram entry agrees with the durations the events determine for its
/// operation: right bucket width, cumulative bucket tallies, sum and count.
pub open spec fn hist_entry_wf(e: HistEntry, events: Seq<Event>) -> bool {
    &&& e.buckets@.len() == BUCKET_COUNT
    &&& e.count as nat == durations_of(events, e.op@).len()
    &&& e.sum as nat == sum_of(durations_of(events, e.op@))
    &&& forall|i: int|
        0 <= i < BUCKET_COUNT ==> e.buckets@[i] as nat == count_le(
            durations_of(events, e.op@),
            bucket_bound(i),
        )
}

/// Whether one more event with this pair and duration still fits the
/// machine-word counters: the only reason a recording is ever dropped.
pub open spec fn can_record(
    events: Seq<Event>,
    op: Seq<char>,
    outcome: Seq<char>,
    duration_nanos: nat,
) -> bool {
    &&& count_matching(events, op, outcome) < u64::MAX
    &&& durations_of(events, op).len() < u64::MAX
    &&& sum_of(durations_of(events, op)) + duration_nanos <= u64::MAX
}

impl View for Metrics {
    type V = Seq<Event>;

    open spec fn view(&self) -> Seq<Event> {
        self.events@
    }
}

impl Metrics {
    /// Well-formedness: the up gauge reads 1; counter keys are distinct and
    /// each counter equals the number of matching events; histogram keys are
    /// distinct and each entry tallies the durations of its operation; and
    /// every recorded event has its counter and histogram entry.
    pub open spec fn wf(self) -> bool {
        &&& self.up == 1
        &&& forall|j: int, k: int|
            0 <= j < k < self.counters@.len() ==> !(self.counters@[j].op@ == self.counters@[k].op@
                && self.counters@[j].outcome@ == self.counters@[k].outcome@)
        &&& forall|j: int|
            0 <= j < self.counters@.len() ==> #[trigger] self.counters@[j].count as nat
                == count_matching(self.events@, self.counters@[j].op@, self.counters@[j].outcome@)
        &&& forall|j: int, k: int|
            0 <= j < k < self.hists@.len() ==> self.hists@[j].op@ != self.hists@[k].op@
        &&& forall|j: int|
            0 <= j < self.hists@.len() ==> hist_entry_wf(#[trigger] self.hists@[j], self.events@)
        &&& forall|i: int|
            0 <= i < self.events@.len() ==> has_counter(
                self.counters@,
                #[trigger] self.events@[i].op,
                self.events@[i].outcome,
            ) && has_hist(self.hists@, self.events@[i].op)
    }

    /// Constructs the registry: no events yet, the up gauge at 1.
    pub fn new() -> (m: Metrics)
        ensures
            m.wf(),
            m@ == Seq::<Event>::empty(),
            m.up == 1,
    {
        Metrics { counters: Vec::new(), hists: Vec::new(), up: 1, events: Ghost(Seq::empty()) }
    }

    /// The up gauge: 1 from construction on, for the registry's whole life.
    pub fn up_value(&self) -> (v: u64)
        requires
            self.wf(),
        ensures
            v == 1,
    {
        self.up
    }

    /// The exported counter for this (operation, outcome): exactly the
    /// number of recorded events that carry the pair.
    pub fn counter_value(&self, op: &str, outcome: &str) -> (count: u64)
        requires
            self.wf(),
        ensures
            count as nat == count_matching(self@, op@, outcome@),
    {
        match find_counter(&self.counters, op, outcome) {
            Some(j) => self.counters[j].count,
            None => {
                proof {
                    if count_matching(self@, op@, outcome@) > 0 {
                        lemma_count_matching_pos(self@, op@, outcome@);
                        let i = choose|i: int|
                            0 <= i < self@.len() && self@[i].op == op@ && self@[i].outcome
                                == outcome@;
                        assert(has_counter(self.counters@, self@[i].op, self@[i].outcome));
                    }
                }
                0
            },
        }
    }

    /// The histogram's total observation count for this operation.
    pub fn histogram_count(&self, op: &str) -> (count: u64)
        requires
            self.wf(),
        ensures
            count as nat == durations_of(self@, op@).len(),
    {
        match find_hist(&self.hists, op) {
            Some(j) => self.hists[j].count,
            None => {
                proof {
                    lemma_durations_absent(*self, op@);
                }
                0
            },
        }
    }

    /// The histogram's duration sum for this operation, in nanoseconds.
    pub fn histogram_sum_nanos(&self, op: &str) -> (sum: u64)
        requires
            self.wf(),
        ensures
            sum as nat == sum_of(durations_of(self@, op@)),
    {
        match find_hist(&self.hists, op) {
            Some(j) => self.hists[j].sum,
            None => {
                proof {
                    lemma_durations_absent(*self, op@);
                }
                0
            },
        }
    }

    /// The histogram's cumulative tally at bucket `i` for this operation:
    /// the number of recorded durations at most the bucket's boundary.
    pub fn histogram_bucket(&self, op: &str, i: usize) -> (tally: u64)
        requires
            self.wf(),
            i < BUCKET_COUNT,
        ensures
            tally as nat == count_le(durations_of(self@, op@), bucket_bound(i as int)),
    {
        match find_hist(&self.hists, op) {
            Some(j) => self.hists[j].buckets[i],
            None => {
                proof {
                    lemma_durations_absent(*self, op@);
                }
                0
            },
        }
    }
}

/// Records one completed operation: raises the (command, status) counter by
/// one and adds the duration to the command's histogram, creating either
/// entry on first observation. The caller never sees a failure; the one case
/// in which nothing is recorded is a count or sum that would outgrow its
/// machine word, and the registry is then left exactly as it was.
#[verifier::loop_isolation(false)]
pub fn observe_command(metrics: &mut Metrics, command: &str, status: &str, duration_nanos: u64)
    requires
        old(metrics).wf(),
    ensures
        final(metrics).wf(),
        can_record(old(metrics)@, command@, status@, duration_nanos as nat) ==> final(metrics)@
            == old(metrics)@.push(
            Event { op: command@, outcome: status@, duration_nanos: duration_nanos as nat },
        ),
        !can_record(old(metrics)@, command@, status@, duration_nanos as nat) ==> *final(metrics)
            == *old(metrics),
        final(metrics).up == old(metrics).up,
{
    let ghost e = Event { op: command@, outcome: status@, duration_nanos: duration_nanos as nat };
    let ghost old_events = old(metrics).events@;
    let ghost durs = durations_of(old_events, command@);
    let idx_c = find_counter(&metrics.counters, command, status);
    let idx_h = find_hist(&metrics.hists, command);
    let ok_c = match idx_c {
        Some(j) => metrics.counters[j].count < u64::MAX,
        None => true,
    };
    let ok_h = match idx_h {
        Some(j) => metrics.hists[j].count < u64::MAX && metrics.hists[j].sum <= u64::MAX
            - duration_nanos,
        None => true,
    };
    proof {
        if idx_c is None && count_matching(old_events, command@, status@) > 0 {
            lemma_count_matching_pos(old_events, command@, status@);
            let i = choose|i: int|
                0 <= i < old_events.len() && old_events[i].op == command@
                    && old_events[i].outcome == status@;
            assert(has_counter(metrics.counters@, old_events[i].op, old_events[i].outcome));
        }
        if idx_h is None {
            lemma_durations_absent(*metrics, command@);
        }
        assert((ok_c && ok_h) == can_record(old_events, command@, status@, duration_nanos as nat));
    }
    if !(ok_c && ok_h) {
        return ;
    }
    // The counter family.
    match idx_c {
        Some(j) => {
            let c = metrics.counters[j].count;
            metrics.counters[j].count = c + 1;
        },
        None => {
            metrics.counters.push(
                CounterEntry { op: command.to_owned(), outcome: status.to_owned(), count: 1 },
            );
        },
    }
    // The histogram family.
    match idx_h {
        Some(j) => {
            let mut new_buckets: Vec<u64> = Vec::new();
            let mut i: usize = 0;
            while i < BUCKET_COUNT
                invariant
                    i <= BUCKET_COUNT,
                    new_buckets@.len() == i,
                    forall|k: int|
                        0 <= k < i ==> #[trigger] new_buckets@[k] as nat == count_le(
                            durs,
                            bucket_bound(k),
                        ) + (if duration_nanos as nat <= bucket_bound(k) {
                            1nat
                        } else {
                            0nat
                        }),
                decreases BUCKET_COUNT - i,
            {
                let b = metrics.hists[j].buckets[i];
                proof {
                    lemma_count_le_bounded(durs, bucket_bound(i as int));
                }
                if duration_nanos <= bucket_bound_nanos(i) {
                    new_buckets.push(b + 1);
                } else {
                    new_buckets.push(b);
                }
                i += 1;
            }
            metrics.hists[j].buckets = new_buckets;
            let s = metrics.hists[j].sum;
            metrics.hists[j].sum = s + duration_nanos;
            let c2 = metrics.hists[j].count;
            metrics.hists[j].count = c2 + 1;
        },
        None => {
            let mut new_buckets: Vec<u64> = Vec::new();
            let mut i: usize = 0;
            while i < BUCKET_COUNT
                invariant
                    i <= BUCKET_COUNT,
                    new_buckets@.len() == i,
                    forall|k: int|
                        0 <= k < i ==> #[trigger] new_buckets@[k] as nat == (
                        if duration_nanos as nat <= bucket_bound(k) {
                            1nat
                        } else {
                            0nat
                        }),
                decreases BUCKET_COUNT - i,
            {
                if duration_nanos <= bucket_bound_nanos(i) {
                    new_buckets.push(1);
                } else {
                    new_buckets.push(0);
                }
                i += 1;
            }
            metrics.hists.push(
                HistEntry {
                    op: command.to_owned(),
                    buckets: new_buckets,
                    sum: duration_nanos,
                    count: 1,
                },
            );
        },
    }
    metrics.events = Ghost(old_events.push(e));
    proof {
        let new_events = old_events.push(e);
        // Every counter entry still counts its pair's events.
        assert forall|jj: int| 0 <= jj < metrics.counters@.len() implies #[trigger] metrics.counters@[jj].count
            as nat == count_matching(
            new_events,
            metrics.counters@[jj].op@,
            metrics.counters@[jj].outcome@,
        ) by {
            lemma_count_matching_push(
                old_events,
                e,
                metrics.counters@[jj].op@,
                metrics.counters@[jj].outcome@,
            );
        };
        // Every histogram entry still tallies its operation's durations.
        assert forall|jj: int| 0 <= jj < metrics.hists@.len() implies hist_entry_wf(
            #[trigger] metrics.hists@[jj],
            new_events,
        ) by {
            lemma_durations_push(old_events, e, metrics.hists@[jj].op@);
            if metrics.hists@[jj].op@ == command@ {
                lemma_sum_push(durs, duration_nanos as nat);
                assert forall|k: int| 0 <= k < BUCKET_COUNT implies #[trigger] metrics.hists@[jj].buckets@[k]
                    as nat == count_le(durs.push(duration_nanos as nat), bucket_bound(k)) by {
                    lemma_count_le_push(durs, duration_nanos as nat, bucket_bound(k));
                };
            }
        };
        // Every event, the new one included, has its entries.
        assert forall|i: int| 0 <= i < new_events.len() implies has_counter(
            metrics.counters@,
            #[trigger] new_events[i].op,
            new_events[i].outcome,
        ) && has_hist(metrics.hists@, new_events[i].op) by {
            if i < old_events.len() {
                assert(has_counter(
                    old(metrics).counters@,
                    old_events[i].op,
                    old_events[i].outcome,
                ));
                let jc = choose|j: int|
                    0 <= j < old(metrics).counters@.len() && old(metrics).counters@[j].op@
                        == old_events[i].op && old(metrics).counters@[j].outcome@
                        == old_events[i].outcome;
                assert(metrics.counters@[jc].op@ == old_events[i].op);
                assert(metrics.counters@[jc].outcome@ == old_events[i].outcome);
                let jh = choose|j: int|
                    0 <= j < old(metrics).hists@.len() && old(metrics).hists@[j].op@
                        == old_events[i].op;
                assert(metrics.hists@[jh].op@ == old_events[i].op);
            } else {
                match idx_c {
                    Some(j) => {
                        assert(metrics.counters@[j as int].op@ == command@);
                        assert(metrics.counters@[j as int].outcome@ == status@);
                    },
                    None => {
                        let j = metrics.counters@.len() - 1;
                        assert(metrics.counters@[j].op@ == command@);
                        assert(metrics.counters@[j].outcome@ == status@);
                    },
                }
                match idx_h {
                    Some(j) => {
                        assert(metrics.hists@[j as int].op@ == command@);
                    },
                    None => {
                        let j = metrics.hists@.len() - 1;
                        assert(metrics.hists@[j].op@ == command@);
                    },
                }
            }
        };
    }
}

/// The index of the counter entry for this pair, if one exists.
fn find_counter(counters: &Vec<CounterEntry>, op: &str, outcome: &str) -> (r: Option<usize>)
    ensures
        match r {
            Some(j) => j < counters@.len() && counters@[j as int].op@ == op@
                && counters@[j as int].outcome@ == outcome@,
            None => !has_counter(counters@, op@, outcome@),
        },
{
    let mut j: usize = 0;
    while j < counters.len()
        invariant
            j <= counters@.len(),
            forall|k: int|
                0 <= k < j ==> !(#[trigger] counters@[k].op@ == op@ && counters@[k].outcome@
                    == outcome@),
        decreases counters@.len() - j,
    {
        if str_eq(counters[j].op.as_str(), op) && str_eq(counters[j].outcome.as_str(), outcome) {
            return Some(j);
        }
        j += 1;
    }
    None
}

/// The index of the histogram entry for this operation, if one exists.
fn find_hist(hists: &Vec<HistEntry>, op: &str) -> (r: Option<usize>)
    ensures
        match r {
            Some(j) => j < hists@.len() && hists@[j as int].op@ == op@,
            None => !has_hist(hists@, op@),
        },
{
    let mut j: usize = 0;
    while j < hists.len()
        invariant
            j <= hists@.len(),
            forall|k: int| 0 <= k < j ==> #[trigger] hists@[k].op@ != op@,
        decreases hists@.len() - j,
    {
        if str_eq(hists[j].op.as_str(), op) {
            return Some(j);
        }
        j += 1;
    }
    None
}

/// A positive match count names a matching event.
pub proof fn lemma_count_matching_pos(events: Seq<Event>, op: Seq<char>, outcome: Seq<char>)
    requires
        count_matching(events, op, outcome) > 0,
    ensures
        exists|i: int| 0 <= i < events.len() && events[i].op == op && events[i].outcome == outcome,
    decreases events.len(),
{
    if events.last().op == op && events.last().outcome == outcome {
        assert(events[events.len() - 1].op == op && events[events.len() - 1].outcome == outcome);
    } else {
        lemma_count_matching_pos(events.drop_last(), op, outcome);
        let i = choose|i: int|
            0 <= i < events.drop_last().len() && events.drop_last()[i].op == op
                && events.drop_last()[i].outcome == outcome;
        assert(events[i].op == op && events[i].outcome == outcome);
    }
}

/// A nonempty duration sequence names an event with the operation.
pub proof fn lemma_durations_pos(events: Seq<Event>, op: Seq<char>)
    requires
        durations_of(events, op).len() > 0,
    ensures
        exists|i: int| 0 <= i < events.len() && events[i].op == op,
    decreases events.len(),
{
    if events.len() > 0 {
        if events.last().op == op {
            assert(events[events.len() - 1].op == op);
        } else {
            assert(durations_of(events, op) == durations_of(events.drop_last(), op) + Seq::<
                nat,
            >::empty());
            assert(durations_of(events.drop_last(), op).len() > 0);
            lemma_durations_pos(events.drop_last(), op);
            let i = choose|i: int|
                0 <= i < events.drop_last().len() && events.drop_last()[i].op == op;
            assert(events[i].op == op);
        }
    }
}

/// An operation with no histogram entry has no recorded durations.
proof fn lemma_durations_absent(m: Metrics, op: Seq<char>)
    requires
        m.wf(),
        !has_hist(m.hists@, op),
    ensures
        durations_of(m@, op) == Seq::<nat>::empty(),
{
    if durations_of(m@, op).len() > 0 {
        lemma_durations_pos(m@, op);
        let i = choose|i: int| 0 <= i < m@.len() && m@[i].op == op;
        assert(has_hist(m.hists@, m@[i].op));
    }
    assert(durations_of(m@, op) =~= Seq::<nat>::empty());
}

/// Recording one more event raises the matching pair's count by one and
/// leaves every other pair's count unchanged.
pub proof fn lemma_count_matching_push(
    events: Seq<Event>,
    e: Event,
    op: Seq<char>,
    outcome: Seq<char>,
)
    ensures
        count_matching(events.push(e), op, outcome) == count_matching(events, op, outcome) + if e.op
            == op && e.outcome == outcome {
            1nat
        } else {
            0nat
        },
{
    assert(events.push(e).drop_last() =~= events);
    assert(events.push(e).last() == e);
}

/// Recording one more event appends its duration to its own operation's
/// durations and leaves every other operation's durations unchanged.
pub proof fn lemma_durations_push(events: Seq<Event>, e: Event, op: Seq<char>)
    ensures
        e.op == op ==> durations_of(events.push(e), op) == durations_of(events, op).push(
            e.duration_nanos,
        ),
        e.op != op ==> durations_of(events.push(e), op) == durations_of(events, op),
{
    assert(events.push(e).drop_last() =~= events);
    assert(events.push(e).last() == e);
    if e.op == op {
        assert(durations_of(events, op) + seq![e.duration_nanos] =~= durations_of(
            events,
            op,
        ).push(e.duration_nanos));
    } else {
        assert(durations_of(events, op) + Seq::<nat>::empty() =~= durations_of(events, op));
    }
}

/// One more duration adds itself to the sum.
pub proof fn lemma_sum_push(durs: Seq<nat>, d: nat)
    ensures
        sum_of(durs.push(d)) == sum_of(durs) + d,
{
    assert(durs.push(d).drop_last() =~= durs);
    assert(durs.push(d).last() == d);
}

/// One more duration raises exactly the tallies whose boundary it fits.
pub proof fn lemma_count_le_push(durs: Seq<nat>, d: nat, bound: nat)
    ensures
        count_le(durs.push(d), bound) == count_le(durs, bound) + if d <= bound {
            1nat
        } else {
            0nat
        },
{
    assert(durs.push(d).drop_last() =~= durs);
    assert(durs.push(d).last() == d);
}

/// A cumulative tally never exceeds the number of observations.
pub proof fn lemma_count_le_bounded(durs: Seq<nat>, bound: nat)
    ensures
        count_le(durs, bound) <= durs.len(),
    decreases durs.len(),
{
    if durs.len() > 0 {
        lemma_count_le_bounded(durs.drop_last(), bound);
    }
}


/// Law: a history whose every event carries one (operation, outcome) pair
/// counts to exactly its length — N recordings of a pair, however issued,
/// yield a counter of exactly N.
pub proof fn lemma_all_matching_counts(events: Seq<Event>, op: Seq<char>, outcome: Seq<char>)
    requires
        forall|i: int|
            0 <= i < events.len() ==> (#[trigger] events[i]).op == op && events[i].outcome
                == outcome,
    ensures
        count_matching(events, op, outcome) == events.len(),
    decreases events.len(),
{
    if events.len() > 0 {
        assert forall|i: int| 0 <= i < events.drop_last().len() implies (#[trigger] events.drop_last()[i]).op
            == op && events.drop_last()[i].outcome == outcome by {
            assert(events.drop_last()[i] == events[i]);
        };
        lemma_all_matching_counts(events.drop_last(), op, outcome);
    }
}

/// Law: the cumulative property. Over one operation's durations, a larger
/// bucket boundary never has a smaller tally.
pub proof fn lemma_tallies_cumulative(durs: Seq<nat>, b1: nat, b2: nat)
    requires
        b1 <= b2,
    ensures
        count_le(durs, b1) <= count_le(durs, b2),
    decreases durs.len(),
{
    if durs.len() > 0 {
        lemma_tallies_cumulative(durs.drop_last(), b1, b2);
    }
}

} // verus!

