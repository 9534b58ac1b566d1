//! Sending statistics added up over time.

use vstd::prelude::*;

use crate::api::{StatCount, StatEntry};

verus! {

/// A count that may be missing, which then counts as zero.
pub open spec fn count(n: Option<u64>) -> nat {
    match n {
        Some(n) => n as nat,
        None => 0,
    }
}

/// What is added up.
#[derive(Debug, Clone, Copy, PartialEq, Eq, Structural)]
pub enum Metric {
    Accepted,
    Delivered,
    Failed,
    FailedPermanent,
    FailedTemporary,
    Opened,
    Clicked,
    Unsubscribed,
    Complained,
}

/// The total of a count that may be missing.
pub open spec fn total_of(stat: Option<StatCount>) -> nat {
    match stat {
        Some(stat) => count(stat.total),
        None => 0,
    }
}

/// What one interval adds.
pub open spec fn contribution(entry: StatEntry, metric: Metric) -> nat {
    match metric {
        Metric::Accepted => total_of(entry.accepted),
        Metric::Delivered => total_of(entry.delivered),
        Metric::Failed => total_of(entry.failed),
        Metric::FailedPermanent => match entry.failed {
            Some(stat) => count(stat.permanent),
            None => 0,
        },
        Metric::FailedTemporary => match entry.failed {
            Some(stat) => count(stat.temporary),
            None => 0,
        },
        Metric::Opened => total_of(entry.opened),
        Metric::Clicked => total_of(entry.clicked),
        Metric::Unsubscribed => total_of(entry.unsubscribed),
        Metric::Complained => total_of(entry.complained),
    }
}

/// The sum over all intervals.
pub open spec fn sum(entries: Seq<StatEntry>, metric: Metric) -> nat
    decreases entries.len(),
{
    if entries.len() == 0 {
        0
    } else {
        sum(entries.drop_last(), metric) + contribution(entries.last(), metric)
    }
}

/// Whether each of the sums is a number that the totals can hold.
pub open spec fn sums_fit(entries: Seq<StatEntry>) -> bool {
    forall|metric: Metric| #[trigger] sum(entries, metric) <= u64::MAX
}

/// The sums over all intervals.
#[derive(Debug)]
pub struct StatsTotals {
    pub accepted: u64,
    pub delivered: u64,
    pub failed: u64,
    pub failed_permanent: u64,
    pub failed_temporary: u64,
    pub opened: u64,
    pub clicked: u64,
    pub unsubscribed: u64,
    pub complained: u64,
}

impl StatsTotals {
    /// The total of a metric.
    pub open spec fn total(self, metric: Metric) -> u64 {
        match metric {
            Metric::Accepted => self.accepted,
            Metric::Delivered => self.delivered,
            Metric::Failed => self.failed,
            Metric::FailedPermanent => self.failed_permanent,
            Metric::FailedTemporary => self.failed_temporary,
            Metric::Opened => self.opened,
            Metric::Clicked => self.clicked,
            Metric::Unsubscribed => self.unsubscribed,
            Metric::Complained => self.complained,
        }
    }

    /// Whether these are the sums over `entries`.
    pub open spec fn are_sums(self, entries: Seq<StatEntry>) -> bool {
        forall|metric: Metric| #[trigger] sum(entries, metric) == self.total(metric)
    }
}

impl Default for StatsTotals {
    fn default() -> (r: Self)
        ensures
            forall|metric: Metric| r.total(metric) == 0,
    {
        StatsTotals {
            accepted: 0,
            delivered: 0,
            failed: 0,
            failed_permanent: 0,
            failed_temporary: 0,
            opened: 0,
            clicked: 0,
            unsubscribed: 0,
            complained: 0,
        }
    }
}

fn read_count(n: Option<u64>) -> (r: u64)
    ensures
        r as nat == count(n),
{
    match n {
        Some(n) => n,
        None => 0,
    }
}

fn read_total(stat: &Option<StatCount>) -> (r: u64)
    ensures
        r as nat == total_of(*stat),
{
    match stat {
        Some(stat) => read_count(stat.total),
        None => 0,
    }
}

impl StatsTotals {
    /// The totals with one interval more, or nothing where one of them would be too large.
    fn plus(self, entry: &StatEntry) -> (r: Option<Self>)
        ensures
            match r {
                Some(totals) => forall|metric: Metric|
                    totals.total(metric) == self.total(metric) + contribution(*entry, metric),
                None => exists|metric: Metric|
                    #[trigger] self.total(metric) + contribution(*entry, metric) > u64::MAX,
            },
    {
        let (permanent, temporary) = match &entry.failed {
            Some(stat) => (read_count(stat.permanent), read_count(stat.temporary)),
            None => (0, 0),
        };
        assert(permanent as nat == contribution(*entry, Metric::FailedPermanent));
        assert(temporary as nat == contribution(*entry, Metric::FailedTemporary));
        let accepted = match self.accepted.checked_add(read_total(&entry.accepted)) {
            Some(n) => n,
            None => {
                assert(self.total(Metric::Accepted) + contribution(*entry, Metric::Accepted)
                    > u64::MAX);
                return None;
            },
        };
        let delivered = match self.delivered.checked_add(read_total(&entry.delivered)) {
            Some(n) => n,
            None => {
                assert(self.total(Metric::Delivered) + contribution(*entry, Metric::Delivered)
                    > u64::MAX);
                return None;
            },
        };
        let failed = match self.failed.checked_add(read_total(&entry.failed)) {
            Some(n) => n,
            None => {
                assert(self.total(Metric::Failed) + contribution(*entry, Metric::Failed)
                    > u64::MAX);
                return None;
            },
        };
        let failed_permanent = match self.failed_permanent.checked_add(permanent) {
            Some(n) => n,
            None => {
                assert(self.total(Metric::FailedPermanent) + contribution(
                    *entry,
                    Metric::FailedPermanent,
                ) > u64::MAX);
                return None;
            },
        };
        let failed_temporary = match self.failed_temporary.checked_add(temporary) {
            Some(n) => n,
            None => {
                assert(self.total(Metric::FailedTemporary) + contribution(
                    *entry,
                    Metric::FailedTemporary,
                ) > u64::MAX);
                return None;
            },
        };
        let opened = match self.opened.checked_add(read_total(&entry.opened)) {
            Some(n) => n,
            None => {
                assert(self.total(Metric::Opened) + contribution(*entry, Metric::Opened)
                    > u64::MAX);
                return None;
            },
        };
        let clicked = match self.clicked.checked_add(read_total(&entry.clicked)) {
            Some(n) => n,
            None => {
                assert(self.total(Metric::Clicked) + contribution(*entry, Metric::Clicked)
                    > u64::MAX);
                return None;
            },
        };
        let unsubscribed = match self.unsubscribed.checked_add(read_total(&entry.unsubscribed)) {
            Some(n) => n,
            None => {
                assert(self.total(Metric::Unsubscribed) + contribution(*entry, Metric::Unsubscribed)
                    > u64::MAX);
                return None;
            },
        };
        let complained = match self.complained.checked_add(read_total(&entry.complained)) {
            Some(n) => n,
            None => {
                assert(self.total(Metric::Complained) + contribution(*entry, Metric::Complained)
                    > u64::MAX);
                return None;
            },
        };
        Some(
            StatsTotals {
                accepted,
                delivered,
                failed,
                failed_permanent,
                failed_temporary,
                opened,
                clicked,
                unsubscribed,
                complained,
            },
        )
    }

    /// Adds up all intervals, or gives nothing where one of the sums is too large. Missing counts
    /// are zero.
    pub fn try_from_entries(entries: &[StatEntry]) -> (r: Option<Self>)
        ensures
            r is Some <==> sums_fit(entries@),
            r is Some ==> r->0.are_sums(entries@),
            r is Some ==> {
                &&& r->0.accepted == sum(entries@, Metric::Accepted)
                &&& r->0.delivered == sum(entries@, Metric::Delivered)
                &&& r->0.failed == sum(entries@, Metric::Failed)
                &&& r->0.failed_permanent == sum(entries@, Metric::FailedPermanent)
                &&& r->0.failed_temporary == sum(entries@, Metric::FailedTemporary)
                &&& r->0.opened == sum(entries@, Metric::Opened)
                &&& r->0.clicked == sum(entries@, Metric::Clicked)
                &&& r->0.unsubscribed == sum(entries@, Metric::Unsubscribed)
                &&& r->0.complained == sum(entries@, Metric::Complained)
            },
    {
        let mut totals = StatsTotals::default();
        let mut i: usize = 0;
        while i < entries.len()
            invariant
                i <= entries@.len(),
                totals.are_sums(entries@.take(i as int)),
            decreases entries@.len() - i,
        {
            let ghost next = entries@.take(i + 1);
            assert(next.drop_last() =~= entries@.take(i as int));
            assert(next.last() == entries@[i as int]);
            match totals.plus(&entries[i]) {
                Some(more) => {
                    assert forall|metric: Metric| #[trigger] sum(next, metric) == more.total(
                        metric,
                    ) by {
                        assert(sum(entries@.take(i as int), metric) == totals.total(metric));
                    }
                    totals = more;
                },
                None => {
                    proof {
                        let metric = choose|metric: Metric|
                            #[trigger] totals.total(metric) + contribution(
                                entries@[i as int],
                                metric,
                            ) > u64::MAX;
                        assert(sum(entries@.take(i as int), metric) == totals.total(metric));
                        assert(sum(next, metric) > u64::MAX);
                        sum_grows(entries@, i + 1, metric);
                        assert(sum(entries@, metric) > u64::MAX);
                    }
                    return None;
                },
            }
            i += 1;
        }
        assert(entries@.take(entries@.len() as int) =~= entries@);
        proof {
            sums_stand_in_their_own_fields(totals, entries@);
        }
        Some(totals)
    }

    /// Adds up all intervals. Missing counts are zero.
    pub fn from_entries(entries: &[StatEntry]) -> (r: Self)
        requires
            sums_fit(entries@),
        ensures
            r.are_sums(entries@),
            r.accepted == sum(entries@, Metric::Accepted),
            r.delivered == sum(entries@, Metric::Delivered),
            r.failed == sum(entries@, Metric::Failed),
            r.failed_permanent == sum(entries@, Metric::FailedPermanent),
            r.failed_temporary == sum(entries@, Metric::FailedTemporary),
            r.opened == sum(entries@, Metric::Opened),
            r.clicked == sum(entries@, Metric::Clicked),
            r.unsubscribed == sum(entries@, Metric::Unsubscribed),
            r.complained == sum(entries@, Metric::Complained),
    {
        StatsTotals::try_from_entries(entries).unwrap()
    }
}

/// A sum never gets smaller as intervals are added.
pub proof fn sum_grows(entries: Seq<StatEntry>, n: int, metric: Metric)
    requires
        0 <= n <= entries.len(),
    ensures
        sum(entries.take(n), metric) <= sum(entries, metric),
    decreases entries.len() - n,
{
    if n == entries.len() {
        assert(entries.take(n) =~= entries);
    } else {
        sum_grows(entries, n + 1, metric);
        assert(entries.take(n + 1).drop_last() =~= entries.take(n));
    }
}

/// The sums of two spans of time together are the sums of the whole.
pub proof fn sums_are_additive(a: Seq<StatEntry>, b: Seq<StatEntry>, metric: Metric)
    ensures
        sum(a + b, metric) == sum(a, metric) + sum(b, metric),
    decreases b.len(),
{
    if b.len() == 0 {
        assert(a + b =~= a);
    } else {
        assert((a + b).drop_last() =~= a + b.drop_last());
        sums_are_additive(a, b.drop_last(), metric);
    }
}

/// A number for each interval added up over all of them.
pub open spec fn added_up(entries: Seq<StatEntry>, number: spec_fn(StatEntry) -> nat) -> nat {
    entries.fold_left(0, |total: nat, entry: StatEntry| total + number(entry))
}

proof fn lemma_added_up(entries: Seq<StatEntry>, metric: Metric, number: spec_fn(StatEntry) -> nat)
    requires
        forall|entry: StatEntry| #[trigger] contribution(entry, metric) == number(entry),
    ensures
        sum(entries, metric) == added_up(entries, number),
    decreases entries.len(),
{
    if entries.len() > 0 {
        lemma_added_up(entries.drop_last(), metric, number);
        assert(contribution(entries.last(), metric) == number(entries.last()));
    }
}

/// Each metric adds up the count of its own name over all intervals, where a missing count is
/// zero; failures are counted in all, as permanent ones and as temporary ones.
pub proof fn metrics_add_up_their_own_counts(entries: Seq<StatEntry>)
    ensures
        sum(entries, Metric::Accepted) == added_up(
            entries,
            |entry: StatEntry|
                if entry.accepted is Some && entry.accepted->0.total is Some {
                    entry.accepted->0.total->0 as nat
                } else {
                    0
                },
        ),
        sum(entries, Metric::Delivered) == added_up(
            entries,
            |entry: StatEntry|
                if entry.delivered is Some && entry.delivered->0.total is Some {
                    entry.delivered->0.total->0 as nat
                } else {
                    0
                },
        ),
        sum(entries, Metric::Failed) == added_up(
            entries,
            |entry: StatEntry|
                if entry.failed is Some && entry.failed->0.total is Some {
                    entry.failed->0.total->0 as nat
                } else {
                    0
                },
        ),
        sum(entries, Metric::FailedPermanent) == added_up(
            entries,
            |entry: StatEntry|
                if entry.failed is Some && entry.failed->0.permanent is Some {
                    entry.failed->0.permanent->0 as nat
                } else {
                    0
                },
        ),
        sum(entries, Metric::FailedTemporary) == added_up(
            entries,
            |entry: StatEntry|
                if entry.failed is Some && entry.failed->0.temporary is Some {
                    entry.failed->0.temporary->0 as nat
                } else {
                    0
                },
        ),
        sum(entries, Metric::Opened) == added_up(
            entries,
            |entry: StatEntry|
                if entry.opened is Some && entry.opened->0.total is Some {
                    entry.opened->0.total->0 as nat
                } else {
                    0
                },
        ),
        sum(entries, Metric::Clicked) == added_up(
            entries,
            |entry: StatEntry|
                if entry.clicked is Some && entry.clicked->0.total is Some {
                    entry.clicked->0.total->0 as nat
                } else {
                    0
                },
        ),
        sum(entries, Metric::Unsubscribed) == added_up(
            entries,
            |entry: StatEntry|
                if entry.unsubscribed is Some && entry.unsubscribed->0.total is Some {
                    entry.unsubscribed->0.total->0 as nat
                } else {
                    0
                },
        ),
        sum(entries, Metric::Complained) == added_up(
            entries,
            |entry: StatEntry|
                if entry.complained is Some && entry.complained->0.total is Some {
                    entry.complained->0.total->0 as nat
                } else {
                    0
                },
        ),
{
    lemma_added_up(
        entries,
        Metric::Accepted,
        |entry: StatEntry|
            if entry.accepted is Some && entry.accepted->0.total is Some {
                entry.accepted->0.total->0 as nat
            } else {
                0
            },
    );
    lemma_added_up(
        entries,
        Metric::Delivered,
        |entry: StatEntry|
            if entry.delivered is Some && entry.delivered->0.total is Some {
                entry.delivered->0.total->0 as nat
            } else {
                0
            },
    );
    lemma_added_up(
        entries,
        Metric::Failed,
        |entry: StatEntry|
            if entry.failed is Some && entry.failed->0.total is Some {
                entry.failed->0.total->0 as nat
            } else {
                0
            },
    );
    lemma_added_up(
        entries,
        Metric::FailedPermanent,
        |entry: StatEntry|
            if entry.failed is Some && entry.failed->0.permanent is Some {
                entry.failed->0.permanent->0 as nat
            } else {
                0
            },
    );
    lemma_added_up(
        entries,
        Metric::FailedTemporary,
        |entry: StatEntry|
            if entry.failed is Some && entry.failed->0.temporary is Some {
                entry.failed->0.temporary->0 as nat
            } else {
                0
            },
    );
    lemma_added_up(
        entries,
        Metric::Opened,
        |entry: StatEntry|
            if entry.opened is Some && entry.opened->0.total is Some {
                entry.opened->0.total->0 as nat
            } else {
                0
            },
    );
    lemma_added_up(
        entries,
        Metric::Clicked,
        |entry: StatEntry|
            if entry.clicked is Some && entry.clicked->0.total is Some {
                entry.clicked->0.total->0 as nat
            } else {
                0
            },
    );
    lemma_added_up(
        entries,
        Metric::Unsubscribed,
        |entry: StatEntry|
            if entry.unsubscribed is Some && entry.unsubscribed->0.total is Some {
                entry.unsubscribed->0.total->0 as nat
            } else {
                0
            },
    );
    lemma_added_up(
        entries,
        Metric::Complained,
        |entry: StatEntry|
            if entry.complained is Some && entry.complained->0.total is Some {
                entry.complained->0.total->0 as nat
            } else {
                0
            },
    );
}

/// The total of each metric is the field of its name.
pub proof fn totals_stand_in_their_own_fields(totals: StatsTotals)
    ensures
        totals.total(Metric::Accepted) == totals.accepted,
        totals.total(Metric::Delivered) == totals.delivered,
        totals.total(Metric::Failed) == totals.failed,
        totals.total(Metric::FailedPermanent) == totals.failed_permanent,
        totals.total(Metric::FailedTemporary) == totals.failed_temporary,
        totals.total(Metric::Opened) == totals.opened,
        totals.total(Metric::Clicked) == totals.clicked,
        totals.total(Metric::Unsubscribed) == totals.unsubscribed,
        totals.total(Metric::Complained) == totals.complained,
{
}

/// Totals that are the sums over all intervals hold in each field the sum of the metric of its
/// name.
pub proof fn sums_stand_in_their_own_fields(totals: StatsTotals, entries: Seq<StatEntry>)
    requires
        totals.are_sums(entries),
    ensures
        totals.accepted == sum(entries, Metric::Accepted),
        totals.delivered == sum(entries, Metric::Delivered),
        totals.failed == sum(entries, Metric::Failed),
        totals.failed_permanent == sum(entries, Metric::FailedPermanent),
        totals.failed_temporary == sum(entries, Metric::FailedTemporary),
        totals.opened == sum(entries, Metric::Opened),
        totals.clicked == sum(entries, Metric::Clicked),
        totals.unsubscribed == sum(entries, Metric::Unsubscribed),
        totals.complained == sum(entries, Metric::Complained),
{
    assert(sum(entries, Metric::Accepted) == totals.total(Metric::Accepted));
    assert(sum(entries, Metric::Delivered) == totals.total(Metric::Delivered));
    assert(sum(entries, Metric::Failed) == totals.total(Metric::Failed));
    assert(sum(entries, Metric::FailedPermanent) == totals.total(Metric::FailedPermanent));
    assert(sum(entries, Metric::FailedTemporary) == totals.total(Metric::FailedTemporary));
    assert(sum(entries, Metric::Opened) == totals.total(Metric::Opened));
    assert(sum(entries, Metric::Clicked) == totals.total(Metric::Clicked));
    assert(sum(entries, Metric::Unsubscribed) == totals.total(Metric::Unsubscribed));
    assert(sum(entries, Metric::Complained) == totals.total(Metric::Complained));
}

/// The totals can hold the sums exactly where each of the nine sums is a 64-bit number.
pub proof fn sums_fit_where_each_fits(entries: Seq<StatEntry>)
    ensures
        sums_fit(entries) <==> {
            &&& sum(entries, Metric::Accepted) <= u64::MAX
            &&& sum(entries, Metric::Delivered) <= u64::MAX
            &&& sum(entries, Metric::Failed) <= u64::MAX
            &&& sum(entries, Metric::FailedPermanent) <= u64::MAX
            &&& sum(entries, Metric::FailedTemporary) <= u64::MAX
            &&& sum(entries, Metric::Opened) <= u64::MAX
            &&& sum(entries, Metric::Clicked) <= u64::MAX
            &&& sum(entries, Metric::Unsubscribed) <= u64::MAX
            &&& sum(entries, Metric::Complained) <= u64::MAX
        },
{
    if sums_fit(entries) {
        assert(sum(entries, Metric::Accepted) <= u64::MAX);
        assert(sum(entries, Metric::Delivered) <= u64::MAX);
        assert(sum(entries, Metric::Failed) <= u64::MAX);
        assert(sum(entries, Metric::FailedPermanent) <= u64::MAX);
        assert(sum(entries, Metric::FailedTemporary) <= u64::MAX);
        assert(sum(entries, Metric::Opened) <= u64::MAX);
        assert(sum(entries, Metric::Clicked) <= u64::MAX);
        assert(sum(entries, Metric::Unsubscribed) <= u64::MAX);
        assert(sum(entries, Metric::Complained) <= u64::MAX);
    }
}

} // verus!
