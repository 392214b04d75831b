use vstd::prelude::*;

verus! {

/// Whether a counter reports a running total or a change.
#[derive(Clone, Copy, PartialEq, Eq, Structural, Debug)]
pub enum CounterKind {
    Absolute,
    Incremental,
}

/// A counter sample of the series `series`.
#[derive(Clone, Copy, PartialEq, Eq, Structural, Debug)]
pub struct Counter {
    pub series: u64,
    pub kind: CounterKind,
    pub value: u64,
}

/// The last total seen of `series`, if any.
pub open spec fn baseline(m: Seq<(u64, u64)>, series: u64) -> Option<u64>
    decreases m.len(),
{
    if m.len() == 0 {
        None
    } else if m.last().0 == series {
        Some(m.last().1)
    } else {
        baseline(m.drop_last(), series)
    }
}

/// The change from `prev` to `next`; a smaller total means the source
/// restarted, and the whole new total is the change.
pub open spec fn delta(prev: u64, next: u64) -> u64 {
    if next >= prev {
        (next - prev) as u64
    } else {
        next
    }
}

/// Turns absolute counters into incremental ones, keeping the last total seen
/// of each series. The first total of a series only sets its baseline and is
/// suppressed; incremental counters pass unchanged.
pub struct Normalizer {
    totals: Vec<(u64, u64)>,
}

impl Normalizer {
    /// The last total seen of each series.
    pub closed spec fn baselines(&self) -> Seq<(u64, u64)> {
        self.totals@
    }

    /// Each series is kept once.
    pub closed spec fn wf(&self) -> bool {
        forall|i: int, j: int|
            0 <= i < j < self.totals@.len() ==> (#[trigger] self.totals@[i]).0 != (#[trigger] self.totals@[j]).0
    }

    pub fn new() -> (r: Self)
        ensures
            r.wf(),
            r.baselines() == Seq::<(u64, u64)>::empty(),
    {
        Normalizer { totals: Vec::new() }
    }

    /// The normalized form of `c`, or `None` where it is suppressed.
    pub fn normalize(&mut self, c: Counter) -> (r: Option<Counter>)
        requires
            old(self).wf(),
        ensures
            final(self).wf(),
            match c.kind {
                CounterKind::Incremental => {
                    &&& r == Some(c)
                    &&& final(self).baselines() == old(self).baselines()
                },
                CounterKind::Absolute => {
                    &&& r == match baseline(old(self).baselines(), c.series) {
                        None => None,
                        Some(prev) => Some(
                            Counter {
                                series: c.series,
                                kind: CounterKind::Incremental,
                                value: delta(prev, c.value),
                            },
                        ),
                    }
                    &&& forall|s: u64| #[trigger] baseline(final(self).baselines(), s) == if s == c.series {
                        Some(c.value)
                    } else {
                        baseline(old(self).baselines(), s)
                    }
                },
            },
    {
        match c.kind {
            CounterKind::Incremental => Some(c),
            CounterKind::Absolute => {
                let ghost m = self.totals@;
                let mut i: usize = 0;
                while i < self.totals.len()
                    invariant
                        self.totals@ == m,
                        i <= m.len(),
                        forall|k: int| 0 <= k < i ==> (#[trigger] m[k]).0 != c.series,
                    ensures
                        self.totals@ == m,
                        i <= m.len(),
                        forall|k: int| 0 <= k < i ==> (#[trigger] m[k]).0 != c.series,
                        i < m.len() ==> m[i as int].0 == c.series,
                    decreases m.len() - i,
                {
                    if self.totals[i].0 == c.series {
                        break;
                    }
                    i = i + 1;
                }
                if i < self.totals.len() {
                    let prev = self.totals[i].1;
                    proof {
                        lemma_baseline_at(m, i as int, c.series);
                    }
                    self.totals.set(i, (c.series, c.value));
                    proof {
                        let m2 = self.totals@;
                        assert forall|s: u64| #[trigger] baseline(m2, s) == if s == c.series {
                            Some(c.value)
                        } else {
                            baseline(m, s)
                        } by {
                            lemma_baseline_update(m, i as int, c.series, c.value, s);
                        }
                    }
                    let value = if c.value >= prev {
                        c.value - prev
                    } else {
                        c.value
                    };
                    Some(Counter { series: c.series, kind: CounterKind::Incremental, value })
                } else {
                    proof {
                        lemma_baseline_absent(m, c.series);
                    }
                    self.totals.push((c.series, c.value));
                    proof {
                        let m2 = self.totals@;
                        assert(m2.drop_last() =~= m);
                        assert forall|s: u64| #[trigger] baseline(m2, s) == if s == c.series {
                            Some(c.value)
                        } else {
                            baseline(m, s)
                        } by {}
                        assert forall|a: int, b: int|
                            0 <= a < b < m2.len() implies (#[trigger] m2[a]).0 != (#[trigger] m2[b]).0 by {
                            if b == m.len() {
                                assert(m[a].0 != c.series);
                            }
                        }
                    }
                    None
                }
            },
        }
    }
}

proof fn lemma_baseline_absent(m: Seq<(u64, u64)>, s: u64)
    requires
        forall|k: int| 0 <= k < m.len() ==> (#[trigger] m[k]).0 != s,
    ensures
        baseline(m, s) is None,
    decreases m.len(),
{
    if m.len() > 0 {
        assert(m.last() == m[m.len() - 1]);
        assert forall|k: int| 0 <= k < m.drop_last().len() implies (#[trigger] m.drop_last()[k]).0 != s by {
            assert(m.drop_last()[k] == m[k]);
        }
        lemma_baseline_absent(m.drop_last(), s);
    }
}

proof fn lemma_baseline_at(m: Seq<(u64, u64)>, i: int, s: u64)
    requires
        0 <= i < m.len(),
        m[i].0 == s,
        forall|a: int, b: int| 0 <= a < b < m.len() ==> (#[trigger] m[a]).0 != (#[trigger] m[b]).0,
    ensures
        baseline(m, s) == Some(m[i].1),
    decreases m.len(),
{
    if i < m.len() - 1 {
        assert(m.last() == m[m.len() - 1]);
        assert(m.last().0 != s);
        let d = m.drop_last();
        assert(d[i] == m[i]);
        assert forall|a: int, b: int| 0 <= a < b < d.len() implies (#[trigger] d[a]).0 != (#[trigger] d[b]).0 by {
            assert(d[a] == m[a] && d[b] == m[b]);
        }
        lemma_baseline_at(d, i, s);
    }
}

proof fn lemma_baseline_update(m: Seq<(u64, u64)>, i: int, series: u64, v: u64, s: u64)
    requires
        0 <= i < m.len(),
        m[i].0 == series,
        forall|a: int, b: int| 0 <= a < b < m.len() ==> (#[trigger] m[a]).0 != (#[trigger] m[b]).0,
    ensures
        baseline(m.update(i, (series, v)), s) == if s == series {
            Some(v)
        } else {
            baseline(m, s)
        },
    decreases m.len(),
{
    let m2 = m.update(i, (series, v));
    if i == m.len() - 1 {
        assert(m2.drop_last() =~= m.drop_last());
        if s != series {
        } else {
        }
    } else {
        assert(m2.drop_last() =~= m.drop_last().update(i, (series, v)));
        assert(m2.last() == m.last());
        let d = m.drop_last();
        assert(d[i] == m[i]);
        assert forall|a: int, b: int| 0 <= a < b < d.len() implies (#[trigger] d[a]).0 != (#[trigger] d[b]).0 by {
            assert(d[a] == m[a] && d[b] == m[b]);
        }
        assert(m.last() == m[m.len() - 1]);
        lemma_baseline_update(d, i, series, v, s);
    }
}

} // verus!
