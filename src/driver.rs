use vstd::prelude::*;
use crate::connector::TcpError;
use crate::request_builder::{covered, covered_all, BuildError, BuiltView, Request};

verus! {

/// How an event's delivery ended.
#[derive(Clone, Copy, PartialEq, Eq, Structural, Debug)]
pub enum Outcome {
    Delivered,
    Dropped,
    Errored,
}

/// Where an event's finalizer stands.
#[derive(Clone, Copy, PartialEq, Eq, Structural, Debug)]
pub enum EventStatus {
    Pending,
    Resolved(Outcome),
}

/// Why a finalization was refused; nothing changed.
#[derive(Clone, Copy, PartialEq, Eq, Structural, Debug)]
pub enum FinalizeError {
    /// Some finalizer is unknown, was named twice, or was already resolved.
    NotPending,
}

/// Whether `ids` name distinct, known finalizers that are all still pending.
pub open spec fn can_resolve(st: Seq<EventStatus>, ids: Seq<usize>) -> bool {
    &&& forall|i: int| 0 <= i < ids.len() ==> #[trigger] ids[i] < st.len() && st[ids[i] as int] is Pending
    &&& ids.no_duplicates()
}

/// The statuses after resolving `ids` with `o`.
pub open spec fn resolved(st: Seq<EventStatus>, ids: Seq<usize>, o: Outcome) -> Seq<EventStatus> {
    Seq::new(
        st.len(),
        |k: int|
            if ids.contains(k as usize) {
                EventStatus::Resolved(o)
            } else {
                st[k]
            },
    )
}

/// A finalizer is resolved at most once: after a resolution that was accepted,
/// every later one that names any of the same finalizers is refused, and the
/// resolved finalizers keep the outcome they were given.
pub proof fn lemma_resolution_is_final(
    st: Seq<EventStatus>,
    ids: Seq<usize>,
    o: Outcome,
    later: Seq<usize>,
    id: usize,
)
    requires
        can_resolve(st, ids),
        ids.contains(id),
        later.contains(id),
    ensures
        resolved(st, ids, o)[id as int] == EventStatus::Resolved(o),
        !can_resolve(resolved(st, ids, o), later),
{
    let j = ids.index_of(id);
    assert(ids[j] < st.len());
    let k = later.index_of(id);
    assert(later[k] == id);
}

/// The statuses after settling each built result in turn with its outcome.
pub open spec fn settle(st: Seq<EventStatus>, rs: Seq<BuiltView>, os: Seq<Outcome>) -> Seq<EventStatus>
    decreases rs.len(),
{
    if rs.len() == 0 || os.len() == 0 {
        st
    } else {
        settle(resolved(st, covered(rs[0]), os[0]), rs.drop_first(), os.drop_first())
    }
}

/// Whether every step of `settle` is accepted.
pub open spec fn settles(st: Seq<EventStatus>, rs: Seq<BuiltView>, os: Seq<Outcome>) -> bool
    decreases rs.len(),
{
    if rs.len() == 0 || os.len() == 0 {
        true
    } else {
        can_resolve(st, covered(rs[0])) && settles(
            resolved(st, covered(rs[0]), os[0]),
            rs.drop_first(),
            os.drop_first(),
        )
    }
}

proof fn lemma_settle_keeps_resolved(
    st: Seq<EventStatus>,
    rs: Seq<BuiltView>,
    os: Seq<Outcome>,
    id: int,
)
    requires
        0 <= id < st.len(),
        st[id] is Resolved,
    ensures
        settle(st, rs, os).len() == st.len(),
        settle(st, rs, os)[id] is Resolved,
    decreases rs.len(),
{
    if rs.len() > 0 && os.len() > 0 {
        lemma_settle_keeps_resolved(resolved(st, covered(rs[0]), os[0]), rs.drop_first(), os.drop_first(), id);
    }
}

/// Settling a batch, request by request, resolves every one of its events
/// exactly once: where the batch's finalizers are distinct, known and
/// pending, each step is accepted, and afterwards every one is resolved.
pub proof fn lemma_batch_settles_every_event(st: Seq<EventStatus>, rs: Seq<BuiltView>, os: Seq<Outcome>)
    requires
        os.len() == rs.len(),
        covered_all(rs).no_duplicates(),
        forall|i: int|
            0 <= i < covered_all(rs).len() ==> #[trigger] covered_all(rs)[i] < st.len() && st[covered_all(
                rs,
            )[i] as int] is Pending,
    ensures
        settles(st, rs, os),
        settle(st, rs, os).len() == st.len(),
        forall|i: int|
            0 <= i < covered_all(rs).len() ==> (#[trigger] settle(st, rs, os)[covered_all(
                rs,
            )[i] as int]) is Resolved,
    decreases rs.len(),
{
    if rs.len() > 0 {
        let c = covered_all(rs);
        let first = covered(rs[0]);
        let rest = covered_all(rs.drop_first());
        assert(c == first + rest);
        let st1 = resolved(st, first, os[0]);
        assert forall|i: int| 0 <= i < first.len() implies #[trigger] first[i] < st.len() && st[first[i] as int] is Pending by {
            assert(c[i] == first[i]);
        }
        assert forall|a: int, b: int| 0 <= a < b < first.len() implies first[a] != first[b] by {
            assert(c[a] == first[a] && c[b] == first[b]);
        }
        assert(first.no_duplicates());
        assert(can_resolve(st, first));
        assert forall|a: int, b: int| 0 <= a < b < rest.len() implies rest[a] != rest[b] by {
            assert(c[first.len() + a] == rest[a] && c[first.len() + b] == rest[b]);
        }
        assert(rest.no_duplicates());
        assert forall|i: int| 0 <= i < rest.len() implies #[trigger] rest[i] < st1.len() && st1[rest[i] as int] is Pending by {
            assert(c[first.len() + i] == rest[i]);
            if first.contains(rest[i]) {
                let j = first.index_of(rest[i]);
                assert(c[j] == c[first.len() + i]);
            }
        }
        lemma_batch_settles_every_event(st1, rs.drop_first(), os.drop_first());
        assert forall|i: int| 0 <= i < c.len() implies (#[trigger] settle(st, rs, os)[c[i] as int]) is Resolved by {
            if i < first.len() {
                assert(c[i] == first[i]);
                assert(first.contains(first[i]));
                lemma_settle_keeps_resolved(st1, rs.drop_first(), os.drop_first(), c[i] as int);
            } else {
                assert(c[i] == rest[i - first.len()]);
            }
        }
    }
}

/// The finalizers of all events seen so far, indexed by registration order.
/// A finalizer is resolved at most once: a second resolution is refused.
pub struct FinalizerTable {
    statuses: Vec<EventStatus>,
}

impl View for FinalizerTable {
    type V = Seq<EventStatus>;

    closed spec fn view(&self) -> Seq<EventStatus> {
        self.statuses@
    }
}

impl FinalizerTable {
    pub fn new() -> (r: Self)
        ensures
            r@ == Seq::<EventStatus>::empty(),
    {
        FinalizerTable { statuses: Vec::new() }
    }

    /// Registers a new event, pending, and returns its finalizer index.
    pub fn register(&mut self) -> (id: usize)
        requires
            old(self)@.len() < usize::MAX,
        ensures
            id == old(self)@.len(),
            final(self)@ == old(self)@.push(EventStatus::Pending),
    {
        let id = self.statuses.len();
        self.statuses.push(EventStatus::Pending);
        id
    }

    /// How many events were registered.
    pub fn len(&self) -> (r: usize)
        ensures
            r == self@.len(),
    {
        self.statuses.len()
    }

    /// The status of finalizer `id`, if it is known.
    pub fn status(&self, id: usize) -> (r: Option<EventStatus>)
        ensures
            r == if id < self@.len() {
                Some(self@[id as int])
            } else {
                None::<EventStatus>
            },
    {
        if id < self.statuses.len() {
            Some(self.statuses[id])
        } else {
            None
        }
    }

    /// Resolves every finalizer in `ids` with `o`, all or none: it is refused,
    /// with nothing changed, unless they are distinct, known and pending.
    pub fn resolve(&mut self, ids: &Vec<usize>, o: Outcome) -> (r: Result<(), FinalizeError>)
        ensures
            r is Ok <==> can_resolve(old(self)@, ids@),
            r is Ok ==> final(self)@ == resolved(old(self)@, ids@, o),
            r is Err ==> final(self)@ == old(self)@,
    {
        let n = self.statuses.len();
        let mut next: Vec<EventStatus> = Vec::new();
        let mut k: usize = 0;
        while k < n
            invariant
                n == self@.len(),
                k <= n,
                next@ == self@.subrange(0, k as int),
            decreases n - k,
        {
            next.push(self.statuses[k]);
            k = k + 1;
            proof {
                assert(next@ =~= self@.subrange(0, k as int));
            }
        }
        proof {
            assert(next@ =~= self@);
        }
        let mut i: usize = 0;
        while i < ids.len()
            invariant
                n == self@.len(),
                i <= ids@.len(),
                next@ == resolved(self@, ids@.subrange(0, i as int), o),
                can_resolve(self@, ids@.subrange(0, i as int)),
            decreases ids@.len() - i,
        {
            let id = ids[i];
            let ghost prefix = ids@.subrange(0, i as int);
            let ghost prefix1 = ids@.subrange(0, i + 1);
            if id >= n {
                proof {
                    assert(!(ids@[i as int] < self@.len()));
                }
                return Err(FinalizeError::NotPending);
            }
            match next[id] {
                EventStatus::Pending => {},
                EventStatus::Resolved(_) => {
                    proof {
                        if prefix.contains(id) {
                            let j = prefix.index_of(id);
                            assert(ids@[j] == ids@[i as int]);
                        } else {
                            assert(!(self@[id as int] is Pending));
                        }
                    }
                    return Err(FinalizeError::NotPending);
                },
            }
            proof {
                assert(!prefix.contains(id));
                assert(self@[id as int] is Pending);
            }
            next.set(id, EventStatus::Resolved(o));
            i = i + 1;
            proof {
                assert(prefix1 =~= prefix.push(id));
                assert forall|x: usize| prefix1.contains(x) <==> (prefix.contains(x) || x == id) by {
                    if x == id {
                        assert(prefix1[i - 1] == id);
                    }
                    if prefix.contains(x) {
                        let j = prefix.index_of(x);
                        assert(prefix1[j] == x);
                    }
                }
                assert(next@ =~= resolved(self@, prefix1, o));
                assert(prefix1.no_duplicates());
            }
        }
        proof {
            assert(ids@.subrange(0, i as int) =~= ids@);
        }
        self.statuses = next;
        Ok(())
    }
}

/// What a finished request reports: how many events and bytes it carried and
/// whether they were delivered.
#[derive(Clone, Copy, PartialEq, Eq, Structural, Debug)]
pub struct DeliveryReport {
    pub events: usize,
    pub byte_size: usize,
    pub delivered: bool,
}

/// Settles a request once the service answered: its events are delivered
/// when the call succeeded and errored when it failed. The request is not
/// retried here; a failed write only forces a fresh connection for the next
/// request.
pub fn complete_request(table: &mut FinalizerTable, request: &Request, result: &Result<usize, TcpError>) -> (r: Result<
    DeliveryReport,
    FinalizeError,
>)
    ensures
        r is Ok <==> can_resolve(old(table)@, request.finalizers@),
        r is Ok ==> {
            &&& final(table)@ == resolved(
                old(table)@,
                request.finalizers@,
                if result is Ok {
                    Outcome::Delivered
                } else {
                    Outcome::Errored
                },
            )
            &&& r->Ok_0 == (DeliveryReport {
                events: request.events,
                byte_size: request.byte_size,
                delivered: result is Ok,
            })
        },
        r is Err ==> final(table)@ == old(table)@,
{
    let delivered = match result {
        Ok(_) => true,
        Err(_) => false,
    };
    let o = if delivered {
        Outcome::Delivered
    } else {
        Outcome::Errored
    };
    match table.resolve(&request.finalizers, o) {
        Ok(()) => Ok(DeliveryReport { events: request.events, byte_size: request.byte_size, delivered }),
        Err(e) => Err(e),
    }
}

/// Settles a build error: its events are dropped. Returns how many.
pub fn drop_failed(table: &mut FinalizerTable, error: &BuildError) -> (r: Result<usize, FinalizeError>)
    ensures
        r is Ok <==> can_resolve(old(table)@, error.finalizers@),
        r is Ok ==> final(table)@ == resolved(old(table)@, error.finalizers@, Outcome::Dropped)
            && r->Ok_0 == error.dropped_events,
        r is Err ==> final(table)@ == old(table)@,
{
    match table.resolve(&error.finalizers, Outcome::Dropped) {
        Ok(()) => Ok(error.dropped_events),
        Err(e) => Err(e),
    }
}

} // verus!
