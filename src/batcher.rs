use vstd::prelude::*;

verus! {

/// The byte size of a run of sized items.
pub open spec fn total_bytes<T>(items: Seq<(T, usize)>) -> nat
    decreases items.len(),
{
    if items.len() == 0 {
        0
    } else {
        total_bytes(items.drop_last()) + items.last().1 as nat
    }
}

/// The batches laid end to end.
pub open spec fn flatten<T>(batches: Seq<Seq<T>>) -> Seq<T>
    decreases batches.len(),
{
    if batches.len() == 0 {
        Seq::empty()
    } else {
        flatten(batches.drop_last()) + batches.last()
    }
}

/// Whether no item is larger than `max_bytes` on its own.
pub open spec fn all_fit<T>(items: Seq<(T, usize)>, max_bytes: nat) -> bool {
    forall|j: int| 0 <= j < items.len() ==> #[trigger] items[j].1 <= max_bytes
}

proof fn lemma_flatten_push<T>(batches: Seq<Seq<T>>, b: Seq<T>)
    ensures
        flatten(batches.push(b)) == flatten(batches) + b,
{
    assert(batches.push(b).drop_last() =~= batches);
}

proof fn lemma_total_push<T>(items: Seq<(T, usize)>, x: (T, usize))
    ensures
        total_bytes(items.push(x)) == total_bytes(items) + x.1,
{
    assert(items.push(x).drop_last() =~= items);
}

/// Groups a stream of sized items into batches, in arrival order. The open
/// batch closes when it reaches `max_count` items, or when the next item would
/// take it over `max_bytes` (that item then opens the next batch). An item
/// larger than `max_bytes` by itself still travels, in a batch of its own.
pub struct Batcher<T> {
    max_count: usize,
    max_bytes: usize,
    items: Vec<(T, usize)>,
    bytes: usize,
    pushed: Ghost<Seq<(T, usize)>>,
    emitted: Ghost<Seq<Seq<(T, usize)>>>,
}

impl<T> Batcher<T> {
    pub closed spec fn max_count_view(&self) -> nat {
        self.max_count as nat
    }

    pub closed spec fn max_bytes_view(&self) -> nat {
        self.max_bytes as nat
    }

    /// The items of the open batch.
    pub closed spec fn pending(&self) -> Seq<(T, usize)> {
        self.items@
    }

    /// Every item pushed so far, in order.
    pub closed spec fn pushed(&self) -> Seq<(T, usize)> {
        self.pushed@
    }

    /// Every batch closed so far, in order.
    pub closed spec fn emitted(&self) -> Seq<Seq<(T, usize)>> {
        self.emitted@
    }

    pub closed spec fn wf(&self) -> bool {
        &&& self.max_count >= 1
        &&& self.bytes == total_bytes(self.items@)
        &&& self.items@.len() < self.max_count
        &&& (self.items@.len() > 1 ==> self.bytes <= self.max_bytes)
        &&& (all_fit(self.pushed@, self.max_bytes as nat) ==> self.bytes <= self.max_bytes)
        &&& flatten(self.emitted@) + self.items@ == self.pushed@
        &&& forall|i: int|
            0 <= i < self.emitted@.len() ==> {
                &&& 1 <= (#[trigger] self.emitted@[i]).len() <= self.max_count
                &&& (all_fit(self.pushed@, self.max_bytes as nat) ==> total_bytes(self.emitted@[i])
                    <= self.max_bytes)
            }
    }

    pub fn new(max_count: usize, max_bytes: usize) -> (r: Self)
        requires
            max_count >= 1,
        ensures
            r.wf(),
            r.max_count_view() == max_count,
            r.max_bytes_view() == max_bytes,
            r.pending() == Seq::<(T, usize)>::empty(),
            r.pushed() == Seq::<(T, usize)>::empty(),
            r.emitted() == Seq::<Seq<(T, usize)>>::empty(),
    {
        let r = Batcher {
            max_count,
            max_bytes,
            items: Vec::new(),
            bytes: 0,
            pushed: Ghost(Seq::empty()),
            emitted: Ghost(Seq::empty()),
        };
        assert(flatten(r.emitted@) + r.items@ =~= r.pushed@);
        r
    }

    /// Whether the open batch is empty.
    pub fn is_empty(&self) -> (r: bool)
        ensures
            r == (self.pending().len() == 0),
    {
        self.items.len() == 0
    }

    /// Adds an item of `size` bytes, returning the batch that it closed, if any.
    pub fn push(&mut self, item: T, size: usize) -> (r: Option<Vec<(T, usize)>>)
        requires
            old(self).wf(),
        ensures
            final(self).wf(),
            final(self).max_count_view() == old(self).max_count_view(),
            final(self).max_bytes_view() == old(self).max_bytes_view(),
            final(self).pushed() == old(self).pushed().push((item, size)),
            ({
                let p = old(self).pending();
                let q = p.push((item, size));
                if p.len() > 0 && total_bytes(p) + size > old(self).max_bytes_view() {
                    &&& r is Some && r->0@ == p
                    &&& final(self).pending() == seq![(item, size)]
                } else if q.len() == old(self).max_count_view() {
                    &&& r is Some && r->0@ == q
                    &&& final(self).pending() == Seq::<(T, usize)>::empty()
                } else {
                    &&& r is None
                    &&& final(self).pending() == q
                }
            }),
            match r {
                Some(b) => final(self).emitted() == old(self).emitted().push(b@),
                None => final(self).emitted() == old(self).emitted(),
            },
    {
        let ghost old_pushed = self.pushed@;
        let ghost old_emitted = self.emitted@;
        let ghost x = (item, size);
        let ghost new_pushed = old_pushed.push(x);
        proof {
            if all_fit(new_pushed, self.max_bytes as nat) {
                assert forall|j: int| 0 <= j < old_pushed.len() implies #[trigger] old_pushed[j].1
                    <= self.max_bytes by {
                    assert(new_pushed[j] == old_pushed[j]);
                }
                assert(all_fit(old_pushed, self.max_bytes as nat));
                assert(new_pushed[old_pushed.len() as int] == x);
            }
        }
        let mut out: Option<Vec<(T, usize)>> = None;
        if self.items.len() > 0 && (size > self.max_bytes || self.bytes > self.max_bytes - size) {
            let mut closed: Vec<(T, usize)> = Vec::new();
            core::mem::swap(&mut closed, &mut self.items);
            self.bytes = 0;
            proof {
                lemma_flatten_push(old_emitted, closed@);
                self.emitted@ = old_emitted.push(closed@);
            }
            out = Some(closed);
        }
        let ghost before = self.items@;
        proof {
            lemma_total_push(before, x);
        }
        self.items.push((item, size));
        self.bytes = self.bytes + size;
        self.pushed = Ghost(new_pushed);
        if self.items.len() == self.max_count {
            let mut closed: Vec<(T, usize)> = Vec::new();
            core::mem::swap(&mut closed, &mut self.items);
            self.bytes = 0;
            proof {
                lemma_flatten_push(old_emitted, closed@);
                self.emitted@ = old_emitted.push(closed@);
            }
            out = Some(closed);
        }
        proof {
            assert(flatten(self.emitted@) + self.items@ =~= self.pushed@);
        }
        out
    }

    /// Closes the open batch, whatever its size, and returns it; the result is
    /// empty when no batch was open. Used when the flush timer fires and when
    /// the input ends.
    pub fn flush(&mut self) -> (r: Vec<(T, usize)>)
        requires
            old(self).wf(),
        ensures
            final(self).wf(),
            final(self).max_count_view() == old(self).max_count_view(),
            final(self).max_bytes_view() == old(self).max_bytes_view(),
            final(self).pushed() == old(self).pushed(),
            final(self).pending() == Seq::<(T, usize)>::empty(),
            r@ == old(self).pending(),
            if r@.len() == 0 {
                final(self).emitted() == old(self).emitted()
            } else {
                final(self).emitted() == old(self).emitted().push(r@)
            },
    {
        let mut closed: Vec<(T, usize)> = Vec::new();
        core::mem::swap(&mut closed, &mut self.items);
        self.bytes = 0;
        if closed.len() > 0 {
            proof {
                lemma_flatten_push(self.emitted@, closed@);
                self.emitted@ = self.emitted@.push(closed@);
            }
        }
        proof {
            assert(flatten(self.emitted@) + self.items@ =~= self.pushed@);
        }
        closed
    }
}

/// For any sequence of pushes and flushes where no single item exceeds the
/// byte bound: every closed batch holds between one and `max_count` items and
/// at most `max_bytes` bytes, and the closed batches followed by the open one
/// give back the pushed items in their order.
pub proof fn lemma_batches_bounded_and_ordered<T>(b: Batcher<T>)
    requires
        b.wf(),
        all_fit(b.pushed(), b.max_bytes_view()),
    ensures
        forall|i: int|
            0 <= i < b.emitted().len() ==> {
                &&& 1 <= (#[trigger] b.emitted()[i]).len() <= b.max_count_view()
                &&& total_bytes(b.emitted()[i]) <= b.max_bytes_view()
            },
        flatten(b.emitted()) + b.pending() == b.pushed(),
{
}

} // verus!
