use vstd::prelude::*;

verus! {

/// Why one event could not be encoded.
pub struct EncodeFailure {
    pub message: String,
    pub code: String,
}

/// One event of a batch after encoding: the index of its finalizer and its
/// wire bytes, or why it could not be encoded.
pub struct EncodedEvent {
    pub finalizer: usize,
    pub encoded: Result<Vec<u8>, EncodeFailure>,
}

/// A ready-to-send payload with the finalizers of the events it carries.
pub struct Request {
    pub payload: Vec<u8>,
    pub finalizers: Vec<usize>,
    /// How many events the payload carries.
    pub events: usize,
    /// The payload's size in bytes.
    pub byte_size: usize,
}

/// Events that could not be turned into a request; they are dropped.
pub struct BuildError {
    pub message: String,
    pub code: String,
    pub dropped_events: usize,
    pub finalizers: Vec<usize>,
}

/// A built request as (finalizers, payload); a build error as
/// (dropped finalizer, message, code).
pub type BuiltView = Result<(Seq<usize>, Seq<u8>), (usize, Seq<char>, Seq<char>)>;

pub open spec fn built_view(r: Result<Request, BuildError>) -> BuiltView {
    match r {
        Ok(q) => Ok((q.finalizers@, q.payload@)),
        Err(e) => Err((e.finalizers@[0], e.message@, e.code@)),
    }
}

/// A request's counters agree with what it holds, and an error drops one event.
pub open spec fn built_consistent(r: Result<Request, BuildError>) -> bool {
    match r {
        Ok(q) => q.events == q.finalizers@.len() && q.byte_size == q.payload@.len(),
        Err(e) => e.dropped_events == 1 && e.finalizers@.len() == 1,
    }
}

/// The request open so far, if it holds any event.
pub open spec fn close_open(ids: Seq<usize>, bytes: Seq<u8>) -> Seq<BuiltView> {
    if ids.len() == 0 {
        Seq::empty()
    } else {
        seq![Ok((ids, bytes))]
    }
}

/// Requests from `items`, given the open request (`ids`, `bytes`): encoded
/// events join the open request while its payload stays within `max`
/// bytes, else they open the next one; an event that failed to encode closes
/// the open request and yields an error of its own.
pub open spec fn build_from(items: Seq<EncodedEvent>, max: nat, ids: Seq<usize>, bytes: Seq<u8>) -> Seq<
    BuiltView,
>
    decreases items.len(),
{
    if items.len() == 0 {
        close_open(ids, bytes)
    } else {
        let e = items[0];
        let rest = items.drop_first();
        match e.encoded {
            Err(f) => close_open(ids, bytes) + seq![Err((e.finalizer, f.message@, f.code@))]
                + build_from(rest, max, Seq::empty(), Seq::empty()),
            Ok(b) => if ids.len() > 0 && bytes.len() + b@.len() > max {
                close_open(ids, bytes) + build_from(rest, max, seq![e.finalizer], b@)
            } else {
                build_from(rest, max, ids.push(e.finalizer), bytes + b@)
            },
        }
    }
}

/// The requests built from one batch, in order.
pub open spec fn build_spec(items: Seq<EncodedEvent>, max: nat) -> Seq<BuiltView> {
    build_from(items, max, Seq::empty(), Seq::empty())
}

/// The finalizers that a built result accounts for.
pub open spec fn covered(r: BuiltView) -> Seq<usize> {
    match r {
        Ok((ids, _)) => ids,
        Err((id, _, _)) => seq![id],
    }
}

pub open spec fn covered_all(rs: Seq<BuiltView>) -> Seq<usize>
    decreases rs.len(),
{
    if rs.len() == 0 {
        Seq::empty()
    } else {
        covered(rs[0]) + covered_all(rs.drop_first())
    }
}

/// The finalizers of a batch's events, in order.
pub open spec fn finalizers_of(items: Seq<EncodedEvent>) -> Seq<usize> {
    items.map_values(|e: EncodedEvent| e.finalizer)
}

proof fn lemma_covered_all_append(a: Seq<BuiltView>, b: Seq<BuiltView>)
    ensures
        covered_all(a + b) == covered_all(a) + covered_all(b),
    decreases a.len(),
{
    if a.len() == 0 {
        assert(a + b =~= b);
    } else {
        assert((a + b).drop_first() =~= a.drop_first() + b);
        lemma_covered_all_append(a.drop_first(), b);
        assert(covered_all(a + b) =~= covered(a[0]) + covered_all(a.drop_first() + b));
    }
}

proof fn lemma_covered_close(ids: Seq<usize>, bytes: Seq<u8>)
    ensures
        covered_all(close_open(ids, bytes)) == ids,
{
    if ids.len() == 0 {
    } else {
        let c = close_open(ids, bytes);
        assert(c.drop_first() =~= Seq::<BuiltView>::empty());
        assert(covered_all(c.drop_first()) == Seq::<usize>::empty());
        assert(covered(c[0]) == ids);
        assert(covered_all(c) =~= ids + Seq::<usize>::empty());
    }
}

proof fn lemma_covered_build_from(items: Seq<EncodedEvent>, max: nat, ids: Seq<usize>, bytes: Seq<u8>)
    ensures
        covered_all(build_from(items, max, ids, bytes)) == ids + finalizers_of(items),
    decreases items.len(),
{
    lemma_covered_close(ids, bytes);
    if items.len() == 0 {
        assert(finalizers_of(items) =~= Seq::<usize>::empty());
        assert(ids + finalizers_of(items) =~= ids);
    } else {
        let e = items[0];
        let rest = items.drop_first();
        assert(finalizers_of(items) =~= seq![e.finalizer] + finalizers_of(rest));
        match e.encoded {
            Err(f) => {
                let err: Seq<BuiltView> = seq![Err((e.finalizer, f.message@, f.code@))];
                let tail = build_from(rest, max, Seq::empty(), Seq::empty());
                lemma_covered_build_from(rest, max, Seq::empty(), Seq::empty());
                lemma_covered_all_append(close_open(ids, bytes) + err, tail);
                lemma_covered_all_append(close_open(ids, bytes), err);
                assert(err.drop_first() =~= Seq::<BuiltView>::empty());
                assert(covered_all(err.drop_first()) == Seq::<usize>::empty());
                assert(covered(err[0]) == seq![e.finalizer]);
                assert(covered_all(err) =~= seq![e.finalizer]);
                assert(Seq::<usize>::empty() + finalizers_of(rest) =~= finalizers_of(rest));
                assert(ids + seq![e.finalizer] + finalizers_of(rest) =~= ids + finalizers_of(
                    items,
                ));
            },
            Ok(b) => {
                if ids.len() > 0 && bytes.len() + b@.len() > max {
                    lemma_covered_build_from(rest, max, seq![e.finalizer], b@);
                    lemma_covered_all_append(
                        close_open(ids, bytes),
                        build_from(rest, max, seq![e.finalizer], b@),
                    );
                    assert(ids + (seq![e.finalizer] + finalizers_of(rest)) =~= ids
                        + finalizers_of(items));
                } else {
                    lemma_covered_build_from(rest, max, ids.push(e.finalizer), bytes + b@);
                    assert(ids.push(e.finalizer) + finalizers_of(rest) =~= ids + finalizers_of(
                        items,
                    ));
                }
            },
        }
    }
}

/// Every event of a batch is accounted for exactly once, in order, whatever
/// fails to encode: the finalizers of the built requests and errors, laid end
/// to end, are the batch's finalizers.
pub proof fn lemma_build_accounts_every_event(items: Seq<EncodedEvent>, max: nat)
    ensures
        covered_all(build_spec(items, max)) == finalizers_of(items),
{
    lemma_covered_build_from(items, max, Seq::empty(), Seq::empty());
    assert(Seq::<usize>::empty() + finalizers_of(items) =~= finalizers_of(items));
}

fn append_bytes(dst: &mut Vec<u8>, src: &Vec<u8>)
    ensures
        final(dst)@ == old(dst)@ + src@,
{
    let mut i: usize = 0;
    while i < src.len()
        invariant
            i <= src@.len(),
            dst@ == old(dst)@ + src@.subrange(0, i as int),
        decreases src@.len() - i,
    {
        dst.push(src[i]);
        i = i + 1;
        proof {
            assert(src@.subrange(0, i as int) =~= src@.subrange(0, i - 1) + seq![src@[i - 1]]);
        }
    }
    proof {
        assert(src@.subrange(0, i as int) =~= src@);
    }
}

fn close_request(out: &mut Vec<Result<Request, BuildError>>, ids: &mut Vec<usize>, bytes: &mut Vec<u8>)
    ensures
        final(out)@.map_values(|r| built_view(r)) == old(out)@.map_values(|r| built_view(r))
            + close_open(old(ids)@, old(bytes)@),
        forall|k: int| 0 <= k < old(out)@.len() ==> #[trigger] final(out)@[k] == old(out)@[k],
        forall|k: int|
            old(out)@.len() <= k < final(out)@.len() ==> built_consistent(#[trigger] final(out)@[k]),
        final(ids)@ == Seq::<usize>::empty(),
        final(bytes)@ == Seq::<u8>::empty(),
{
    if ids.len() > 0 {
        let mut f: Vec<usize> = Vec::new();
        let mut p: Vec<u8> = Vec::new();
        core::mem::swap(&mut f, ids);
        core::mem::swap(&mut p, bytes);
        let events = f.len();
        let byte_size = p.len();
        let ghost before = out@;
        out.push(Ok(Request { payload: p, finalizers: f, events, byte_size }));
        proof {
            assert(out@.map_values(|r| built_view(r)) =~= before.map_values(|r| built_view(r))
                + close_open(old(ids)@, old(bytes)@));
        }
    } else {
        bytes.clear();
        proof {
            assert(out@.map_values(|r| built_view(r)) =~= old(out)@.map_values(|r| built_view(r))
                + close_open(old(ids)@, old(bytes)@));
        }
    }
}

/// Turns one encoded batch into requests whose payloads stay within
/// `max_payload` bytes (an event whose bytes exceed it alone travels alone),
/// without reordering events. Each event that failed to encode becomes an
/// error that drops that one event; the events around it still go out.
pub fn build_requests(items: &Vec<EncodedEvent>, max_payload: usize) -> (r: Vec<
    Result<Request, BuildError>,
>)
    ensures
        r@.map_values(|x| built_view(x)) == build_spec(items@, max_payload as nat),
        forall|k: int| 0 <= k < r@.len() ==> built_consistent(#[trigger] r@[k]),
{
    let mut out: Vec<Result<Request, BuildError>> = Vec::new();
    let mut ids: Vec<usize> = Vec::new();
    let mut bytes: Vec<u8> = Vec::new();
    let mut i: usize = 0;
    proof {
        assert(items@.subrange(0, items@.len() as int) =~= items@);
        assert(out@.map_values(|x| built_view(x)) =~= Seq::<BuiltView>::empty());
    }
    while i < items.len()
        invariant
            i <= items@.len(),
            out@.map_values(|x| built_view(x)) + build_from(
                items@.subrange(i as int, items@.len() as int),
                max_payload as nat,
                ids@,
                bytes@,
            ) == build_spec(items@, max_payload as nat),
            forall|k: int| 0 <= k < out@.len() ==> built_consistent(#[trigger] out@[k]),
        decreases items@.len() - i,
    {
        let ghost rest = items@.subrange(i as int, items@.len() as int);
        proof {
            assert(rest[0] == items@[i as int]);
            assert(rest.drop_first() =~= items@.subrange(i + 1, items@.len() as int));
        }
        let ghost v0 = out@.map_values(|x| built_view(x));
        let ghost ids0 = ids@;
        let ghost bytes0 = bytes@;
        let e = &items[i];
        match &e.encoded {
            Err(f) => {
                close_request(&mut out, &mut ids, &mut bytes);
                let ghost v1 = out@.map_values(|x| built_view(x));
                let mut dropped: Vec<usize> = Vec::new();
                dropped.push(e.finalizer);
                out.push(
                    Err(
                        BuildError {
                            message: f.message.clone(),
                            code: f.code.clone(),
                            dropped_events: 1,
                            finalizers: dropped,
                        },
                    ),
                );
                proof {
                    assert(out@.map_values(|x| built_view(x)) =~= v1 + seq![
                        Err((e.finalizer, f.message@, f.code@)),
                    ]);
                    assert(v0 + close_open(ids0, bytes0) + seq![
                        Err((e.finalizer, f.message@, f.code@)),
                    ] + build_from(rest.drop_first(), max_payload as nat, ids@, bytes@)
                        =~= v0 + build_from(rest, max_payload as nat, ids0, bytes0));
                }
            },
            Ok(b) => {
                if ids.len() > 0 && (bytes.len() > max_payload || b.len() > max_payload
                    - bytes.len()) {
                    close_request(&mut out, &mut ids, &mut bytes);
                    proof {
                        assert(v0 + close_open(ids0, bytes0) + build_from(
                            rest.drop_first(),
                            max_payload as nat,
                            seq![e.finalizer],
                            b@,
                        ) =~= v0 + build_from(rest, max_payload as nat, ids0, bytes0));
                    }
                }
                ids.push(e.finalizer);
                append_bytes(&mut bytes, b);
                proof {
                    if !(ids0.len() > 0 && bytes0.len() + b@.len() > max_payload) {
                        assert(ids@ == ids0.push(e.finalizer));
                    }
                }
            },
        }
        i = i + 1;
    }
    proof {
        assert(items@.subrange(i as int, items@.len() as int) =~= Seq::<EncodedEvent>::empty());
    }
    close_request(&mut out, &mut ids, &mut bytes);
    out
}

} // verus!
