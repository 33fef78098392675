//! Properties of the ingestion step.
use vstd::prelude::*;
use crate::ReassemblyError;
use crate::assembler::{Entry, Retention, current, step};
use crate::message::{all_filled, output_line, render_slots};

verus! {

/// Each entry has as many slots as it expects fragments.
pub open spec fn sized(t: Map<usize, Entry>) -> bool {
    forall|k: usize| #[trigger] t.contains_key(k) ==> t[k].1.len() == t[k].0
}

/// The first fragment seen for an id fixes its expected count: a later packet
/// that declares another count changes neither the slot count nor the range
/// of accepted indices.
pub proof fn law_declared_count_pinned(
    t: Map<usize, Entry>,
    retention: Retention,
    mid: usize,
    idx: usize,
    declared: usize,
    payload: Seq<char>,
)
    requires
        t.contains_key(mid),
        t[mid].1.len() == t[mid].0,
    ensures
        ({
            let (t2, r) = step(t, retention, mid, idx, declared, payload);
            &&& r is Err <==> idx >= t[mid].0
            &&& t2.contains_key(mid) ==> t2[mid].0 == t[mid].0 && t2[mid].1.len() == t[mid].1.len()
        }),
{
}

/// A message of one fragment completes on that fragment and is emitted at once.
pub proof fn law_single_fragment(
    t: Map<usize, Entry>,
    retention: Retention,
    mid: usize,
    payload: Seq<char>,
)
    requires
        !t.contains_key(mid),
    ensures
        step(t, retention, mid, 0, 1, payload).1 == Ok::<Option<Seq<char>>, ReassemblyError>(
            Some(output_line(mid, 0, 1, payload)),
        ),
{
    let s = Seq::new(1, |i: int| None::<Seq<char>>).update(0, Some(payload));
    assert(s.drop_last() =~= Seq::<Option<Seq<char>>>::empty());
    assert(all_filled(s));
    assert(s.last() == Some(payload));
    assert(render_slots(mid, 1, s.drop_last()) == Seq::<char>::empty());
    assert(render_slots(mid, 1, s) =~= output_line(mid, 0, 1, payload));
}

/// Of two fragments with the same id and index, the second one's payload is
/// the one held at that index, whether the message stays buffered or is
/// emitted by the second.
pub proof fn law_last_write_wins(
    t: Map<usize, Entry>,
    retention: Retention,
    mid: usize,
    idx: usize,
    d1: usize,
    p1: Seq<char>,
    d2: usize,
    p2: Seq<char>,
)
    requires
        sized(t),
    ensures
        ({
            let (t1, r1) = step(t, retention, mid, idx, d1, p1);
            let (t2, r2) = step(t1, retention, mid, idx, d2, p2);
            let cur = current(t1, mid, d2);
            let upd = cur.1.update(idx as int, Some(p2));
            &&& r2 is Ok ==> upd[idx as int] == Some(p2)
            &&& r2 == Ok::<Option<Seq<char>>, ReassemblyError>(None) ==> t2[mid] == (cur.0, upd)
            &&& r2 is Ok && r2 != Ok::<Option<Seq<char>>, ReassemblyError>(None) ==> r2
                == Ok::<Option<Seq<char>>, ReassemblyError>(Some(render_slots(mid, cur.0, upd)))
        }),
{
}

/// Under retention, a fragment that repeats one of a complete message emits
/// the whole message again, identical to before, and leaves the table as it was.
pub proof fn law_retained_replay(
    t: Map<usize, Entry>,
    mid: usize,
    idx: usize,
    declared: usize,
)
    requires
        t.contains_key(mid),
        t[mid].1.len() == t[mid].0,
        all_filled(t[mid].1),
        idx < t[mid].0,
    ensures
        ({
            let payload = t[mid].1[idx as int].unwrap();
            let (t2, r) = step(t, Retention::Retain, mid, idx, declared, payload);
            &&& r == Ok::<Option<Seq<char>>, ReassemblyError>(
                Some(render_slots(mid, t[mid].0, t[mid].1)),
            )
            &&& t2 == t
        }),
{
    let e = t[mid];
    let payload = e.1[idx as int].unwrap();
    assert(e.1.update(idx as int, Some(payload)) =~= e.1);
    assert(t.insert(mid, e) =~= t);
}

/// Under eviction, the step that completes a message removes it, so the next
/// fragment for its id starts a new message, as on a table that never had it.
pub proof fn law_evicted_restart(
    t: Map<usize, Entry>,
    mid: usize,
    idx: usize,
    declared: usize,
    payload: Seq<char>,
    idx2: usize,
    declared2: usize,
    payload2: Seq<char>,
)
    ensures
        ({
            let (t1, r1) = step(t, Retention::Evict, mid, idx, declared, payload);
            r1 matches Ok(Some(_)) ==> !t1.contains_key(mid) && step(
                t1,
                Retention::Evict,
                mid,
                idx2,
                declared2,
                payload2,
            ) == step(t.remove(mid), Retention::Evict, mid, idx2, declared2, payload2)
        }),
{
    let (t1, r1) = step(t, Retention::Evict, mid, idx, declared, payload);
    if r1 matches Ok(Some(_)) {
        assert(t1 =~= t.remove(mid));
    }
}

/// A packet for one id leaves the entry of every other id as it was, so
/// fragments of different messages may be interleaved in any order.
pub proof fn law_other_messages_untouched(
    t: Map<usize, Entry>,
    retention: Retention,
    mid: usize,
    idx: usize,
    declared: usize,
    payload: Seq<char>,
    other: usize,
)
    requires
        other != mid,
    ensures
        ({
            let t2 = step(t, retention, mid, idx, declared, payload).0;
            &&& t2.contains_key(other) == t.contains_key(other)
            &&& t.contains_key(other) ==> t2[other] == t[other]
        }),
{
}

} // verus!
