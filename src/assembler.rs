//! The reassembly engine: a table from message id to message in progress.
use vstd::prelude::*;
use std::collections::HashMap;
use crate::ReassemblyError;
use crate::decode::Packet;
use crate::message::{Message, Slots, all_filled, render_slots};

verus! {

broadcast use vstd::std_specs::hash::group_hash_axioms;

/// What happens to a message once it has been emitted.
#[derive(Debug, Clone, Copy, PartialEq, Eq, Structural)]
pub enum Retention {
    /// Keep it: any later fragment for its id emits it again.
    Retain,
    /// Remove it: a later fragment for its id starts a new message.
    Evict,
}

/// A message in the model: its expected count and its slots.
pub type Entry = (usize, Slots);

/// The message a packet for `mid` updates: the one in the table, or a new
/// one with `declared` empty slots.
pub open spec fn current(t: Map<usize, Entry>, mid: usize, declared: usize) -> Entry {
    if t.contains_key(mid) {
        t[mid]
    } else {
        (declared, Seq::new(declared as nat, |i: int| None::<Seq<char>>))
    }
}

/// One ingestion step: the new table and the result.
pub open spec fn step(
    t: Map<usize, Entry>,
    retention: Retention,
    mid: usize,
    idx: usize,
    declared: usize,
    payload: Seq<char>,
) -> (Map<usize, Entry>, Result<Option<Seq<char>>, ReassemblyError>) {
    let cur = current(t, mid, declared);
    if idx >= cur.0 {
        (
            t,
            Err(
                ReassemblyError::IndexOutOfRange {
                    message_id: mid,
                    fragment_index: idx,
                    expected_count: cur.0,
                },
            ),
        )
    } else {
        let upd: Entry = (cur.0, cur.1.update(idx as int, Some(payload)));
        if all_filled(upd.1) {
            (
                if retention == Retention::Evict {
                    t.remove(mid)
                } else {
                    t.insert(mid, upd)
                },
                Ok(Some(render_slots(mid, cur.0, upd.1))),
            )
        } else {
            (t.insert(mid, upd), Ok(None))
        }
    }
}

pub struct Assembler {
    messages: HashMap<usize, Message>,
    retention: Retention,
}

impl Assembler {
    /// The table as a map from message id to expected count and slots.
    pub closed spec fn table(&self) -> Map<usize, Entry> {
        self.messages@.map_values(|m: Message| (m.expected_fragments, m.slots()))
    }

    pub closed spec fn policy(&self) -> Retention {
        self.retention
    }

    /// Each stored message carries its key as id and as many slots as it expects.
    pub closed spec fn wf(&self) -> bool {
        forall|k: usize| #[trigger]
            self.messages@.contains_key(k) ==> self.messages@[k].wf() && self.messages@[k].id == k
    }

    /// An engine with no messages.
    pub fn new(retention: Retention) -> (r: Assembler)
        ensures
            r.wf(),
            r.table() == Map::<usize, Entry>::empty(),
            r.policy() == retention,
    {
        let r = Assembler { messages: HashMap::new(), retention };
        assert(r.table() =~= Map::<usize, Entry>::empty());
        r
    }

    pub fn retention(&self) -> (r: Retention)
        ensures
            r == self.policy(),
    {
        self.retention
    }

    /// Whether a message with id `message_id` is buffered.
    pub fn contains(&self, message_id: usize) -> (r: bool)
        ensures
            r == self.table().contains_key(message_id),
    {
        self.messages.contains_key(&message_id)
    }

    /// Consumes one packet; returns the output lines of the message it
    /// completed, if any.
    pub fn process_packet(&mut self, packet: Packet) -> (r: Result<Option<Vec<char>>, ReassemblyError>)
        requires
            old(self).wf(),
        ensures
            final(self).wf(),
            final(self).policy() == old(self).policy(),
            ({
                let (t, res) = step(
                    old(self).table(),
                    old(self).policy(),
                    packet.message_id,
                    packet.fragment_index,
                    packet.declared_fragment_count,
                    packet.payload@,
                );
                &&& final(self).table() == t
                &&& match r {
                    Ok(Some(v)) => res == Ok::<Option<Seq<char>>, ReassemblyError>(Some(v@)),
                    Ok(None) => res == Ok::<Option<Seq<char>>, ReassemblyError>(None),
                    Err(e) => res == Err::<Option<Seq<char>>, ReassemblyError>(e),
                }
            }),
    {
        let mid = packet.message_id;
        let ghost t0 = self.table();
        let ghost m0 = self.messages@;
        let ghost pv = packet.payload@;
        let existing = self.messages.remove(&mid);
        let was_present = existing.is_some();
        let mut m = match existing {
            Some(m) => m,
            None => Message::new(mid, packet.declared_fragment_count),
        };
        assert(self.messages@ =~= m0.remove(mid));
        let ghost mbefore = m;
        match m.add_fragment(packet.fragment_index, packet.payload) {
            Err(e) => {
                if was_present {
                    self.messages.insert(mid, m);
                    assert(self.messages@ =~= m0);
                } else {
                    assert(self.messages@ =~= m0);
                }
                assert(self.table() =~= t0);
                Err(e)
            },
            Ok(()) => {
                let ghost upd: Entry = (m.expected_fragments, m.slots());
                if m.is_complete() {
                    let out = m.render();
                    match self.retention {
                        Retention::Retain => {
                            self.messages.insert(mid, m);
                            assert(self.table() =~= t0.insert(mid, upd));
                        },
                        Retention::Evict => {
                            assert(self.table() =~= t0.remove(mid));
                        },
                    }
                    Ok(Some(out))
                } else {
                    self.messages.insert(mid, m);
                    assert(self.table() =~= t0.insert(mid, upd));
                    Ok(None)
                }
            },
        }
    }
}

} // verus!
