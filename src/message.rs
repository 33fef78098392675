//! A message being reassembled: a fixed number of optional fragment slots.
use vstd::prelude::*;
use crate::ReassemblyError;
use crate::text::{decimal, push_decimal};

verus! {

/// The slots of a message, as text.
pub type Slots = Seq<Option<Seq<char>>>;

pub open spec fn slot_view(o: Option<Vec<char>>) -> Option<Seq<char>> {
    match o {
        Some(v) => Some(v@),
        None => None,
    }
}

/// Every slot holds a fragment.
pub open spec fn all_filled(s: Slots) -> bool {
    forall|i: int| 0 <= i < s.len() ==> (#[trigger] s[i]) is Some
}

/// One output line: id, index, count and payload, separated by spaces.
pub open spec fn output_line(id: usize, i: nat, n: usize, p: Seq<char>) -> Seq<char> {
    decimal(id as nat) + seq![' '] + decimal(i) + seq![' '] + decimal(n as nat) + seq![' '] + p
        + seq!['\n']
}

/// The output lines of a message with slots `s`, in ascending index order.
pub open spec fn render_slots(id: usize, n: usize, s: Slots) -> Seq<char>
    decreases s.len(),
{
    if s.len() == 0 {
        seq![]
    } else {
        render_slots(id, n, s.drop_last()) + output_line(
            id,
            (s.len() - 1) as nat,
            n,
            s.last().unwrap_or(seq![]),
        )
    }
}

pub struct Message {
    pub id: usize,
    pub expected_fragments: usize,
    pub fragments: Vec<Option<Vec<char>>>,
}

impl Message {
    pub open spec fn slots(&self) -> Slots {
        self.fragments@.map_values(|o: Option<Vec<char>>| slot_view(o))
    }

    /// The slot count is the expected fragment count.
    pub open spec fn wf(&self) -> bool {
        self.fragments@.len() == self.expected_fragments
    }

    /// A message with `expected_fragments` empty slots.
    pub fn new(id: usize, expected_fragments: usize) -> (r: Message)
        ensures
            r.wf(),
            r.id == id,
            r.expected_fragments == expected_fragments,
            r.slots() == Seq::new(expected_fragments as nat, |i: int| None::<Seq<char>>),
    {
        let mut fragments: Vec<Option<Vec<char>>> = Vec::new();
        let mut i: usize = 0;
        while i < expected_fragments
            invariant
                i <= expected_fragments,
                fragments@.len() == i,
                forall|k: int| 0 <= k < i ==> (#[trigger] fragments@[k]) is None,
            decreases expected_fragments - i,
        {
            fragments.push(None);
            i = i + 1;
        }
        let r = Message { id, expected_fragments, fragments };
        assert(r.slots() =~= Seq::new(expected_fragments as nat, |i: int| None::<Seq<char>>));
        r
    }

    /// Stores `fragment` at `fragment_id`, replacing what was there; an index
    /// outside the slots is refused and changes nothing.
    pub fn add_fragment(&mut self, fragment_id: usize, fragment: Vec<char>) -> (r: Result<
        (),
        ReassemblyError,
    >)
        requires
            old(self).wf(),
        ensures
            final(self).wf(),
            final(self).id == old(self).id,
            final(self).expected_fragments == old(self).expected_fragments,
            fragment_id < old(self).expected_fragments ==> r is Ok && final(self).slots()
                == old(self).slots().update(fragment_id as int, Some(fragment@)),
            fragment_id >= old(self).expected_fragments ==> r == Err::<(), ReassemblyError>(
                ReassemblyError::IndexOutOfRange {
                    message_id: old(self).id,
                    fragment_index: fragment_id,
                    expected_count: old(self).expected_fragments,
                },
            ) && *final(self) == *old(self),
    {
        if fragment_id >= self.fragments.len() {
            return Err(
                ReassemblyError::IndexOutOfRange {
                    message_id: self.id,
                    fragment_index: fragment_id,
                    expected_count: self.expected_fragments,
                },
            );
        }
        let ghost before = self.slots();
        let ghost fv = fragment@;
        self.fragments.set(fragment_id, Some(fragment));
        assert(self.slots() =~= before.update(fragment_id as int, Some(fv)));
        Ok(())
    }

    /// Whether every slot holds a fragment.
    pub fn is_complete(&self) -> (r: bool)
        requires
            self.wf(),
        ensures
            r == all_filled(self.slots()),
    {
        let mut i: usize = 0;
        while i < self.fragments.len()
            invariant
                i <= self.fragments@.len(),
                forall|k: int| 0 <= k < i ==> (#[trigger] self.slots()[k]) is Some,
            decreases self.fragments@.len() - i,
        {
            if self.fragments[i].is_none() {
                assert(self.slots()[i as int] is None);
                return false;
            }
            i = i + 1;
        }
        true
    }

    /// The output lines of a complete message, one per fragment in index order.
    pub fn render(&self) -> (r: Vec<char>)
        requires
            self.wf(),
            all_filled(self.slots()),
        ensures
            r@ == render_slots(self.id, self.expected_fragments, self.slots()),
    {
        let mut out: Vec<char> = Vec::new();
        let mut i: usize = 0;
        let ghost s = self.slots();
        while i < self.fragments.len()
            invariant
                i <= self.fragments@.len(),
                s == self.slots(),
                s.len() == self.fragments@.len(),
                all_filled(s),
                out@ == render_slots(self.id, self.expected_fragments, s.take(i as int)),
            decreases self.fragments@.len() - i,
        {
            assert(s.take(i + 1).drop_last() =~= s.take(i as int));
            assert(s[i as int] is Some);
            if let Some(p) = &self.fragments[i] {
                let ghost before = out@;
                push_decimal(&mut out, self.id);
                out.push(' ');
                push_decimal(&mut out, i);
                out.push(' ');
                push_decimal(&mut out, self.expected_fragments);
                out.push(' ');
                let ghost mid = out@;
                let mut j: usize = 0;
                while j < p.len()
                    invariant
                        j <= p@.len(),
                        out@ == mid + p@.take(j as int),
                    decreases p@.len() - j,
                {
                    out.push(p[j]);
                    assert(p@.take(j + 1) =~= p@.take(j as int).push(p@[j as int]));
                    j = j + 1;
                }
                out.push('\n');
                assert(p@.take(j as int) =~= p@);
                assert(s.take(i + 1).last() == Some(p@));
                assert(out@ =~= before + output_line(self.id, i as nat, self.expected_fragments, p@));
            }
            i = i + 1;
        }
        assert(s.take(i as int) =~= s);
        out
    }
}

} // verus!
