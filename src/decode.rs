//! Decoding of one input record into a packet.
use vstd::prelude::*;
use crate::ReassemblyError;
use crate::text::{is_ws, is_whitespace, is_digit, digit_value, decimal_value, lemma_decimal_value_prefix_le};

verus! {

/// One decoded record.
pub struct Packet {
    pub message_id: usize,
    pub fragment_index: usize,
    pub declared_fragment_count: usize,
    pub payload: Vec<char>,
}

/// Left-to-right scan of `s`: the finished words and the word in progress.
pub open spec fn scan(s: Seq<char>) -> (Seq<Seq<char>>, Seq<char>)
    decreases s.len(),
{
    if s.len() == 0 {
        (seq![], seq![])
    } else {
        let (done, cur) = scan(s.drop_last());
        let c = s.last();
        if is_ws(c) {
            if cur.len() > 0 {
                (done.push(cur), seq![])
            } else {
                (done, cur)
            }
        } else {
            (done, cur.push(c))
        }
    }
}

/// The maximal runs of non-whitespace characters of `s`, in order.
pub open spec fn words(s: Seq<char>) -> Seq<Seq<char>> {
    let (done, cur) = scan(s);
    if cur.len() > 0 {
        done.push(cur)
    } else {
        done
    }
}

/// Each word followed by one space, concatenated.
pub open spec fn join_words(ws: Seq<Seq<char>>) -> Seq<char>
    decreases ws.len(),
{
    if ws.len() == 0 {
        seq![]
    } else {
        join_words(ws.drop_last()) + ws.last() + seq![' ']
    }
}

/// A field with its leading `+`, if any, taken off.
pub open spec fn field_digits(w: Seq<char>) -> Seq<char> {
    if w.len() > 0 && w[0] == '+' {
        w.drop_first()
    } else {
        w
    }
}

/// An unsigned integer field: an optional `+`, then one or more ASCII
/// digits, whose value fits in `usize`.
pub open spec fn parse_field(w: Seq<char>) -> Option<usize> {
    let d = field_digits(w);
    if d.len() > 0 && (forall|i: int| 0 <= i < d.len() ==> is_digit(#[trigger] d[i]))
        && decimal_value(d) <= usize::MAX {
        Some(decimal_value(d) as usize)
    } else {
        None
    }
}

/// What a record decodes to: message id, fragment index, declared count and
/// payload, or `None` where the record is malformed.
pub open spec fn decode_record(line: Seq<char>) -> Option<(usize, usize, usize, Seq<char>)> {
    let ws = words(line);
    if ws.len() >= 3 {
        match (parse_field(ws[0]), parse_field(ws[1]), parse_field(ws[2])) {
            (Some(a), Some(b), Some(c)) => Some((a, b, c, join_words(ws.subrange(3, ws.len() as int)))),
            _ => None,
        }
    } else {
        None
    }
}

/// Splits `line` into its whitespace-separated words.
pub fn split_words(line: &Vec<char>) -> (r: Vec<Vec<char>>)
    ensures
        r@.len() == words(line@).len(),
        forall|k: int| 0 <= k < r@.len() ==> (#[trigger] r@[k])@ == words(line@)[k],
{
    let mut done: Vec<Vec<char>> = Vec::new();
    let mut cur: Vec<char> = Vec::new();
    let mut i: usize = 0;
    while i < line.len()
        invariant
            i <= line@.len(),
            done@.len() == scan(line@.take(i as int)).0.len(),
            forall|k: int| 0 <= k < done@.len() ==> (#[trigger] done@[k])@ == scan(line@.take(i as int)).0[k],
            cur@ == scan(line@.take(i as int)).1,
        decreases line@.len() - i,
    {
        let c = line[i];
        assert(line@.take(i + 1).drop_last() =~= line@.take(i as int));
        if is_whitespace(c) {
            if cur.len() > 0 {
                let w = cur;
                done.push(w);
                cur = Vec::new();
                assert(cur@ =~= seq![]);
            }
        } else {
            cur.push(c);
        }
        i = i + 1;
    }
    assert(line@.take(i as int) =~= line@);
    if cur.len() > 0 {
        done.push(cur);
    }
    done
}

/// Parses an unsigned integer field.
pub fn parse_usize(w: &Vec<char>) -> (r: Option<usize>)
    ensures
        r == parse_field(w@),
{
    let start: usize = if w.len() > 0 && w[0] == '+' { 1 } else { 0 };
    let ghost d = field_digits(w@);
    assert(d =~= w@.subrange(start as int, w@.len() as int));
    if start >= w.len() {
        return None;
    }
    let mut acc: usize = 0;
    let mut i: usize = start;
    while i < w.len()
        invariant
            start <= i <= w@.len(),
            d == field_digits(w@),
            d =~= w@.subrange(start as int, w@.len() as int),
            acc == decimal_value(d.take(i - start)),
            forall|k: int| 0 <= k < i - start ==> is_digit(#[trigger] d[k]),
        decreases w@.len() - i,
    {
        let c = w[i];
        assert(d.take(i - start + 1).drop_last() =~= d.take(i - start));
        assert(d[i - start] == c);
        if !('0' <= c && c <= '9') {
            assert(!is_digit(d[i - start]));
            return None;
        }
        let dv = (c as u32 - 48) as usize;
        let next = match acc.checked_mul(10) {
            Some(m) => m.checked_add(dv),
            None => None,
        };
        match next {
            Some(v) => {
                acc = v;
            },
            None => {
                proof {
                    assert(digit_value(c) == dv);
                    assert(decimal_value(d.take(i - start + 1)) == acc * 10 + dv);
                    lemma_decimal_value_prefix_le(d, i - start + 1);
                }
                return None;
            },
        }
        i = i + 1;
    }
    assert(d.take(i - start) =~= d);
    Some(acc)
}

/// Decodes one record: three unsigned integer fields (message id, fragment
/// index, declared fragment count), then a payload made of the remaining
/// words, each followed by one space.
pub fn process_line(line: &Vec<char>) -> (r: Result<Packet, ReassemblyError>)
    ensures
        match decode_record(line@) {
            None => r == Err::<Packet, ReassemblyError>(ReassemblyError::MalformedRecord),
            Some((a, b, c, p)) => r matches Ok(pk) && pk.message_id == a && pk.fragment_index == b
                && pk.declared_fragment_count == c && pk.payload@ == p,
        },
{
    let ws = split_words(line);
    let ghost sw = words(line@);
    if ws.len() < 3 {
        return Err(ReassemblyError::MalformedRecord);
    }
    let a = parse_usize(&ws[0]);
    let b = parse_usize(&ws[1]);
    let c = parse_usize(&ws[2]);
    match (a, b, c) {
        (Some(a), Some(b), Some(c)) => {
            let mut payload: Vec<char> = Vec::new();
            let mut k: usize = 3;
            while k < ws.len()
                invariant
                    3 <= k <= ws@.len(),
                    ws@.len() == sw.len(),
                    forall|j: int| 0 <= j < ws@.len() ==> (#[trigger] ws@[j])@ == sw[j],
                    payload@ == join_words(sw.subrange(3, k as int)),
                decreases ws@.len() - k,
            {
                let w = &ws[k];
                let mut j: usize = 0;
                let ghost before = payload@;
                while j < w.len()
                    invariant
                        j <= w@.len(),
                        payload@ == before + w@.take(j as int),
                    decreases w@.len() - j,
                {
                    payload.push(w[j]);
                    assert(w@.take(j + 1) =~= w@.take(j as int).push(w@[j as int]));
                    j = j + 1;
                }
                payload.push(' ');
                assert(w@.take(j as int) =~= w@);
                assert(sw.subrange(3, k + 1).drop_last() =~= sw.subrange(3, k as int));
                assert(payload@ =~= join_words(sw.subrange(3, k + 1)));
                k = k + 1;
            }
            Ok(Packet { message_id: a, fragment_index: b, declared_fragment_count: c, payload })
        },
        _ => Err(ReassemblyError::MalformedRecord),
    }
}

} // verus!
