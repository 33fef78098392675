use packet_assembler::ReassemblyError;
use packet_assembler::assembler::{Assembler, Retention};
use packet_assembler::decode::{parse_usize, process_line, split_words, Packet};
use packet_assembler::message::Message;

fn chars(s: &str) -> Vec<char> {
    s.chars().collect()
}

fn text(v: &[char]) -> String {
    v.iter().collect()
}

fn packet(line: &str) -> Packet {
    match process_line(&chars(line)) {
        Ok(p) => p,
        Err(e) => panic!("record {:?} did not decode: {:?}", line, e),
    }
}

fn feed(a: &mut Assembler, line: &str) -> Option<String> {
    a.process_packet(packet(line)).unwrap().map(|v| text(&v))
}

#[test]
fn two_fragment_example() {
    let mut a = Assembler::new(Retention::Retain);
    assert_eq!(feed(&mut a, "1 0 2 hello"), None);
    assert_eq!(feed(&mut a, "1 1 2 world"), Some("1 0 2 hello \n1 1 2 world \n".to_string()));
}

#[test]
fn malformed_record_is_fatal() {
    assert!(matches!(process_line(&chars("abc 0 1 x")), Err(ReassemblyError::MalformedRecord)));
    assert!(matches!(process_line(&chars("1 0")), Err(ReassemblyError::MalformedRecord)));
    assert!(matches!(process_line(&chars("")), Err(ReassemblyError::MalformedRecord)));
    assert!(matches!(process_line(&chars("1 -1 2 x")), Err(ReassemblyError::MalformedRecord)));
}

#[test]
fn decode_fields_and_payload() {
    let p = packet("  7\t3  9   a  b\tc ");
    assert_eq!((p.message_id, p.fragment_index, p.declared_fragment_count), (7, 3, 9));
    assert_eq!(text(&p.payload), "a b c ");
    let q = packet("+4 0 1");
    assert_eq!(q.message_id, 4);
    assert_eq!(text(&q.payload), "");
}

#[test]
fn parse_limits() {
    assert_eq!(parse_usize(&chars("18446744073709551615")), Some(usize::MAX));
    assert_eq!(parse_usize(&chars("18446744073709551616")), None);
    assert_eq!(parse_usize(&chars("+")), None);
    assert_eq!(parse_usize(&chars("0042")), Some(42));
    assert_eq!(parse_usize(&chars("4a")), None);
}

#[test]
fn split_on_unicode_whitespace() {
    let w = split_words(&chars("a\u{3000}bc\u{A0}\u{A0}d"));
    let w: Vec<String> = w.iter().map(|x| text(x)).collect();
    assert_eq!(w, vec!["a", "bc", "d"]);
}

#[test]
fn single_fragment_completes_at_once() {
    let mut a = Assembler::new(Retention::Evict);
    assert_eq!(feed(&mut a, "5 0 1 solo"), Some("5 0 1 solo \n".to_string()));
    assert!(!a.contains(5));
}

#[test]
fn interleaved_messages_assemble_independently() {
    let mut a = Assembler::new(Retention::Evict);
    assert_eq!(feed(&mut a, "2 2 3 c"), None);
    assert_eq!(feed(&mut a, "1 1 2 y"), None);
    assert_eq!(feed(&mut a, "2 0 3 a"), None);
    assert_eq!(feed(&mut a, "1 0 2 x"), Some("1 0 2 x \n1 1 2 y \n".to_string()));
    assert_eq!(feed(&mut a, "2 1 3 b"), Some("2 0 3 a \n2 1 3 b \n2 2 3 c \n".to_string()));

    let mut b = Assembler::new(Retention::Evict);
    assert_eq!(feed(&mut b, "2 1 3 b"), None);
    assert_eq!(feed(&mut b, "2 0 3 a"), None);
    assert_eq!(feed(&mut b, "1 0 2 x"), None);
    assert_eq!(feed(&mut b, "2 2 3 c"), Some("2 0 3 a \n2 1 3 b \n2 2 3 c \n".to_string()));
    assert_eq!(feed(&mut b, "1 1 2 y"), Some("1 0 2 x \n1 1 2 y \n".to_string()));
}

#[test]
fn duplicate_index_overwrites() {
    let mut a = Assembler::new(Retention::Retain);
    assert_eq!(feed(&mut a, "3 0 2 first"), None);
    assert_eq!(feed(&mut a, "3 0 2 second"), None);
    assert_eq!(feed(&mut a, "3 1 2 end"), Some("3 0 2 second \n3 1 2 end \n".to_string()));
}

#[test]
fn declared_count_is_pinned() {
    let mut a = Assembler::new(Retention::Retain);
    assert_eq!(feed(&mut a, "4 0 2 a"), None);
    assert_eq!(feed(&mut a, "4 1 5 b"), Some("4 0 2 a \n4 1 2 b \n".to_string()));
    let r = a.process_packet(packet("4 3 5 c"));
    assert_eq!(
        r,
        Err(ReassemblyError::IndexOutOfRange { message_id: 4, fragment_index: 3, expected_count: 2 })
    );
}

#[test]
fn retained_message_replays() {
    let mut a = Assembler::new(Retention::Retain);
    assert_eq!(feed(&mut a, "1 0 2 hello"), None);
    let first = feed(&mut a, "1 1 2 world");
    assert_eq!(feed(&mut a, "1 1 2 world"), first);
    assert!(a.contains(1));
}

#[test]
fn evicted_message_starts_over() {
    let mut a = Assembler::new(Retention::Evict);
    assert_eq!(feed(&mut a, "1 0 2 hello"), None);
    assert!(feed(&mut a, "1 1 2 world").is_some());
    assert_eq!(feed(&mut a, "1 1 2 world"), None);
    assert_eq!(feed(&mut a, "1 0 3 again"), Some("1 0 2 again \n1 1 2 world \n".to_string()));
}

#[test]
fn out_of_range_leaves_table_alone() {
    let mut a = Assembler::new(Retention::Retain);
    let r = a.process_packet(packet("9 2 2 x"));
    assert_eq!(
        r,
        Err(ReassemblyError::IndexOutOfRange { message_id: 9, fragment_index: 2, expected_count: 2 })
    );
    assert!(!a.contains(9));
    assert_eq!(a.retention(), Retention::Retain);
}

#[test]
fn message_slots_and_render() {
    let mut m = Message::new(12, 2);
    assert!(!m.is_complete());
    assert_eq!(m.add_fragment(2, chars("x ")), Err(ReassemblyError::IndexOutOfRange {
        message_id: 12,
        fragment_index: 2,
        expected_count: 2,
    }));
    assert_eq!(m.add_fragment(1, chars("b ")), Ok(()));
    assert_eq!(m.add_fragment(0, chars("a ")), Ok(()));
    assert!(m.is_complete());
    assert_eq!(text(&m.render()), "12 0 2 a \n12 1 2 b \n");
    let empty = Message::new(0, 0);
    assert!(empty.is_complete());
    assert_eq!(text(&empty.render()), "");
}
