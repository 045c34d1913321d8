use kernel::error::Error;
use kernel::ipc::{Endpoint, Message, MessageQueue};
use kernel::text::decimal_string;

fn queue(capacity: usize) -> MessageQueue {
    MessageQueue::new(String::from("inbox"), 7, Endpoint::Process(3), capacity)
}

#[test]
fn message_copies_its_bytes() {
    let m = Message::new(4, &[1, 2, 3]);
    assert_eq!(m.from, 4);
    assert_eq!(m.bytes, vec![1, 2, 3]);
}

#[test]
fn messages_come_out_in_order() {
    let mut q = queue(4);
    q.send(Message::new(1, b"first"));
    q.send(Message::new(2, b"second"));
    assert_eq!(q.available(), 2);
    let a = q.receive(7).ok().unwrap();
    assert_eq!((a.from, a.bytes), (1, b"first".to_vec()));
    let b = q.receive(7).ok().unwrap();
    assert_eq!((b.from, b.bytes), (2, b"second".to_vec()));
    assert_eq!(q.available(), 0);
}

#[test]
fn only_the_owner_receives() {
    let mut q = queue(4);
    q.send(Message::new(1, b"x"));
    assert!(matches!(q.receive(8), Err(Error::Permissions)));
    assert!(matches!(q.peek_len(8), Err(Error::Permissions)));
    assert_eq!(q.available(), 1);
}

#[test]
fn empty_queue_has_no_data() {
    let mut q = queue(2);
    assert!(matches!(q.receive(7), Err(Error::NoData)));
    assert!(matches!(q.peek_len(7), Err(Error::NoData)));
}

#[test]
fn full_queue_drops_the_oldest() {
    let mut q = queue(2);
    q.send(Message::new(1, b"a"));
    q.send(Message::new(1, b"b"));
    q.send(Message::new(1, b"c"));
    assert_eq!(q.available(), 2);
    assert_eq!(q.receive(7).ok().unwrap().bytes, b"b".to_vec());
    assert_eq!(q.receive(7).ok().unwrap().bytes, b"c".to_vec());
}

#[test]
fn peek_len_reports_the_oldest_message() {
    let mut q = queue(4);
    q.send(Message::new(1, b"hello"));
    q.send(Message::new(1, b"hi"));
    assert!(matches!(q.peek_len(7), Ok(5)));
    assert_eq!(q.available(), 2);
}

#[test]
fn read_copies_into_the_front_of_the_buffer() {
    let mut q = queue(4);
    q.write(9, b"abc").ok().unwrap();
    let mut buf = vec![0xffu8; 5];
    assert!(matches!(q.read(7, &mut buf), Ok(5)));
    assert_eq!(buf, vec![b'a', b'b', b'c', 0xff, 0xff]);
    assert_eq!(q.available(), 0);
}

#[test]
fn read_into_a_short_buffer_fails() {
    let mut q = queue(4);
    q.write(9, b"abcdef").ok().unwrap();
    let mut buf = vec![0u8; 3];
    assert!(matches!(q.read(7, &mut buf), Err(Error::BufferTooSmall)));
    assert_eq!(buf, vec![0, 0, 0]);
    assert_eq!(q.available(), 1);
}

#[test]
fn write_sends_from_the_caller() {
    let mut q = queue(4);
    assert!(matches!(q.write(9, b"xy"), Ok(2)));
    let m = q.receive(7).ok().unwrap();
    assert_eq!((m.from, m.bytes), (9, b"xy".to_vec()));
}

#[test]
fn open_state_and_path() {
    let q = queue(4);
    assert!(q.is_open(4));
    assert!(!q.is_open(3));
    let other = MessageQueue::new(String::from("log"), 12, Endpoint::Other, 1);
    assert!(!other.is_open(4));
    assert!(q.set_open_state(7, false));
    assert!(!q.set_open_state(7, true));
    assert!(!q.set_open_state(8, false));
    assert_eq!(
        q.resource_path(),
        vec![
            String::from("Processes"),
            String::from("7"),
            String::from("MessageQueues"),
            String::from("inbox"),
        ]
    );
    assert_eq!(other.resource_path()[1], "12");
}

#[test]
fn decimal_strings() {
    assert_eq!(decimal_string(0), "0");
    assert_eq!(decimal_string(42), "42");
    assert_eq!(decimal_string(4294967295), "4294967295");
}
