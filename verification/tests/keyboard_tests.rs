use kernel::keyboard::{PS2KeyboardPIC8259, ScancodeOutcome, ScancodeStream, SCANCODE_QUEUE_SIZE};

#[test]
fn keyboard_device_name() {
    assert_eq!(PS2KeyboardPIC8259::device_name(), "Input/PS2KeyboardPIC8259");
}

#[test]
fn new_stream_is_empty() {
    let mut s = ScancodeStream::new();
    assert_eq!(s.poll_next(), None);
}

#[test]
fn scancodes_come_out_in_the_order_they_came_in() {
    let mut cell = Some(ScancodeStream::new());
    assert_eq!(PS2KeyboardPIC8259::add_scancode(&mut cell, 0x1e), ScancodeOutcome::Queued);
    assert_eq!(PS2KeyboardPIC8259::add_scancode(&mut cell, 0x9e), ScancodeOutcome::Queued);
    assert_eq!(PS2KeyboardPIC8259::add_scancode(&mut cell, 0x30), ScancodeOutcome::Queued);
    let s = cell.as_mut().unwrap();
    assert_eq!(s.poll_next(), Some(0x1e));
    assert_eq!(s.poll_next(), Some(0x9e));
    assert_eq!(s.poll_next(), Some(0x30));
    assert_eq!(s.poll_next(), None);
}

#[test]
fn full_stream_drops_scancodes() {
    let mut cell = Some(ScancodeStream::new());
    for i in 0..SCANCODE_QUEUE_SIZE {
        assert_eq!(PS2KeyboardPIC8259::add_scancode(&mut cell, i as u8), ScancodeOutcome::Queued);
    }
    assert_eq!(PS2KeyboardPIC8259::add_scancode(&mut cell, 0xff), ScancodeOutcome::QueueFull);
    let s = cell.as_mut().unwrap();
    for i in 0..SCANCODE_QUEUE_SIZE {
        assert_eq!(s.poll_next(), Some(i as u8));
    }
    assert_eq!(s.poll_next(), None);
}

#[test]
fn read_frees_room_in_a_full_stream() {
    let mut cell = Some(ScancodeStream::new());
    for _ in 0..SCANCODE_QUEUE_SIZE {
        PS2KeyboardPIC8259::add_scancode(&mut cell, 1);
    }
    assert_eq!(cell.as_mut().unwrap().poll_next(), Some(1));
    assert_eq!(PS2KeyboardPIC8259::add_scancode(&mut cell, 2), ScancodeOutcome::Queued);
    assert_eq!(PS2KeyboardPIC8259::add_scancode(&mut cell, 3), ScancodeOutcome::QueueFull);
}

#[test]
fn scancode_without_stream_is_dropped() {
    let mut cell: Option<ScancodeStream> = None;
    assert_eq!(PS2KeyboardPIC8259::add_scancode(&mut cell, 0x1e), ScancodeOutcome::Uninitialized);
    assert!(cell.is_none());
}
