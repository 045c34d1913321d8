use kernel::fat_file::{copy_segment, merge_sector, write_step, WriteAction, WriteEvent, WritePhase, WriteState, size_after_write, position_action, read_len, transfer_plan, PositionAction, Segment};

fn seg(buf_start: u64, buf_end: u64, sec_start: u64, sec_end: u64) -> Segment {
    Segment { buf_start, buf_end, sec_start, sec_end }
}

#[test]
fn transfer_within_one_sector() {
    let (segs, off) = transfer_plan(10, 100, 512);
    assert_eq!(segs, vec![seg(0, 10, 100, 110)]);
    assert_eq!(off, 110);
}

#[test]
fn transfer_over_three_sectors() {
    // 1000 bytes from offset 500: 12 bytes, one whole sector, 476 bytes
    let (segs, off) = transfer_plan(1000, 500, 512);
    assert_eq!(
        segs,
        vec![seg(0, 12, 500, 512), seg(12, 524, 0, 512), seg(524, 1000, 0, 476)]
    );
    assert_eq!(off, 476);
    // the pieces tile the buffer
    for w in segs.windows(2) {
        assert_eq!(w[0].buf_end, w[1].buf_start);
    }
    for s in &segs {
        assert_eq!(s.buf_end - s.buf_start, s.sec_end - s.sec_start);
    }
}

#[test]
fn transfer_ending_on_a_sector_boundary_loses_the_last_sector() {
    // two whole sectors: the second piece comes out empty
    let (segs, off) = transfer_plan(1024, 0, 512);
    assert_eq!(segs, vec![seg(0, 512, 0, 512), seg(1024, 1024, 0, 0)]);
    assert_eq!(off, 0);
}

#[test]
fn empty_transfer_touches_no_sector() {
    let (segs, off) = transfer_plan(0, 0, 512);
    assert!(segs.is_empty());
    assert_eq!(off, 0);
    let (segs, _) = transfer_plan(0, 7, 512);
    assert_eq!(segs, vec![seg(0, 0, 7, 7)]);
}

#[test]
fn reads_stop_at_the_end_of_the_file() {
    assert_eq!(read_len(0, 100, 1000), 100);
    assert_eq!(read_len(950, 100, 1000), 50);
    assert_eq!(read_len(900, 100, 1000), 100);
    assert_eq!(read_len(1000, 10, 1000), 0);
}

#[test]
fn position_actions() {
    assert_eq!(position_action(1030, 5000, 2, 512, false), (PositionAction::Stay, 6));
    assert_eq!(position_action(3000, 5000, 2, 512, false), (PositionAction::Advance(3), 440));
    assert_eq!(position_action(10, 5000, 2, 512, false), (PositionAction::Restart(0), 10));
    assert_eq!(position_action(6000, 5000, 2, 512, false), (PositionAction::EndOfFile, 368));
    assert_eq!(
        position_action(6000, 5000, 2, 512, true),
        (PositionAction::Extend { advance: 9, zero_sectors: 1, tail: 488 }, 368)
    );
    // a walk that does not move forward never checks the end
    assert_eq!(position_action(6000, 5000, 20, 512, false), (PositionAction::Restart(11), 368));
}

#[test]
fn write_reaching_the_end_sets_the_size() {
    assert_eq!(size_after_write(10, 5, 12), Some(15));
    assert_eq!(size_after_write(10, 2, 12), Some(12));
    assert_eq!(size_after_write(0, 0, 0), Some(0));
    assert_eq!(size_after_write(3, 4, 100), None);
    assert_eq!(size_after_write(0x1_0000_0002, 3, 4), Some(5));
}

#[test]
fn merge_sector_puts_the_piece_in() {
    let old = vec![1u8; 8];
    let buf = vec![9u8, 8, 7, 6];
    let seg = Segment { buf_start: 1, buf_end: 3, sec_start: 5, sec_end: 7 };
    assert_eq!(merge_sector(&old, &buf, seg), vec![1, 1, 1, 1, 1, 8, 7, 1]);
    let whole = Segment { buf_start: 0, buf_end: 4, sec_start: 0, sec_end: 4 };
    assert_eq!(merge_sector(&[5u8; 4], &buf, whole), buf);
}

#[test]
fn write_steps_through_two_sectors_and_grows_the_file() {
    let mut s = WriteState::new(0, 0, 1000, 0, 512);
    assert_eq!(s.count, 2);
    let mut actions = Vec::new();
    let answers = [
        WriteEvent::Completed,
        WriteEvent::Completed,
        WriteEvent::Advanced(true),
        WriteEvent::Completed,
        WriteEvent::Completed,
        WriteEvent::Completed,
        WriteEvent::Completed,
    ];
    for e in answers {
        let (n, a) = write_step(s, e);
        s = n;
        actions.push(a);
    }
    assert_eq!(
        actions,
        vec![
            WriteAction::UpdateSize(1000),
            WriteAction::Advance(0),
            WriteAction::ReadSector(0),
            WriteAction::WriteSector(0, Segment { buf_start: 0, buf_end: 512, sec_start: 0, sec_end: 512 }),
            WriteAction::ReadSector(1),
            WriteAction::WriteSector(1, Segment { buf_start: 512, buf_end: 1000, sec_start: 0, sec_end: 488 }),
            WriteAction::Done(1000),
        ]
    );
    assert_eq!(s.phase, WritePhase::Finished);
    assert_eq!((s.position, s.size, s.sector_offset), (1000, 1000, 488));
}

#[test]
fn write_of_a_middle_sector_is_not_read_first() {
    let mut s = WriteState::new(100, 5000, 1100, 100, 512);
    assert_eq!(s.count, 3);
    let mut actions = Vec::new();
    for _ in 0..9 {
        let e = match s.phase {
            WritePhase::Advancing | WritePhase::Allocating => WriteEvent::Advanced(true),
            _ => WriteEvent::Completed,
        };
        let (n, a) = write_step(s, e);
        s = n;
        actions.push(a);
    }
    assert_eq!(actions[0], WriteAction::Advance(0));
    assert_eq!(actions[3], WriteAction::Advance(1));
    assert_eq!(
        actions[4],
        WriteAction::WriteSector(1, Segment { buf_start: 412, buf_end: 924, sec_start: 0, sec_end: 512 })
    );
    assert_eq!(actions[5], WriteAction::ReadSector(2));
    assert_eq!(actions[7], WriteAction::Done(1100));
    assert_eq!((s.position, s.size, s.sector_offset), (1200, 5000, 176));
}

#[test]
fn write_fails_when_the_chain_cannot_grow() {
    let s = WriteState::new(0, 4096, 1024, 0, 512);
    let (s, a) = write_step(s, WriteEvent::Completed);
    assert_eq!(a, WriteAction::Advance(0));
    let (s, a) = write_step(s, WriteEvent::Advanced(false));
    assert_eq!(a, WriteAction::AllocateCluster);
    let (s, a) = write_step(s, WriteEvent::Advanced(false));
    assert_eq!(a, WriteAction::Fail);
    assert_eq!(s.phase, WritePhase::Failed);
    assert_eq!(write_step(s, WriteEvent::Completed).1, WriteAction::Fail);
}

#[test]
fn copy_segment_puts_the_sector_piece_into_the_buffer() {
    let mut buf = [9u8; 6];
    let data = [1u8, 2, 3, 4, 5, 6, 7, 8];
    copy_segment(&mut buf, &data, Segment { buf_start: 1, buf_end: 4, sec_start: 5, sec_end: 8 });
    assert_eq!(buf, [9, 6, 7, 8, 9, 9]);
    copy_segment(&mut buf, &data, Segment { buf_start: 6, buf_end: 6, sec_start: 0, sec_end: 0 });
    assert_eq!(buf, [9, 6, 7, 8, 9, 9]);
}
