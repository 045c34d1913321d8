use vstd::prelude::*;
use crate::bytes::lemma_mul_le;

verus! {

/// A piece of a transfer: the bytes `buf_start..buf_end` of the caller's
/// buffer go to or come from the bytes `sec_start..sec_end` of one sector.
#[derive(Clone, Copy, Debug, PartialEq, Eq, Structural)]
pub struct Segment {
    pub buf_start: u64,
    pub buf_end: u64,
    pub sec_start: u64,
    pub sec_end: u64,
}

/// The number of sectors a transfer of `len` bytes touches when it starts
/// `off` bytes into a sector of `s` bytes.
pub open spec fn sectors_touched(len: int, off: int, s: int) -> int {
    (len + off + s - 1) / s
}

/// How many bytes of the buffer the first sector takes: the rest of the
/// sector, or the whole buffer when it is shorter.
pub open spec fn first_len(len: int, off: int, s: int) -> int {
    if s - off > len {
        len
    } else {
        s - off
    }
}

/// Where the first sector's part ends within the sector.
pub open spec fn first_sector_end(len: int, off: int, s: int) -> int {
    if s - off > len {
        off + len
    } else {
        s
    }
}

/// Where the last sector's part starts in the buffer.
pub open spec fn last_buf_start(len: int, off: int, s: int) -> int {
    first_len(len, off, s) + ((len - first_len(len, off, s)) / s) * s
}

/// Where the transfer ends within its last sector, which is the offset it
/// leaves behind.
pub open spec fn end_offset(len: int, off: int, s: int) -> int {
    (len + off) % s
}

/// The `i`-th piece of the transfer: the first sector from the offset on, the
/// last sector up to the end offset, whole sectors between.
pub open spec fn segment(len: int, off: int, s: int, i: int) -> Segment {
    if i == 0 {
        Segment {
            buf_start: 0,
            buf_end: first_len(len, off, s) as u64,
            sec_start: off as u64,
            sec_end: first_sector_end(len, off, s) as u64,
        }
    } else if i == sectors_touched(len, off, s) - 1 {
        Segment {
            buf_start: last_buf_start(len, off, s) as u64,
            buf_end: len as u64,
            sec_start: 0,
            sec_end: end_offset(len, off, s) as u64,
        }
    } else {
        let start = first_len(len, off, s) + (i - 1) * s;
        Segment { buf_start: start as u64, buf_end: (start + s) as u64, sec_start: 0, sec_end: s as u64 }
    }
}

/// The bounds under which a transfer can be planned: a sector size that is
/// not zero, an offset within the sector, and sizes whose sum fits 32 bits.
pub open spec fn plan_bounds(len: int, off: int, s: int) -> bool {
    &&& 0 < s
    &&& 0 <= off <= s
    &&& 0 <= len
    &&& len + off + s <= u32::MAX
}

/// The pieces of a transfer of `len` bytes that starts `sector_offset` bytes
/// into a sector of `sector_size` bytes, one per sector touched, and the
/// offset within the last sector that the transfer leaves behind.  A file's
/// reads and writes move the pieces between the buffer and the sectors of
/// its chain, one sector after the other.
pub fn transfer_plan(len: u64, sector_offset: u64, sector_size: u64) -> (r: (Vec<Segment>, u64))
    requires
        plan_bounds(len as int, sector_offset as int, sector_size as int),
    ensures
        r.0@.len() == sectors_touched(len as int, sector_offset as int, sector_size as int),
        forall|i: int|
            0 <= i < r.0@.len() ==> r.0@[i] == segment(
                len as int,
                sector_offset as int,
                sector_size as int,
                i,
            ),
        r.1 == end_offset(len as int, sector_offset as int, sector_size as int),
{
    let ghost (l, o, s) = (len as int, sector_offset as int, sector_size as int);
    let sectors = (len + sector_offset + sector_size - 1) / sector_size;
    let mut left = sector_size - sector_offset;
    let mut tiny = sector_size;
    if left > len {
        left = len;
        tiny = sector_offset + left;
    }
    proof {
        let d = (len - left) as int;
        let ss = sector_size as int;
        assert((d / ss) * ss <= d) by (nonlinear_arith)
            requires
                ss > 0,
                d >= 0,
        ;
        let t = (len + sector_offset + sector_size - 1) as int;
        assert((t / ss) * ss <= t) by (nonlinear_arith)
            requires
                ss > 0,
                t >= 0,
        ;
    }
    let right_buf = left + ((len - left) / sector_size) * sector_size;
    let right_sec = (len + sector_offset) % sector_size;
    let mut out: Vec<Segment> = Vec::new();
    let mut i: u64 = 0;
    while i < sectors
        invariant
            i <= sectors,
            sectors == sectors_touched(l, o, s),
            sectors * sector_size <= len + sector_offset + sector_size - 1,
            plan_bounds(l, o, s),
            len == l,
            sector_offset == o,
            sector_size == s,
            left == first_len(l, o, s),
            tiny == first_sector_end(l, o, s),
            right_buf == last_buf_start(l, o, s),
            right_sec == end_offset(l, o, s),
            out@.len() == i,
            forall|j: int| 0 <= j < i ==> out@[j] == segment(l, o, s, j),
        decreases sectors - i,
    {
        let seg = if i == 0 {
            Segment { buf_start: 0, buf_end: left, sec_start: sector_offset, sec_end: tiny }
        } else if i == sectors - 1 {
            Segment { buf_start: right_buf, buf_end: len, sec_start: 0, sec_end: right_sec }
        } else {
            proof {
                lemma_mul_le((i - 1) as int, sector_size as int, (sectors - 2) as int, sector_size as int);
                assert((sectors - 2) * sector_size + sector_size == (sectors - 1) * sector_size)
                    by (nonlinear_arith);
                assert((sectors - 1) * sector_size + sector_size == sectors * sector_size)
                    by (nonlinear_arith);
            }
            let start = left + (i - 1) * sector_size;
            Segment { buf_start: start, buf_end: start + sector_size, sec_start: 0, sec_end: sector_size }
        };
        out.push(seg);
        i = i + 1;
    }
    (out, right_sec)
}

/// How many bytes a read of `len` bytes at `position` takes from a file of
/// `size` bytes: the read stops at the end of the file.
pub fn read_len(position: u64, len: u64, size: u64) -> (n: u64)
    requires
        position + len <= u64::MAX,
        position + len >= size ==> position <= size,
    ensures
        n == if position + len >= size {
            size - position
        } else {
            len as int
        },
{
    if position + len >= size {
        len - (position + len - size)
    } else {
        len
    }
}

/// The size that a write of `len` bytes at `position` gives a file of `size`
/// bytes: a write that reaches the file's end makes its end the new size,
/// position and length each taken in 32 bits; a write that ends before the
/// file does leaves the size alone (`None`).
pub fn size_after_write(position: u64, len: usize, size: u64) -> (r: Option<u32>)
    requires
        position + len <= u64::MAX,
        position + len >= size ==> (position as u32) + (len as u32) <= u32::MAX,
    ensures
        r == if position + len >= size {
            Some(((position as u32) + (len as u32)) as u32)
        } else {
            None::<u32>
        },
{
    if position + len as u64 >= size {
        Some(position as u32 + len as u32)
    } else {
        None
    }
}

/// The pieces of a transfer tile the buffer, one after the other, and each
/// piece is as long in the buffer as in its sector, except when the transfer
/// ends exactly at a sector boundary after more than one sector: then the
/// last piece is empty and the last sector's bytes are not moved.
pub proof fn lemma_segments_tile(len: int, off: int, s: int)
    requires
        plan_bounds(len, off, s),
        sectors_touched(len, off, s) <= 1 || end_offset(len, off, s) != 0,
    ensures
        sectors_touched(len, off, s) == 0 ==> len == 0,
        sectors_touched(len, off, s) > 0 ==> segment(len, off, s, 0).buf_start == 0,
        sectors_touched(len, off, s) > 0 ==> segment(len, off, s, sectors_touched(len, off, s) - 1).buf_end
            == len,
        forall|i: int|
            0 <= i < sectors_touched(len, off, s) - 1 ==> #[trigger] segment(len, off, s, i).buf_end
                == segment(len, off, s, i + 1).buf_start,
        forall|i: int|
            0 <= i < sectors_touched(len, off, s) ==> #[trigger] segment(len, off, s, i).buf_end
                - segment(len, off, s, i).buf_start == segment(len, off, s, i).sec_end - segment(
                len,
                off,
                s,
                i,
            ).sec_start,
{
    let n = sectors_touched(len, off, s);
    let f = first_len(len, off, s);
    let t = len + off + s - 1;
    assert(n * s <= t && t < n * s + s) by (nonlinear_arith)
        requires
            s > 0,
            n == t / s,
            t >= 0,
    ;
    if s - off > len {
        // the buffer fits in what is left of the first sector
        assert(n <= 1) by (nonlinear_arith)
            requires
                s > 0,
                n * s <= t,
                t < 2 * s - 1,
        ;
        assert(n >= 0) by (nonlinear_arith)
            requires
                s > 0,
                t >= 0,
                n == t / s,
        ;
        if n == 0 {
            assert(len == 0) by (nonlinear_arith)
                requires
                    n == 0,
                    t < n * s + s,
                    t == len + off + s - 1,
                    len >= 0,
                    off >= 0,
            ;
        }
    } else {
        // the first sector is filled to its end, whole sectors follow, then
        // a partial one
        let q = (len - f) / s;
        let r = (len - f) % s;
        assert(len - f == q * s + r && 0 <= r < s && q >= 0) by (nonlinear_arith)
            requires
                s > 0,
                len - f >= 0,
                q == (len - f) / s,
                r == (len - f) % s,
        ;
        assert(len + off == (q + 1) * s + r) by (nonlinear_arith)
            requires
                f == s - off,
                len - f == q * s + r,
        ;
        assert(end_offset(len, off, s) == r) by (nonlinear_arith)
            requires
                s > 0,
                len + off == (q + 1) * s + r,
                0 <= r < s,
        ;
        assert(last_buf_start(len, off, s) == f + q * s);
        if r == 0 {
            assert(n == q + 1) by (nonlinear_arith)
                requires
                    s > 0,
                    n * s <= t,
                    t < n * s + s,
                    t == (q + 1) * s + s - 1,
            ;
            assert(q == 0);
            assert(q * s == 0) by (nonlinear_arith)
                requires
                    q == 0,
            ;
            assert(len == f);
        } else {
            assert(n == q + 2) by (nonlinear_arith)
                requires
                    s > 0,
                    n * s <= t,
                    t < n * s + s,
                    t == (q + 1) * s + r + s - 1,
                    0 < r < s,
            ;
            assert forall|i: int| 0 <= i < n - 1 implies #[trigger] segment(len, off, s, i).buf_end
                == segment(len, off, s, i + 1).buf_start by {
                if i > 0 {
                    assert((i - 1) * s + s == i * s) by (nonlinear_arith);
                }
                if i + 1 < n - 1 {
                    assert((i + 1 - 1) * s == i * s) by (nonlinear_arith);
                }
                if i == q {
                    assert(f + (i - 1) * s + s == f + q * s) by (nonlinear_arith)
                        requires
                            i == q,
                    ;
                }
            }
            assert forall|i: int| 0 <= i < n implies #[trigger] segment(len, off, s, i).buf_end
                - segment(len, off, s, i).buf_start == segment(len, off, s, i).sec_end - segment(
                len,
                off,
                s,
                i,
            ).sec_start by {
                if 0 < i < n - 1 {
                    assert((i - 1) * s + s <= q * s) by (nonlinear_arith)
                        requires
                            i <= q,
                            s > 0,
                    ;
                }
            }
        }
    }
}

/// The bytes of the sectors that a write of `buf` touches, laid end to end
/// from the start of the first one, after piece `i` of the write is merged
/// into sector `i` as `merge_sector` does; the write starts `off` bytes into
/// the first sector, which holds `s` bytes.
pub open spec fn merged_region(region: Seq<u8>, buf: Seq<u8>, off: int, s: int) -> Seq<u8> {
    Seq::new(
        region.len(),
        |p: int|
            merged(
                region.subrange((p / s) * s, (p / s) * s + s),
                buf,
                segment(buf.len() as int, off, s, p / s),
            )[p % s],
    )
}

/// `region` with `buf` put in from byte `off` on.
pub open spec fn spliced(region: Seq<u8>, buf: Seq<u8>, off: int) -> Seq<u8> {
    Seq::new(
        region.len(),
        |p: int|
            if off <= p < off + buf.len() {
                buf[p - off]
            } else {
                region[p]
            },
    )
}

/// Merging every piece of a write into its sector puts the buffer into the
/// file at the write's position and keeps every other byte of those sectors:
/// the sectors' bytes, from the start of the first one (the write's position
/// less its sector offset), become the old bytes with `buf` at `off`.  A
/// write of more than one sector that ends at a sector boundary is left out:
/// its last piece is empty, so the buffer's last sector of bytes is not
/// stored.
pub proof fn lemma_write_bytes(region: Seq<u8>, buf: Seq<u8>, off: int, s: int)
    requires
        plan_bounds(buf.len() as int, off, s),
        sectors_touched(buf.len() as int, off, s) <= 1 || end_offset(buf.len() as int, off, s) != 0,
        region.len() == sectors_touched(buf.len() as int, off, s) * s,
    ensures
        merged_region(region, buf, off, s) == spliced(region, buf, off),
{
    let len = buf.len() as int;
    let n = sectors_touched(len, off, s);
    let t = len + off + s - 1;
    let f = first_len(len, off, s);
    lemma_segments_tile(len, off, s);
    assert(n * s <= t && t < n * s + s) by (nonlinear_arith)
        requires
            s > 0,
            n == t / s,
            t >= 0,
    ;
    assert forall|p: int| 0 <= p < region.len() implies merged_region(region, buf, off, s)[p]
        == spliced(region, buf, off)[p] by {
        let i = p / s;
        let r = p % s;
        vstd::arithmetic::div_mod::lemma_fundamental_div_mod(p, s);
        assert(p == i * s + r) by (nonlinear_arith)
            requires
                p == s * i + r,
        ;
        assert(0 <= i < n) by (nonlinear_arith)
            requires
                p == i * s + r,
                0 <= r < s,
                0 <= p < n * s,
        ;
        assert(i * s + s <= n * s) by (nonlinear_arith)
            requires
                i < n,
                s > 0,
        ;
        let sec = region.subrange(i * s, i * s + s);
        let seg = segment(len, off, s, i);
        assert(sec[r] == region[p]);
        if i == 0 {
            assert(p == r);
            if s - off <= len {
                assert(off + len >= s);
            }
        } else {
            assert(n >= 2);
            assert(s - off <= len) by (nonlinear_arith)
                requires
                    n >= 2,
                    n * s <= len + off + s - 1,
                    s > 0,
            ;
            assert(f == s - off);
            assert(p >= s) by (nonlinear_arith)
                requires
                    p == i * s + r,
                    i >= 1,
                    r >= 0,
                    s > 0,
            ;
            assert(i * s == (i - 1) * s + s) by (nonlinear_arith);
            if i == n - 1 {
                let q = (len - f) / s;
                let rr = (len - f) % s;
                vstd::arithmetic::div_mod::lemma_fundamental_div_mod(len - f, s);
                assert(len - f == q * s + rr) by (nonlinear_arith)
                    requires
                        len - f == s * q + rr,
                ;
                assert(len + off == (q + 1) * s + rr) by (nonlinear_arith)
                    requires
                        f == s - off,
                        len - f == q * s + rr,
                ;
                assert(end_offset(len, off, s) == rr) by (nonlinear_arith)
                    requires
                        s > 0,
                        len + off == (q + 1) * s + rr,
                        0 <= rr < s,
                ;
                assert(rr != 0);
                assert(n == q + 2) by (nonlinear_arith)
                    requires
                        s > 0,
                        n * s <= t,
                        t < n * s + s,
                        t == (q + 1) * s + rr + s - 1,
                        0 < rr < s,
                ;
                assert(last_buf_start(len, off, s) == f + q * s);
                assert((q + 1) * s == q * s + s) by (nonlinear_arith);
            } else {
                assert((i + 1) * s <= (n - 1) * s) by (nonlinear_arith)
                    requires
                        i + 1 <= n - 1,
                        s > 0,
                ;
                assert((n - 1) * s == n * s - s) by (nonlinear_arith);
                assert(i * s <= (n - 2) * s && (n - 2) * s + s == (n - 1) * s) by (nonlinear_arith)
                    requires
                        i <= n - 2,
                        s > 0,
                ;
            }
        }
        assert(0 <= seg.sec_start <= seg.sec_end <= s);
        assert(seg.buf_end - seg.buf_start == seg.sec_end - seg.sec_start);
        assert(seg.buf_end <= len);
        assert(seg.sec_start <= r < seg.sec_end <==> off <= p < off + len);
        assert(seg.sec_start <= r < seg.sec_end ==> seg.buf_start + r - seg.sec_start == p - off);
        let m = merged(sec, buf, seg);
        assert(m.len() == s);
        if r < seg.sec_start {
            assert(m[r] == sec[r]);
        } else if r < seg.sec_end {
            assert(m[r] == buf[seg.buf_start + r - seg.sec_start]);
        } else {
            assert(m[r] == sec[r]);
        }
        assert(merged_region(region, buf, off, s)[p] == m[r]);
    }
    assert(merged_region(region, buf, off, s) =~= spliced(region, buf, off));
}

/// How a file's sector walk must move before a transfer at its position.
#[derive(Clone, Copy, Debug, PartialEq, Eq, Structural)]
pub enum PositionAction {
    /// The walk stands on the position's sector.
    Stay,
    /// Move the walk forward by this many sectors.
    Advance(u32),
    /// Start the walk over at the file's first cluster and move forward by
    /// this many sectors.
    Restart(u32),
    /// The position lies past the end of the file, which grows: start the
    /// walk over and move to the file's last sector (`advance` sectors), set
    /// the position to the file's end, write `zero_sectors` sectors of zeros
    /// and then `tail` zero bytes, and return to the position.
    Extend { advance: u64, zero_sectors: u64, tail: u64 },
    /// The position lies past the end of the file, which may not grow.
    EndOfFile,
}

/// The sector index of a position: the position is taken in 32 bits.
pub open spec fn position_sector(position: u64, sector_size: u32) -> int {
    ((position as u32) / sector_size) as int
}

/// The offset of a position within its sector.
pub open spec fn position_offset(position: u64, sector_size: u32) -> int {
    ((position as u32) % sector_size) as int
}

/// What the walk, standing on sector `current` of a file of `size` bytes,
/// must do to reach `position`, and the offset within the sector it then
/// stands at.  Only a walk that must move forward checks the file's end:
/// past it, the file grows when `allocate` is set, and the transfer fails
/// otherwise.
pub fn position_action(position: u64, size: u64, current: u32, sector_size: u32, allocate: bool) -> (r: (
    PositionAction,
    u32,
))
    requires
        sector_size > 0,
        current < position_sector(position, sector_size) && position >= size && allocate ==> size
            > 0,
    ensures
        r.1 == position_offset(position, sector_size),
        r.0 == if current < position_sector(position, sector_size) {
            if position >= size {
                if allocate {
                    PositionAction::Extend {
                        advance: ((size - 1) / (sector_size as int)) as u64,
                        zero_sectors: ((position - size) / (sector_size as int)) as u64,
                        tail: ((position - size) % (sector_size as int)) as u64,
                    }
                } else {
                    PositionAction::EndOfFile
                }
            } else {
                PositionAction::Advance((position_sector(position, sector_size) - current) as u32)
            }
        } else if current > position_sector(position, sector_size) {
            PositionAction::Restart(position_sector(position, sector_size) as u32)
        } else {
            PositionAction::Stay
        },
{
    let sector_index = (position as u32) / sector_size;
    let sector_offset = (position as u32) % sector_size;
    let action = if current < sector_index {
        if position >= size {
            if allocate {
                let difference = position - size;
                PositionAction::Extend {
                    advance: (size - 1) / (sector_size as u64),
                    zero_sectors: difference / (sector_size as u64),
                    tail: difference % (sector_size as u64),
                }
            } else {
                PositionAction::EndOfFile
            }
        } else {
            PositionAction::Advance(sector_index - current)
        }
    } else if current > sector_index {
        PositionAction::Restart(sector_index)
    } else {
        PositionAction::Stay
    };
    (action, sector_offset)
}

/// A sector's bytes after a write piece: the sector's old bytes, with bytes
/// `sec_start..sec_end` replaced by the buffer's bytes `buf_start..buf_end`.
pub open spec fn merged(old_sector: Seq<u8>, buf: Seq<u8>, seg: Segment) -> Seq<u8> {
    old_sector.subrange(0, seg.sec_start as int) + buf.subrange(seg.buf_start as int, seg.buf_end as int)
        + old_sector.subrange(seg.sec_end as int, old_sector.len() as int)
}

/// What a write stores in a sector: its old bytes `old_sector`, with the
/// piece `seg` of `buf` put in.  A piece that covers the whole sector takes
/// nothing of the old bytes.
pub fn merge_sector(old_sector: &[u8], buf: &[u8], seg: Segment) -> (out: Vec<u8>)
    requires
        seg.buf_start <= seg.buf_end <= buf@.len(),
        seg.sec_start <= seg.sec_end <= old_sector@.len(),
        seg.buf_end - seg.buf_start == seg.sec_end - seg.sec_start,
    ensures
        out@ == merged(old_sector@, buf@, seg),
{
    let ghost want = merged(old_sector@, buf@, seg);
    let n = old_sector.len();
    let mut out: Vec<u8> = Vec::new();
    let mut i: usize = 0;
    while i < n
        invariant
            n == old_sector@.len(),
            i <= n,
            seg.buf_start <= seg.buf_end <= buf@.len(),
            seg.sec_start <= seg.sec_end <= n,
            seg.buf_end - seg.buf_start == seg.sec_end - seg.sec_start,
            want == merged(old_sector@, buf@, seg),
            want.len() == n,
            out@ == want.take(i as int),
        decreases n - i,
    {
        let b = if (i as u64) < seg.sec_start || (i as u64) >= seg.sec_end {
            old_sector[i]
        } else {
            buf[(seg.buf_start + (i as u64 - seg.sec_start)) as usize]
        };
        proof {
            if (i as u64) < seg.sec_start {
                assert(want[i as int] == old_sector@[i as int]);
            } else if (i as u64) >= seg.sec_end {
                assert(want[i as int] == old_sector@[i as int]);
            } else {
                assert(want[i as int] == buf@[seg.buf_start + (i - seg.sec_start)]);
            }
        }
        out.push(b);
        i = i + 1;
        assert(out@ =~= want.take(i as int));
    }
    assert(want.take(n as int) =~= want);
    out
}

/// A read buffer after a read piece: bytes `buf_start..buf_end` replaced by
/// the sector's bytes `sec_start..sec_end`, the rest as it was.
pub open spec fn copied(buf: Seq<u8>, data: Seq<u8>, seg: Segment) -> Seq<u8> {
    buf.subrange(0, seg.buf_start as int) + data.subrange(seg.sec_start as int, seg.sec_end as int)
        + buf.subrange(seg.buf_end as int, buf.len() as int)
}

/// Puts the piece `seg` of a sector just read, `data`, into the read buffer
/// `buf`.
pub fn copy_segment(buf: &mut [u8], data: &[u8], seg: Segment)
    requires
        seg.buf_start <= seg.buf_end <= old(buf)@.len(),
        seg.sec_start <= seg.sec_end <= data@.len(),
        seg.buf_end - seg.buf_start == seg.sec_end - seg.sec_start,
    ensures
        final(buf)@ == copied(old(buf)@, data@, seg),
{
    let buf_len = buf.len();
    let data_len = data.len();
    let n = (seg.buf_end - seg.buf_start) as usize;
    let b0 = seg.buf_start as usize;
    let s0 = seg.sec_start as usize;
    let mut i: usize = 0;
    while i < n
        invariant
            i <= n,
            n == seg.buf_end - seg.buf_start,
            b0 == seg.buf_start,
            s0 == seg.sec_start,
            b0 + n <= old(buf)@.len() == buf_len,
            s0 + n <= data@.len() == data_len,
            buf@.len() == old(buf)@.len(),
            forall|p: int|
                0 <= p < buf@.len() ==> buf@[p] == if b0 <= p < b0 + i {
                    data@[p - b0 + s0]
                } else {
                    old(buf)@[p]
                },
        decreases n - i,
    {
        buf[b0 + i] = data[s0 + i];
        i = i + 1;
    }
    assert(buf@ =~= copied(old(buf)@, data@, seg));
}

/// Where a file write stands.
#[derive(Clone, Copy, Debug, PartialEq, Eq, Structural)]
pub enum WritePhase {
    /// Nothing done yet.
    Begin,
    /// The file's new size is being stored.
    SizeUpdate,
    /// The sector walk is moving on from the current piece's sector.
    Advancing,
    /// A cluster is being added to the end of the chain.
    Allocating,
    /// The current piece's sector is being read.
    Reading,
    /// The current piece's sector is being written.
    Writing,
    /// Every piece is written.
    Finished,
    /// The chain could not be extended.
    Failed,
}

/// What the drive answered to the last action.
#[derive(Clone, Copy, Debug, PartialEq, Eq, Structural)]
pub enum WriteEvent {
    /// The action was carried out.
    Completed,
    /// The sector walk moved on (`true`) or the chain ended (`false`).
    Advanced(bool),
}

/// What to do next for a file write.  Each piece `i` has a sector: the one
/// the sector walk stands on when the piece begins.
#[derive(Clone, Copy, Debug, PartialEq, Eq, Structural)]
pub enum WriteAction {
    /// Store this size as the file's size in its directory entry.
    UpdateSize(u32),
    /// Keep the walk's sector as piece `i`'s sector, and move the walk on.
    Advance(u64),
    /// Add one cluster after the chain's last cluster, and move the walk on.
    AllocateCluster,
    /// Read piece `i`'s sector.
    ReadSector(u64),
    /// Write piece `i`'s sector: its old bytes (those read, or any for a
    /// whole sector) with the piece of the buffer put in (`merge_sector`).
    WriteSector(u64, Segment),
    /// The write is done; it answers this many bytes.
    Done(u64),
    /// The write failed.
    Fail,
}

/// A file write of `len` bytes at `position` into a file of `size` bytes,
/// `sector_offset` bytes into the sector the walk stands on, in sectors of
/// `sector_size` bytes: `count` pieces, of which `index` are done.
#[derive(Clone, Copy, Debug, PartialEq, Eq, Structural)]
pub struct WriteState {
    pub position: u64,
    pub size: u64,
    pub len: u64,
    pub sector_offset: u64,
    pub sector_size: u64,
    pub count: u64,
    pub index: u64,
    pub phase: WritePhase,
}

impl WriteState {
    /// The write is planned within bounds, its pieces counted, and, until it
    /// is finished, its end and the size it may set fit.
    pub open spec fn wf(self) -> bool {
        self.phase == WritePhase::Finished || {
            &&& plan_bounds(self.len as int, self.sector_offset as int, self.sector_size as int)
            &&& self.count == sectors_touched(
                self.len as int,
                self.sector_offset as int,
                self.sector_size as int,
            )
            &&& self.index <= self.count
            &&& (self.phase == WritePhase::Advancing || self.phase == WritePhase::Allocating
                || self.phase == WritePhase::Reading || self.phase == WritePhase::Writing)
                ==> self.index < self.count
            &&& self.position + self.len <= u64::MAX
            &&& self.position + self.len >= self.size ==> (self.position as u32) + (
            self.len as u32) <= u32::MAX
        }
    }

    /// Piece `index`'s segment.
    pub open spec fn piece(self) -> Segment {
        segment(self.len as int, self.sector_offset as int, self.sector_size as int, self.index as int)
    }

    /// A write of `len` bytes at `position` into a file of `size` bytes, the
    /// walk standing `sector_offset` bytes into a sector of `sector_size`.
    pub fn new(position: u64, size: u64, len: u64, sector_offset: u64, sector_size: u64) -> (s:
        WriteState)
        requires
            plan_bounds(len as int, sector_offset as int, sector_size as int),
            position + len <= u64::MAX,
            position + len >= size ==> (position as u32) + (len as u32) <= u32::MAX,
        ensures
            s.wf(),
            s == (WriteState {
                position,
                size,
                len,
                sector_offset,
                sector_size,
                count: sectors_touched(len as int, sector_offset as int, sector_size as int) as u64,
                index: 0,
                phase: WritePhase::Begin,
            }),
    {
        let count = (len + sector_offset + sector_size - 1) / sector_size;
        WriteState { position, size, len, sector_offset, sector_size, count, index: 0, phase: WritePhase::Begin }
    }
}

/// The size a write sets when it reaches the file's end: position and length
/// each taken in 32 bits.
pub open spec fn write_new_size(s: WriteState) -> u32 {
    ((s.position as u32) + (s.len as u32)) as u32
}

/// Going on with piece `index`'s sector: reading it first for the first and
/// the last piece, which keep some of its bytes, writing it straight away for
/// a whole sector.
pub open spec fn write_transfer(s: WriteState) -> (WriteState, WriteAction) {
    if s.index == 0 || s.index + 1 == s.count {
        (WriteState { phase: WritePhase::Reading, ..s }, WriteAction::ReadSector(s.index))
    } else {
        (WriteState { phase: WritePhase::Writing, ..s }, WriteAction::WriteSector(s.index, s.piece()))
    }
}

/// Beginning piece `index`: after the last piece the write is done, the
/// position moves past the bytes written and the walk stands at the end
/// offset; a piece before the last moves the walk on first; the last piece
/// stays on the walk's sector.
pub open spec fn write_fetch(s: WriteState) -> (WriteState, WriteAction) {
    if s.index >= s.count {
        (
            WriteState {
                phase: WritePhase::Finished,
                position: (s.position + s.len) as u64,
                sector_offset: end_offset(s.len as int, s.sector_offset as int, s.sector_size as int) as u64,
                ..s
            },
            WriteAction::Done(s.len),
        )
    } else if s.index + 1 < s.count {
        (WriteState { phase: WritePhase::Advancing, ..s }, WriteAction::Advance(s.index))
    } else {
        write_transfer(s)
    }
}

/// One step of a file write.  A write that reaches the file's end first
/// stores the new size.  Then, piece after piece: keep the walk's sector and
/// move the walk on (for all but the last piece), adding a cluster when the
/// chain ends and failing when even that gives no sector; read the sector for
/// the first and the last piece; write the sector.  An answer that does not
/// fit the action asks for the action again.
pub open spec fn write_step_spec(s: WriteState, e: WriteEvent) -> (WriteState, WriteAction) {
    match s.phase {
        WritePhase::Begin => if s.position + s.len >= s.size {
            (
                WriteState { size: write_new_size(s) as u64, phase: WritePhase::SizeUpdate, ..s },
                WriteAction::UpdateSize(write_new_size(s)),
            )
        } else {
            write_fetch(s)
        },
        WritePhase::SizeUpdate => match e {
            WriteEvent::Completed => write_fetch(s),
            WriteEvent::Advanced(_) => (s, WriteAction::UpdateSize(s.size as u32)),
        },
        WritePhase::Advancing => match e {
            WriteEvent::Advanced(true) => write_transfer(s),
            WriteEvent::Advanced(false) => (
                WriteState { phase: WritePhase::Allocating, ..s },
                WriteAction::AllocateCluster,
            ),
            WriteEvent::Completed => (s, WriteAction::Advance(s.index)),
        },
        WritePhase::Allocating => match e {
            WriteEvent::Advanced(true) => write_transfer(s),
            WriteEvent::Advanced(false) => (WriteState { phase: WritePhase::Failed, ..s }, WriteAction::Fail),
            WriteEvent::Completed => (s, WriteAction::AllocateCluster),
        },
        WritePhase::Reading => match e {
            WriteEvent::Completed => (
                WriteState { phase: WritePhase::Writing, ..s },
                WriteAction::WriteSector(s.index, s.piece()),
            ),
            WriteEvent::Advanced(_) => (s, WriteAction::ReadSector(s.index)),
        },
        WritePhase::Writing => match e {
            WriteEvent::Completed => write_fetch(
                WriteState { index: (s.index + 1) as u64, phase: WritePhase::Begin, ..s },
            ),
            WriteEvent::Advanced(_) => (s, WriteAction::WriteSector(s.index, s.piece())),
        },
        WritePhase::Finished => (s, WriteAction::Done(s.len)),
        WritePhase::Failed => (s, WriteAction::Fail),
    }
}

/// The answer a drive gives when everything succeeds: the walk moves on when
/// asked to, every other action is carried out.
pub open spec fn ok_answer(s: WriteState) -> WriteEvent {
    if s.phase == WritePhase::Advancing || s.phase == WritePhase::Allocating {
        WriteEvent::Advanced(true)
    } else {
        WriteEvent::Completed
    }
}

/// The state after `k` steps of a write whose answers all succeed.
pub open spec fn write_run(s: WriteState, k: nat) -> WriteState
    decreases k,
{
    if k == 0 {
        s
    } else {
        write_run(write_step_spec(s, ok_answer(s)).0, (k - 1) as nat)
    }
}

/// The size a write leaves the file: the size rule's value when the write
/// reaches the file's end, the old size otherwise.
pub open spec fn write_final_size(s: WriteState) -> u64 {
    if s.position + s.len >= s.size {
        write_new_size(s) as u64
    } else {
        s.size
    }
}

/// A state on the way of the successful write that starts at `s0`.
spec fn on_the_way(s0: WriteState, t: WriteState) -> bool {
    &&& t.wf()
    &&& t.position == s0.position
    &&& t.len == s0.len
    &&& t.sector_offset == s0.sector_offset
    &&& t.sector_size == s0.sector_size
    &&& t.count == s0.count
    &&& t.phase != WritePhase::Finished
    &&& t.phase != WritePhase::Failed
    &&& t.phase != WritePhase::Allocating
    &&& t.phase == WritePhase::Begin ==> t == s0
    &&& t.phase != WritePhase::Begin ==> t.size == write_final_size(s0)
}

/// Whether `f` is how the successful write that starts at `s0` ends.
pub open spec fn write_finished(s0: WriteState, f: WriteState) -> bool {
    &&& f.phase == WritePhase::Finished
    &&& f.position == s0.position + s0.len
    &&& f.size == write_final_size(s0)
    &&& f.sector_offset == end_offset(s0.len as int, s0.sector_offset as int, s0.sector_size as int)
}

spec fn rank(p: WritePhase) -> int {
    match p {
        WritePhase::Begin => 5,
        WritePhase::SizeUpdate => 4,
        WritePhase::Advancing => 3,
        WritePhase::Allocating => 3,
        WritePhase::Reading => 2,
        WritePhase::Writing => 1,
        WritePhase::Finished => 0,
        WritePhase::Failed => 0,
    }
}

proof fn lemma_write_run_from(s0: WriteState, t: WriteState)
    requires
        s0.wf(),
        s0.phase == WritePhase::Begin,
        on_the_way(s0, t),
    ensures
        exists|k: nat| write_finished(s0, #[trigger] write_run(t, k)),
    decreases (t.count - t.index) * 6 + rank(t.phase),
{
    let n = write_step_spec(t, ok_answer(t)).0;
    assert(write_run(t, 1) == write_run(n, 0));
    if n.phase == WritePhase::Finished {
        assert(write_finished(s0, write_run(t, 1)));
    } else {
        assert(on_the_way(s0, n));
        lemma_write_run_from(s0, n);
        let k = choose|k: nat| write_finished(s0, #[trigger] write_run(n, k));
        assert(write_run(t, k + 1) == write_run(n, k));
        assert(write_finished(s0, write_run(t, k + 1)));
    }
}

/// A write whose answers all succeed comes to its end: the position moves
/// past the bytes written, the size is what the size rule gives when the write
/// reaches the file's end, and the walk stands at the end offset.
pub proof fn lemma_write_finishes(s: WriteState)
    requires
        s.wf(),
        s.phase == WritePhase::Begin,
        s.index == 0,
    ensures
        exists|k: nat| write_finished(s, #[trigger] write_run(s, k)),
{
    lemma_write_run_from(s, s);
}

/// The segment of piece `index` of a well-formed write that has pieces left.
fn write_piece(s: WriteState) -> (seg: Segment)
    requires
        s.wf(),
        s.phase != WritePhase::Finished,
        s.index < s.count,
    ensures
        seg == s.piece(),
{
    let (plan, _) = transfer_plan(s.len, s.sector_offset, s.sector_size);
    plan[s.index as usize]
}

fn exec_write_transfer(s: WriteState) -> (r: (WriteState, WriteAction))
    requires
        s.wf(),
        s.phase != WritePhase::Finished,
        s.index < s.count,
    ensures
        r == write_transfer(s),
{
    if s.index == 0 || s.index + 1 == s.count {
        (WriteState { phase: WritePhase::Reading, ..s }, WriteAction::ReadSector(s.index))
    } else {
        (WriteState { phase: WritePhase::Writing, ..s }, WriteAction::WriteSector(s.index, write_piece(s)))
    }
}

fn exec_write_fetch(s: WriteState) -> (r: (WriteState, WriteAction))
    requires
        s.wf(),
        s.phase != WritePhase::Finished,
    ensures
        r == write_fetch(s),
{
    if s.index >= s.count {
        let (_, end) = transfer_plan(s.len, s.sector_offset, s.sector_size);
        (
            WriteState {
                phase: WritePhase::Finished,
                position: s.position + s.len,
                sector_offset: end,
                ..s
            },
            WriteAction::Done(s.len),
        )
    } else if s.index + 1 < s.count {
        (WriteState { phase: WritePhase::Advancing, ..s }, WriteAction::Advance(s.index))
    } else {
        exec_write_transfer(s)
    }
}

/// One step of a file write: the next state and what to do, given the
/// drive's answer to the last action.
pub fn write_step(state: WriteState, event: WriteEvent) -> (r: (WriteState, WriteAction))
    requires
        state.wf(),
    ensures
        r == write_step_spec(state, event),
        r.0.wf(),
{
    match state.phase {
        WritePhase::Begin => {
            if state.position + state.len >= state.size {
                let n = state.position as u32 + state.len as u32;
                (
                    WriteState { size: n as u64, phase: WritePhase::SizeUpdate, ..state },
                    WriteAction::UpdateSize(n),
                )
            } else {
                exec_write_fetch(state)
            }
        },
        WritePhase::SizeUpdate => match event {
            WriteEvent::Completed => exec_write_fetch(state),
            WriteEvent::Advanced(_) => (state, WriteAction::UpdateSize(state.size as u32)),
        },
        WritePhase::Advancing => match event {
            WriteEvent::Advanced(true) => exec_write_transfer(state),
            WriteEvent::Advanced(false) => (
                WriteState { phase: WritePhase::Allocating, ..state },
                WriteAction::AllocateCluster,
            ),
            WriteEvent::Completed => (state, WriteAction::Advance(state.index)),
        },
        WritePhase::Allocating => match event {
            WriteEvent::Advanced(true) => exec_write_transfer(state),
            WriteEvent::Advanced(false) => (WriteState { phase: WritePhase::Failed, ..state }, WriteAction::Fail),
            WriteEvent::Completed => (state, WriteAction::AllocateCluster),
        },
        WritePhase::Reading => match event {
            WriteEvent::Completed => (
                WriteState { phase: WritePhase::Writing, ..state },
                WriteAction::WriteSector(state.index, write_piece(state)),
            ),
            WriteEvent::Advanced(_) => (state, WriteAction::ReadSector(state.index)),
        },
        WritePhase::Writing => match event {
            WriteEvent::Completed => exec_write_fetch(
                WriteState { index: state.index + 1, phase: WritePhase::Begin, ..state },
            ),
            WriteEvent::Advanced(_) => (state, WriteAction::WriteSector(state.index, write_piece(state))),
        },
        WritePhase::Finished => (state, WriteAction::Done(state.len)),
        WritePhase::Failed => (state, WriteAction::Fail),
    }
}

} // verus!
