use std::collections::VecDeque;
use vstd::prelude::*;

use crate::timeline::{KeyColumn, TimelineStore};

verus! {

/// Nanoseconds in one second; timestamps are nanoseconds.
pub const NANOS_PER_SEC: u128 = 1_000_000_000;

/// One past press interval in pixels: how far it has scrolled past the key
/// cap since its release, and how tall its duration makes it.
#[derive(Clone, Copy, Debug, PartialEq, Eq)]
pub struct Block {
    pub offset: u128,
    pub height: u128,
}

/// `later - earlier`, or zero when the clock went backwards.
pub open spec fn elapsed(later: u64, earlier: u64) -> nat {
    if later >= earlier {
        (later - earlier) as nat
    } else {
        0
    }
}

/// A span of `d` nanoseconds at `speed` pixels per second, in whole pixels.
pub open spec fn to_px(d: nat, speed: u64) -> nat {
    ((d * speed) / (NANOS_PER_SEC as int)) as nat
}

/// The block for an interval pressed at `press` and released at `release`.
pub open spec fn block_of(release: u64, press: u64, now: u64, speed: u64) -> Block {
    Block {
        offset: to_px(elapsed(now, release), speed) as u128,
        height: to_px(elapsed(release, press), speed) as u128,
    }
}

/// The boundary times of a column, newest first: `now` stands in for the
/// release of a key that is still held.
pub open spec fn boundaries(pressed: bool, events: Seq<u64>, now: u64) -> Seq<u64> {
    if pressed {
        seq![now] + events
    } else {
        events
    }
}

/// The blocks of consecutive (release, press) pairs of `b`; an unpaired last
/// boundary is left out.
pub open spec fn intervals(b: Seq<u64>, now: u64, speed: u64) -> Seq<Block> {
    Seq::new(b.len() / 2, |i: int| block_of(b[2 * i], b[2 * i + 1], now, speed))
}

/// `shown` is the longest prefix of `all` whose blocks lie at most `height`
/// pixels past the key cap.
pub open spec fn visible_prefix(all: Seq<Block>, height: u64, shown: Seq<Block>) -> bool {
    &&& shown.len() <= all.len()
    &&& shown == all.take(shown.len() as int)
    &&& forall|j: int| 0 <= j < shown.len() ==> #[trigger] shown[j].offset <= height
    &&& shown.len() < all.len() ==> all[shown.len() as int].offset > height
}

/// No block is negative: each offset and height is the exact pixel count of
/// a clamped, non-negative span, which fits its field; a clock that went
/// backwards gives zero rather than a negative value.
pub proof fn lemma_blocks_nonnegative(b: Seq<u64>, now: u64, speed: u64)
    ensures
        forall|i: int|
            0 <= i < intervals(b, now, speed).len() ==> {
                let blk = #[trigger] intervals(b, now, speed)[i];
                &&& blk.offset as int == to_px(elapsed(now, b[2 * i]), speed)
                &&& blk.height as int == to_px(elapsed(b[2 * i], b[2 * i + 1]), speed)
                &&& blk.offset >= 0
                &&& blk.height >= 0
                &&& (now < b[2 * i] ==> blk.offset == 0)
                &&& (b[2 * i] < b[2 * i + 1] ==> blk.height == 0)
            },
{
    assert forall|i: int| 0 <= i < intervals(b, now, speed).len() implies {
        let blk = #[trigger] intervals(b, now, speed)[i];
        &&& blk.offset as int == to_px(elapsed(now, b[2 * i]), speed)
        &&& blk.height as int == to_px(elapsed(b[2 * i], b[2 * i + 1]), speed)
        &&& (now < b[2 * i] ==> blk.offset == 0)
        &&& (b[2 * i] < b[2 * i + 1] ==> blk.height == 0)
    } by {
        assert(to_px(0, speed) == 0);
        lemma_px_fits(elapsed(now, b[2 * i]), speed);
        lemma_px_fits(elapsed(b[2 * i], b[2 * i + 1]), speed);
    }
}

/// A clamped span of a `u64` clock at a `u64` speed fits in `u128` pixels.
proof fn lemma_px_fits(d: nat, speed: u64)
    requires
        d <= u64::MAX,
    ensures
        to_px(d, speed) <= u128::MAX,
{
    assert(d * speed <= u128::MAX) by (nonlinear_arith)
        requires
            d <= u64::MAX,
            speed <= u64::MAX,
    ;
}

/// An odd number of boundaries leaves the oldest one unpaired: it is
/// dropped, and one more boundary below it completes exactly one more
/// interval while keeping the others.
pub proof fn lemma_odd_boundaries(b: Seq<u64>, x: u64, now: u64, speed: u64)
    requires
        b.len() % 2 == 1,
    ensures
        intervals(b, now, speed) == intervals(b.drop_last(), now, speed),
        intervals(b.push(x), now, speed).len() == intervals(b, now, speed).len() + 1,
        intervals(b.push(x), now, speed).take(intervals(b, now, speed).len() as int)
            == intervals(b, now, speed),
{
    let n = intervals(b, now, speed).len() as int;
    assert(intervals(b, now, speed) =~= intervals(b.drop_last(), now, speed));
    assert(intervals(b.push(x), now, speed).take(n) =~= intervals(b, now, speed));
}

/// `later - earlier`, or zero when the clock went backwards.
pub fn elapsed_nanos(later: u64, earlier: u64) -> (r: u64)
    ensures
        r == elapsed(later, earlier),
{
    if later >= earlier {
        later - earlier
    } else {
        0
    }
}

/// Whole pixels covered in `d` nanoseconds at `speed` pixels per second.
pub fn nanos_to_px(d: u64, speed: u64) -> (r: u128)
    ensures
        r == to_px(d as nat, speed),
{
    let a: u128 = d as u128;
    let b: u128 = speed as u128;
    assert(a * b <= u128::MAX) by (nonlinear_arith)
        requires
            a <= u64::MAX,
            b <= u64::MAX,
    ;
    (a * b) / NANOS_PER_SEC
}

/// The block for the interval from `press` to `release`, seen at `now`.
pub fn interval_block(release: u64, press: u64, now: u64, speed: u64) -> (r: Block)
    ensures
        r == block_of(release, press, now, speed),
{
    let offset = nanos_to_px(elapsed_nanos(now, release), speed);
    let height = nanos_to_px(elapsed_nanos(release, press), speed);
    Block { offset, height }
}

/// The blocks of a column that is `pressed` with history `events` (newest
/// first), seen at `now`, newest first, stopping before the first one that
/// lies more than `viewport_height` pixels past the key cap.
pub fn column_blocks(
    pressed: bool,
    events: &VecDeque<u64>,
    now: u64,
    speed: u64,
    viewport_height: u64,
) -> (r: Vec<Block>)
    ensures
        visible_prefix(intervals(boundaries(pressed, events@, now), now, speed), viewport_height, r@),
        forall|j: int| 0 <= j < r@.len() ==> #[trigger] r@[j].offset <= viewport_height,
{
    let ghost all = intervals(boundaries(pressed, events@, now), now, speed);
    let mut b: Vec<u64> = Vec::new();
    if pressed {
        b.push(now);
    }
    let mut k: usize = 0;
    while k < events.len()
        invariant
            k <= events@.len(),
            b@ == boundaries(pressed, events@.take(k as int), now),
        decreases events@.len() - k,
    {
        b.push(events[k]);
        proof {
            assert(events@.take(k + 1) =~= events@.take(k as int).push(events@[k as int]));
        }
        k = k + 1;
        proof {
            if pressed {
                assert(b@ =~= seq![now] + events@.take(k as int));
            }
        }
    }
    proof {
        assert(events@.take(k as int) =~= events@);
    }
    let mut r: Vec<Block> = Vec::new();
    let len: usize = b.len();
    let n: usize = len / 2;
    let mut i: usize = 0;
    while i < n
        invariant
            len == b@.len(),
            n == len / 2,
            all == intervals(b@, now, speed),
            i <= n,
            r@ == all.take(i as int),
            forall|j: int| 0 <= j < i ==> #[trigger] all[j].offset <= viewport_height,
        ensures
            i <= n,
            r@ == all.take(i as int),
            forall|j: int| 0 <= j < i ==> #[trigger] all[j].offset <= viewport_height,
            i < n ==> all[i as int].offset > viewport_height,
        decreases n - i,
    {
        assert(2 * i + 1 < b@.len());
        let block = interval_block(b[2 * i], b[2 * i + 1], now, speed);
        if block.offset > viewport_height as u128 {
            break;
        }
        r.push(block);
        proof {
            assert(r@ =~= all.take(i + 1));
        }
        i = i + 1;
    }
    proof {
        assert(r@.len() == i);
        if i == n {
            assert(all.take(i as int) =~= all);
        }
        assert forall|j: int| 0 <= j < r@.len() implies #[trigger] r@[j].offset <= viewport_height by {
            assert(r@[j] == all[j]);
        }
    }
    r
}

/// What one column shows in a frame: its key-cap state and its blocks.
pub struct ColumnView {
    pub pressed: bool,
    pub blocks: Vec<Block>,
}

impl TimelineStore {
    /// The frame seen at `now`: one view per column, in display order.
    pub fn display(&self, now: u64, speed: u64, viewport_height: u64) -> (r: Vec<ColumnView>)
        ensures
            r@.len() == self.columns@.len(),
            forall|i: int|
                0 <= i < r@.len() ==> {
                    let c = #[trigger] self.columns@[i];
                    &&& r@[i].pressed == c.pressed
                    &&& visible_prefix(
                        intervals(boundaries(c.pressed, c.events@, now), now, speed),
                        viewport_height,
                        r@[i].blocks@,
                    )
                },
    {
        let mut r: Vec<ColumnView> = Vec::new();
        let mut i: usize = 0;
        while i < self.columns.len()
            invariant
                i <= self.columns@.len(),
                r@.len() == i,
                forall|j: int|
                    0 <= j < i ==> {
                        let c = #[trigger] self.columns@[j];
                        &&& r@[j].pressed == c.pressed
                        &&& visible_prefix(
                            intervals(boundaries(c.pressed, c.events@, now), now, speed),
                            viewport_height,
                            r@[j].blocks@,
                        )
                    },
            decreases self.columns@.len() - i,
        {
            let c: &KeyColumn = &self.columns[i];
            let blocks = column_blocks(c.pressed, &c.events, now, speed, viewport_height);
            r.push(ColumnView { pressed: c.pressed, blocks });
            i = i + 1;
        }
        r
    }
}

} // verus!
