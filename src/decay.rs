use vstd::prelude::*;

use crate::geom::BlockPosition;

verus! {

/// A pending tile removal: the tick on which it falls due and the tile it removes.
pub type DecayEntry = (usize, BlockPosition);

/// No two entries of `s` target the same tile.
pub open spec fn distinct_tiles(s: Seq<DecayEntry>) -> bool {
    forall|i: int, j: int| 0 <= i < j < s.len() ==> s[i].1 != s[j].1
}

/// Due ticks never decrease from the front of `s` to its back.
pub open spec fn due_sorted(s: Seq<DecayEntry>) -> bool {
    forall|i: int, j: int| 0 <= i <= j < s.len() ==> s[i].0 <= s[j].0
}

/// Some entry of `s` targets `tile`.
pub open spec fn pending(s: Seq<DecayEntry>, tile: BlockPosition) -> bool {
    exists|i: int| 0 <= i < s.len() && s[i].1 == tile
}

/// Every entry of `s` falls due no later than `tick`.
pub open spec fn all_due_by(s: Seq<DecayEntry>, tick: int) -> bool {
    forall|i: int| 0 <= i < s.len() ==> s[i].0 <= tick
}

/// The index of the first entry of `s` that is not yet due at `now` (`s.len()` if all are due).
pub open spec fn due_prefix_len(s: Seq<DecayEntry>, now: int) -> int
    decreases s.len(),
{
    if s.len() == 0 {
        0
    } else if s[0].0 > now {
        0
    } else {
        1 + due_prefix_len(s.drop_first(), now)
    }
}

/// Block state identifier of the floor material.
pub const FLOOR_BLOCK_ID: u16 = 1430;

/// A block read from the world is floor material (`None`: nothing could be read).
pub open spec fn is_floor(block: Option<u16>) -> bool {
    block == Some(FLOOR_BLOCK_ID)
}

/// The queue `q` after offering each candidate (tile, block read there) in order: a floor tile
/// with no pending entry is appended with due tick `due`.
pub open spec fn scan_tiles(q: Seq<DecayEntry>, cands: Seq<(BlockPosition, Option<u16>)>, due: usize) -> Seq<DecayEntry>
    decreases cands.len(),
{
    if cands.len() == 0 {
        q
    } else {
        let prev = scan_tiles(q, cands.drop_last(), due);
        let c = cands.last();
        if is_floor(c.1) && !pending(prev, c.0) {
            prev.push((due, c.0))
        } else {
            prev
        }
    }
}

/// A first-in first-out queue of tile removals, at most one per tile, ordered by due tick.
pub struct DecayQueue {
    entries: Vec<DecayEntry>,
}

impl View for DecayQueue {
    type V = Seq<DecayEntry>;

    closed spec fn view(&self) -> Seq<DecayEntry> {
        self.entries@
    }
}

impl DecayQueue {
    /// The queue holds each tile at most once and is ordered by due tick.
    pub open spec fn wf(&self) -> bool {
        distinct_tiles(self@) && due_sorted(self@)
    }

    pub fn new() -> (r: DecayQueue)
        ensures
            r@ == Seq::<DecayEntry>::empty(),
            r.wf(),
    {
        DecayQueue { entries: Vec::new() }
    }

    pub fn len(&self) -> (r: usize)
        ensures
            r == self@.len(),
    {
        self.entries.len()
    }

    /// The entry at position `i` from the front.
    pub fn get(&self, i: usize) -> (r: DecayEntry)
        requires
            i < self@.len(),
        ensures
            r == self@[i as int],
    {
        self.entries[i]
    }

    /// Whether some pending entry targets `tile`.
    pub fn contains(&self, tile: BlockPosition) -> (r: bool)
        ensures
            r == pending(self@, tile),
    {
        let n = self.entries.len();
        let mut i: usize = 0;
        while i < n
            invariant
                n == self@.len(),
                i <= n,
                forall|k: int| 0 <= k < i ==> self@[k].1 != tile,
            decreases n - i,
        {
            if self.entries[i].1 == tile {
                return true;
            }
            i = i + 1;
        }
        false
    }

    /// Appends `(due, tile)` unless an entry for `tile` is already pending; returns whether it did.
    pub fn push_if_absent(&mut self, due: usize, tile: BlockPosition) -> (added: bool)
        requires
            old(self).wf(),
            all_due_by(old(self)@, due as int),
        ensures
            final(self).wf(),
            added == !pending(old(self)@, tile),
            added ==> final(self)@ == old(self)@.push((due, tile)),
            !added ==> final(self)@ == old(self)@,
            pending(final(self)@, tile),
            all_due_by(final(self)@, due as int),
    {
        if self.contains(tile) {
            false
        } else {
            self.entries.push((due, tile));
            assert(self@[self@.len() - 1].1 == tile);
            true
        }
    }

    /// Offers each candidate (tile, block read there) in order: every floor tile that has no
    /// pending entry is queued to fall at `due`.
    pub fn enqueue_floor_tiles(&mut self, cands: &Vec<(BlockPosition, Option<u16>)>, due: usize)
        requires
            old(self).wf(),
            all_due_by(old(self)@, due as int),
        ensures
            final(self).wf(),
            all_due_by(final(self)@, due as int),
            final(self)@ == scan_tiles(old(self)@, cands@, due),
            forall|i: int| 0 <= i < cands@.len() && is_floor(#[trigger] cands@[i].1) ==> pending(final(self)@, cands@[i].0),
            final(self)@.subrange(0, old(self)@.len() as int) == old(self)@,
    {
        let ghost s = self@;
        let n = cands.len();
        let mut i: usize = 0;
        assert(cands@.subrange(0, 0) =~= Seq::<(BlockPosition, Option<u16>)>::empty());
        assert(s.subrange(0, s.len() as int) =~= s);
        while i < n
            invariant
                n == cands@.len(),
                i <= n,
                self.wf(),
                all_due_by(self@, due as int),
                self@ == scan_tiles(s, cands@.subrange(0, i as int), due),
                forall|k: int| 0 <= k < i && is_floor(#[trigger] cands@[k].1) ==> pending(self@, cands@[k].0),
                s.len() <= self@.len(),
                self@.subrange(0, s.len() as int) == s,
            decreases n - i,
        {
            let (tile, block) = cands[i];
            assert(cands@.subrange(0, i + 1).drop_last() =~= cands@.subrange(0, i as int));
            let floor = match block {
                Some(id) => id == FLOOR_BLOCK_ID,
                None => false,
            };
            let ghost before = self@;
            if floor {
                self.push_if_absent(due, tile);
                assert forall|k: int| 0 <= k < i && is_floor(#[trigger] cands@[k].1) implies pending(self@, cands@[k].0) by {
                    let w = choose|w: int| 0 <= w < before.len() && before[w].1 == cands@[k].0;
                    assert(self@[w] == before[w]);
                }
                assert(self@.subrange(0, s.len() as int) =~= s);
            }
            i = i + 1;
        }
        assert(cands@.subrange(0, n as int) =~= cands@);
    }

    /// Removes and returns, front first, every entry that is due at tick `now`.
    pub fn drain_due(&mut self, now: usize) -> (r: Vec<DecayEntry>)
        requires
            old(self).wf(),
        ensures
            final(self).wf(),
            r@.len() == due_prefix_len(old(self)@, now as int),
            r@.len() <= old(self)@.len(),
            r@ == old(self)@.subrange(0, due_prefix_len(old(self)@, now as int)),
            final(self)@ == old(self)@.subrange(
                due_prefix_len(old(self)@, now as int),
                old(self)@.len() as int,
            ),
            forall|i: int| 0 <= i < r@.len() ==> r@[i].0 <= now,
            forall|i: int| 0 <= i < final(self)@.len() ==> final(self)@[i].0 > now,
    {
        let ghost s = self@;
        let n = self.entries.len();
        let mut k: usize = 0;
        assert(s.subrange(0, n as int) =~= s);
        while k < n && self.entries[k].0 <= now
            invariant
                n == s.len(),
                self@ == s,
                k <= n,
                forall|i: int| 0 <= i < k ==> s[i].0 <= now,
                due_prefix_len(s, now as int) == k + due_prefix_len(s.subrange(k as int, n as int), now as int),
            decreases n - k,
        {
            proof {
                assert(s.subrange(k as int, n as int).drop_first() =~= s.subrange(k + 1, n as int));
            }
            k = k + 1;
        }
        proof {
            if k < n {
                assert(s.subrange(k as int, n as int)[0] == s[k as int]);
            } else {
                assert(s.subrange(k as int, n as int).len() == 0);
            }
            assert(due_prefix_len(s.subrange(k as int, n as int), now as int) == 0);
        }
        let mut due: Vec<DecayEntry> = Vec::new();
        let mut rest: Vec<DecayEntry> = Vec::new();
        let mut i: usize = 0;
        while i < n
            invariant
                n == s.len(),
                self@ == s,
                k <= n,
                i <= n,
                i <= k ==> due@ == s.subrange(0, i as int) && rest@.len() == 0,
                i > k ==> due@ == s.subrange(0, k as int) && rest@ == s.subrange(k as int, i as int),
            decreases n - i,
        {
            if i < k {
                due.push(self.entries[i]);
                assert(due@ =~= s.subrange(0, i + 1));
            } else {
                rest.push(self.entries[i]);
                assert(rest@ =~= s.subrange(k as int, i + 1));
            }
            i = i + 1;
        }
        self.entries = rest;
        if k == n {
            assert(due@ =~= s.subrange(0, k as int));
            assert(self@ =~= s.subrange(k as int, n as int));
        }
        proof {
            let f = self@;
            assert forall|a: int| 0 <= a < f.len() implies f[a].0 > now by {
                assert(f[a] == s[k + a]);
                assert(s[k as int] == f[0]);
                assert(s[k as int].0 <= s[k + a].0);
            }
        }
        due
    }
}

} // verus!
