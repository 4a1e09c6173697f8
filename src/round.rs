use vstd::prelude::*;

use crate::decay::{all_due_by, distinct_tiles, due_sorted, due_prefix_len, scan_tiles, is_floor, pending, DecayEntry, DecayQueue};
use crate::falling::{drop_landed, fall_step, falling_updates, still_falling, FALL_STEP};
use crate::geom::BlockPosition;
use crate::roster::{
    keep_listed, lemma_split_len, lemma_survivors_from, listed_in, losers, split_by_height, survivors, EntityId,
};

verus! {

/// Countdown, in gated steps, of the pre-round freeze.
pub const PREPARATION_TIME: usize = 5;

/// Countdown, in gated steps, spent in the lobby after a round ends.
pub const RESULTS_TIME: usize = 5;

/// Ticks between a tile being stood on and its removal.
pub const BLOCK_FALL_DELAY: usize = 5;

/// Countdowns advance only on ticks that are a multiple of this.
pub const TICKS_PER_SECOND: usize = 20;

/// The state of the round.
pub enum RoundState {
    /// No round is running; counts down to a new one.
    Waiting { countdown: usize },
    /// Participants are in the arena and the round is about to begin.
    Starting { countdown: usize },
    /// A round is running and owns all per-round state.
    Playing { decay_queue: DecayQueue, falling_blocks: Vec<EntityId>, players: Vec<EntityId> },
}

/// Where a player who joins is placed.
#[derive(Clone, Copy, Debug, PartialEq, Eq, Structural)]
pub enum Placement {
    Arena,
    Spectator,
}

/// What the host does after a countdown step.
#[derive(Clone, Copy, Debug, PartialEq, Eq, Structural)]
pub enum StartAction {
    /// Nothing to present.
    Idle,
    /// Move every participant into the arena and rebuild the floor.
    EnterArena,
    /// Tell every participant how many steps remain.
    GetReady(usize),
    /// Tell every participant that the round has begun.
    Run,
    /// Tell every participant that the preparation was interrupted.
    Interrupted,
}

/// How the round stands after the win check.
#[derive(Clone, Copy, Debug, PartialEq, Eq, Structural)]
pub enum RoundOutcome {
    /// The round goes on (or none is running).
    Continue,
    /// The given player is the last one left.
    Win(EntityId),
    /// No player is left.
    Draw,
}

/// The minigame: its round state and a tick counter.
pub struct TntRun {
    pub state: RoundState,
    pub tick_counter: usize,
}

/// Whether countdowns advance on tick `t`.
pub open spec fn gated(t: usize) -> bool {
    t % TICKS_PER_SECOND == 0
}

impl TntRun {
    /// The state's invariants: a starting countdown lies in `1..=PREPARATION_TIME`, and a
    /// running round's decay queue is well formed with nothing due after `tick_counter + BLOCK_FALL_DELAY`.
    pub open spec fn wf(&self) -> bool {
        match self.state {
            RoundState::Waiting { .. } => true,
            RoundState::Starting { countdown } => 1 <= countdown <= PREPARATION_TIME,
            RoundState::Playing { decay_queue, .. } => decay_queue.wf() && all_due_by(
                decay_queue@,
                self.tick_counter + BLOCK_FALL_DELAY,
            ),
        }
    }

    /// The roster of a running round; empty otherwise.
    pub open spec fn roster(&self) -> Seq<EntityId> {
        match self.state {
            RoundState::Playing { players, .. } => players@,
            _ => Seq::empty(),
        }
    }

    /// The decay queue of a running round; empty otherwise.
    pub open spec fn decay_view(&self) -> Seq<DecayEntry> {
        match self.state {
            RoundState::Playing { decay_queue, .. } => decay_queue@,
            _ => Seq::empty(),
        }
    }

    /// The falling blocks of a running round; empty otherwise.
    pub open spec fn falling_view(&self) -> Seq<EntityId> {
        match self.state {
            RoundState::Playing { falling_blocks, .. } => falling_blocks@,
            _ => Seq::empty(),
        }
    }

    /// In every well-formed state (every method keeps the state well formed), no two pending
    /// decay entries target the same tile, and due ticks never decrease along the queue.
    pub proof fn lemma_decay_tiles_distinct(run: TntRun)
        requires
            run.wf(),
        ensures
            distinct_tiles(run.decay_view()),
            due_sorted(run.decay_view()),
    {
    }

    /// While a round runs, pruning against the `online` entities only removes players from the
    /// roster: it never grows and no player joins it.
    pub proof fn lemma_prune_only_shrinks(roster: Seq<EntityId>, online: Seq<EntityId>)
        ensures
            roster.filter(listed_in(online)).len() <= roster.len(),
            forall|p: EntityId| #[trigger] roster.filter(listed_in(online)).contains(p) ==> roster.contains(p),
    {
        roster.lemma_filter_len(listed_in(online));
        assert forall|p: EntityId| #[trigger] roster.filter(listed_in(online)).contains(p) implies roster.contains(p) by {
            roster.lemma_filter_contains_rev(listed_in(online), p);
        }
    }

    /// While a round runs, elimination by `heights` (one per rostered player, in roster order)
    /// only removes players from the roster: it never grows and no player joins it.
    pub proof fn lemma_elimination_only_shrinks(roster: Seq<EntityId>, heights: Seq<(EntityId, i64)>)
        requires
            heights.len() == roster.len(),
            forall|i: int| 0 <= i < heights.len() ==> #[trigger] heights[i].0 == roster[i],
        ensures
            survivors(heights).len() <= roster.len(),
            forall|p: EntityId| #[trigger] survivors(heights).contains(p) ==> roster.contains(p),
    {
        lemma_split_len(heights);
        assert forall|p: EntityId| #[trigger] survivors(heights).contains(p) implies roster.contains(p) by {
            lemma_survivors_from(heights, p);
            let i = choose|i: int| 0 <= i < heights.len() && (#[trigger] heights[i]).0 == p;
            assert(roster[i] == p);
        }
    }

    /// A minigame waiting in the lobby with no countdown, at tick zero.
    pub fn new() -> (r: TntRun)
        ensures
            r.state == (RoundState::Waiting { countdown: 0 }),
            r.tick_counter == 0,
            r.wf(),
    {
        TntRun { state: RoundState::Waiting { countdown: 0 }, tick_counter: 0 }
    }

    /// Where a player who joins now is placed: in the arena while a round is starting,
    /// as a spectator otherwise.
    pub fn player_join_system(&self) -> (r: Placement)
        ensures
            r == (if self.state is Starting { Placement::Arena } else { Placement::Spectator }),
    {
        match self.state {
            RoundState::Starting { .. } => Placement::Arena,
            _ => Placement::Spectator,
        }
    }

    /// Advances the tick counter by one.
    pub fn tick_counter_system(&mut self)
        requires
            old(self).wf(),
            old(self).tick_counter < usize::MAX,
        ensures
            final(self).wf(),
            final(self).tick_counter == old(self).tick_counter + 1,
            final(self).state == old(self).state,
    {
        self.tick_counter = self.tick_counter + 1;
    }

    /// One countdown step, given the players connected now. Runs only on gated ticks.
    pub fn start_system(&mut self, players: &Vec<EntityId>) -> (r: StartAction)
        requires
            old(self).wf(),
        ensures
            final(self).wf(),
            final(self).tick_counter == old(self).tick_counter,
            !gated(old(self).tick_counter) ==> r == StartAction::Idle && final(self).state == old(self).state,
            gated(old(self).tick_counter) ==> match old(self).state {
                RoundState::Waiting { countdown } => if countdown > 0 {
                    r == StartAction::Idle && final(self).state == (RoundState::Waiting { countdown: (countdown - 1) as usize })
                } else if players@.len() > 0 {
                    r == StartAction::EnterArena && final(self).state == (RoundState::Starting { countdown: PREPARATION_TIME })
                } else {
                    r == StartAction::Idle && final(self).state == old(self).state
                },
                RoundState::Starting { countdown } => if players@.len() > 1 {
                    if countdown == 1 {
                        r == StartAction::Run && match final(self).state {
                            RoundState::Playing { decay_queue, falling_blocks, players: roster } =>
                                decay_queue@.len() == 0 && falling_blocks@.len() == 0 && roster@ == players@,
                            _ => false,
                        }
                    } else {
                        r == StartAction::GetReady((countdown - 1) as usize)
                            && final(self).state == (RoundState::Starting { countdown: (countdown - 1) as usize })
                    }
                } else {
                    r == (if countdown != PREPARATION_TIME { StartAction::Interrupted } else { StartAction::Idle })
                        && final(self).state == (RoundState::Starting { countdown: PREPARATION_TIME })
                },
                RoundState::Playing { .. } => r == StartAction::Idle && final(self).state == old(self).state,
            },
    {
        if self.tick_counter % TICKS_PER_SECOND != 0 {
            return StartAction::Idle;
        }
        match self.state {
            RoundState::Waiting { countdown } => {
                if countdown == 0 {
                    if players.len() > 0 {
                        self.state = RoundState::Starting { countdown: PREPARATION_TIME };
                        StartAction::EnterArena
                    } else {
                        StartAction::Idle
                    }
                } else {
                    self.state = RoundState::Waiting { countdown: countdown - 1 };
                    StartAction::Idle
                }
            },
            RoundState::Starting { countdown } => {
                if players.len() > 1 {
                    let left = countdown - 1;
                    if left == 0 {
                        let roster = players.clone();
                        assert(roster@ =~= players@);
                        self.state = RoundState::Playing {
                            decay_queue: DecayQueue::new(),
                            falling_blocks: Vec::new(),
                            players: roster,
                        };
                        StartAction::Run
                    } else {
                        self.state = RoundState::Starting { countdown: left };
                        StartAction::GetReady(left)
                    }
                } else {
                    let interrupted = countdown != PREPARATION_TIME;
                    self.state = RoundState::Starting { countdown: PREPARATION_TIME };
                    if interrupted {
                        StartAction::Interrupted
                    } else {
                        StartAction::Idle
                    }
                }
            },
            RoundState::Playing { .. } => StartAction::Idle,
        }
    }

    /// Declares a winner when one player is left and a draw when none is; either ends the round.
    pub fn winner_system(&mut self) -> (r: RoundOutcome)
        requires
            old(self).wf(),
        ensures
            final(self).wf(),
            final(self).tick_counter == old(self).tick_counter,
            old(self).state is Playing && old(self).roster().len() == 1 ==> r == RoundOutcome::Win(old(self).roster()[0])
                && final(self).state == (RoundState::Waiting { countdown: RESULTS_TIME }),
            old(self).state is Playing && old(self).roster().len() == 0 ==> r == RoundOutcome::Draw
                && final(self).state == (RoundState::Waiting { countdown: RESULTS_TIME }),
            r != RoundOutcome::Continue ==> final(self).roster().len() == 0 && final(self).decay_view().len() == 0
                && final(self).falling_view().len() == 0,
            !(old(self).state is Playing) || old(self).roster().len() > 1 ==> r == RoundOutcome::Continue
                && final(self).state == old(self).state,
    {
        let outcome = match &self.state {
            RoundState::Playing { players, .. } => {
                if players.len() == 1 {
                    RoundOutcome::Win(players[0])
                } else if players.len() == 0 {
                    RoundOutcome::Draw
                } else {
                    RoundOutcome::Continue
                }
            },
            _ => RoundOutcome::Continue,
        };
        match outcome {
            RoundOutcome::Continue => {},
            _ => {
                self.state = RoundState::Waiting { countdown: RESULTS_TIME };
            },
        }
        outcome
    }

    /// Drops from the roster every player that is no longer among the `online` entities
    /// (disconnected, or marked removed by the host).
    pub fn remove_offline_players_system(&mut self, online: &Vec<EntityId>)
        requires
            old(self).wf(),
        ensures
            final(self).wf(),
            final(self).tick_counter == old(self).tick_counter,
            old(self).state is Playing ==> final(self).state is Playing
                && final(self).roster() == old(self).roster().filter(listed_in(online@))
                && final(self).decay_view() == old(self).decay_view()
                && final(self).falling_view() == old(self).falling_view(),
            !(old(self).state is Playing) ==> final(self).state == old(self).state,
            final(self).roster().len() <= old(self).roster().len(),
            forall|p: EntityId| #[trigger] final(self).roster().contains(p) ==> old(self).roster().contains(p),
    {
        match &mut self.state {
            RoundState::Playing { players, .. } => {
                let kept = keep_listed(players, online);
                proof {
                    TntRun::lemma_prune_only_shrinks(players@, online@);
                }
                *players = kept;
            },
            _ => {},
        }
    }

    /// Queues, `BLOCK_FALL_DELAY` ticks ahead, each floor tile among the candidates (tile beneath
    /// a player's footprint corner, block read there) that has no pending entry.
    pub fn block_queue_system(&mut self, cands: &Vec<(BlockPosition, Option<u16>)>)
        requires
            old(self).wf(),
            old(self).tick_counter + BLOCK_FALL_DELAY <= usize::MAX,
        ensures
            final(self).wf(),
            final(self).tick_counter == old(self).tick_counter,
            old(self).state is Playing ==> final(self).state is Playing
                && final(self).decay_view() == scan_tiles(
                    old(self).decay_view(),
                    cands@,
                    (old(self).tick_counter + BLOCK_FALL_DELAY) as usize,
                )
                && final(self).roster() == old(self).roster()
                && final(self).falling_view() == old(self).falling_view(),
            old(self).state is Playing ==> forall|i: int| 0 <= i < cands@.len() && is_floor(#[trigger] cands@[i].1)
                ==> pending(final(self).decay_view(), cands@[i].0),
            !(old(self).state is Playing) ==> final(self).state == old(self).state,
    {
        let due = self.tick_counter + BLOCK_FALL_DELAY;
        match &mut self.state {
            RoundState::Playing { decay_queue, .. } => {
                decay_queue.enqueue_floor_tiles(cands, due);
            },
            _ => {},
        }
    }

    /// Removes from the decay queue, front first, every entry due at the current tick and
    /// returns them; the host clears each tile and spawns a falling block there.
    pub fn block_fall_system(&mut self) -> (r: Vec<DecayEntry>)
        requires
            old(self).wf(),
        ensures
            final(self).wf(),
            final(self).tick_counter == old(self).tick_counter,
            old(self).state is Playing ==> final(self).state is Playing
                && r@ == old(self).decay_view().subrange(
                    0,
                    due_prefix_len(old(self).decay_view(), old(self).tick_counter as int),
                )
                && final(self).decay_view() == old(self).decay_view().subrange(
                    due_prefix_len(old(self).decay_view(), old(self).tick_counter as int),
                    old(self).decay_view().len() as int,
                )
                && final(self).roster() == old(self).roster()
                && final(self).falling_view() == old(self).falling_view(),
            forall|i: int| 0 <= i < r@.len() ==> r@[i].0 <= old(self).tick_counter,
            due_sorted(r@),
            forall|i: int| 0 <= i < final(self).decay_view().len() ==> final(self).decay_view()[i].0 > old(self).tick_counter,
            !(old(self).state is Playing) ==> r@.len() == 0 && final(self).state == old(self).state,
    {
        let now = self.tick_counter;
        match &mut self.state {
            RoundState::Playing { decay_queue, .. } => {
                let ghost before = decay_queue@;
                let r = decay_queue.drain_due(now);
                assert forall|a: int, b: int| 0 <= a <= b < r@.len() implies r@[a].0 <= r@[b].0 by {
                    assert(r@[a] == before[a] && r@[b] == before[b]);
                }
                assert forall|i: int| 0 <= i < decay_queue@.len() implies decay_queue@[i].0 <= now + BLOCK_FALL_DELAY by {
                    assert(decay_queue@[i] == before[r@.len() + i]);
                }
                r
            },
            _ => Vec::new(),
        }
    }

    /// Starts watching the falling block `id` that the host spawned for a drained tile.
    pub fn track_falling_block(&mut self, id: EntityId)
        requires
            old(self).wf(),
        ensures
            final(self).wf(),
            final(self).tick_counter == old(self).tick_counter,
            old(self).state is Playing ==> final(self).state is Playing
                && final(self).falling_view() == old(self).falling_view().push(id)
                && final(self).roster() == old(self).roster()
                && final(self).decay_view() == old(self).decay_view(),
            !(old(self).state is Playing) ==> final(self).state == old(self).state,
    {
        match &mut self.state {
            RoundState::Playing { falling_blocks, .. } => {
                falling_blocks.push(id);
            },
            _ => {},
        }
    }

    /// Lowers each watched falling block among `entities` (identifier, height) by one step,
    /// returns their new heights, and stops watching those that reached the despawn height.
    pub fn block_falling_system(&mut self, entities: &Vec<(EntityId, i64)>) -> (r: Vec<(EntityId, i64)>)
        requires
            old(self).wf(),
            forall|i: int| 0 <= i < entities@.len() ==> entities@[i].1 >= i64::MIN + FALL_STEP,
        ensures
            final(self).wf(),
            final(self).tick_counter == old(self).tick_counter,
            old(self).state is Playing ==> final(self).state is Playing
                && r@ == falling_updates(old(self).falling_view(), entities@)
                && final(self).falling_view() == old(self).falling_view().filter(still_falling(r@))
                && final(self).roster() == old(self).roster()
                && final(self).decay_view() == old(self).decay_view(),
            forall|k: int| 0 <= k < r@.len() ==> exists|j: int|
                0 <= j < entities@.len() && #[trigger] entities@[j].0 == (#[trigger] r@[k]).0 && r@[k].1 < entities@[j].1,
            !(old(self).state is Playing) ==> r@.len() == 0 && final(self).state == old(self).state,
    {
        match &mut self.state {
            RoundState::Playing { falling_blocks, .. } => {
                let updates = fall_step(falling_blocks, entities);
                let kept = drop_landed(falling_blocks, &updates);
                *falling_blocks = kept;
                updates
            },
            _ => Vec::new(),
        }
    }

    /// Eliminates every rostered player at or below `LOSE_Y`, given each rostered player's
    /// (identifier, height) in roster order; returns the eliminated players in that order.
    pub fn lose_system(&mut self, heights: &Vec<(EntityId, i64)>) -> (r: Vec<EntityId>)
        requires
            old(self).wf(),
            old(self).state is Playing ==> heights@.len() == old(self).roster().len()
                && forall|i: int| 0 <= i < heights@.len() ==> #[trigger] heights@[i].0 == old(self).roster()[i],
        ensures
            final(self).wf(),
            final(self).tick_counter == old(self).tick_counter,
            old(self).state is Playing ==> final(self).state is Playing
                && final(self).roster() == survivors(heights@)
                && r@ == losers(heights@)
                && final(self).falling_view() == old(self).falling_view()
                && final(self).decay_view() == old(self).decay_view(),
            !(old(self).state is Playing) ==> r@.len() == 0 && final(self).state == old(self).state,
            final(self).roster().len() <= old(self).roster().len(),
            forall|p: EntityId| #[trigger] final(self).roster().contains(p) ==> old(self).roster().contains(p),
    {
        match &mut self.state {
            RoundState::Playing { players, .. } => {
                let (stay, out) = split_by_height(heights);
                proof {
                    TntRun::lemma_elimination_only_shrinks(players@, heights@);
                }
                *players = stay;
                out
            },
            _ => Vec::new(),
        }
    }
}

} // verus!
