use tnt_run::decay::{DecayQueue, FLOOR_BLOCK_ID};
use tnt_run::geom::BlockPosition;
use tnt_run::round::{
    Placement, RoundOutcome, RoundState, StartAction, TntRun, BLOCK_FALL_DELAY, PREPARATION_TIME,
    RESULTS_TIME,
};

fn playing(players: Vec<u64>, tick_counter: usize) -> TntRun {
    TntRun {
        state: RoundState::Playing {
            decay_queue: DecayQueue::new(),
            falling_blocks: Vec::new(),
            players,
        },
        tick_counter,
    }
}

fn roster(run: &TntRun) -> Vec<u64> {
    match &run.state {
        RoundState::Playing { players, .. } => players.clone(),
        _ => panic!("no round is running"),
    }
}

fn pending_tiles(run: &TntRun) -> Vec<(usize, BlockPosition)> {
    match &run.state {
        RoundState::Playing { decay_queue, .. } => {
            (0..decay_queue.len()).map(|i| decay_queue.get(i)).collect()
        }
        _ => panic!("no round is running"),
    }
}

fn falling(run: &TntRun) -> Vec<u64> {
    match &run.state {
        RoundState::Playing { falling_blocks, .. } => falling_blocks.clone(),
        _ => panic!("no round is running"),
    }
}

fn tile(x: i64, y: i64, z: i64) -> BlockPosition {
    BlockPosition { x, y, z }
}

#[test]
fn new_run_waits_at_zero() {
    let run = TntRun::new();
    assert!(matches!(run.state, RoundState::Waiting { countdown: 0 }));
    assert_eq!(run.tick_counter, 0);
}

#[test]
fn tick_counter_advances_by_one() {
    let mut run = TntRun::new();
    run.tick_counter_system();
    run.tick_counter_system();
    assert_eq!(run.tick_counter, 2);
}

#[test]
fn two_players_join_while_waiting_start_preparation() {
    let mut run = TntRun::new();
    let action = run.start_system(&vec![1, 2]);
    assert_eq!(action, StartAction::EnterArena);
    assert!(matches!(run.state, RoundState::Starting { countdown: 5 }));
    assert_eq!(run.player_join_system(), Placement::Arena);
}

#[test]
fn waiting_without_players_stays_idle() {
    let mut run = TntRun::new();
    assert_eq!(run.start_system(&vec![]), StartAction::Idle);
    assert!(matches!(run.state, RoundState::Waiting { countdown: 0 }));
    assert_eq!(run.player_join_system(), Placement::Spectator);
}

#[test]
fn waiting_countdown_moves_only_on_gated_ticks() {
    let mut run = TntRun { state: RoundState::Waiting { countdown: RESULTS_TIME }, tick_counter: 7 };
    assert_eq!(run.start_system(&vec![1, 2]), StartAction::Idle);
    assert!(matches!(run.state, RoundState::Waiting { countdown: 5 }));
    run.tick_counter = 40;
    assert_eq!(run.start_system(&vec![1, 2]), StartAction::Idle);
    assert!(matches!(run.state, RoundState::Waiting { countdown: 4 }));
}

#[test]
fn disconnect_during_preparation_interrupts_and_resets() {
    let mut run = TntRun::new();
    run.start_system(&vec![1, 2]);
    run.tick_counter = 20;
    assert_eq!(run.start_system(&vec![1, 2]), StartAction::GetReady(4));
    assert!(matches!(run.state, RoundState::Starting { countdown: 4 }));
    run.tick_counter = 40;
    assert_eq!(run.start_system(&vec![1]), StartAction::Interrupted);
    assert!(matches!(run.state, RoundState::Starting { countdown: 5 }));
}

#[test]
fn lone_player_at_full_countdown_is_not_interrupted() {
    let mut run = TntRun { state: RoundState::Starting { countdown: PREPARATION_TIME }, tick_counter: 0 };
    assert_eq!(run.start_system(&vec![1]), StartAction::Idle);
    assert!(matches!(run.state, RoundState::Starting { countdown: 5 }));
}

#[test]
fn preparation_completes_into_round() {
    let mut run = TntRun { state: RoundState::Starting { countdown: PREPARATION_TIME }, tick_counter: 0 };
    let expected = [4, 3, 2, 1];
    for (step, left) in expected.iter().enumerate() {
        run.tick_counter = 20 * (step + 1);
        assert_eq!(run.start_system(&vec![3, 9]), StartAction::GetReady(*left));
    }
    run.tick_counter = 100;
    assert_eq!(run.start_system(&vec![3, 9]), StartAction::Run);
    assert_eq!(roster(&run), vec![3, 9]);
    assert!(pending_tiles(&run).is_empty());
    assert!(falling(&run).is_empty());
    assert_eq!(run.player_join_system(), Placement::Spectator);
}

#[test]
fn playing_ignores_countdown_step() {
    let mut run = playing(vec![1, 2], 20);
    assert_eq!(run.start_system(&vec![1]), StartAction::Idle);
    assert_eq!(roster(&run), vec![1, 2]);
}

#[test]
fn offline_players_are_pruned() {
    let mut run = playing(vec![1, 2, 3], 0);
    run.remove_offline_players_system(&vec![3, 1, 8]);
    assert_eq!(roster(&run), vec![1, 3]);
}

#[test]
fn player_below_lose_height_is_eliminated() {
    let mut run = playing(vec![1, 2], 0);
    let lost = run.lose_system(&vec![(1, 4900), (2, 21000)]);
    assert_eq!(lost, vec![1]);
    assert_eq!(roster(&run), vec![2]);
}

#[test]
fn player_at_lose_height_is_eliminated() {
    let mut run = playing(vec![1, 2], 0);
    let lost = run.lose_system(&vec![(1, 5001), (2, 5000)]);
    assert_eq!(lost, vec![2]);
    assert_eq!(roster(&run), vec![1]);
}

#[test]
fn elimination_to_one_player_declares_winner() {
    let mut run = playing(vec![1, 2], 0);
    run.lose_system(&vec![(1, 21000), (2, 4000)]);
    assert_eq!(run.winner_system(), RoundOutcome::Win(1));
    assert!(matches!(run.state, RoundState::Waiting { countdown: 5 }));
}

#[test]
fn empty_roster_is_a_draw() {
    let mut run = playing(vec![1, 2], 0);
    run.lose_system(&vec![(1, 100), (2, 4000)]);
    assert_eq!(run.winner_system(), RoundOutcome::Draw);
    assert!(matches!(run.state, RoundState::Waiting { countdown: 5 }));
}

#[test]
fn two_players_keep_round_going() {
    let mut run = playing(vec![1, 2], 0);
    assert_eq!(run.winner_system(), RoundOutcome::Continue);
    assert_eq!(roster(&run), vec![1, 2]);
}

#[test]
fn winner_check_outside_round_does_nothing() {
    let mut run = TntRun::new();
    assert_eq!(run.winner_system(), RoundOutcome::Continue);
    assert!(matches!(run.state, RoundState::Waiting { countdown: 0 }));
}

#[test]
fn floor_tiles_are_queued_once() {
    let mut run = playing(vec![1], 12);
    let cands = vec![
        (tile(0, 19, 0), Some(FLOOR_BLOCK_ID)),
        (tile(1, 19, 0), Some(0)),
        (tile(0, 19, 0), Some(FLOOR_BLOCK_ID)),
        (tile(2, 19, 0), None),
        (tile(-1, 19, 3), Some(FLOOR_BLOCK_ID)),
    ];
    run.block_queue_system(&cands);
    let due = 12 + BLOCK_FALL_DELAY;
    assert_eq!(pending_tiles(&run), vec![(due, tile(0, 19, 0)), (due, tile(-1, 19, 3))]);
    run.tick_counter = 13;
    run.block_queue_system(&cands);
    assert_eq!(pending_tiles(&run), vec![(due, tile(0, 19, 0)), (due, tile(-1, 19, 3))]);
}

#[test]
fn queued_tiles_fall_when_due() {
    let mut run = playing(vec![1], 10);
    run.block_queue_system(&vec![(tile(0, 19, 0), Some(FLOOR_BLOCK_ID))]);
    run.tick_counter = 11;
    run.block_queue_system(&vec![(tile(1, 19, 0), Some(FLOOR_BLOCK_ID))]);
    run.tick_counter = 14;
    assert!(run.block_fall_system().is_empty());
    run.tick_counter = 15;
    assert_eq!(run.block_fall_system(), vec![(15, tile(0, 19, 0))]);
    assert_eq!(pending_tiles(&run), vec![(16, tile(1, 19, 0))]);
    run.tick_counter = 30;
    assert_eq!(run.block_fall_system(), vec![(16, tile(1, 19, 0))]);
    assert!(pending_tiles(&run).is_empty());
}

#[test]
fn falling_blocks_sink_and_despawn() {
    let mut run = playing(vec![1], 0);
    run.track_falling_block(40);
    run.track_falling_block(41);
    let updates = run.block_falling_system(&vec![(40, 5), (7, 100), (41, 2000)]);
    assert_eq!(updates, vec![(40, -5), (41, 1990)]);
    assert_eq!(falling(&run), vec![41]);
    let updates = run.block_falling_system(&vec![(40, -5), (41, 1990)]);
    assert_eq!(updates, vec![(41, 1980)]);
    assert_eq!(falling(&run), vec![41]);
}

#[test]
fn falling_block_at_despawn_height_is_dropped() {
    let mut run = playing(vec![1], 0);
    run.track_falling_block(5);
    assert_eq!(run.block_falling_system(&vec![(5, 10)]), vec![(5, 0)]);
    assert!(falling(&run).is_empty());
}

#[test]
fn round_systems_outside_round_do_nothing() {
    let mut run = TntRun::new();
    run.block_queue_system(&vec![(tile(0, 19, 0), Some(FLOOR_BLOCK_ID))]);
    assert!(run.block_fall_system().is_empty());
    run.track_falling_block(3);
    assert!(run.block_falling_system(&vec![(3, 50)]).is_empty());
    assert!(run.lose_system(&vec![]).is_empty());
    run.remove_offline_players_system(&vec![]);
    assert!(matches!(run.state, RoundState::Waiting { countdown: 0 }));
}
