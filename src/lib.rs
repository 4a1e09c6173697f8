//! Round logic of a floor-elimination minigame: lobby countdown, round start, a decaying
//! floor whose tiles fall a fixed delay after being stood on, falling-block motion,
//! elimination by height, and win or draw resolution. Positions are fixed-point integers
//! in thousandths of a block; the host reads and writes the world and presents the cues.

pub mod decay;
pub mod falling;
pub mod geom;
pub mod round;
pub mod roster;
