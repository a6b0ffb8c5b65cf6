//! The strength levels, and the level from which each stage of move
//! selection applies. A stage applies at its level and at every level
//! above it, up to the search levels, which replace the cascade.

use vstd::prelude::*;

verus! {

/// The beginner's level: Red wins no sub-board if it can help it.
pub const BEGINNER: u32 = 0;

/// The level of pure chance: every legal move is as good as another.
pub const RANDOM: u32 = 1;

/// Red wins a sub-board when it can.
pub const WIN_BOARD: u32 = 2;

/// Red takes the square on which Blue would win a sub-board.
pub const BLOCK: u32 = 3;

/// Red takes the square on which Blue would make a fork.
pub const DENY_FORK: u32 = 4;

/// Red prefers to send Blue to a wholly empty sub-board.
pub const BLANK_DEST: u32 = 5;

/// Red prefers to send Blue to the sub-board with the most empty squares.
pub const ROOMY_DEST: u32 = 6;

/// Red avoids sub-boards in which Blue holds more squares than Red.
pub const QUIET_DEST: u32 = 7;

/// Red avoids sub-boards in which Blue can win at once.
pub const NO_BLUE_WIN_DEST: u32 = 8;

/// Red avoids sub-boards in which Blue can make a fork.
pub const NO_BLUE_FORK_DEST: u32 = 9;

/// Red sets a trap when it can.
pub const TRAP: u32 = 10;

/// Among winning moves, Red prefers one in a sub-board where Blue could win.
pub const WIN_DEFENDING: u32 = 11;

/// Among winning moves, Red prefers one that wins the meta-board.
pub const WIN_META: u32 = 12;

/// Among blocking moves, Red prefers one that keeps Blue from winning the
/// meta-board.
pub const BLOCK_META: u32 = 13;

/// Among equally good destinations, Red prefers the centre.
pub const CENTER_TIE_BREAK: u32 = 14;

/// Among equally good destinations, Red prefers corners, after the centre.
pub const CORNER_TIE_BREAK: u32 = 15;

/// Among winning moves, Red prefers one that makes a meta-board threat.
pub const WIN_THREATENING: u32 = 16;

/// Red avoids sub-boards on a meta-line that holds two sub-boards of Blue.
pub const OFF_BLUE_LINE_DEST: u32 = 17;

/// Red avoids sub-boards with which Blue would win the meta-board or
/// threaten to.
pub const NO_META_GAIN_DEST: u32 = 18;

/// Red makes a fork when it can.
pub const FORK: u32 = 19;

/// The cascade gives way to the search one ply deep.
pub const ONE_PLY: u32 = 20;

/// The search goes two plies deep.
pub const TWO_PLY: u32 = 21;

} // verus!
