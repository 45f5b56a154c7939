use vstd::prelude::*;
use crate::board::all_safe_revealed;
use crate::board::chord_applicable;
use crate::board::chord_hits_mine;
use crate::board::chorded_tile;
use crate::board::count_flags;
use crate::board::with_flag_toggled;
use crate::board::with_revealed;
use crate::board::Board;
use crate::board::RevealOutcome;
use crate::timer::Timer;

verus! {

/// The coarse game phase: the state machine's current node.
#[derive(Clone, Copy, PartialEq, Eq, Structural, Debug)]
pub enum GameState {
    Running,
    Lose,
    Win,
    Menu,
}

/// One game: a board and a stopwatch behind the phase machine
/// `Menu -> Running -> {Win, Lose} -> Menu`. The session is the single
/// entry point for player actions; every action is an atomic mutation,
/// and out-of-phase or out-of-range actions are silent no-ops.
pub struct GameSession {
    pub board: Board,
    pub timer: Timer,
    pub state: GameState,
}

impl GameSession {
    /// The session's invariant: the board is well formed, and the
    /// stopwatch ticks exactly while a game can still be played.
    pub open spec fn wf(self) -> bool {
        &&& self.board.wf()
        &&& (self.state == GameState::Running ==> self.timer is Ticking)
    }

    /// A new session over `board`: in the menu, stopwatch idle.
    pub fn new(board: Board) -> (s: GameSession)
        requires
            board.wf(),
        ensures
            s.wf(),
            s.board.same_as(board),
            s.timer == Timer::Idle,
            s.state == GameState::Menu,
    {
        GameSession { board, timer: Timer::Idle, state: GameState::Menu }
    }

    /// Leave the menu and start playing: the stopwatch starts at `now_ms`.
    /// In any other phase the call is a no-op.
    pub fn start(&mut self, now_ms: u64)
        requires
            old(self).wf(),
        ensures
            final(self).wf(),
            old(self).state == GameState::Menu ==> {
                &&& final(self).board.same_as(old(self).board)
                &&& final(self).state == GameState::Running
                &&& final(self).timer == Timer::Ticking(now_ms)
            },
            old(self).state != GameState::Menu ==> *final(self) == *old(self),
    {
        if self.state == GameState::Menu {
            self.state = GameState::Running;
            self.timer = Timer::Ticking(now_ms);
        }
    }

    /// Abandon the current game from any phase: regenerate the board with
    /// a fresh independent mine layout on the same dimensions, return the
    /// stopwatch to idle, and go back to the menu.
    pub fn reset(&mut self)
        requires
            old(self).wf(),
        ensures
            final(self).wf(),
            final(self).board.wf(),
            final(self).board.fresh(),
            final(self).board.width == old(self).board.width,
            final(self).board.height == old(self).board.height,
            final(self).board.distr == old(self).board.distr,
            final(self).timer == Timer::Idle,
            final(self).state == GameState::Menu,
    {
        self.board.reset();
        self.timer = Timer::Idle;
        self.state = GameState::Menu;
    }

    /// Reveal the tile at `i`. Outside `Running`, out of range, or on a
    /// revealed or flagged tile: a strict no-op. An unflagged mine loses
    /// the game and stops the stopwatch without revealing the tile; any
    /// other tile comes up revealed, and the game is won the moment every
    /// non-mine tile is revealed.
    pub fn reveal_tile(&mut self, i: usize, now_ms: u64)
        requires
            old(self).wf(),
        ensures
            final(self).wf(),
            old(self).state != GameState::Running || i >= old(self).board.tiles@.len() || old(
                self,
            ).board.tiles@[i as int].revealed || old(self).board.tiles@[i as int].flagged
                ==> *final(self) == *old(self),
            old(self).state == GameState::Running && i < old(self).board.tiles@.len() && !old(
                self,
            ).board.tiles@[i as int].revealed && !old(self).board.tiles@[i as int].flagged ==> {
                let t0 = old(self).board.tiles@;
                if t0[i as int].mine {
                    &&& final(self).board.same_as(old(self).board)
                    &&& final(self).state == GameState::Lose
                    &&& final(self).timer == old(self).timer.spec_stop(now_ms)
                } else {
                    let t1 = t0.update(i as int, with_revealed(t0[i as int]));
                    &&& final(self).board.tiles@ == t1
                    &&& final(self).board.width == old(self).board.width
                    &&& final(self).board.height == old(self).board.height
                    &&& final(self).board.mines == old(self).board.mines
                    &&& final(self).board.distr == old(self).board.distr
                    &&& if all_safe_revealed(t1) {
                        &&& final(self).state == GameState::Win
                        &&& final(self).timer == old(self).timer.spec_stop(now_ms)
                    } else {
                        &&& final(self).state == GameState::Running
                        &&& final(self).timer == old(self).timer
                    }
                }
            },
    {
        if self.state != GameState::Running {
            return ;
        }
        if i >= self.board.tiles.len() {
            return ;
        }
        let t: crate::tile::Tile = self.board.tiles[i];
        if t.revealed || t.flagged {
            return ;
        }
        let res = self.board.reveal_tile(i);
        if res == RevealOutcome::MineHit {
            self.state = GameState::Lose;
            self.timer.stop(now_ms);
        } else {
            if self.board.check_win() {
                self.state = GameState::Win;
                self.timer.stop(now_ms);
            }
        }
    }

    /// Toggle the flag of the tile at `i` while playing; flagging never
    /// ends the game. Outside `Running`, out of range, or on a revealed
    /// tile: a strict no-op.
    pub fn toggle_flag(&mut self, i: usize)
        requires
            old(self).wf(),
        ensures
            final(self).wf(),
            old(self).state != GameState::Running || i >= old(self).board.tiles@.len() || old(
                self,
            ).board.tiles@[i as int].revealed ==> *final(self) == *old(self),
            old(self).state == GameState::Running && i < old(self).board.tiles@.len() && !old(
                self,
            ).board.tiles@[i as int].revealed ==> {
                &&& final(self).board.tiles@ == old(self).board.tiles@.update(
                    i as int,
                    with_flag_toggled(old(self).board.tiles@[i as int]),
                )
                &&& final(self).board.width == old(self).board.width
                &&& final(self).board.height == old(self).board.height
                &&& final(self).board.mines == old(self).board.mines
                &&& final(self).board.distr == old(self).board.distr
                &&& final(self).state == old(self).state
                &&& final(self).timer == old(self).timer
            },
    {
        if self.state != GameState::Running {
            return ;
        }
        if i >= self.board.tiles.len() {
            return ;
        }
        let t: crate::tile::Tile = self.board.tiles[i];
        if t.revealed {
            return ;
        }
        self.board.toggle_flag(i);
    }

    /// Chord the tile at `i`: if it is revealed, unflagged, not a mine,
    /// and its flagged-neighbour count equals its adjacency count, one
    /// pass reveals every unflagged non-mine neighbour; an unflagged mine
    /// neighbour loses the game and stops the stopwatch, and winning is
    /// checked after the pass. Anything else — wrong phase, out of range,
    /// counts not matching — is a strict no-op.
    pub fn chord(&mut self, i: usize, now_ms: u64)
        requires
            old(self).wf(),
        ensures
            final(self).wf(),
            old(self).state != GameState::Running || i >= old(self).board.tiles@.len()
                || !chord_applicable(
                old(self).board.tiles@,
                old(self).board.width as int,
                old(self).board.height as int,
                i as int,
            ) ==> *final(self) == *old(self),
            old(self).state == GameState::Running && i < old(self).board.tiles@.len()
                && chord_applicable(
                old(self).board.tiles@,
                old(self).board.width as int,
                old(self).board.height as int,
                i as int,
            ) ==> {
                let t0 = old(self).board.tiles@;
                let w = old(self).board.width as int;
                let h = old(self).board.height as int;
                &&& final(self).board.tiles@.len() == t0.len()
                &&& forall|j: int|
                    0 <= j < t0.len() ==> #[trigger] final(self).board.tiles@[j] == chorded_tile(
                        t0,
                        w,
                        h,
                        i as int,
                        j,
                    )
                &&& final(self).board.width == old(self).board.width
                &&& final(self).board.height == old(self).board.height
                &&& final(self).board.mines == old(self).board.mines
                &&& final(self).board.distr == old(self).board.distr
                &&& if chord_hits_mine(t0, w, h, i as int) {
                    &&& final(self).state == GameState::Lose
                    &&& final(self).timer == old(self).timer.spec_stop(now_ms)
                } else {
                    &&& if all_safe_revealed(final(self).board.tiles@) {
                        &&& final(self).state == GameState::Win
                        &&& final(self).timer == old(self).timer.spec_stop(now_ms)
                    } else {
                        &&& final(self).state == GameState::Running
                        &&& final(self).timer == old(self).timer
                    }
                }
            },
    {
        if self.state != GameState::Running {
            return ;
        }
        if i >= self.board.tiles.len() {
            return ;
        }
        let t: crate::tile::Tile = self.board.tiles[i];
        if !t.revealed || t.flagged || t.mine {
            return ;
        }
        let flags: u8 = self.board.flagged_neighbours(i);
        if flags != t.neighbours {
            return ;
        }
        let res = self.board.chord(i);
        if res == RevealOutcome::MineHit {
            self.state = GameState::Lose;
            self.timer.stop(now_ms);
        } else {
            if self.board.check_win() {
                self.state = GameState::Win;
                self.timer.stop(now_ms);
            }
        }
    }

    /// The stopwatch reading at instant `now_ms`: nothing in the menu, the
    /// live elapsed time while playing, the frozen duration after the game
    /// ended.
    pub fn elapsed_time(&self, now_ms: u64) -> (r: Option<u64>)
        ensures
            r == self.timer.spec_get_time(now_ms),
    {
        self.timer.get_time(now_ms)
    }

    /// `total_mines - count(flagged)`: what the mine-count display shows.
    pub fn remaining_mines(&self) -> (r: i128)
        requires
            self.wf(),
        ensures
            r == self.board.mines - count_flags(self.board.tiles@),
    {
        self.board.remaining_mines()
    }
}

} // verus!
