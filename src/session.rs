//! The per-connection session: version handshake, then a cyclic render loop
//! with its error and dim-skip backoff policy. The connection's reads, writes
//! and sleeps happen outside; these functions make every decision.
use vstd::prelude::*;
use crate::json::{parse_index, parse_index_exec};
use crate::text::chars_of;

verus! {

/// The size a legacy device always has.
pub const LEGACY_SIZE: (u8, u8) = (64, 32);

/// A handshake line without its trailing newline.
pub open spec fn line_field(line: Seq<char>) -> Seq<char> {
    if line.len() > 0 && line.last() == '\n' {
        line.drop_last()
    } else {
        line
    }
}

fn field_chars(line: &str) -> (r: Vec<char>)
    ensures
        r@ == line_field(line@),
{
    let mut cs = chars_of(line);
    if cs.len() > 0 && cs[cs.len() - 1] == '\n' {
        cs.pop();
    }
    cs
}

/// The protocol version a handshake line announces: its number, or 0 (legacy)
/// where no line came in time or it is no unsigned number.
pub open spec fn announced_version(line: Option<Seq<char>>) -> u64 {
    match line {
        Some(l) => match parse_index(line_field(l)) {
            Some(v) => v as u64,
            None => 0,
        },
        None => 0,
    }
}

/// The protocol version that a handshake line announces; `None` for a line
/// that did not arrive in time.
pub fn handshake_version(line: Option<&str>) -> (r: u64)
    ensures
        r == announced_version(
            match line {
                Some(l) => Some(l@),
                None => None,
            },
        ),
{
    match line {
        Some(l) => {
            let cs = field_chars(l);
            match parse_index_exec(&cs) {
                Some(v) => v as u64,
                None => 0,
            }
        },
        None => 0,
    }
}

/// A size field of the handshake, as a `u8`.
pub open spec fn size_field(line: Seq<char>) -> Option<u8> {
    match parse_index(line_field(line)) {
        Some(v) => if v <= 255 {
            Some(v as u8)
        } else {
            None
        },
        None => None,
    }
}

fn size_field_exec(line: &str) -> (r: Option<u8>)
    ensures
        r == size_field(line@),
{
    let cs = field_chars(line);
    match parse_index_exec(&cs) {
        Some(v) => if v <= 255 {
            Some(v as u8)
        } else {
            None
        },
        None => None,
    }
}

/// The device size after the handshake: fixed at 64x32 in legacy mode; from
/// version 1 on, the two announced fields where both are numbers that fit a
/// byte, else unchanged.
pub open spec fn handshake_size_of(version: u64, current: (u8, u8), width: Seq<char>, height: Seq<char>) -> (u8, u8) {
    if version == 0 {
        LEGACY_SIZE
    } else {
        match (size_field(width), size_field(height)) {
            (Some(w), Some(h)) => (w, h),
            _ => current,
        }
    }
}

/// The device size after the handshake (see `handshake_size_of`).
pub fn handshake_size(version: u64, current: (u8, u8), width: &str, height: &str) -> (r: (u8, u8))
    ensures
        r == handshake_size_of(version, current, width@, height@),
{
    if version == 0 {
        return (64, 32);
    }
    match (size_field_exec(width), size_field_exec(height)) {
        (Some(w), Some(h)) => (w, h),
        _ => current,
    }
}

/// Whether a board of size `board` fits a device of size `device`.
pub fn board_fits(board: (u8, u8), device: (u8, u8)) -> (r: bool)
    ensures
        r == (board.0 <= device.0 && board.1 <= device.1),
{
    board.0 <= device.0 && board.1 <= device.1
}

/// The render loop's counters.
#[derive(Clone, Copy, Debug)]
pub struct SessionState {
    /// Index into the device's board order.
    pub current_board: usize,
    /// Oversized boards met in a row.
    pub board_errors: usize,
    /// Dim-skipped boards met in a row.
    pub skipped_boards: usize,
}

/// What happened to the board that was selected.
#[derive(Clone, Copy, PartialEq, Eq, Structural, Debug)]
pub enum SessionEvent {
    /// It is larger than the device.
    Oversized,
    /// It rendered to nothing (dim skip).
    Skipped,
    /// Its frames were sent.
    Sent,
    /// Sending failed.
    SendFailed,
}

/// What the connection does next.
#[derive(Clone, Copy, PartialEq, Eq, Structural, Debug)]
pub enum SessionAction {
    /// Close the connection.
    Close,
    /// Sleep this many seconds, then close the connection.
    PauseThenClose(u64),
    /// Sleep this many seconds, then select the next board.
    Pause(u64),
    /// Select the next board at once.
    Continue,
}

/// Seconds to wait after an oversized board.
pub const OVERSIZED_PAUSE: u64 = 1;

/// Seconds to wait once every board was skipped as dim in a row.
pub const DIM_BACKOFF: u64 = 15;

/// Seconds to wait after a board was sent.
pub const SENT_PAUSE: u64 = 5;

impl SessionState {
    pub fn new() -> (r: SessionState)
        ensures
            r == (SessionState { current_board: 0, board_errors: 0, skipped_boards: 0 }),
    {
        SessionState { current_board: 0, board_errors: 0, skipped_boards: 0 }
    }

    /// Counters that a live session can hold with `n` boards.
    pub open spec fn wf(&self, n: usize) -> bool {
        self.board_errors < n || n == 0
    }

    /// The selected board for a device with `board_count` boards, wrapping the
    /// cursor to the first board at the end; `None` (close) where there are none.
    pub fn select(&mut self, board_count: usize) -> (r: Option<usize>)
        ensures
            board_count == 0 ==> r is None && *final(self) == *old(self),
            board_count > 0 ==> {
                let c = if old(self).current_board >= board_count {
                    0
                } else {
                    old(self).current_board
                };
                &&& r == Some(c)
                &&& *final(self) == SessionState { current_board: c, ..*old(self) }
            },
    {
        if board_count == 0 {
            return None;
        }
        if self.current_board >= board_count {
            self.current_board = 0;
        }
        Some(self.current_board)
    }

    /// Advances past the selected board after `ev` and says what comes next.
    pub fn on_event(&mut self, board_count: usize, ev: SessionEvent) -> (r: SessionAction)
        requires
            old(self).current_board < board_count,
            old(self).wf(board_count),
        ensures
            (*final(self), r) == session_step(*old(self), board_count, ev),
            r != SessionAction::Close && !(r is PauseThenClose) ==> final(self).wf(board_count),
    {
        match ev {
            SessionEvent::Oversized => {
                self.current_board = self.current_board + 1;
                self.board_errors = self.board_errors + 1;
                if self.board_errors >= board_count {
                    SessionAction::PauseThenClose(OVERSIZED_PAUSE)
                } else {
                    SessionAction::Pause(OVERSIZED_PAUSE)
                }
            },
            SessionEvent::Skipped => {
                self.current_board = self.current_board + 1;
                self.board_errors = 0;
                self.skipped_boards = self.skipped_boards.saturating_add(1);
                if self.skipped_boards > board_count {
                    SessionAction::Pause(DIM_BACKOFF)
                } else {
                    SessionAction::Continue
                }
            },
            SessionEvent::Sent => {
                self.current_board = self.current_board + 1;
                self.board_errors = 0;
                self.skipped_boards = 0;
                SessionAction::Pause(SENT_PAUSE)
            },
            SessionEvent::SendFailed => SessionAction::Close,
        }
    }
}

/// One step of the render loop: an oversized board counts an error and pauses
/// a second, after which the session closes once every board was oversized in
/// a row; a dim skip counts a
/// skip and backs off once more boards were skipped in a row than there are; a
/// sent board clears both counters; a failed send closes.
pub open spec fn session_step(s: SessionState, n: usize, ev: SessionEvent) -> (SessionState, SessionAction) {
    match ev {
        SessionEvent::Oversized => {
            let t = SessionState { current_board: (s.current_board + 1) as usize, board_errors: (s.board_errors + 1) as usize, ..s };
            (t, if t.board_errors >= n { SessionAction::PauseThenClose(OVERSIZED_PAUSE) } else { SessionAction::Pause(OVERSIZED_PAUSE) })
        },
        SessionEvent::Skipped => {
            let k = if s.skipped_boards == usize::MAX { usize::MAX } else { (s.skipped_boards + 1) as usize };
            let t = SessionState { current_board: (s.current_board + 1) as usize, board_errors: 0, skipped_boards: k };
            (t, if k > n { SessionAction::Pause(DIM_BACKOFF) } else { SessionAction::Continue })
        },
        SessionEvent::Sent => (
            SessionState { current_board: (s.current_board + 1) as usize, board_errors: 0, skipped_boards: 0 },
            SessionAction::Pause(SENT_PAUSE),
        ),
        SessionEvent::SendFailed => (s, SessionAction::Close),
    }
}

/// The state after `k` dim skips in a row from `s`, each on the board the
/// cursor wraps to.
pub open spec fn after_skips(s: SessionState, n: usize, k: nat) -> SessionState
    decreases k,
{
    if k == 0 {
        s
    } else {
        let p = after_skips(s, n, (k - 1) as nat);
        let wrapped = SessionState { current_board: if p.current_board >= n { 0 } else { p.current_board }, ..p };
        session_step(wrapped, n, SessionEvent::Skipped).0
    }
}

/// With `n` boards that all skip as dim, counted from a state with no skips,
/// the `k`-th skip in a row pauses for the long backoff exactly when `k`
/// exceeds `n`: never before the skip that follows a full round. (The skip
/// count saturates, which keeps the backoff once reached.)
pub proof fn lemma_dim_backoff(s: SessionState, n: usize, k: nat)
    requires
        s.skipped_boards == 0,
        0 < n < usize::MAX,
        1 <= k,
    ensures
        after_skips(s, n, (k - 1) as nat).skipped_boards == if k - 1 < usize::MAX {
            k - 1
        } else {
            usize::MAX as int
        },
        ({
            let p = after_skips(s, n, (k - 1) as nat);
            let wrapped = SessionState { current_board: if p.current_board >= n { 0 } else { p.current_board }, ..p };
            session_step(wrapped, n, SessionEvent::Skipped).1 == if k > n {
                SessionAction::Pause(DIM_BACKOFF)
            } else {
                SessionAction::Continue
            }
        }),
    decreases k,
{
    if k > 1 {
        lemma_dim_backoff(s, n, (k - 1) as nat);
    }
}

/// The state after `k` oversized boards in a row from `s`, each on the board
/// the cursor wraps to.
pub open spec fn after_oversized(s: SessionState, n: usize, k: nat) -> SessionState
    decreases k,
{
    if k == 0 {
        s
    } else {
        let p = after_oversized(s, n, (k - 1) as nat);
        let wrapped = SessionState { current_board: if p.current_board >= n { 0 } else { p.current_board }, ..p };
        session_step(wrapped, n, SessionEvent::Oversized).0
    }
}

/// With `n` boards that are all too large, counted from a state with no
/// errors, every oversized board pauses one second, and the `n`-th one in a row
/// then closes the session.
pub proof fn lemma_oversized_close(s: SessionState, n: usize, k: nat)
    requires
        s.board_errors == 0,
        n > 0,
        1 <= k <= n,
    ensures
        after_oversized(s, n, (k - 1) as nat).board_errors == k - 1,
        ({
            let p = after_oversized(s, n, (k - 1) as nat);
            let wrapped = SessionState { current_board: if p.current_board >= n { 0 } else { p.current_board }, ..p };
            session_step(wrapped, n, SessionEvent::Oversized).1 == if k == n {
                SessionAction::PauseThenClose(OVERSIZED_PAUSE)
            } else {
                SessionAction::Pause(OVERSIZED_PAUSE)
            }
        }),
    decreases k,
{
    if k > 1 {
        lemma_oversized_close(s, n, (k - 1) as nat);
    }
}

} // verus!
