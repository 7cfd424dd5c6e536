//! Terminal grid (80 x 25), notifications and widget primitives.

use vstd::prelude::*;
use crate::table::find_free;
use super::{Rect, UiError, MAX_NOTIFICATIONS, TERM_COLS, TERM_ROWS};

verus! {

#[derive(Clone, Copy, Debug, PartialEq, Eq, Structural)]
pub enum WidgetType {
    Button { label_id: u16 },
    Label { text_len: u8 },
    Panel,
    TextField,
}

#[derive(Clone, Copy, Debug)]
pub struct Widget {
    pub id: u16,
    pub bounds: Rect,
    pub widget_type: WidgetType,
    pub active: bool,
}

/// The grid as rows of bytes.
pub open spec fn grid_rows(g: [[u8; TERM_COLS]; TERM_ROWS]) -> Seq<Seq<u8>> {
    Seq::new(TERM_ROWS as nat, |r: int| g@[r]@)
}

pub open spec fn blank_row() -> Seq<u8> {
    Seq::new(TERM_COLS as nat, |c: int| 32u8)
}

/// The grid moved up one row, with a blank bottom row.
pub open spec fn scrolled(rows: Seq<Seq<u8>>) -> Seq<Seq<u8>> {
    rows.subrange(1, TERM_ROWS as int).push(blank_row())
}

/// Grid, cursor row and cursor column after writing `ch`: a newline moves to
/// the start of the next row, a carriage return to the start of the row,
/// other bytes are stored at the cursor (when it is on the grid) and advance
/// it; a full row wraps, and moving below the last row scrolls.
pub open spec fn term_write(rows: Seq<Seq<u8>>, row: int, col: int, ch: u8) -> (Seq<Seq<u8>>, int, int) {
    let (g1, r1, c1) = if ch == 10 {
        (rows, row + 1, 0)
    } else if ch == 13 {
        (rows, row, 0)
    } else if row < TERM_ROWS && col < TERM_COLS {
        (rows.update(row, rows[row].update(col, ch)), row, col + 1)
    } else {
        (rows, row, col)
    };
    let (r2, c2) = if c1 >= TERM_COLS { (r1 + 1, 0) } else { (r1, c1) };
    if r2 >= TERM_ROWS { (scrolled(g1), TERM_ROWS - 1, c2) } else { (g1, r2, c2) }
}

#[derive(Debug)]
pub struct TerminalBackend {
    pub grid: [[u8; TERM_COLS]; TERM_ROWS],
    pub cursor_row: usize,
    pub cursor_col: usize,
}

impl TerminalBackend {
    pub fn new() -> (t: Self)
        ensures
            grid_rows(t.grid) == Seq::new(TERM_ROWS as nat, |r: int| blank_row()),
            t.cursor_row == 0,
            t.cursor_col == 0,
    {
        let t = TerminalBackend { grid: [[32u8; TERM_COLS]; TERM_ROWS], cursor_row: 0, cursor_col: 0 };
        assert forall|r: int| 0 <= r < TERM_ROWS implies #[trigger] t.grid@[r]@ =~= blank_row() by {}
        assert(grid_rows(t.grid) =~= Seq::new(TERM_ROWS as nat, |r: int| blank_row()));
        t
    }

    pub fn write_char(&mut self, ch: u8)
        requires
            old(self).cursor_row < usize::MAX,
            old(self).cursor_col < usize::MAX,
        ensures
            (grid_rows(final(self).grid), final(self).cursor_row as int, final(self).cursor_col as int)
                == term_write(grid_rows(old(self).grid), old(self).cursor_row as int, old(self).cursor_col as int, ch),
    {
        if ch == 10u8 {
            self.cursor_col = 0;
            self.cursor_row = self.cursor_row + 1;
        } else if ch == 13u8 {
            self.cursor_col = 0;
        } else {
            if self.cursor_row < TERM_ROWS && self.cursor_col < TERM_COLS {
                let ghost before = grid_rows(self.grid);
                let mut line = self.grid[self.cursor_row];
                line[self.cursor_col] = ch;
                self.grid[self.cursor_row] = line;
                assert(grid_rows(self.grid) =~= before.update(self.cursor_row as int, before[self.cursor_row as int].update(self.cursor_col as int, ch)));
                self.cursor_col = self.cursor_col + 1;
            }
        }
        if self.cursor_col >= TERM_COLS {
            self.cursor_col = 0;
            self.cursor_row = self.cursor_row + 1;
        }
        if self.cursor_row >= TERM_ROWS {
            self.scroll_up();
        }
    }

    fn scroll_up(&mut self)
        ensures
            grid_rows(final(self).grid) == scrolled(grid_rows(old(self).grid)),
            final(self).cursor_row == TERM_ROWS - 1,
            final(self).cursor_col == old(self).cursor_col,
    {
        let ghost before = grid_rows(self.grid);
        let mut r: usize = 1;
        while r < TERM_ROWS
            invariant
                1 <= r <= TERM_ROWS,
                self.cursor_col == old(self).cursor_col,
                before == grid_rows(old(self).grid),
                forall|k: int| 0 <= k < r - 1 ==> #[trigger] self.grid@[k]@ == before[k + 1],
                forall|k: int| r - 1 <= k < TERM_ROWS ==> #[trigger] self.grid@[k]@ == before[k],
            decreases TERM_ROWS - r,
        {
            self.grid[r - 1] = self.grid[r];
            r += 1;
        }
        self.grid[TERM_ROWS - 1] = [32u8; TERM_COLS];
        self.cursor_row = TERM_ROWS - 1;
        assert(self.grid@[TERM_ROWS - 1]@ =~= blank_row());
        assert(grid_rows(self.grid) =~= scrolled(before));
    }
}

impl Default for TerminalBackend {
    fn default() -> (t: Self)
        ensures
            grid_rows(t.grid) == Seq::new(TERM_ROWS as nat, |r: int| blank_row()),
            t.cursor_row == 0,
            t.cursor_col == 0,
    {
        Self::new()
    }
}

#[derive(Clone, Copy, Debug, PartialEq, Eq, Structural)]
pub struct Notification {
    pub id: u32,
    pub title_hash: u64,
    pub timestamp: u64,
    pub active: bool,
}

/// Sixteen notification slots filled in order and never cleared; the `n`-th
/// notification (from 0) has id `n + 1`.
#[derive(Debug)]
pub struct NotificationDaemon {
    notifications: [Option<Notification>; MAX_NOTIFICATIONS],
    counter: u32,
}

impl NotificationDaemon {
    pub closed spec fn wf(&self) -> bool {
        &&& 1 <= self.counter <= 1 + MAX_NOTIFICATIONS
        &&& forall|i: int| 0 <= i < MAX_NOTIFICATIONS ==> ((#[trigger] self.notifications@[i]) is Some <==> i < self.counter - 1)
    }

    /// The notifications posted so far, oldest first.
    pub closed spec fn posted(&self) -> Seq<Notification> {
        Seq::new((self.counter - 1) as nat, |i: int| self.notifications@[i]->Some_0)
    }

    pub fn new() -> (d: Self)
        ensures
            d.wf(),
            d.posted() == Seq::<Notification>::empty(),
    {
        let d = NotificationDaemon { notifications: [None; MAX_NOTIFICATIONS], counter: 1 };
        assert(d.posted() =~= Seq::<Notification>::empty());
        d
    }

    pub fn push_notification(&mut self, title_hash: u64, timestamp: u64) -> (r: Result<u32, UiError>)
        requires
            old(self).wf(),
        ensures
            final(self).wf(),
            old(self).posted().len() == MAX_NOTIFICATIONS ==> r == Err::<u32, UiError>(UiError::Full)
                && final(self).posted() == old(self).posted(),
            old(self).posted().len() < MAX_NOTIFICATIONS ==> {
                let nid = (old(self).posted().len() + 1) as u32;
                &&& r == Ok::<u32, UiError>(nid)
                &&& final(self).posted() == old(self).posted().push(Notification { id: nid, title_hash, timestamp, active: true })
            },
    {
        let nid = self.counter;
        match find_free(&self.notifications) {
            Some(i) => {
                assert(i == self.counter - 1) by {
                    if i < self.counter - 1 {
                        assert(self.notifications@[i as int] is Some);
                    } else if i > self.counter - 1 {
                        assert(self.notifications@[self.counter - 1] is None);
                    }
                }
                let ghost before = self.posted();
                self.notifications[i] = Some(Notification { id: nid, title_hash, timestamp, active: true });
                self.counter = self.counter + 1;
                assert(self.posted() =~= before.push(Notification { id: nid, title_hash, timestamp, active: true }));
                Ok(nid)
            },
            None => {
                assert(self.counter - 1 == MAX_NOTIFICATIONS) by {
                    if self.counter - 1 < MAX_NOTIFICATIONS {
                        assert(self.notifications@[self.counter - 1] is None);
                    }
                }
                Err(UiError::Full)
            },
        }
    }
}

impl Default for NotificationDaemon {
    fn default() -> (d: Self)
        ensures
            d.wf(),
            d.posted() == Seq::<Notification>::empty(),
    {
        Self::new()
    }
}

} // verus!
