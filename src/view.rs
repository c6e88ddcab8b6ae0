use vstd::prelude::*;
use crate::model::{Document, ParseError};

verus! {

/// The largest scroll offset for a viewport of `rows` rows.
pub open spec fn max_offset(rows: nat) -> nat {
    if rows == 0 {
        0
    } else {
        (rows - 1) as nat
    }
}

/// The offset after one step up.
pub open spec fn up_step(offset: int) -> int {
    vstd::math::max(offset - 1, 0)
}

/// The offset after one step down in a viewport of `rows` rows.
pub open spec fn down_step(offset: int, rows: nat) -> int {
    vstd::math::min(offset + 1, max_offset(rows) as int)
}

/// The offset after `n` steps up.
pub open spec fn ups(offset: int, n: nat) -> int
    decreases n,
{
    if n == 0 {
        offset
    } else {
        up_step(ups(offset, (n - 1) as nat))
    }
}

/// The offset after `n` steps down in a viewport of `rows` rows.
pub open spec fn downs(offset: int, rows: nat, n: nat) -> int
    decreases n,
{
    if n == 0 {
        offset
    } else {
        down_step(downs(offset, rows, (n - 1) as nat), rows)
    }
}

/// Scrolling up from the top, any number of times, stays at the top.
pub proof fn lemma_up_from_top_stays(n: nat)
    ensures
        ups(0, n) == 0,
    decreases n,
{
    if n > 0 {
        lemma_up_from_top_stays((n - 1) as nat);
    }
}

/// Scrolling down from the last row, any number of times, stays at the last row.
pub proof fn lemma_down_from_last_stays(rows: nat, n: nat)
    ensures
        downs(max_offset(rows) as int, rows, n) == max_offset(rows),
    decreases n,
{
    if n > 0 {
        lemma_down_from_last_stays(rows, (n - 1) as nat);
    }
}

/// From an offset within `[0, max_offset(rows)]`, each further step down
/// never lowers the offset and each further step up never raises it, and
/// both stay within that range.
pub proof fn lemma_steps_monotone(offset: int, rows: nat, n: nat)
    requires
        0 <= offset <= max_offset(rows),
    ensures
        offset <= downs(offset, rows, n) <= downs(offset, rows, n + 1) <= max_offset(rows),
        0 <= ups(offset, n + 1) <= ups(offset, n) <= offset,
    decreases n,
{
    if n > 0 {
        lemma_steps_monotone(offset, rows, (n - 1) as nat);
    }
    assert(downs(offset, rows, n + 1) == down_step(downs(offset, rows, n), rows));
    assert(ups(offset, n + 1) == up_step(ups(offset, n)));
}

/// A key press, as far as the dashboard tells keys apart.
pub enum Key {
    Quit,
    Up,
    Down,
    Other,
}

/// The state of one session: what the fetched text parsed to, the scroll
/// offset, and the endpoint that was asked.
pub struct ViewState {
    pub outcome: Result<Document, ParseError>,
    pub offset: usize,
    pub endpoint: String,
}

impl ViewState {
    /// A session that starts at the top of the listing.
    pub fn new(outcome: Result<Document, ParseError>, endpoint: String) -> (r: ViewState)
        ensures
            r.offset == 0,
            r.outcome == outcome,
            r.endpoint == endpoint,
    {
        ViewState { outcome, offset: 0, endpoint }
    }

    /// Moves the selection one row down, never past the last of `rows` rows.
    pub fn scroll_down(&mut self, rows: usize)
        ensures
            final(self).offset == down_step(old(self).offset as int, rows as nat),
            final(self).outcome == old(self).outcome,
            final(self).endpoint == old(self).endpoint,
    {
        let last: usize = if rows == 0 { 0 } else { rows - 1 };
        if self.offset < last {
            self.offset = self.offset + 1;
        } else {
            self.offset = last;
        }
    }

    /// Moves the selection one row up, stopping at the top.
    pub fn scroll_up(&mut self)
        ensures
            final(self).offset == up_step(old(self).offset as int),
            final(self).outcome == old(self).outcome,
            final(self).endpoint == old(self).endpoint,
    {
        if self.offset > 0 {
            self.offset = self.offset - 1;
        }
    }

    /// Applies one key to the state and tells whether the session ends.
    /// Only `Up` and `Down` move the selection; other keys change nothing.
    pub fn apply_key(&mut self, key: Key, rows: usize) -> (quit: bool)
        ensures
            quit == (key is Quit),
            key is Up ==> final(self).offset == up_step(old(self).offset as int),
            key is Down ==> final(self).offset == down_step(old(self).offset as int, rows as nat),
            !(key is Up) && !(key is Down) ==> final(self).offset == old(self).offset,
            final(self).outcome == old(self).outcome,
            final(self).endpoint == old(self).endpoint,
    {
        match key {
            Key::Quit => true,
            Key::Up => {
                self.scroll_up();
                false
            },
            Key::Down => {
                self.scroll_down(rows);
                false
            },
            Key::Other => false,
        }
    }
}

} // verus!
