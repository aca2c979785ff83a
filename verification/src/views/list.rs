//! What every list of rows shares: the moves its keys make, the wait between
//! asking for a row and the list having it, and the question a destructive verb
//! asks before it acts.
//!
//! The arithmetic of cursor, margin and page belongs to the viewport that the
//! window holds. A list says which move a command is, and is told where the
//! move landed.
use crate::text;
use vstd::prelude::*;

verus! {

// ---------------------------------------------------------------------------
// Moves
// ---------------------------------------------------------------------------

/// What a command asks of the viewport of a list.
#[derive(Clone, Copy, Debug, PartialEq, Eq, Structural)]
pub enum Motion {
    Down,
    Up,
    PageDown,
    PageUp,
    /// The configured number of rows, without a page's overlap.
    ScrollDown,
    ScrollUp,
    Top,
    Bottom,
    /// One of the list's own commands, with nothing to move.
    Inert,
    /// Not one of the list's commands.
    Unknown,
}

/// The move that a `view.*` command is.
pub open spec fn motion_of(command: Seq<char>) -> Motion {
    if command == "view.down"@ {
        Motion::Down
    } else if command == "view.up"@ {
        Motion::Up
    } else if command == "view.page-down"@ {
        Motion::PageDown
    } else if command == "view.page-up"@ {
        Motion::PageUp
    } else if command == "view.scroll-down"@ {
        Motion::ScrollDown
    } else if command == "view.scroll-up"@ {
        Motion::ScrollUp
    } else if command == "view.top"@ {
        Motion::Top
    } else if command == "view.bottom"@ {
        Motion::Bottom
    } else if command == "view.left"@ || command == "view.right"@ {
        Motion::Inert
    } else {
        Motion::Unknown
    }
}

/// The move that a `view.*` command is. A list has nothing off either side to
/// reach, so the sideways commands are answered without moving anything.
pub fn run_view(command: &str) -> (r: Motion)
    ensures
        r == motion_of(command@),
{
    if text::same(command, "view.down") {
        Motion::Down
    } else if text::same(command, "view.up") {
        Motion::Up
    } else if text::same(command, "view.page-down") {
        Motion::PageDown
    } else if text::same(command, "view.page-up") {
        Motion::PageUp
    } else if text::same(command, "view.scroll-down") {
        Motion::ScrollDown
    } else if text::same(command, "view.scroll-up") {
        Motion::ScrollUp
    } else if text::same(command, "view.top") {
        Motion::Top
    } else if text::same(command, "view.bottom") {
        Motion::Bottom
    } else if text::same(command, "view.left") || text::same(command, "view.right") {
        Motion::Inert
    } else {
        Motion::Unknown
    }
}

/// Ten commands are the list's, each its own move: eight of them move the
/// keyboard, and the sideways two move nothing.
pub proof fn each_command_is_its_own_move()
    ensures
        motion_of("view.down"@) == Motion::Down,
        motion_of("view.up"@) == Motion::Up,
        motion_of("view.page-down"@) == Motion::PageDown,
        motion_of("view.page-up"@) == Motion::PageUp,
        motion_of("view.scroll-down"@) == Motion::ScrollDown,
        motion_of("view.scroll-up"@) == Motion::ScrollUp,
        motion_of("view.top"@) == Motion::Top,
        motion_of("view.bottom"@) == Motion::Bottom,
        motion_of("view.left"@) == Motion::Inert,
        motion_of("view.right"@) == Motion::Inert,
{
    reveal_strlit("view.down");
    reveal_strlit("view.up");
    reveal_strlit("view.page-down");
    reveal_strlit("view.page-up");
    reveal_strlit("view.scroll-down");
    reveal_strlit("view.scroll-up");
    reveal_strlit("view.top");
    reveal_strlit("view.bottom");
    reveal_strlit("view.left");
    reveal_strlit("view.right");
    assert("view.down"@.len() == 9);
    assert("view.up"@.len() == 7);
    assert("view.page-down"@.len() == 14);
    assert("view.page-up"@.len() == 12);
    assert("view.scroll-down"@.len() == 16);
    assert("view.scroll-up"@.len() == 14);
    assert("view.top"@.len() == 8);
    assert("view.bottom"@.len() == 11);
    assert("view.left"@.len() == 9);
    assert("view.right"@.len() == 10);
    assert("view.down"@[5] != "view.left"@[5]);
    assert("view.page-down"@[5] != "view.scroll-up"@[5]);
}

impl Motion {
    /// The command is one of the list's: it was answered.
    pub open spec fn answers(self) -> bool {
        self != Motion::Unknown
    }

    /// The keyboard moves.
    pub open spec fn moves(self) -> bool {
        self != Motion::Unknown && self != Motion::Inert
    }

    /// The rows move under the keyboard, by a number of rows.
    pub open spec fn scrolls(self) -> bool {
        self == Motion::ScrollDown || self == Motion::ScrollUp
    }

    /// Whether the rows move under the keyboard.
    pub fn is_scroll(self) -> (r: bool)
        ensures
            r == self.scrolls(),
    {
        self == Motion::ScrollDown || self == Motion::ScrollUp
    }

    /// Whether the command is one of the list's.
    pub fn answered(self) -> (r: bool)
        ensures
            r == self.answers(),
    {
        self != Motion::Unknown
    }

    /// Whether the keyboard moves.
    pub fn is_move(self) -> (r: bool)
        ensures
            r == self.moves(),
    {
        self != Motion::Unknown && self != Motion::Inert
    }

    /// A landing on a heading steps off it backwards. A jump to the bottom does
    /// too: what stands above the last heading is the end of the list.
    pub open spec fn backward(self) -> bool {
        self == Motion::Up || self == Motion::PageUp || self == Motion::ScrollUp || self
            == Motion::Bottom
    }

    /// Whether a landing on a heading steps off it backwards.
    pub fn steps_back(self) -> (r: bool)
        ensures
            r == self.backward(),
    {
        self == Motion::Up || self == Motion::PageUp || self == Motion::ScrollUp || self
            == Motion::Bottom
    }
}

// ---------------------------------------------------------------------------
// Headings
// ---------------------------------------------------------------------------

/// The first row from `from` on that is no heading.
pub open spec fn next_row(headings: Seq<bool>, from: int) -> Option<int>
    decreases headings.len() - from,
{
    if from < 0 || from >= headings.len() {
        None
    } else if !headings[from] {
        Some(from)
    } else {
        next_row(headings, from + 1)
    }
}

/// The last row before `below` that is no heading.
pub open spec fn prev_row(headings: Seq<bool>, below: int) -> Option<int>
    decreases below,
{
    if below <= 0 || below > headings.len() {
        None
    } else if !headings[below - 1] {
        Some(below - 1)
    } else {
        prev_row(headings, below - 1)
    }
}

/// Where the keyboard rests after a move that landed it on `at`: on `at`, unless
/// that is a heading. Off a heading it steps on in the direction of the move,
/// and the other way only where there is nothing further on.
pub open spec fn settled(headings: Seq<bool>, at: int, back: bool) -> int {
    if !(0 <= at < headings.len()) || !headings[at] {
        at
    } else {
        let ahead = next_row(headings, at + 1);
        let behind = prev_row(headings, at);
        match (back, ahead, behind) {
            (false, Some(i), _) => i,
            (false, None, Some(i)) => i,
            (true, _, Some(i)) => i,
            (true, Some(i), None) => i,
            (_, None, None) => at,
        }
    }
}

proof fn next_row_is_first(headings: Seq<bool>, from: int)
    requires
        0 <= from,
    ensures
        match next_row(headings, from) {
            Some(i) => from <= i < headings.len() && !headings[i] && forall|j: int|
                from <= j < i ==> headings[j],
            None => forall|j: int| from <= j < headings.len() ==> headings[j],
        },
    decreases headings.len() - from,
{
    if from < headings.len() && headings[from] {
        next_row_is_first(headings, from + 1);
    }
}

proof fn prev_row_is_last(headings: Seq<bool>, below: int)
    requires
        0 <= below <= headings.len(),
    ensures
        match prev_row(headings, below) {
            Some(i) => 0 <= i < below && !headings[i] && forall|j: int| i < j < below ==> headings[j],
            None => forall|j: int| 0 <= j < below ==> headings[j],
        },
    decreases below,
{
    if below > 0 && headings[below - 1] {
        prev_row_is_last(headings, below - 1);
    }
}

/// The keyboard never rests on a heading while there is anything else to rest
/// on, never leaves the list, and stays where it is on a row that is no heading.
pub proof fn settling_avoids_headings(headings: Seq<bool>, at: int, back: bool)
    requires
        0 <= at < headings.len(),
    ensures
        0 <= settled(headings, at, back) < headings.len(),
        !headings[at] ==> settled(headings, at, back) == at,
        (exists|i: int| 0 <= i < headings.len() && !headings[i]) ==> !headings[settled(
            headings,
            at,
            back,
        )],
{
    next_row_is_first(headings, at + 1);
    prev_row_is_last(headings, at);
}

/// Off a heading the keyboard goes to the nearest row in its direction, where
/// there is one.
pub proof fn settling_keeps_its_direction(headings: Seq<bool>, at: int, i: int)
    requires
        0 <= at < headings.len(),
        headings[at],
        0 <= i < headings.len(),
        !headings[i],
    ensures
        i > at ==> at < settled(headings, at, false) <= i,
        i < at ==> i <= settled(headings, at, true) < at,
{
    next_row_is_first(headings, at + 1);
    prev_row_is_last(headings, at);
}

/// Where the keyboard rests, given which rows are headings.
pub fn settle(headings: &Vec<bool>, at: usize, back: bool) -> (r: usize)
    ensures
        r == settled(headings@, at as int, back),
{
    if at >= headings.len() || !headings[at] {
        return at;
    }
    proof {
        next_row_is_first(headings@, at + 1);
        prev_row_is_last(headings@, at as int);
    }
    let len: usize = headings.len();
    let mut ahead: usize = at + 1;
    while ahead < len && headings[ahead]
        invariant
            len == headings@.len(),
            at < ahead <= len,
            forall|j: int| at < j < ahead ==> headings@[j],
        decreases len - ahead,
    {
        ahead += 1;
    }
    let mut behind: usize = at;
    while behind > 0 && headings[behind - 1]
        invariant
            behind <= at < headings@.len(),
            forall|j: int| behind <= j < at ==> headings@[j],
        decreases behind,
    {
        behind -= 1;
    }
    if back {
        if behind > 0 {
            behind - 1
        } else if ahead < len {
            ahead
        } else {
            at
        }
    } else {
        if ahead < len {
            ahead
        } else if behind > 0 {
            behind - 1
        } else {
            at
        }
    }
}

// ---------------------------------------------------------------------------
// Anchors
// ---------------------------------------------------------------------------

/// A row number that a list of `len` rows has. An empty list rests on zero.
pub open spec fn inside(row: usize, len: nat) -> bool {
    row == 0 || row < len
}

/// `row`, held inside a list of `len` rows.
pub open spec fn held_row(row: int, len: nat) -> int {
    if len == 0 {
        0
    } else if row >= len {
        len - 1
    } else {
        row
    }
}

/// `row`, held inside a list of `len` rows.
pub fn hold(row: usize, len: usize) -> (r: usize)
    ensures
        r == held_row(row as int, len as nat),
        inside(r, len as nat),
{
    if len == 0 {
        0
    } else if row >= len {
        len - 1
    } else {
        row
    }
}

/// The first row that answers to `key`.
pub open spec fn row_of_key<K>(keys: Seq<Option<K>>, key: K) -> Option<int>
    decreases keys.len(),
{
    if keys.len() == 0 {
        None
    } else {
        match row_of_key(keys.drop_last(), key) {
            Some(i) => Some(i),
            None => if keys.last() == Some(key) {
                Some(keys.len() - 1)
            } else {
                None
            },
        }
    }
}

/// A row found among the first rows is the first of all.
pub proof fn first_key_stays<K>(keys: Seq<Option<K>>, key: K, n: int)
    requires
        0 <= n <= keys.len(),
        row_of_key(keys.take(n), key) is Some,
    ensures
        row_of_key(keys, key) == row_of_key(keys.take(n), key),
    decreases keys.len(),
{
    if n < keys.len() {
        assert(keys.drop_last().take(n) =~= keys.take(n));
        first_key_stays(keys.drop_last(), key, n);
    } else {
        assert(keys.take(n) =~= keys);
    }
}

/// The row found by a key is the first that answers to it, and none is found only
/// where none does.
pub proof fn key_is_found<K>(keys: Seq<Option<K>>, key: K)
    ensures
        match row_of_key(keys, key) {
            Some(i) => 0 <= i < keys.len() && keys[i] == Some(key) && forall|j: int|
                0 <= j < i ==> keys[j] != Some(key),
            None => forall|j: int| 0 <= j < keys.len() ==> keys[j] != Some(key),
        },
    decreases keys.len(),
{
    if keys.len() > 0 {
        let rest = keys.drop_last();
        key_is_found(rest, key);
        assert(forall|j: int| 0 <= j < rest.len() ==> rest[j] == keys[j]);
    }
}

/// Where the keyboard goes when a list's rows are replaced: to the row it was
/// on, if the new rows still have it; to the same row number otherwise, or the
/// last row of a shorter list.
pub open spec fn anchored<K>(keys: Seq<Option<K>>, was: Option<K>, cursor: int) -> int {
    let kept = match was {
        Some(k) => match row_of_key(keys, k) {
            Some(i) => i,
            None => cursor,
        },
        None => cursor,
    };
    held_row(kept, keys.len())
}

/// A refresh leaves the keyboard on its row while that row survives, and inside
/// the list in any case.
pub proof fn a_refresh_keeps_the_row<K>(keys: Seq<Option<K>>, was: Option<K>, cursor: int)
    requires
        keys.len() > 0,
        0 <= cursor,
    ensures
        0 <= anchored(keys, was, cursor) < keys.len(),
        was is Some && keys.contains(was) ==> keys[anchored(keys, was, cursor)] == was,
{
    if was is Some {
        key_is_found(keys, was.unwrap());
    }
}

// ---------------------------------------------------------------------------
// The wait for a row
// ---------------------------------------------------------------------------

/// Whether a list waits for a row it asked for. The row is asked for by number,
/// before the list has measured what it now holds, and is there once the list
/// has taken the request. Wheel pixels that arrive in between are kept by the
/// window and spent when the wait ends.
#[derive(Clone, Copy, Debug, PartialEq, Eq, Structural)]
pub struct PendingScroll {
    pub awaiting: bool,
}

/// What to do with a turn of the wheel.
#[derive(Clone, Copy, Debug, PartialEq, Eq, Structural)]
pub enum Wheel {
    /// Add its pixels to those that wait with the request.
    Join,
    /// Withdraw a request that is somebody else's, and move the list now.
    Replace,
    /// Move the list now.
    Live,
}

/// What to do to put a row at the top of the list.
#[derive(Clone, Copy, Debug, PartialEq, Eq, Structural)]
pub enum Show {
    /// Ask for the row: the list has not measured what it holds.
    Park,
    /// Write the offset.
    Write,
}

/// What a list that moved under its viewport asks for.
#[derive(Clone, Copy, Debug, PartialEq, Eq, Structural)]
pub enum Drift {
    /// It did not move, or is about to.
    Leave,
    /// Remember the offset: the row at the top is the same.
    Note,
    /// Remember the offset, and take the viewport to its row.
    Follow,
}

impl PendingScroll {
    /// Waiting for nothing.
    pub fn new() -> (r: PendingScroll)
        ensures
            !r.awaiting,
    {
        PendingScroll { awaiting: false }
    }

    /// Whether a row is waited for.
    pub fn is_awaiting(&self) -> (r: bool)
        ensures
            r == self.awaiting,
    {
        self.awaiting
    }

    /// A row was asked for. Pixels kept so far belong to an earlier request.
    pub fn begin(&mut self)
        ensures
            final(self).awaiting,
    {
        self.awaiting = true;
    }

    /// The wait is over without a row: a newer position won.
    pub fn cancel(&mut self)
        ensures
            !final(self).awaiting,
    {
        self.awaiting = false;
    }

    /// What to do with a turn of the wheel, where `parked` says that a request
    /// stands. A request that nothing here waits for is somebody else's.
    pub fn wheel(&self, parked: bool) -> (r: Wheel)
        ensures
            r == wheel_route(self.awaiting, parked),
    {
        if parked && self.awaiting {
            Wheel::Join
        } else if parked {
            Wheel::Replace
        } else {
            Wheel::Live
        }
    }

    /// Whether the list's offset is the one that was waited for. It is once the
    /// request is gone, and only once.
    pub fn accept(&mut self, parked: bool) -> (r: bool)
        ensures
            r == (old(self).awaiting && !parked),
            final(self).awaiting == (old(self).awaiting && parked),
    {
        if !self.awaiting || parked {
            return false;
        }
        self.awaiting = false;
        true
    }
}

/// What to do with a turn of the wheel.
pub open spec fn wheel_route(awaiting: bool, parked: bool) -> Wheel {
    if parked && awaiting {
        Wheel::Join
    } else if parked {
        Wheel::Replace
    } else {
        Wheel::Live
    }
}

/// What a list asks for whose offset may have been moved.
pub open spec fn drift_of(parked: bool, moved: bool, shown: usize, top: usize) -> Drift {
    if parked || !moved {
        Drift::Leave
    } else if shown == top {
        Drift::Note
    } else {
        Drift::Follow
    }
}

/// How to put a row at the top of a list. While a request stands its target is
/// replaced: writing an offset now would be held to the old number of rows.
pub fn show(parked: bool) -> (r: Show)
    ensures
        r == if parked {
            Show::Park
        } else {
            Show::Write
        },
{
    if parked {
        Show::Park
    } else {
        Show::Write
    }
}

/// What a list asks for whose offset may have been moved by a scrollbar. Only a
/// mismatch with what was last written counts, so two commands in a row do not
/// fight over it.
pub fn reconcile(parked: bool, moved: bool, shown: usize, top: usize) -> (r: Drift)
    ensures
        r == drift_of(parked, moved, shown, top),
{
    if parked || !moved {
        Drift::Leave
    } else if shown == top {
        Drift::Note
    } else {
        Drift::Follow
    }
}

/// What the window does with its viewport and its list after rows were replaced.
#[derive(Clone, Copy, Debug, PartialEq, Eq, Structural)]
pub struct Landing {
    /// The row for the keyboard.
    pub cursor: usize,
    /// Ask for the viewport's top row. An empty list forgets its request and
    /// goes back to its top instead.
    pub park: bool,
}

// ---------------------------------------------------------------------------
// Questions
// ---------------------------------------------------------------------------

/// A destructive verb aimed at `target` while the question `armed` stands: what
/// stands afterwards, and whether the verb may act. It asks first, and acts on
/// the second press at the same target.
pub open spec fn pressed<K>(armed: Option<K>, target: K) -> (Option<K>, bool) {
    if armed == Some(target) {
        (None, true)
    } else {
        (Some(target), false)
    }
}

/// A verb acts on the second press at a target, and the third press asks again.
pub proof fn the_second_press_acts<K>(armed: Option<K>, target: K)
    requires
        !pressed(armed, target).1,
    ensures
        pressed(pressed(armed, target).0, target).1,
        !pressed(pressed(pressed(armed, target).0, target).0, target).1,
{
}

/// A press at another target moves the question there and acts on neither.
pub proof fn another_target_moves_the_question<K>(armed: K, target: K)
    requires
        armed != target,
    ensures
        pressed(Some(armed), target) == (Some(target), false),
        !pressed(pressed(Some(armed), target).0, armed).1,
{
}

/// No verb acts while no question stands: dropping the question makes the next
/// press ask.
pub proof fn nothing_armed_only_asks<K>(target: K)
    ensures
        pressed(None, target) == (Some(target), false),
{
}

} // verus!
