//! What every list shares: its commands, where the keyboard comes to rest, and the
//! wait for a row.
use crate::views::list::{
    anchored, each_command_is_its_own_move, hold, key_is_found, next_row, prev_row, reconcile,
    row_of_key, run_view, settle, settling_avoids_headings, settling_keeps_its_direction, show,
    Drift, Motion, PendingScroll, Show, Wheel,
};
use vstd::prelude::*;

verus! {

/// Each name is its own move, the sideways ones move nothing, and any other name is
/// not the list's.
pub proof fn a_name_is_its_own_move(command: &str, r: Motion)
    requires
        call_ensures(run_view, (command,), r),
    ensures
        r == Motion::Down <==> command@ == "view.down"@,
        r == Motion::Up <==> command@ == "view.up"@,
        r == Motion::PageDown <==> command@ == "view.page-down"@,
        r == Motion::PageUp <==> command@ == "view.page-up"@,
        r == Motion::ScrollDown <==> command@ == "view.scroll-down"@,
        r == Motion::ScrollUp <==> command@ == "view.scroll-up"@,
        r == Motion::Top <==> command@ == "view.top"@,
        r == Motion::Bottom <==> command@ == "view.bottom"@,
        r == Motion::Inert <==> command@ == "view.left"@ || command@ == "view.right"@,
{
    each_command_is_its_own_move();
}

/// What a move is: every command of the list is answered, all but the sideways ones
/// move the keyboard, the two scrolls move the rows under it, and those that go up,
/// and the jump to the bottom, step off a heading backwards.
pub proof fn what_each_move_is(
    motion: Motion,
    answered: bool,
    moves: bool,
    scrolls: bool,
    back: bool,
)
    requires
        call_ensures(Motion::answered, (motion,), answered),
        call_ensures(Motion::is_move, (motion,), moves),
        call_ensures(Motion::is_scroll, (motion,), scrolls),
        call_ensures(Motion::steps_back, (motion,), back),
    ensures
        !answered <==> motion == Motion::Unknown,
        !moves <==> motion == Motion::Unknown || motion == Motion::Inert,
        scrolls <==> motion == Motion::ScrollDown || motion == Motion::ScrollUp,
        back <==> motion == Motion::Up || motion == Motion::PageUp || motion == Motion::ScrollUp
            || motion == Motion::Bottom,
{
}

/// The keyboard rests where it landed unless that is a heading; off a heading it goes
/// to the nearest row in its direction, to the nearest the other way where there is
/// none, and stays only where there is no row at all.
pub proof fn the_keyboard_rests_on_a_row(
    headings: Vec<bool>,
    at: usize,
    back: bool,
    r: usize,
    i: int,
)
    requires
        call_ensures(settle, (&headings, at, back), r),
        at < headings@.len(),
        0 <= i < headings@.len(),
        !headings@[i],
    ensures
        r < headings@.len(),
        !headings@[r as int],
        !headings@[at as int] ==> r == at,
        headings@[at as int] && !back && i > at ==> at < r <= i,
        headings@[at as int] && back && i < at ==> i <= r < at,
        headings@[at as int] && !back && i < at ==> r > at || i <= r,
        headings@[at as int] && back && i > at ==> r < at || r <= i,
{
    settling_avoids_headings(headings@, at as int, back);
    if headings@[at as int] {
        settling_keeps_its_direction(headings@, at as int, i);
        nearest_either_way(headings@, at as int);
    }
}

proof fn nearest_either_way(headings: Seq<bool>, at: int)
    requires
        0 <= at < headings.len(),
        headings[at],
    ensures
        match next_row(headings, at + 1) {
            Some(i) => at < i < headings.len() && forall|j: int| at < j < i ==> headings[j],
            None => forall|j: int| at < j < headings.len() ==> headings[j],
        },
        match prev_row(headings, at) {
            Some(i) => 0 <= i < at && forall|j: int| i < j < at ==> headings[j],
            None => forall|j: int| 0 <= j < at ==> headings[j],
        },
{
    first_ahead(headings, at + 1);
    last_behind(headings, at);
}

proof fn first_ahead(headings: Seq<bool>, from: int)
    requires
        0 <= from,
    ensures
        match next_row(headings, from) {
            Some(i) => from <= i < headings.len() && forall|j: int| from <= j < i ==> headings[j],
            None => forall|j: int| from <= j < headings.len() ==> headings[j],
        },
    decreases headings.len() - from,
{
    if from < headings.len() && headings[from] {
        first_ahead(headings, from + 1);
    }
}

proof fn last_behind(headings: Seq<bool>, below: int)
    requires
        0 <= below <= headings.len(),
    ensures
        match prev_row(headings, below) {
            Some(i) => 0 <= i < below && forall|j: int| i < j < below ==> headings[j],
            None => forall|j: int| 0 <= j < below ==> headings[j],
        },
    decreases below,
{
    if below > 0 && headings[below - 1] {
        last_behind(headings, below - 1);
    }
}

/// A key that no row answers to any more leaves the keyboard on its row number, or on
/// the last row of a shorter list.
pub proof fn a_lost_row_leaves_its_number<K>(keys: Seq<Option<K>>, was: Option<K>, cursor: int)
    requires
        0 <= cursor,
        was is Some ==> !keys.contains(was),
    ensures
        cursor < keys.len() ==> anchored(keys, was, cursor) == cursor,
        0 < keys.len() <= cursor ==> anchored(keys, was, cursor) == keys.len() - 1,
        keys.len() == 0 ==> anchored(keys, was, cursor) == 0,
{
    if was is Some {
        key_is_found(keys, was.unwrap());
        if row_of_key(keys, was.unwrap()) is Some {
            assert(keys.contains(keys[row_of_key(keys, was.unwrap()).unwrap()]));
        }
    }
}

/// A row number is held inside its list: kept where there is such a row, the last
/// past the end, and zero in an empty list.
pub proof fn a_row_is_held_inside_its_list(row: usize, len: usize, r: usize)
    requires
        call_ensures(hold, (row, len), r),
    ensures
        row < len ==> r == row,
        0 < len <= row ==> r + 1 == len,
        len == 0 ==> r == 0,
{
}

/// A request is waited for from when it is made until it is taken or withdrawn, and
/// is taken once: when it no longer stands.
pub proof fn a_request_is_taken_once(
    fresh: PendingScroll,
    a: Ghost<&mut PendingScroll>,
    b: Ghost<&mut PendingScroll>,
    c: Ghost<&mut PendingScroll>,
    d: Ghost<&mut PendingScroll>,
    r: bool,
    s: bool,
)
    requires
        call_ensures(PendingScroll::new, (), fresh),
        call_ensures(PendingScroll::begin, (a@,), ()),
        *b@ == *final(a@),
        call_ensures(PendingScroll::accept, (b@, false), r),
        *c@ == *final(b@),
        call_ensures(PendingScroll::accept, (c@, false), s),
        call_ensures(PendingScroll::cancel, (d@,), ()),
    ensures
        !fresh.awaiting,
        final(a@).awaiting,
        r,
        !final(b@).awaiting,
        !s,
        !final(c@).awaiting,
        !final(d@).awaiting,
{
}

/// While the request stands nothing is taken and the wait goes on.
pub proof fn a_standing_request_is_waited_for(a: Ghost<&mut PendingScroll>, r: bool)
    requires
        call_ensures(PendingScroll::accept, (a@, true), r),
    ensures
        !r,
        final(a@).awaiting == a@.awaiting,
{
}

/// A turn of the wheel joins a request of the list's own, replaces somebody else's,
/// and moves the list at once where none stands.
pub proof fn a_wheel_joins_its_own_request(p: PendingScroll, parked: bool, r: Wheel, s: Show)
    requires
        call_ensures(PendingScroll::wheel, (&p, parked), r),
        call_ensures(show, (parked,), s),
    ensures
        r == Wheel::Live <==> !parked,
        parked && p.awaiting ==> r == Wheel::Join,
        parked && !p.awaiting ==> r == Wheel::Replace,
        s == Show::Park <==> parked,
{
}

/// A list is followed where it was moved to another row, noted where it was moved
/// within its row, and left where it was not moved or is about to be.
pub proof fn a_moved_list_is_followed(parked: bool, moved: bool, shown: usize, top: usize, r: Drift)
    requires
        call_ensures(reconcile, (parked, moved, shown, top), r),
    ensures
        r == Drift::Follow <==> !parked && moved && shown != top,
        r == Drift::Note <==> !parked && moved && shown == top,
        r == Drift::Leave <==> parked || !moved,
{
}

} // verus!
