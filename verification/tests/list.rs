//! What every list shares: motions, headings, parked positions and questions.
use gitten_shell::views::list::{
    reconcile, run_view, settle, show, Drift, Motion, PendingScroll, Show, Wheel,
};

/// A list that has a position parked on it, as a restore leaves one.
struct Parked {
    pending: PendingScroll,
    request: Option<usize>,
    offset: i64,
    synced: i64,
}

impl Parked {
    fn at(row: usize) -> Parked {
        let mut pending = PendingScroll::new();
        pending.begin();
        Parked { pending, request: Some(row), offset: 0, synced: 0 }
    }

    /// The list takes the request and writes the offset it settled on.
    fn prepaint(&mut self, y: i64) {
        self.request = None;
        self.offset = y;
    }

    fn accept(&mut self) -> Option<i64> {
        if self.pending.accept(self.request.is_some()) {
            self.synced = self.offset;
            Some(self.offset)
        } else {
            None
        }
    }
}

#[test]
fn an_offset_is_accepted_only_once_the_request_is_gone() {
    let mut list = Parked::at(40);
    assert!(list.accept().is_none());
    assert!(list.pending.is_awaiting(), "still waiting on prepaint");
    assert_eq!(list.synced, 0);

    list.prepaint(-880);
    assert_eq!(list.accept(), Some(-880));
    assert_eq!(list.synced, -880);
    assert!(!list.pending.is_awaiting(), "and it stops waiting");

    // Once, and not again: a second call has nothing left to accept.
    assert!(list.accept().is_none());
}

#[test]
fn nothing_awaiting_accepts_nothing() {
    let mut list = Parked { pending: PendingScroll::new(), request: None, offset: 0, synced: 0 };
    list.prepaint(-100);
    assert!(list.accept().is_none());
    assert_eq!(list.synced, 0, "an unasked-for offset was adopted");
}

#[test]
fn a_consumed_offset_with_no_wheel_is_left_exactly_as_prepaint_wrote_it() {
    let mut list = Parked::at(40);
    list.prepaint(-880);
    assert_eq!(list.accept(), Some(-880));
    assert_eq!(list.offset, -880);
}

#[test]
fn a_thumb_write_cancels_the_request_it_would_otherwise_fight() {
    let mut list = Parked::at(40);
    list.pending.cancel();
    list.prepaint(-220);
    assert!(!list.pending.is_awaiting());
    assert!(list.accept().is_none());
}

#[test]
fn a_wheel_joins_its_own_request_and_replaces_any_other() {
    let mut pending = PendingScroll::new();
    assert_eq!(pending.wheel(false), Wheel::Live);
    assert_eq!(pending.wheel(true), Wheel::Replace);
    pending.begin();
    assert_eq!(pending.wheel(true), Wheel::Join);
    pending.cancel();
    assert_eq!(pending.wheel(true), Wheel::Replace);
    assert_eq!(show(true), Show::Park);
    assert_eq!(show(false), Show::Write);
}

#[test]
fn a_drag_is_met_once() {
    assert_eq!(reconcile(true, true, 10, 0), Drift::Leave, "a parked list is the list's");
    assert_eq!(reconcile(false, false, 10, 0), Drift::Leave, "nothing moved");
    assert_eq!(reconcile(false, true, 10, 10), Drift::Note, "half a row");
    assert_eq!(reconcile(false, true, 10, 0), Drift::Follow);
}

#[test]
fn the_view_commands_are_motions() {
    for (name, motion) in [
        ("view.down", Motion::Down),
        ("view.up", Motion::Up),
        ("view.page-down", Motion::PageDown),
        ("view.page-up", Motion::PageUp),
        ("view.scroll-down", Motion::ScrollDown),
        ("view.scroll-up", Motion::ScrollUp),
        ("view.top", Motion::Top),
        ("view.bottom", Motion::Bottom),
        ("view.left", Motion::Inert),
        ("view.right", Motion::Inert),
        ("view.sideways", Motion::Unknown),
    ] {
        assert_eq!(run_view(name), motion, "{name}");
        assert_eq!(motion.answered(), motion != Motion::Unknown);
        assert_eq!(motion.is_move(), motion != Motion::Unknown && motion != Motion::Inert);
    }
    assert!(Motion::Up.steps_back() && Motion::Bottom.steps_back());
    assert!(!Motion::Down.steps_back() && !Motion::Top.steps_back());
}

#[test]
fn a_heading_is_stepped_off_in_the_direction_of_travel() {
    let rows = vec![true, false, false, true, false];
    assert_eq!(settle(&rows, 3, false), 4);
    assert_eq!(settle(&rows, 3, true), 2);
    assert_eq!(settle(&rows, 0, true), 1, "the edge turns it round");
    assert_eq!(settle(&rows, 2, false), 2);
    assert_eq!(settle(&vec![true, true], 1, false), 1, "nowhere to go");
    assert_eq!(settle(&vec![], 0, true), 0);
}
