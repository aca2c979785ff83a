//! The branch list.
use gitten_shell::views::branches::{
    drift, flatten, head_info, prepare, row, row_target, upstream_counts, Branch, Branches,
    HeadInfo, HeadState, Prepared, RefInks, RemoteBranch, Row, Section, Target, Upstream,
};
use gitten_shell::views::list::{settle, Motion, Wheel};

/// A full-length commit id, for its shape rather than its value.
fn sha() -> String {
    "0123456789abcdef0123456789abcdef01234567".to_string()
}

fn inks() -> RefInks {
    RefInks { dim: 1, accent: 2, error: 3, quiet: 4, lanes: vec![10, 11, 12, 13, 14, 15] }
}

fn local(name: &str, head: bool) -> Branch {
    Branch { name: name.as_bytes().to_vec(), head, upstream: None }
}

fn tracking(name: &str, head: bool, ahead: Option<u32>, behind: Option<u32>) -> Branch {
    Branch { upstream: Some(Upstream { ahead, behind }), ..local(name, head) }
}

fn remote(name: &str) -> RemoteBranch {
    RemoteBranch { remote: b"origin".to_vec(), branch: name.as_bytes().to_vec() }
}

/// Headings and rows in draw order, with each row's dot.
fn outline(rows: &[Row]) -> Vec<String> {
    rows.iter()
        .map(|r| match r {
            Row::Detached { dot, text } => format!("{}[detached {text}]", dot.glyph),
            Row::Heading { count, section } => format!("[{}·{count}]", section.name()),
            Row::Local(l) => match &l.counts {
                Some(c) => format!("{}{} {c}", l.dot.glyph, l.name_text),
                None => format!("{}{}", l.dot.glyph, l.name_text),
            },
            Row::Remote(r) => format!("{}{}", r.dot.glyph, r.label),
        })
        .collect()
}

/// What a target is, as something to hold against another.
fn aim(t: &Target) -> String {
    format!("{t:?}")
}

/// The viewport that owns the keyboard: `height` rows of a list of `len`.
struct Viewport {
    len: usize,
    cursor: usize,
}

impl Viewport {
    fn step(&mut self, motion: Motion, height: usize) {
        let last = self.len.saturating_sub(1);
        let page = height.saturating_sub(1);
        self.cursor = match motion {
            Motion::Down => (self.cursor + 1).min(last),
            Motion::Up => self.cursor.saturating_sub(1),
            Motion::PageDown => (self.cursor + page).min(last),
            Motion::PageUp => self.cursor.saturating_sub(page),
            Motion::Top => 0,
            Motion::Bottom => last,
            _ => self.cursor,
        };
    }
}

/// Runs a command the way the pane's owner does.
fn key(b: &mut Branches, command: &str) -> bool {
    let motion = b.run_view(command);
    if motion.is_move() {
        let mut v = Viewport { len: b.rows(), cursor: b.cursor };
        v.step(motion, 3);
        b.landed(motion, v.cursor);
    }
    motion.answered()
}

#[test]
fn locals_come_first_and_the_remote_group_is_quiet_but_there() {
    let t = inks();
    let rows = flatten(
        &vec![local("feature", false), local("main", true)],
        &vec![remote("main"), remote("wip")],
        None,
        &t,
    );
    assert_eq!(
        outline(&rows),
        vec![
            "[local·2]",
            "●feature",
            "●main",
            "[remote·2]",
            "○origin/main",
            "○origin/wip",
        ]
    );
    match (&rows[1], &rows[2]) {
        (Row::Local(feature), Row::Local(main)) => {
            assert_eq!(feature.dot.color, t.lanes[0], "the first local takes the first lane ink");
            assert_eq!(main.dot.color, t.accent, "HEAD alone earns the accent");
        }
        other => panic!("two local rows expected, got {other:?}"),
    }
    for row in [&rows[4], &rows[5]] {
        match row {
            Row::Remote(r) => assert_eq!(
                (r.dot.glyph, r.dot.color),
                ("○", t.quiet),
                "a remote copy is hollow and quiet — quiet, not invisible"
            ),
            other => panic!("a remote row expected, got {other:?}"),
        }
    }
    // An empty group draws no heading at all.
    assert_eq!(
        outline(&flatten(&vec![local("main", true)], &vec![], None, &t)),
        vec!["[local·1]", "●main"]
    );
}

#[test]
fn a_detached_head_is_its_own_top_row_not_a_hidden_state() {
    let t = inks();
    let rows = flatten(
        &vec![local("main", false)],
        &vec![],
        Some(&HeadState::Detached { commit: sha() }),
        &t,
    );
    assert_eq!(
        outline(&rows)[0],
        "●[detached (detached at 01234567…)]",
        "abbreviated once, at flatten"
    );
    match &rows[0] {
        Row::Detached { dot, .. } => assert_eq!(dot.color, t.dim),
        other => panic!("the detached row expected, got {other:?}"),
    }
    // And attached heads put no such row anywhere.
    let attached = flatten(&vec![local("main", true)], &vec![], Some(&HeadState::Branch), &t);
    assert!(!outline(&attached).iter().any(|r| r.contains("detached")));
}

#[test]
fn tracking_speaks_in_arrows_and_zeros_stay_silent() {
    let rows = flatten(
        &vec![
            tracking("synced", false, Some(0), Some(0)),
            tracking("ahead", false, Some(2), Some(0)),
            tracking("behind", true, Some(0), Some(3)),
            tracking("both", false, Some(1), Some(4)),
        ],
        &vec![],
        None,
        &inks(),
    );
    assert_eq!(
        outline(&rows),
        vec!["[local·4]", "●synced", "●ahead ↑2", "●behind ↓3", "●both ↑1 ↓4"],
        "distance only — the ref itself is the remote group's job"
    );
    // Fully in sync draws nothing at all: `None`, not an empty string.
    match &rows[1] {
        Row::Local(l) => assert_eq!(l.counts, None, "an in-sync branch is bare"),
        other => panic!("the synced row expected, got {other:?}"),
    }
}

#[test]
fn a_gone_upstream_is_named_gone_rather_than_reading_as_zero() {
    let rows = flatten(&vec![tracking("old", false, None, None)], &vec![], None, &inks());
    assert_eq!(outline(&rows), vec!["[local·1]", "●old (gone)"]);
    match &rows[1] {
        Row::Local(l) => {
            assert!(l.gone);
            assert_eq!(l.counts.as_deref(), Some("(gone)"));
        }
        other => panic!("the tracking row expected, got {other:?}"),
    }
    assert_eq!(
        upstream_counts(&Upstream { ahead: Some(1), behind: None }),
        (Some("(gone)".to_string()), true)
    );
}

#[test]
fn names_keep_their_bytes_and_display_lossily_once() {
    // Latin-1 é and ø: legal ref bytes, illegal UTF-8.
    let rows = flatten(
        &vec![Branch { name: b"f\xe9ature".to_vec(), ..local("unused", false) }],
        &vec![RemoteBranch { remote: b"origin".to_vec(), branch: b"w\xf8rk".to_vec() }],
        None,
        &inks(),
    );
    match &rows[1] {
        Row::Local(l) => {
            assert_eq!(l.name.as_slice(), b"f\xe9ature", "addressing keeps bytes");
            assert!(
                l.name_text.contains('\u{FFFD}'),
                "display decodes lossily instead of failing"
            );
        }
        other => panic!("the local row expected, got {other:?}"),
    }
    match &rows[3] {
        Row::Remote(r) => {
            assert_eq!(r.branch.as_slice(), b"w\xf8rk");
            assert!(r.label.contains('\u{FFFD}'));
        }
        other => panic!("the remote row expected, got {other:?}"),
    }
}

#[test]
fn targets_are_what_verbs_aim_at_bytes_included() {
    let rows = flatten(
        &vec![local("main", true)],
        &vec![remote("main")],
        Some(&HeadState::Detached { commit: sha() }),
        &inks(),
    );
    assert!(
        matches!(row_target(&rows[0]), Some(Target::Detached)),
        "the detached row is a place verbs can refuse honestly"
    );
    assert!(matches!(row_target(&rows[2]), Some(Target::Local(n)) if n == b"main"));
    assert!(matches!(
        row_target(&rows[4]),
        Some(Target::Remote { remote, branch }) if remote == b"origin" && branch == b"main"
    ));
    assert!(row_target(&rows[1]).is_none(), "a heading aims at nothing");
    assert!(row_target(&rows[3]).is_none());
}

/// A pane over two locals, the keyboard on the second.
fn two() -> Branches {
    let mut b = Branches::from_prepared(prepare(
        &vec![local("feature", false), local("main", true)],
        &vec![],
        None,
        &inks(),
        "",
    ));
    // The keyboard opens on `feature`, past the heading; down is `main`.
    assert!(key(&mut b, "view.down"));
    b
}

#[test]
fn a_delete_arms_then_confirms_and_any_cursor_move_disarms() {
    let mut b = two();
    let target = b.current().expect("a branch under the keyboard");

    // First press: asked, not acted.
    assert!(!b.confirm_or_arm_delete(&target));
    assert_eq!(b.armed_row().as_ref().map(aim), Some(aim(&target)));
    assert_eq!(b.tinted_row(), Some(2));

    // Second press on the same row: act, and the slot is spent.
    assert!(b.confirm_or_arm_delete(&target));
    assert!(b.armed_row().is_none());

    // A third press starts over — there is no latched yes.
    assert!(!b.confirm_or_arm_delete(&target));

    // The keyboard moving drops the question before it can lie.
    assert!(key(&mut b, "view.down"));
    assert!(b.armed_row().is_none(), "the arm did not survive its own cursor move");
}

#[test]
fn a_refresh_disarms_an_armed_delete_even_when_the_branch_survives() {
    let mut b = two();
    let target = b.current().expect("a branch under the keyboard");
    assert!(!b.confirm_or_arm_delete(&target));
    assert_eq!(b.armed_row().as_ref().map(aim), Some(aim(&target)));

    // A refresh that changes nothing at all still says "things moved".
    b.replace_prepared(prepare(
        &vec![local("feature", false), local("main", true)],
        &vec![],
        None,
        &inks(),
        "",
    ));
    assert!(b.armed_row().is_none(), "the question did not survive");
    // And the press after it re-arms rather than executes.
    assert!(!b.confirm_or_arm_delete(&target));

    // The same when the branch itself is gone under the arm.
    assert!(b.confirm_or_arm_delete(&target));
    b.replace_prepared(prepare(&vec![local("main", true)], &vec![], None, &inks(), ""));
    assert!(b.armed_row().is_none());
    // The cursor clamped onto the branch that remains.
    assert!(
        matches!(b.current(), Some(Target::Local(n)) if n == b"main"),
        "the vanished anchor fell back to clamping"
    );
}

#[test]
fn the_label_counts_both_groups_and_an_empty_repository_flattens_to_nothing() {
    let p = prepare(&vec![local("main", true)], &vec![remote("main")], None, &inks(), "gitten (main)");
    assert_eq!(p.label, "gitten (main) · 1 local · 1 remote");

    let empty = prepare(&vec![], &vec![], None, &inks(), "gitten");
    assert_eq!(empty.label, "gitten · 0 local · 0 remote");
    assert_eq!(empty.rows.len(), 0);
    assert!(empty.head.is_none(), "no branch, nothing to name");

    // And the prepared type is what a refresh hands the pane.
    let p: Prepared = p;
    assert!(!p.rows.is_empty());
}

#[test]
fn head_info_names_the_attached_branch_and_hands_through_its_distance() {
    let attached = HeadState::Branch;
    let p = prepare(
        &vec![tracking("main", true, Some(1), Some(2))],
        &vec![],
        Some(&attached),
        &inks(),
        "",
    );
    {
        let head: &HeadInfo = p.head.as_ref().expect("attached HEAD has a name");
        assert_eq!(head.branch, "main");
        assert_eq!((head.ahead, head.behind), (Some(1), Some(2)));
        assert_eq!(head.chip, "⎇ main");
        assert_eq!(head.drift.as_deref(), Some(" · ↑1 ↓2"));
    }
    // And the pane hands it on for the title strip.
    let b = Branches::from_prepared(p);
    let hi = b.head_info().as_ref().expect("attached HEAD has a name");
    assert_eq!(hi.branch, "main");
    assert_eq!((hi.ahead, hi.behind), (Some(1), Some(2)));

    // A gone upstream stays honest: unknowable is not zero.
    let hi = head_info(Some(&attached), &vec![tracking("main", true, None, None)])
        .expect("gone still names its branch");
    assert_eq!((hi.ahead, hi.behind), (None, None), "a vanished ref measures to nothing");
    assert_eq!(hi.drift, None, "and the chip invents no zeros for it");
}

#[test]
fn drift_shows_both_arrows_once_either_is_non_zero_and_nothing_otherwise() {
    assert_eq!(drift(Some(2), Some(0)).as_deref(), Some(" · ↑2 ↓0"));
    assert_eq!(drift(None, Some(3)).as_deref(), Some(" · ↑0 ↓3"));
    assert_eq!(drift(Some(0), Some(0)), None);
    assert_eq!(drift(None, None), None);
}

#[test]
fn head_info_says_nothing_while_detached_or_unmarked() {
    // Detached: there is no branch to name.
    let p = prepare(
        &vec![local("main", false)],
        &vec![],
        Some(&HeadState::Detached { commit: sha() }),
        &inks(),
        "",
    );
    assert!(p.head.is_none());

    // Attached to a name no local row claims: nothing invented to fill the slot.
    let bare = prepare(&vec![local("other", false)], &vec![], Some(&HeadState::Branch), &inks(), "");
    assert!(bare.head.is_none());
    assert!(Branches::from_prepared(bare).head_info().is_none());
}

#[test]
fn lane_inks_follow_a_locals_place_among_locals_head_excluded() {
    let t = inks();
    let rows = flatten(
        &vec![
            tracking("held", true, Some(3), Some(0)),
            local("second", false),
            local("third", false),
        ],
        &vec![],
        None,
        &t,
    );
    match (&rows[1], &rows[2], &rows[3]) {
        (Row::Local(head), Row::Local(second), Row::Local(third)) => {
            assert_eq!(second.name.as_slice(), b"second");
            assert_eq!(head.dot.color, t.accent, "HEAD sits out of the cycle");
            assert_eq!(
                second.dot.color, t.lanes[1],
                "its index counts from the first local, marked or not"
            );
            assert_eq!(third.dot.color, t.lanes[2]);
        }
        other => panic!("three local rows expected, got {other:?}"),
    }
}

/// A pane over `[local·2] a b [remote·1] origin/a`.
fn pane() -> Branches {
    Branches::from_prepared(prepare(
        &vec![local("a", true), local("b", false)],
        &vec![remote("a")],
        None,
        &inks(),
        "",
    ))
}

#[test]
fn the_cursor_opens_on_the_first_branch_and_never_rests_on_a_heading() {
    let mut b = pane();
    // Row 0 is the heading; the keyboard starts under it.
    assert_eq!(b.cursor, 1);
    assert!(matches!(b.current(), Some(Target::Local(n)) if n == b"a"));

    // Down twice: b, then over the second heading onto origin/a.
    assert!(key(&mut b, "view.down"));
    assert_eq!(b.cursor, 2);
    assert!(key(&mut b, "view.down"));
    assert_eq!(b.cursor, 4, "down skipped the heading in its own direction");

    // Back up: over the heading again, landing on b.
    assert!(key(&mut b, "view.up"));
    assert_eq!(b.cursor, 2, "up skipped the heading in its own direction");

    // Up from the first branch lands on the top heading, which is the edge —
    // so it settles forward and the cursor stays where it was.
    assert!(key(&mut b, "view.up"));
    assert!(key(&mut b, "view.up"));
    assert_eq!(b.cursor, 1, "the top heading is not a resting place");

    // Jumps obey the same rule.
    assert!(key(&mut b, "view.bottom"));
    assert_eq!(b.cursor, 4);
    assert!(key(&mut b, "view.top"));
    assert_eq!(b.cursor, 1);
}

#[test]
fn a_refresh_that_strands_the_cursor_on_a_heading_steps_off_it() {
    let mut b = pane();
    // Onto b.
    assert!(key(&mut b, "view.down"));
    // b vanishes and a remote arrives at its place in the list.
    b.replace_prepared(prepare(
        &vec![local("a", true)],
        &vec![remote("a"), remote("b")],
        None,
        &inks(),
        "",
    ));
    assert!(
        b.current().is_some(),
        "the cursor rests on a heading after a refresh: row {}",
        b.cursor
    );
}

#[test]
fn settle_is_the_identity_off_a_heading_and_survives_a_heading_only_list() {
    let headings = |rows: &[Row]| -> Vec<bool> {
        rows.iter().map(|r| matches!(r, Row::Heading { .. })).collect()
    };
    let rows = flatten(&vec![local("a", true)], &vec![remote("a")], None, &inks());
    for i in [1, 3] {
        assert_eq!(settle(&headings(&rows), i, false), i);
        assert_eq!(settle(&headings(&rows), i, true), i);
    }
    // Nothing to settle onto: the input comes back, and nothing panics.
    let only = vec![Row::Heading { count: "0".into(), section: Section::Local }];
    assert_eq!(settle(&headings(&only), 0, false), 0);
    assert_eq!(settle(&headings(&only), 0, true), 0);
    assert_eq!(settle(&vec![], 0, false), 0);
}

#[test]
fn copying_spells_the_ref() {
    let mut b = pane();
    assert_eq!(b.cursor_text(), "a");
    key(&mut b, "view.bottom");
    assert_eq!(b.cursor_text(), "origin/a");
    assert_eq!(Section::Remote.label(), "REMOTE");
    assert!(!b.select_all() && !b.select_none() && !b.pan_pixels());
}

#[test]
fn one_question_stands_whichever_verb_asked_it() {
    let mut b = pane();
    let a = b.current().unwrap();
    assert!(!b.confirm_or_arm_delete(&a));
    assert!(b.confirm_or_arm_rebase(&a), "the same slot answers");
    assert!(!b.confirm_or_arm_rebase(&a));
    assert!(!b.wheeled(false, 2), "a list that cannot move");
    assert!(b.armed_row().is_some() && b.cursor == 1);
    assert!(b.wheeled(true, 2));
    assert!(b.armed_row().is_none());
    assert_eq!(b.scroll_pixels(false), Wheel::Live);
    b.followed(4);
    assert_eq!(b.cursor, 4);
    b.set_focused(true);
    assert!(b.focused() && !b.is_empty());
}

#[test]
fn wherever_the_viewport_lands_the_keyboard_rests_on_a_branch() {
    let all = [
        "view.down",
        "view.up",
        "view.page-down",
        "view.page-up",
        "view.scroll-down",
        "view.scroll-up",
        "view.top",
        "view.bottom",
    ];
    for command in all {
        for row in [0, 1, 2, 3, 4, 40] {
            let mut b = pane();
            let a = b.current().unwrap();
            b.confirm_or_arm_delete(&a);
            let motion = b.run_view(command);
            let at = b.landed(motion, row);
            assert_eq!(at, b.cursor);
            assert!(at < b.rows() && b.current().is_some(), "{command} to {row}");
            assert!(b.armed_row().is_none(), "{command} to {row}");
        }
    }
    // The sideways commands are answered and move nothing; others are not.
    for (command, answered) in [("view.left", true), ("view.right", true), ("view.zoom", false)] {
        let mut b = pane();
        let a = b.current().unwrap();
        b.confirm_or_arm_delete(&a);
        let motion = b.run_view(command);
        assert_eq!(motion.answered(), answered);
        assert_eq!(b.landed(motion, 4), 1);
        assert_eq!(b.cursor, 1);
        assert!(b.armed_row().is_some());
    }
    let mut b = pane();
    assert!(b.wheeled(true, 40));
    assert_eq!(b.cursor, 4);
    b.followed(40);
    assert_eq!(b.cursor, 4);
}

#[test]
fn an_armed_row_is_drawn_in_the_error_ink() {
    let rows = flatten(&vec![local("a", false)], &vec![], None, &inks());
    assert_eq!(row(&rows[1], &inks(), true).name, Some(3));
    assert_eq!(row(&rows[1], &inks(), false).name, None);
}
