//! The commit list, and the history beside it.
use gitten_shell::views::commits::{
    load_line, prepare, query_text, rel_time, Commit, Commits,
};
use gitten_shell::views::history::{
    detail, detail_with, initial, timeline, working_tree, TimelineInks,
};
use gitten_shell::views::list::{show, Drift, Motion, Show, Wheel};

/// One commit with everything the view needs, and nothing it reads.
fn commit(n: usize) -> Commit {
    Commit {
        sha: format!("{n:040x}"),
        short: format!("abc00{n}"),
        parents: vec![],
        author: "someone".to_string(),
        timestamp: 1_700_000_000 + n as i64,
        subject: format!("the {n}th change"),
    }
}

fn commits(n: usize) -> Vec<Commit> {
    (0..n).map(commit).collect()
}

/// A history whose subjects alternate between two words, so half of it
/// survives any query the tests type and the rest does not.
fn mixed_history() -> Vec<Commit> {
    (0..30usize)
        .map(|n| {
            let even = n % 2 == 0;
            Commit {
                author: if even { "ada" } else { "grace" }.to_string(),
                subject: if even {
                    format!("engine note {n}")
                } else {
                    format!("compiler pass {n}")
                },
                ..commit(n)
            }
        })
        .collect()
}

/// The viewport that owns the keyboard and the top row.
#[derive(Clone, Copy)]
struct Viewport {
    len: usize,
    height: usize,
    margin: usize,
    cursor: usize,
    top: usize,
}

impl Viewport {
    fn fresh(margin: usize) -> Viewport {
        Viewport { len: 0, height: 0, margin, cursor: 0, top: 0 }
    }

    fn last(&self) -> usize {
        self.len.saturating_sub(1)
    }

    fn hold(&mut self) {
        self.cursor = self.cursor.min(self.last());
        let lowest = match self.height {
            0 => self.last(),
            h => self.len.saturating_sub(h),
        };
        if self.height > 0 {
            let margin = self.margin.min((self.height - 1) / 2);
            if self.cursor < self.top + margin {
                self.top = self.cursor.saturating_sub(margin);
            }
            if self.cursor + margin >= self.top + self.height {
                self.top = self.cursor + margin + 1 - self.height;
            }
        }
        self.top = self.top.min(lowest);
    }

    fn go_to(&mut self, row: usize) {
        self.cursor = row;
        self.hold();
    }

    fn scroll_to(&mut self, row: usize) {
        self.top = row.min(match self.height {
            0 => self.last(),
            h => self.len.saturating_sub(h),
        });
        let margin = match self.height {
            0 => 0,
            h => self.margin.min((h - 1) / 2),
        };
        if self.top > 0 && self.cursor < self.top + margin {
            self.cursor = (self.top + margin).min(self.last());
        }
        if self.height > 0 && self.cursor + margin >= self.top + self.height {
            self.cursor = self.top + self.height - margin - 1;
        }
    }

    fn step(&mut self, motion: Motion) {
        let page = self.height.saturating_sub(1);
        match motion {
            Motion::Down => self.go_to((self.cursor + 1).min(self.last())),
            Motion::Up => self.go_to(self.cursor.saturating_sub(1)),
            Motion::PageDown => self.go_to((self.cursor + page).min(self.last())),
            Motion::PageUp => self.go_to(self.cursor.saturating_sub(page)),
            Motion::ScrollDown => self.scroll_to(self.top + 1),
            Motion::ScrollUp => self.scroll_to(self.top.saturating_sub(1)),
            Motion::Top => self.go_to(0),
            Motion::Bottom => self.go_to(self.last()),
            _ => {}
        }
    }
}

/// A pane and the viewport over it.
struct Pane {
    c: Commits,
    v: Viewport,
}

impl Pane {
    fn new(commits: Vec<Commit>, height: usize, margin: usize) -> Pane {
        let c = Commits::new(prepare(commits, 1_700_000_000));
        let v = Viewport { len: c.rows(), height, margin, cursor: 0, top: 0 };
        Pane { c, v }
    }

    fn key(&mut self, command: &str) -> bool {
        let motion = self.c.run_view(command);
        if motion.is_move() {
            self.v.len = self.c.rows();
            self.v.step(motion);
            self.c.landed(motion, self.v.cursor, self.v.top);
        }
        motion.answered()
    }

    fn go_to(&mut self, row: usize) {
        self.v.len = self.c.rows();
        self.v.go_to(row);
        self.c.followed(self.v.cursor, self.v.top);
    }

    /// What a search answers: the rows whose subject or author holds every word.
    fn hits(commits: &[Commit], query: &str) -> Vec<usize> {
        let words: Vec<String> =
            query.to_lowercase().split_whitespace().map(str::to_string).collect();
        commits
            .iter()
            .enumerate()
            .filter(|(_, c)| {
                words.iter().all(|w| {
                    c.subject.to_lowercase().contains(w) || c.author.to_lowercase().contains(w)
                })
            })
            .map(|(i, _)| i)
            .collect()
    }

    fn query(&mut self, typed: &str) {
        let hits = Pane::hits(&self.c.data.commits, typed);
        if let Some(landing) = self.c.apply_query(typed, hits) {
            self.v.len = self.c.rows();
            self.v.go_to(landing.cursor);
            self.c.followed(self.v.cursor, self.v.top);
        }
    }

    fn replace(&mut self, commits: Vec<Commit>) -> bool {
        let hits = match self.c.query() {
            Some(q) => Pane::hits(&commits, q),
            None => vec![],
        };
        let restore = self.c.replace_prepared(prepare(commits, 1_700_000_000), hits);
        self.v.len = self.c.rows();
        self.v.scroll_to(restore.top);
        self.v.go_to(restore.landing.cursor);
        self.c.followed(self.v.cursor, self.v.top);
        restore.landing.park
    }
}

#[test]
fn clearing_a_query_shows_every_commit_around_the_one_it_was_on() {
    let all = commits(30);
    let mut c = Commits::new(prepare(commits(30), 1_700_000_000));
    c.followed(7, 0);
    let sha = c.current().unwrap().sha.to_string();
    // A query that finds the keyboard's commit, and then a blank one.
    assert!(c.apply_query("seventh", vec![3, 7, 12]).is_some());
    assert_eq!((c.rows(), c.cursor()), (3, 1));
    assert_eq!(c.current().unwrap().sha.to_string(), sha);
    assert!(c.filter_note().is_some());
    assert!(c.apply_query("   ", vec![]).is_some());
    assert_eq!((c.rows(), c.rows()), (c.total(), 30));
    assert_eq!((c.query(), c.filter_note()), (None, None));
    assert_eq!(c.cursor(), 7);
    assert_eq!(c.current().unwrap().sha.to_string(), sha);
    for (i, commit) in all.iter().enumerate() {
        assert_eq!(c.commit_at(i).unwrap().sha, commit.sha);
    }
    // A list that shrinks holds the keyboard and the top row inside it.
    c.followed(29, 20);
    assert!(c.apply_query("few", vec![1, 2]).is_some());
    assert_eq!((c.cursor(), c.top), (1, 1));
    c.landed(Motion::Bottom, 90, 90);
    assert_eq!((c.cursor(), c.top), (1, 1));
    c.landed(Motion::Inert, 0, 0);
    assert_eq!((c.cursor(), c.top), (1, 1));
}

#[test]
fn commits_navigation_moves_the_cursor_and_the_view_follows_with_a_margin() {
    let mut p = Pane::new(commits(100), 20, 3);
    assert!(p.key("view.down"));
    assert_eq!(p.c.cursor, 1);
    for _ in 0..19 {
        p.key("view.down");
    }
    assert_eq!(p.c.cursor, 20);
    assert!(p.c.top > 0, "the margin pushed the viewport");
}

#[test]
fn top_and_bottom_reach_both_ends_and_clamp() {
    let mut p = Pane::new(commits(100), 20, 3);
    assert!(p.key("view.bottom"));
    assert_eq!(p.c.cursor, 99);
    assert_eq!(p.c.top, 80, "no screen of blank rows below");
    for _ in 0..3 {
        assert!(p.key("view.up"));
    }
    assert_eq!(p.c.cursor, 96);
    assert!(p.key("view.top"));
    assert_eq!((p.c.cursor, p.c.top), (0, 0));
    assert_eq!(p.c.total(), 100);
}

#[test]
fn commits_sideways_commands_are_answered_without_doing_anything() {
    let mut p = Pane::new(commits(10), 5, 3);
    assert!(p.key("view.left"));
    assert!(p.key("view.right"));
    assert!(!p.c.pan_pixels());
}

#[test]
fn copy_falls_back_to_the_row_the_keyboard_is_on() {
    let mut p = Pane::new(commits(30), 20, 3);
    p.key("view.down");
    p.key("view.down");
    let text = p.c.cursor_text();
    assert!(text.contains("abc002") && text.contains("the 2th change"), "{text:?}");
    assert_eq!(text, "abc002 the 2th change");
    assert!(!p.c.select_all());
    assert!(!p.c.select_none());
}

#[test]
fn commits_a_fresh_viewport_restores_a_saved_row_without_preseeding() {
    let mut c = Commits::new(prepare(commits(100), 0));
    let mut v = Viewport::fresh(5);
    let row = c.scroll_to(40).expect("a row to park");
    v.len = c.rows();
    v.scroll_to(row);
    c.parked(v.cursor, v.top);
    v.go_to(40);
    c.followed(v.cursor, v.top);
    assert_eq!(c.cursor, 40, "the keyboard came back where it left off");
    assert_eq!(c.top, 40);
    assert_eq!(v.len, 100);
    // First real height settles with the file's margin above the cursor.
    v.height = 30;
    v.hold();
    assert_eq!((v.cursor, v.top), (40, 35));
}

#[test]
fn replacement_follows_commit_identity_across_insertions() {
    let mut p = Pane::new(commits(30), 10, 3);
    let selected = p.c.data.commits[12].sha.clone();
    let visible = p.c.data.commits[8].sha.clone();
    p.v.scroll_to(8);
    p.go_to(12);
    assert_eq!((p.c.cursor, p.c.top), (12, 8));

    let mut refreshed = vec![commit(99)];
    refreshed.extend(commits(30));
    p.replace(refreshed);

    assert_eq!(p.c.data.commits[p.c.cursor].sha, selected);
    assert_eq!(p.c.data.commits[p.c.top].sha, visible);
}

#[test]
fn replacement_clamps_missing_anchors_and_accepts_empty_history() {
    let mut p = Pane::new(commits(30), 10, 3);
    p.go_to(25);

    p.replace(commits(3));
    assert_eq!(p.c.cursor, 2);
    let parked = p.replace(Vec::new());
    assert_eq!(p.c.total(), 0);
    assert_eq!((p.c.cursor, p.c.top), (0, 0));
    assert!(!parked, "an empty list has no row to park");
}

#[test]
fn commits_a_restored_row_inside_the_first_screen_still_moves_the_list() {
    let mut p = Pane::new(commits(100), 0, 3);
    // A row near the top is parked like any other.
    let row = p.c.scroll_to(5).expect("a request to park");
    assert_eq!(row, 5);
    p.v.scroll_to(row);
    p.c.parked(p.v.cursor, p.v.top);
    assert_eq!(p.c.top, 5, "and the model says so too");
    assert!(p.c.pending.is_awaiting());

    // A command before layout replaces the target: an offset written now would be
    // held to the rows that the list knew before.
    assert!(p.key("view.down"));
    assert_eq!(show(true), Show::Park);
    p.c.parked(p.v.cursor, p.v.top);
    let before = p.c.top;
    assert_eq!(before, p.v.top);
    assert!(p.c.pending.is_awaiting());

    // The wheel joins the parked request instead of moving it.
    assert_eq!(p.c.scroll_pixels(true), Wheel::Join);
    assert_eq!(p.c.top, before, "the strict baseline moved");
    assert!(p.c.pending.is_awaiting());
}

#[test]
fn consuming_a_deferred_restore_is_not_reconciled_as_a_drag() {
    let mut p = Pane::new(commits(100), 0, 3);
    let row = p.c.scroll_to(40).expect("a request to park");
    p.v.scroll_to(row);
    p.c.parked(p.v.cursor, p.v.top);
    p.go_to(40);

    // Measurement comes before the list takes the request.
    assert!(!p.c.pending.accept(true));
    assert!(p.c.pending.is_awaiting());
    assert!(p.c.pending.accept(false));
    assert!(!p.c.pending.is_awaiting());

    // The list stands where the restore left it, so there is no drag to meet.
    assert_eq!(p.c.reconcile(false, false, 40, 40), Drift::Leave);
    p.v.height = 20;
    assert!(p.key("view.down"));
    assert_eq!(p.c.cursor, 41);
}

#[test]
fn a_thumb_drag_cancels_a_parked_strict_position() {
    let mut p = Pane::new(commits(100), 0, 3);
    let row = p.c.scroll_to(40).expect("a request to park");
    p.v.scroll_to(row);
    p.c.parked(p.v.cursor, p.v.top);
    assert_eq!(p.c.scroll_pixels(true), Wheel::Join);
    p.c.pending.cancel();
    assert!(!p.c.pending.is_awaiting());
    assert!(!p.c.pending.accept(false), "nothing is left to accept");
}

#[test]
fn commits_key_navigation_uses_the_live_scrolloff() {
    let mut tight = Pane::new(commits(100), 20, 3);
    let mut loose = Pane::new(commits(100), 20, 8);
    for _ in 0..16 {
        tight.key("view.down");
        loose.key("view.down");
    }
    assert_eq!(tight.c.cursor, loose.c.cursor);
    assert_eq!(tight.c.top, 0, "a three-row margin holds at cursor 16");
    assert!(loose.c.top > 0, "an eight-row margin scrolled already");
}

#[test]
fn commits_a_thumb_drag_is_reconciled_before_anything_reads_the_cursor() {
    let mut p = Pane::new(commits(100), 20, 3);
    assert_eq!(p.c.cursor, 0, "the stale cursor is the bug");

    // Ten rows of drag.
    assert_eq!(p.c.reconcile(false, true, 10, p.v.top), Drift::Follow);
    p.v.scroll_to(10);
    p.c.followed(p.v.cursor, p.v.top);
    assert_eq!(p.c.top, 10);
    assert_eq!(p.c.cursor, 13, "top ten plus the three-row margin");
    // And the commit under that cursor is the one open/copy now name.
    let text = p.c.cursor_text();
    assert!(text.contains("abc0013"), "{text:?}");
    assert_eq!(p.c.current().map(|cm| cm.short.as_str()), Some("abc0013"));

    // Meeting the list twice is not moving it twice.
    assert_eq!(p.c.reconcile(false, false, 10, p.v.top), Drift::Leave);
    assert_eq!((p.c.top, p.c.cursor), (10, 13));
}

#[test]
fn a_query_filters_live_and_the_keyboard_stays_on_its_commit() {
    let mut p = Pane::new(mixed_history(), 10, 3);
    for _ in 0..4 {
        p.key("view.down");
    }
    let anchored_sha = p.c.current().expect("a commit under the cursor").sha.clone();

    p.query("  ENGINE  ");
    assert_eq!(p.c.rows(), 15, "half the history matches, folded");
    assert_eq!(p.c.filter_note().as_deref(), Some("15/30"));
    assert_eq!(p.c.current().map(|cm| cm.sha.as_str()), Some(anchored_sha.as_str()));
    assert!(p.c.cursor_text().contains("engine note"), "{:?}", p.c.cursor_text());
}

#[test]
fn narrowing_past_the_anchor_clamps_instead_of_pointing_nowhere() {
    let mut p = Pane::new(mixed_history(), 10, 3);
    p.key("view.bottom");
    p.query("engine");
    assert!(p.c.cursor < p.c.rows(), "the cursor outlived its own list");
    assert!(p.c.current().is_some());
    assert_eq!(p.c.filter_note().as_deref(), Some("15/30"));
}

#[test]
fn a_query_matching_nothing_empties_the_list_and_holds_together() {
    let mut p = Pane::new(commits(20), 10, 3);
    p.query("nothing matches this");
    assert_eq!(p.c.total(), 20, "the filter narrows what is shown, never what is loaded");
    assert_eq!(p.c.rows(), 0);
    assert!(p.c.current().is_none());
    assert_eq!(p.c.filter_note().as_deref(), Some("0/20"));

    // Clearing puts every row back where it started.
    p.query("");
    assert_eq!(p.c.rows(), 20);
    assert!(p.c.query().is_none());
    assert_eq!(p.c.filter_note(), None);
}

#[test]
fn clearing_restores_the_full_list_under_the_same_commit() {
    let mut p = Pane::new(mixed_history(), 10, 3);
    for _ in 0..6 {
        p.key("view.down");
    }
    let before = p.c.current().map(|cm| cm.sha.clone()).unwrap();

    p.query("ada");
    assert_eq!(p.c.rows(), 15);
    p.query("");
    assert_eq!(p.c.rows(), 30);
    assert_eq!(
        p.c.current().map(|cm| cm.sha.as_str()),
        Some(before.as_str()),
        "empty restores instantly, cursor included"
    );
}

#[test]
fn a_second_search_finds_the_query_standing() {
    let mut p = Pane::new(mixed_history(), 10, 3);
    assert!(p.c.query().is_none());

    p.query("compiler");
    assert_eq!(p.c.query(), Some("compiler"), "the prompt pre-fills from here");

    // The same query again is no change at all — and rebuilds nothing.
    let before = p.c.visible.as_ptr();
    let rows = p.c.rows();
    let hits = Pane::hits(&p.c.data.commits, "compiler ");
    assert!(p.c.apply_query("compiler ", hits).is_none());
    assert_eq!(p.c.query(), Some("compiler"), "trimmed before comparing");
    assert_eq!(p.c.rows(), rows);
    assert_eq!(p.c.visible.as_ptr(), before, "a no-op query did not rebuild the index");
}

#[test]
fn a_refresh_keeps_the_filter_and_reanchors_within_it() {
    let mut p = Pane::new(mixed_history(), 10, 3);
    p.query("engine");
    let anchored = p.c.current().map(|cm| cm.sha.clone()).unwrap();

    let mut refreshed = mixed_history();
    refreshed.insert(0, Commit { subject: "engine note fresh".to_string(), ..commit(99) });
    p.replace(refreshed);

    assert_eq!(p.c.rows(), 16, "still filtered, over the new data");
    assert_eq!(p.c.current().map(|cm| cm.sha.as_str()), Some(anchored.as_str()));
    assert_eq!(p.c.filter_note().as_deref(), Some("16/31"));
}

/// A fixed "now", so every age under test is a function of seconds alone.
const NOW: i64 = 1_700_000_000;

#[test]
fn rel_time_reads_now_for_the_recent_and_the_future_alike() {
    assert_eq!(rel_time(NOW, NOW), "now");
    assert_eq!(rel_time(NOW - 59, NOW), "now", "59 seconds is still now");
    assert_eq!(
        rel_time(NOW + 120, NOW),
        "now",
        "a committer's clock ahead of ours prints no minus sign"
    );
    assert_eq!(rel_time(i64::MAX, i64::MIN), "now");
}

#[test]
fn rel_time_climbs_through_minutes_hours_and_days() {
    assert_eq!(rel_time(NOW - 60, NOW), "1m", "the minute band opens at 60s");
    assert_eq!(rel_time(NOW - 3_599, NOW), "59m", "the last minute before an hour");
    assert_eq!(rel_time(NOW - 3_600, NOW), "1h");
    assert_eq!(rel_time(NOW - 86_400, NOW), "1d");
    assert_eq!(rel_time(NOW - 6 * 86_400, NOW), "6d", "the last day inside the week band");
}

#[test]
fn rel_time_folds_weeks_months_and_years_to_whole_numbers() {
    assert_eq!(rel_time(NOW - 7 * 86_400, NOW), "1w", "the week band opens at 7d");
    assert_eq!(rel_time(NOW - 29 * 86_400, NOW), "4w", "the last week inside the month band");
    assert_eq!(rel_time(NOW - 30 * 86_400, NOW), "1mo", "the month band opens at 30d");
    assert_eq!(rel_time(NOW - 364 * 86_400, NOW), "12mo", "and `12mo` is four characters wide");
    assert_eq!(rel_time(NOW - 365 * 86_400, NOW), "1y", "the year band opens at 365d");
    assert_eq!(
        rel_time(NOW - 800 * 86_400, NOW),
        "2y",
        "past three hundred sixty-five days the calendar stops being consulted"
    );
}

#[test]
fn a_hard_reset_arms_its_row_and_spends_on_the_same_commit() {
    let mut p = Pane::new(commits(4), 10, 3);
    p.key("view.top");
    let sha = p.c.current().expect("a commit").sha.clone();

    // First press: asked, not acted. The arm names the commit by sha.
    assert!(!p.c.confirm_or_arm_reset(&sha));
    assert_eq!(p.c.armed_sha(), &Some(sha.clone()));
    assert_eq!(p.c.tinted_row(), Some(0));

    // Second press on the same row: act, and the slot is spent.
    assert!(p.c.confirm_or_arm_reset(&sha));
    assert_eq!(p.c.armed_sha(), &None);

    // And a third press starts over: there is no latched yes.
    assert!(!p.c.confirm_or_arm_reset(&sha));
}

#[test]
fn arming_a_different_commit_moves_the_question_rather_than_confirming_it() {
    let mut p = Pane::new(commits(4), 10, 3);
    let (first, second) = (p.c.data.commits[0].sha.clone(), p.c.data.commits[1].sha.clone());

    assert!(!p.c.confirm_or_arm_reset(&first));
    assert!(!p.c.confirm_or_arm_reset(&second));
    assert_eq!(p.c.armed_sha(), &Some(second), "one slot: the question moved");
    assert!(!p.c.confirm_or_arm_reset(&first), "the old arm was already gone");
}

#[test]
fn a_cursor_move_a_wheel_and_a_refresh_all_disarm_a_reset() {
    let mut p = Pane::new(commits(20), 5, 3);
    p.key("view.top");
    let sha0 = p.c.data.commits[0].sha.clone();

    // The keyboard moved.
    assert!(!p.c.confirm_or_arm_reset(&sha0));
    p.key("view.down");
    assert!(p.c.armed_sha().is_none(), "the cursor move disarmed");

    // view.left/right move nothing, so the question stands.
    assert!(!p.c.confirm_or_arm_reset(&sha0));
    p.key("view.right");
    // And a wheel over a list that cannot move changes nothing either.
    let (cursor, top) = (p.c.cursor, p.c.top);
    assert_eq!(p.c.scroll_pixels(false), Wheel::Live);
    assert!(!p.c.wheeled(false, 3, 3));
    assert_eq!((p.c.cursor, p.c.top), (cursor, top));
    assert!(p.c.armed_sha().is_some(), "gestures that moved nothing must not spend the question");

    // A wheel that did move the list does spend it.
    assert!(p.c.wheeled(true, 3, 1));
    assert_eq!((p.c.cursor, p.c.top), (3, 1));
    assert!(p.c.armed_sha().is_none());
    assert!(!p.c.confirm_or_arm_reset(&sha0));

    // The repository moved too.
    p.replace(mixed_history());
    assert!(p.c.armed_sha().is_none(), "a refresh disarmed");

    // And a changed filter is a movement of attention as well.
    assert!(!p.c.confirm_or_arm_reset(&sha0));
    p.query("engine");
    assert!(p.c.armed_sha().is_none(), "a changed query disarmed");
}

#[test]
fn the_load_line_and_the_query_are_spelled() {
    assert_eq!(
        load_line(714, 9, "1.0 ms", "2.0 ms"),
        "714 commits · 9 lanes · lanes 1.0 ms draws 2.0 ms"
    );
    assert_eq!(query_text("  two words "), Some("two words".to_string()));
    assert_eq!(query_text(" \t "), None);
    assert!(!Commits::new(prepare(vec![], 0)).confirm_or_arm_rewrite("x"));
}

#[test]
fn the_timeline_marks_the_head_and_the_keyboard() {
    let mut p = Pane::new(commits(3), 10, 3);
    p.key("view.down");
    let inks = TimelineInks { bg: 1, selection_bg: 2, accent: 3, faint: 4 };
    let head = timeline(&p.c, 0, &inks);
    assert_eq!((head.bg, head.node, head.selected), (1, 3, false));
    assert_eq!(head.meta, "someone · now  abc000");
    let here = timeline(&p.c, 1, &inks);
    assert_eq!((here.bg, here.node, here.selected), (2, 4, true));
    assert_eq!(here.subject, "the 1th change");
    let past = timeline(&p.c, 9, &inks);
    assert_eq!((past.subject.as_str(), past.meta.as_str()), ("", " ·   "));
}

#[test]
fn the_detail_names_the_commit_its_parent_and_its_author() {
    let mut c = commit(0);
    c.author = "émile".to_string();
    c.parents = vec!["0123456789".to_string(), "ffff".to_string()];
    let pane = Commits::new(prepare(vec![c], NOW + 7_200));
    let d = detail(&pane, "main");
    assert_eq!(d.label, "COMMIT abc000");
    assert_eq!(d.subject, "the 0th change");
    assert_eq!(d.avatar.as_deref(), Some("É"));
    assert_eq!(d.committed, "committed 2h");
    assert_eq!(d.parent, "0123456");
    assert_eq!(d.footer, "Authored on main");
    let d = detail_with(&pane, "main", Some("*".to_string()));
    assert_eq!(d.avatar.as_deref(), Some("*"));
}

#[test]
fn no_commit_is_said_rather_than_guessed() {
    let pane = Commits::new(prepare(vec![], NOW));
    let d = detail(&pane, "main");
    assert_eq!(d.subject, "No commit selected");
    assert_eq!((d.label.as_str(), d.committed.as_str()), ("COMMIT ", "committed "));
    assert_eq!(d.parent, "—");
    assert_eq!(d.avatar, None);
    assert_eq!(initial("ßeta").as_deref(), Some("SS"));
    assert_eq!(working_tree(4), "Working tree · 4 files");
    let root = Commits::new(prepare(vec![commit(0)], NOW));
    assert_eq!(detail(&root, "b").parent, "—");
}
