//! The working tree's list, the inspector and the sidebar beside it.
use gitten_shell::views::files::{
    conflict_letters, discard_question, flatten, prepare, row, Change, ConflictEntry,
    ConflictKind, Entry, FileInks, Files, Mark, Section, StagedEntry, Status, UnstagedEntry,
    UntrackedEntry,
};
use gitten_shell::views::inspector::{render_inspector, ButtonInks, Staged, StagedFile, COMMIT};
use gitten_shell::views::list::Motion;
use gitten_shell::views::sidebar::{
    filter_label, nav, row_click, side_row, stage_click, utility_click, utility_label,
    Destination, GroupedRow, SideEntry, SideInks, SideRow, Step, Utility, FILTER_COMMAND,
    STAGE_ALL_COMMAND,
};

fn staged(path: &str, change: Change) -> StagedEntry {
    StagedEntry { path: path.as_bytes().to_vec(), change, old_path: None }
}

fn unstaged(path: &str, change: Change) -> UnstagedEntry {
    UnstagedEntry { path: path.as_bytes().to_vec(), change }
}

fn untracked(path: &str) -> UntrackedEntry {
    UntrackedEntry { path: path.as_bytes().to_vec() }
}

fn conflict(path: &str, state: ConflictKind) -> ConflictEntry {
    ConflictEntry { path: path.as_bytes().to_vec(), state }
}

fn clean() -> Status {
    Status { staged: vec![], unstaged: vec![], untracked: vec![], conflicts: vec![] }
}

/// Headings and paths in draw order.
fn outline(status: &Status) -> Vec<String> {
    flatten(status)
        .iter()
        .map(|e| match e {
            Entry::Heading { count, section } => format!("[{}·{count}]", section.name()),
            Entry::File(f) => String::from_utf8_lossy(&f.path).into_owned(),
        })
        .collect()
}

fn files(status: Status) -> Files {
    Files::from_prepared(prepare(&status, ""))
}

fn replace(f: &mut Files, status: Status) {
    f.replace_prepared(prepare(&status, ""));
}

fn sample_status() -> Status {
    Status {
        staged: vec![staged("src/main.rs", Change::Modified), staged("gone.txt", Change::Deleted)],
        unstaged: vec![unstaged("src/main.rs", Change::Modified)],
        untracked: vec![untracked("notes.md")],
        conflicts: vec![conflict("merged.rs", ConflictKind::BothModified)],
    }
}

/// Runs a command the way the pane's owner does: the viewport moves the
/// keyboard, and the pane is told where it landed.
fn key(f: &mut Files, command: &str) -> bool {
    let motion = f.run_view(command);
    let last = f.rows.len().saturating_sub(1);
    if motion.is_move() {
        let to = match motion {
            Motion::Down => (f.cursor + 1).min(last),
            Motion::Up => f.cursor.saturating_sub(1),
            Motion::Top => 0,
            Motion::Bottom => last,
            _ => f.cursor,
        };
        f.landed(motion, to);
    }
    motion.answered()
}

#[test]
fn the_keyboard_is_held_inside_the_rows() {
    let s = Status { untracked: vec![untracked("a.txt"), untracked("b.txt")], ..clean() };
    let mut f = files(s);
    f.landed(Motion::Bottom, 40);
    assert_eq!(f.cursor, 2);
    f.landed(Motion::Inert, 0);
    assert_eq!(f.cursor, 2, "what moves nothing changes nothing");
    assert!(f.wheeled(true, 40));
    assert_eq!(f.cursor, 2);
    f.followed(0);
    assert_eq!(f.cursor, 0);
    let mut none = files(clean());
    none.followed(4);
    assert_eq!(none.cursor, 0);
}

#[test]
fn sections_draw_in_order_and_empty_ones_do_not_draw_at_all() {
    let s = Status { untracked: vec![untracked("a.txt")], ..clean() };
    assert_eq!(
        outline(&s),
        vec!["[untracked·1]", "a.txt"],
        "a lone section draws no neighbours"
    );
    assert_eq!(outline(&clean()), Vec::<String>::new());
}

#[test]
fn the_full_tree_flattens_into_four_labeled_groups() {
    assert_eq!(
        outline(&sample_status()),
        vec![
            "[staged·2]",
            "src/main.rs",
            "gone.txt",
            "[unstaged·1]",
            "src/main.rs",
            "[untracked·1]",
            "notes.md",
            "[conflicts·1]",
            "merged.rs",
        ]
    );
}

#[test]
fn letters_match_gits_own_spelling() {
    assert_eq!(Mark::of(Change::Added).letter(), "A");
    assert_eq!(Mark::of(Change::Modified).letter(), "M");
    assert_eq!(Mark::of(Change::Deleted).letter(), "D");
    assert_eq!(Mark::of(Change::Renamed).letter(), "R");
    assert_eq!(Mark::of(Change::Copied).letter(), "R", "a copy draws as a move");
    assert_eq!(Mark::of(Change::TypeChanged).letter(), "T");
    assert_eq!(Mark::Untracked.letter(), "?");

    for (state, letters) in [
        (ConflictKind::BothDeleted, "DD"),
        (ConflictKind::AddedByUs, "AU"),
        (ConflictKind::DeletedByThem, "UD"),
        (ConflictKind::AddedByThem, "UA"),
        (ConflictKind::DeletedByUs, "DU"),
        (ConflictKind::BothAdded, "AA"),
        (ConflictKind::BothModified, "UU"),
    ] {
        assert_eq!(conflict_letters(state), letters);
    }
}

#[test]
fn a_conflict_row_carries_its_two_letter_state_and_a_path_keeps_its_bytes() {
    let rows = flatten(&sample_status());
    let merged = rows.iter().find_map(|e| match e {
        Entry::File(f) if f.section == Section::Conflicts => Some(f),
        _ => None,
    });
    let f = merged.expect("the conflicted file was flattened");
    assert_eq!(f.letters, "UU");
    assert_eq!(f.mark, Mark::Conflict);
    assert_eq!(f.path.as_slice(), b"merged.rs", "addressing stays raw bytes");
}

#[test]
fn a_rename_travels_with_the_name_it_had() {
    let s = Status {
        staged: vec![StagedEntry {
            old_path: Some(b"before.rs".to_vec()),
            ..staged("after.rs", Change::Renamed)
        }],
        ..clean()
    };
    let rows = flatten(&s);
    let Entry::File(f) = &rows[1] else {
        panic!("row 1 is the file under the heading");
    };
    assert_eq!(f.renamed_from.as_deref(), Some("← before.rs"));
    // And a plain modification carries none.
    let plain = flatten(&sample_status());
    let Entry::File(m) = &plain[1] else {
        panic!("row 1 is the file under the heading");
    };
    assert!(m.renamed_from.is_none());
}

#[test]
fn a_non_utf8_path_keeps_its_bytes_and_displays_lossily() {
    let s = Status { untracked: vec![UntrackedEntry { path: b"caf\xe9.txt".to_vec() }], ..clean() };
    let rows = flatten(&s);
    let Entry::File(f) = &rows[1] else {
        panic!("row 1 is the file under the heading");
    };
    assert_eq!(f.path.as_slice(), b"caf\xe9.txt", "addressing keeps the bytes");
    assert!(f.path_text.contains('\u{FFFD}'), "display decodes lossily instead of failing");
}

#[test]
fn navigation_moves_across_sections_and_clamps_at_both_ends() {
    let mut f = files(sample_status());
    let last = f.rows.len() - 1;
    // Row 0 is the staged heading; the next is its first file.
    assert!(key(&mut f, "view.down"));
    assert!(f.current_file().is_some());
    for _ in 0..20 {
        key(&mut f, "view.down");
    }
    assert_eq!(f.cursor, last, "the last row clamps rather than wrapping");
    assert!(key(&mut f, "view.top"));
    assert_eq!(f.cursor, 0);
    assert!(key(&mut f, "view.bottom"));
    assert_eq!(f.cursor, last);
    assert!(key(&mut f, "view.up"));
    assert_eq!(f.cursor, last - 1);
}

#[test]
fn files_sideways_commands_are_answered_without_doing_anything() {
    let mut f = files(sample_status());
    assert!(key(&mut f, "view.left"));
    assert!(key(&mut f, "view.right"));
    assert!(!f.pan_pixels());
    // And an unknown command says so rather than pretending.
    assert!(!key(&mut f, "files.discard"));
}

#[test]
fn copy_falls_back_to_the_row_the_keyboard_is_on_as_git_would_spell_it() {
    let mut f = files(sample_status());
    key(&mut f, "view.down");
    assert_eq!(f.cursor_text(), "M src/main.rs");
    // Back up onto the heading: nothing to copy.
    key(&mut f, "view.up");
    assert_eq!(f.cursor_text(), "");
    assert!(!f.select_all());
    assert!(!f.select_none());
}

#[test]
fn replacement_keeps_the_cursor_on_its_file_within_its_section() {
    let mut f = files(sample_status());
    key(&mut f, "view.top");
    for _ in 0..6 {
        key(&mut f, "view.down");
    }
    assert_eq!(f.cursor_text(), "? notes.md");

    // A file added above it shifts notes.md down a row; the keyboard goes with it.
    let mut next = sample_status();
    next.untracked.insert(0, untracked("aaa.md"));
    replace(&mut f, next);
    assert_eq!(f.cursor_text(), "? notes.md");
}

#[test]
fn an_anchor_does_not_cross_sections_to_a_path_twin() {
    let mut f = files(sample_status());
    key(&mut f, "view.top");
    for _ in 0..4 {
        key(&mut f, "view.down");
    }
    let before = f.current_file().expect("a file under the cursor");
    assert_eq!((before.section, before.path.as_slice()), (Section::Unstaged, &b"src/main.rs"[..]));

    let mut next = sample_status();
    next.staged.insert(0, staged("aaa.rs", Change::Added));
    replace(&mut f, next);

    let after = f.current_file().expect("still a file");
    assert_eq!(after.section, Section::Unstaged, "the cursor walked across sections");
    assert_eq!(after.path.as_slice(), b"src/main.rs");
}

#[test]
fn replacement_clamps_a_vanished_anchor_and_accepts_an_empty_tree() {
    let mut f = files(sample_status());
    key(&mut f, "view.bottom");

    // Every file gone: the tree went clean mid-session.
    let landing = f.replace_prepared(prepare(&clean(), ""));
    assert!(f.is_clean());
    assert_eq!(f.cursor, 0);
    assert!(!landing.park);

    // And back to something: the cursor starts at the top again.
    replace(&mut f, sample_status());
    assert_eq!(f.cursor, 0);
}

#[test]
fn a_heading_under_the_cursor_does_not_pretend_to_anchor() {
    let mut f = files(sample_status());
    key(&mut f, "view.top");
    assert!(f.current_file().is_none());

    let mut next = sample_status();
    next.staged.insert(0, staged("aaa.rs", Change::Added));
    replace(&mut f, next);
    assert!(f.cursor < f.rows.len());
}

#[test]
fn what_the_keyboard_is_on_names_the_group_and_the_path() {
    let mut f = files(sample_status());
    for _ in 0..6 {
        key(&mut f, "view.down");
    }
    let current = f.current_file().expect("a file under the cursor");
    assert_eq!(current.section, Section::Untracked);
    assert_eq!(current.path.as_slice(), b"notes.md");
}

#[test]
fn the_label_counts_what_changed_and_the_load_line_says_how_long_it_took() {
    let prepared = prepare(&sample_status(), "gitten (main)");
    // Five entries, four paths: src/main.rs sits in two groups and counts once.
    assert_eq!(prepared.label, "gitten (main) · 4 changed");

    let clean = prepare(&clean(), "gitten (main)");
    assert_eq!(clean.label, "gitten (main) · 0 changed");
    assert!(clean.rows.is_empty(), "a clean tree flattens to nothing");
}

/// Puts the keyboard on the unstaged `src/main.rs`, past its heading.
fn onto_unstaged(f: &mut Files) {
    key(f, "view.top");
    for _ in 0..4 {
        key(f, "view.down");
    }
}

fn under(f: &Files) -> (Section, Vec<u8>) {
    let current = f.current_file().expect("a file under the cursor");
    (current.section, current.path.clone())
}

#[test]
fn a_discard_arms_then_confirms_on_the_second_press_of_the_same_row() {
    let mut f = files(sample_status());
    onto_unstaged(&mut f);
    let (section, path) = under(&f);

    // First press: asked, not acted.
    assert!(!f.confirm_or_arm_discard(section, &path));
    assert_eq!(
        f.armed_row(),
        &Some((Section::Unstaged, b"src/main.rs".to_vec())),
        "the arm names section and path together"
    );
    assert_eq!(f.tinted_row(), Some(4));

    // Second press on the same row: act, and the slot is spent.
    assert!(f.confirm_or_arm_discard(section, &path));
    assert_eq!(f.armed_row(), &None);

    // And a third press starts over: there is no latched yes.
    assert!(!f.confirm_or_arm_discard(section, &path));
}

#[test]
fn arming_a_different_row_moves_the_question_rather_than_confirming_it() {
    let mut f = files(sample_status());
    onto_unstaged(&mut f);
    let (unstaged_section, unstaged_path) = under(&f);
    assert!(!f.confirm_or_arm_discard(unstaged_section, &unstaged_path));

    // The same path under *staged* is a different row and a different question.
    let staged = b"src/main.rs".to_vec();
    assert!(!f.confirm_or_arm_discard(Section::Staged, &staged));
    assert_eq!(
        f.armed_row(),
        &Some((Section::Staged, staged)),
        "one slot, moved — never two questions waiting"
    );
}

#[test]
fn any_cursor_move_disarms_an_armed_discard() {
    let mut f = files(sample_status());
    onto_unstaged(&mut f);
    let (section, path) = under(&f);
    assert!(!f.confirm_or_arm_discard(section, &path));

    // One step down — onto the untracked heading, as it happens.
    assert!(key(&mut f, "view.down"));
    assert!(f.current_file().is_none());
    key(&mut f, "view.down");
    let (section, path) = under(&f);
    assert!(!f.confirm_or_arm_discard(section, &path));

    // The scroll family moves attention too, even with the cursor still.
    assert!(key(&mut f, "view.scroll-down"));
    assert_eq!(f.armed_row(), &None, "the question did not survive its own scroll away");
}

#[test]
fn a_refresh_disarms_even_when_the_file_survives() {
    let mut f = files(sample_status());
    onto_unstaged(&mut f);
    let (section, path) = under(&f);
    assert!(!f.confirm_or_arm_discard(section, &path));

    // A refresh that changes nothing at all still says "things moved".
    replace(&mut f, sample_status());
    assert_eq!(f.armed_row(), &None);
    // The press after it re-arms rather than executes.
    assert!(!f.confirm_or_arm_discard(section, &path));
}

#[test]
fn an_armed_discard_dies_when_its_file_vanishes_under_it() {
    let mut f = files(Status { untracked: vec![untracked("notes.md")], ..clean() });
    key(&mut f, "view.bottom");
    let notes = b"notes.md".to_vec();
    assert!(!f.confirm_or_arm_discard(Section::Untracked, &notes));

    replace(&mut f, clean());
    assert_eq!(f.armed_row(), &None, "the vanish took the question with it");
    assert!(f.current_file().is_none());
}

#[test]
fn byte_paths_arm_and_confirm_without_decoding() {
    let mut f = files(Status {
        untracked: vec![UntrackedEntry { path: b"caf\xe9.txt".to_vec() }],
        ..clean()
    });
    key(&mut f, "view.bottom");
    let (section, path) = under(&f);
    assert_eq!(path.as_slice(), b"caf\xe9.txt");

    assert!(!f.confirm_or_arm_discard(section, &path));
    assert!(f.confirm_or_arm_discard(Section::Untracked, &b"caf\xe9.txt".to_vec()));
    assert_eq!(f.armed_row(), &None);
}

#[test]
fn whole_section_verbs_enumerate_their_own_side_in_draw_order() {
    let mut f = files(sample_status());
    assert_eq!(f.paths_in(Section::Staged).len(), 2);
    assert_eq!(f.paths_in(Section::Unstaged), vec![b"src/main.rs".to_vec()]);
    assert_eq!(f.paths_in(Section::Untracked), vec![b"notes.md".to_vec()]);
    assert!(f.paths_in(Section::Conflicts).len() == 1);

    // And the side the keyboard sits in, headings included.
    key(&mut f, "view.top");
    assert_eq!(
        f.cursor_section(),
        Some(Section::Staged),
        "the heading counts as its section"
    );
    key(&mut f, "view.bottom");
    assert_eq!(f.cursor_section(), Some(Section::Conflicts));
}

#[test]
fn the_arm_question_says_delete_for_a_file_with_nothing_to_go_back_to() {
    assert_eq!(
        discard_question(Section::Untracked, "notes.md"),
        "delete notes.md? press again to confirm",
        "an untracked file has no earlier version; the word is honest"
    );
    assert_eq!(
        discard_question(Section::Unstaged, "src/x.rs"),
        "discard src/x.rs? press again to confirm"
    );
}

#[test]
fn the_groups_come_in_one_order() {
    assert_eq!(
        Section::all(),
        [Section::Staged, Section::Unstaged, Section::Untracked, Section::Conflicts]
    );
}

#[test]
fn a_row_is_inked_by_its_mark_and_by_the_question() {
    let inks = FileInks {
        bg: 1,
        fg: 2,
        dim: 3,
        faint: 4,
        accent: 5,
        error: 6,
        selection_bg: 7,
        adds_fg: 8,
        dels_fg: 9,
    };
    assert_eq!(Mark::Add.color(&inks), 8);
    assert_eq!(Mark::Conflict.color(&inks), 6);
    let rows = flatten(&sample_status());
    assert_eq!(row(&rows[1], &inks, true, false).bg, 7);
    assert_eq!(row(&rows[1], &inks, false, false).bg, 1);
    assert_eq!(row(&rows[1], &inks, false, true).path, Some(6));
    assert_eq!(row(&rows[1], &inks, false, false).path, None);
}

#[test]
fn the_inspector_lists_what_is_staged() {
    let inks = ButtonInks { accent: 1, raised: 2, status_bg: 3, dim: 4 };
    let file = |hunks| StagedFile { name: "a.rs".to_string(), dir: "src/".to_string(), hunks };
    let r = render_inspector(&vec![file((0, 0)), file((1, 3))], 4, true, true, false, &inks);
    assert_eq!(r.headline, "2 files staged");
    assert_eq!(r.count, "2");
    assert_eq!(r.hunks, "4 hunks staged");
    assert!(matches!(&r.staged, Staged::Files(v) if v == &["staged", "1/3 hunks"]));
    assert_eq!((r.summary, r.description), (None, Some("Description arrives with the workspace.")));
    assert_eq!((r.button_bg, r.button_fg), (1, 3));

    let r = render_inspector(&vec![], 0, false, false, true, &inks);
    assert!(matches!(r.staged, Staged::Nothing("No staged changes")));
    assert_eq!(r.summary, Some("Summary arrives with the workspace."));
    assert_eq!((r.button_bg, r.button_fg), (2, 4));
    assert_eq!(COMMIT, "workspace.commit");
}

fn side_inks() -> SideInks {
    SideInks {
        bg: 1,
        fg: 2,
        dim: 3,
        faint: 4,
        accent: 5,
        raised: 6,
        staged: 7,
        unstaged: 8,
        untracked: 9,
        conflicts: 10,
    }
}

#[test]
fn a_sidebar_row_is_a_directory_or_a_file() {
    let file = |section, name: &str| SideEntry::File {
        section,
        dir: "src/".to_string(),
        name: name.to_string(),
        letters: "M",
    };
    let data =
        vec![SideEntry::Heading, file(Section::Staged, "a.rs"), file(Section::Conflicts, "b.rs")];
    let visible = vec![1, 2, 0];
    let inks = side_inks();
    let label = |dir: &str| {
        let row = GroupedRow::Heading { dir: dir.to_string(), count: "2".to_string() };
        match side_row(&row, &data, &visible, 0, &inks) {
            SideRow::Label { text, count } => (text, count),
            other => panic!("a label expected, got {other:?}"),
        }
    };
    assert_eq!(label("src/"), ("src/".to_string(), "2".to_string()));
    assert_eq!(label(""), ("repository root".to_string(), "2".to_string()));

    match side_row(&GroupedRow::File { visible: 0 }, &data, &visible, 0, &inks) {
        SideRow::File(f) => {
            assert!(f.current);
            assert_eq!((f.box_border, f.box_fill), (5, Some(5)));
            assert_eq!((f.name.as_str(), f.letters, f.letters_fg), ("a.rs", "M", 7));
        }
        other => panic!("a file expected, got {other:?}"),
    }
    match side_row(&GroupedRow::File { visible: 1 }, &data, &visible, 0, &inks) {
        SideRow::File(f) => {
            assert!(!f.current);
            assert_eq!((f.box_border, f.box_fill, f.letters_fg), (4, None, 10));
        }
        other => panic!("a file expected, got {other:?}"),
    }
    let blank = side_row(&GroupedRow::File { visible: 2 }, &data, &visible, 0, &inks);
    assert!(matches!(blank, SideRow::Blank));
}

#[test]
fn a_click_moves_the_keyboard_before_it_acts() {
    let steps = |v: Vec<Step>| -> Vec<String> {
        v.iter()
            .map(|s| match s {
                Step::Select(row) => format!("select {row}"),
                Step::Run(name) => name.to_string(),
            })
            .collect()
    };
    assert_eq!(steps(stage_click(3)), vec!["select 3", "files.stage", "workspace.preview"]);
    assert_eq!(steps(row_click(3)), vec!["select 3", "workspace.preview"]);
    assert_eq!(steps(utility_click(Utility::Branches)), vec!["workspace.history", "branches.focus"]);
    assert_eq!(steps(utility_click(Utility::Stashes)), vec!["workspace.history", "stashes.focus"]);
    assert_eq!(utility_label(Utility::Stashes), "Stashes");
    assert_eq!((STAGE_ALL_COMMAND, FILTER_COMMAND), ("files.stage-all", "files.search"));
}

#[test]
fn the_destination_in_use_is_raised() {
    let inks = side_inks();
    let changes = nav(Destination::Changes, Destination::Changes, &inks);
    let history = nav(Destination::History, Destination::Changes, &inks);
    assert_eq!((changes.label, changes.command), ("Changes", "workspace.changes"));
    assert_eq!((changes.bg, changes.fg), (6, 2));
    assert_eq!((history.label, history.command), ("History", "workspace.history"));
    assert_eq!((history.bg, history.fg), (1, 3));
    assert_eq!(filter_label(&None), "Filter files…");
    assert_eq!(filter_label(&Some(String::new())), "Filter files…");
    assert_eq!(filter_label(&Some("rs".to_string())), "rs");
}
