//! The settings panel, its window, and the address space between them.
use gitten_shell::settings::{
    at, build, cycle, families, len, Knobs, Row, Section, Setting, Showing,
};
use gitten_shell::settings_window::{
    filtered, flat_at, flat_len, row_look, side_look, Act, BodyLine, Item, PanelInks, Pressed,
    Resolved, RowLook, SettingsWindow,
};

fn words(v: &[&str]) -> Vec<String> {
    v.iter().map(|s| s.to_string()).collect()
}

fn knobs() -> Knobs {
    Knobs {
        algorithms: words(&["histogram", "myers", "patience"]),
        whitespaces: words(&["exact", "trailing", "all"]),
        themes: words(&["dark", "light"]),
        theme: "dark".to_string(),
        family: "JetBrains Mono".to_string(),
        font_size: "14".to_string(),
        context: 3,
        min_moved: 3,
        indent_heuristic: true,
        rows: 1,
        scrolloff: 3,
        scrollbar: true,
        sidebar: "30".to_string(),
        copy_on_select: false,
    }
}

fn showing(layouts: &[&str], layout: usize, wraps: &[&str], wrap: usize) -> Showing {
    Showing { layouts: words(layouts), layout, wraps: words(wraps), wrap }
}

fn sections() -> Vec<Section> {
    build(
        &knobs(),
        &showing(&["unified", "split"], 0, &["off", "word", "char"], 1),
        "histogram",
        "exact",
        true,
    )
}

fn row(sections: &[Section], want: Setting) -> &Row {
    sections.iter().flat_map(|s| &s.rows).find(|r| r.setting == want).unwrap()
}

#[test]
fn a_copy_of_the_panel_says_the_same() {
    let sells = sections();
    let copy: Vec<Section> = sells.clone();
    assert_eq!(format!("{copy:?}"), format!("{sells:?}"));
    let one: Row = row(&copy, Setting::Wrap).clone();
    assert_eq!((one.setting, one.value), (Setting::Wrap, row(&sells, Setting::Wrap).value.clone()));
}

#[test]
fn the_panel_holds_every_knob_it_promises() {
    let sells = sections();
    assert_eq!(len(&sells), 15);
    let settings: Vec<Setting> =
        sells.iter().flat_map(|s| s.rows.iter().map(|r| r.setting)).collect();
    for want in [
        Setting::Layout,
        Setting::Wrap,
        Setting::Algorithm,
        Setting::Whitespace,
        Setting::Context,
        Setting::Moves,
        Setting::IndentHeuristic,
        Setting::Theme,
        Setting::FontSize,
        Setting::FontFamily,
        Setting::Scroll,
        Setting::Scrolloff,
        Setting::Scrollbar,
        Setting::Sidebar,
        Setting::CopyOnSelect,
    ] {
        assert!(settings.contains(&want), "{want:?} has no row");
    }
}

#[test]
fn the_rows_agree_with_what_is_on_screen() {
    let sells = sections();
    assert_eq!(row(&sells, Setting::Layout).value, "unified");
    assert_eq!(row(&sells, Setting::Wrap).value, "word");
    assert_eq!(row(&sells, Setting::Algorithm).value, "histogram");
    assert_eq!(row(&sells, Setting::Theme).value, "dark");
    assert_eq!(row(&sells, Setting::Context).value, "3");
    // An algorithm that was registered elsewhere is a row value all the same.
    let sells =
        build(&knobs(), &showing(&["unified"], 0, &["word"], 0), "myers", "all", true);
    assert_eq!(row(&sells, Setting::Algorithm).value, "myers");
    assert_eq!(row(&sells, Setting::Whitespace).value, "all");
}

#[test]
fn a_fixture_dims_what_only_a_repository_can_answer() {
    let sells =
        build(&knobs(), &showing(&["unified"], 0, &["word"], 0), "histogram", "exact", false);
    assert!(!row(&sells, Setting::Algorithm).enabled);
    assert!(
        row(&sells, Setting::Theme).enabled,
        "a palette is the window's, not the diff's"
    );
}

#[test]
fn every_row_teaches_its_knob() {
    for section in sections() {
        for row in &section.rows {
            assert!(!row.desc.is_empty(), "{:?} has no one-line teaching", row.setting);
        }
    }
}

#[test]
fn a_flat_index_names_its_row_and_nothing_past_the_end() {
    let sells = sections();
    assert_eq!(len(&sells), 15);
    assert!(at(&sells, 0).is_some());
    assert!(at(&sells, 14).is_some());
    assert_eq!(at(&sells, 15), None);
    // Sections stay grouped: index 2 is the diff section's first row.
    let (s, r) = at(&sells, 2).unwrap();
    assert_eq!(sells[s].rows[r].setting, Setting::Algorithm);
}

#[test]
fn a_choice_wraps_in_both_directions() {
    assert_eq!(cycle(3, 0, -1), 2);
    assert_eq!(cycle(3, 2, 1), 0);
    assert_eq!(cycle(1, 0, 1), 0);
    assert_eq!(cycle(0, 0, 1), 0);
}

#[test]
fn a_step_back_returns_to_the_choice() {
    for current in 0..5 {
        assert_eq!(cycle(5, cycle(5, current, 1), -1), current);
    }
}

#[test]
fn a_choice_that_is_not_there_shows_nothing() {
    let sells = build(&knobs(), &showing(&[], 0, &["word"], 9), "histogram", "exact", true);
    assert_eq!(row(&sells, Setting::Layout).value, "");
    assert_eq!(row(&sells, Setting::Wrap).value, "");
    // An algorithm nobody registered reads as the first that is.
    let sells = build(&knobs(), &showing(&["unified"], 0, &["word"], 0), "ghost", "exact", true);
    assert_eq!(row(&sells, Setting::Algorithm).value, "histogram");
}

#[test]
fn the_shipped_faces_hold_the_chosen_one_once() {
    let all = families("JetBrains Mono");
    assert_eq!(all.iter().filter(|f| *f == "JetBrains Mono").count(), 1);
    let own = families("Fantasque");
    assert_eq!(own.iter().filter(|f| *f == "Fantasque").count(), 1);
}

#[test]
fn the_filter_keeps_rows_that_hold_any_word() {
    assert!(gitten_shell::settings_window::matches("mov", "moves", "3"));
    assert!(gitten_shell::settings_window::matches("MOV", "moves", "3"));
    assert!(gitten_shell::settings_window::matches("in heu", "indent heuristic", "on"));
    assert!(!gitten_shell::settings_window::matches("mov", "context", "3"));
    assert!(!gitten_shell::settings_window::matches("xyz", "layout", "unified"));
}

#[test]
fn the_flat_address_space_ends_on_the_file_fallback() {
    let sections = vec![Section {
        title: "view",
        rows: vec![
            Row {
                setting: Setting::Layout,
                label: "layout",
                value: "unified".into(),
                desc: "",
                enabled: true,
            },
            Row {
                setting: Setting::Wrap,
                label: "wrap",
                value: "word".into(),
                desc: "",
                enabled: true,
            },
        ],
    }];
    assert_eq!(flat_len(&sections), 3);
    assert_eq!(flat_at(&sections, 0), Some(Item::Row { s: 0, r: 0 }));
    assert_eq!(flat_at(&sections, 1), Some(Item::Row { s: 0, r: 1 }));
    assert_eq!(flat_at(&sections, 2), Some(Item::File));
    assert_eq!(flat_at(&sections, 3), None);
}

#[test]
fn a_query_takes_rows_away_and_adds_none() {
    let all = sections();
    let shown = filtered("scroll", &all);
    assert!(len(&shown) > 0 && len(&shown) < len(&all));
    assert!(shown.iter().all(|s| !s.rows.is_empty()), "an empty section was left standing");
    assert_eq!(len(&filtered("", &all)), 15);
    assert_eq!(len(&filtered(" \t ", &all)), 15, "a field of blanks asks for nothing");
    assert_eq!(len(&filtered("nothing has this", &all)), 0);
}

#[test]
fn the_window_steps_jumps_and_turns_its_knobs() {
    let shown = sections();
    let mut w: SettingsWindow<u32> = SettingsWindow::new();
    w.step(&shown, 1);
    assert_eq!(w.sel, 1);
    w.jump(&shown, true);
    assert_eq!(w.sel, 15, "the file behind the last row");
    assert_eq!(w.adjust(&shown, 1), Act::OpenFile);
    w.jump(&shown, false);
    assert_eq!(w.sel, 0);
    assert_eq!(w.adjust(&shown, -1), Act::Apply { setting: Setting::Layout, dir: -1 });
    w.step(&shown, -1);
    assert_eq!(w.sel, 0, "the first row is the edge");
    assert_eq!(w.body(&shown)[0], BodyLine::Heading { s: 0 });
    assert_eq!(w.side(&shown, &shown).len(), shown.len());
}

#[test]
fn a_query_puts_the_selection_back_at_the_top() {
    let mut w: SettingsWindow<u32> = SettingsWindow::new();
    w.select(7);
    w.edited("theme".to_string());
    assert_eq!(w.query, "theme");
    assert_eq!(w.sel, 0);
    let shown = w.filtered(&sections());
    assert!(len(&shown) > 0);
    w.select(40);
    w.clamp(&shown);
    assert_eq!(w.sel, len(&shown), "held inside what is shown");
}

#[test]
fn a_chord_waits_for_the_rest_of_itself() {
    let mut w: SettingsWindow<u32> = SettingsWindow::new();
    assert!(w.on_key(false, vec![7]));
    assert_eq!(w.resolved(Resolved::Pending, false, "g"), Pressed::Consumed);
    assert!(w.on_key(false, vec![8]));
    assert_eq!(w.typed(), vec![7, 8]);
    assert_eq!(w.resolved(Resolved::Run, false, "gg"), Pressed::Run);
    assert!(w.pending.is_empty());
}

#[test]
fn every_command_of_the_window_has_its_meaning() {
    let shown = sections();
    let mut w: SettingsWindow<u32> = SettingsWindow::new();
    let mut run = |name: &str| {
        let act = w.dispatch(name, &shown);
        (act, w.sel, w.footer.clone())
    };
    assert_eq!(run("view.down"), (Act::Nothing, 1, None));
    assert_eq!(run("view.up"), (Act::Nothing, 0, None));
    assert_eq!(run("view.bottom"), (Act::Nothing, 15, None));
    assert_eq!(run("settings.apply"), (Act::OpenFile, 15, None));
    assert_eq!(run("view.top"), (Act::Nothing, 0, None));
    let turned = |dir: i32| Act::Apply { setting: Setting::Layout, dir };
    assert_eq!(run("view.left"), (turned(-1), 0, None));
    assert_eq!(run("view.right"), (turned(1), 0, None));
    assert_eq!(run("settings.apply"), (turned(1), 0, None));
    for out in ["back", "settings", "input.cancel"] {
        assert_eq!(run(out), (Act::Close, 0, None));
    }
    assert_eq!(run("input.accept"), (Act::FocusRows, 0, None));
    assert_eq!(run("files.stage"), (Act::Nothing, 0, None));
    let said = Some("the keymap lives in the main window".to_string());
    assert_eq!(run("help"), (Act::Nothing, 0, said.clone()));
    assert_eq!(run("view.up"), (Act::Nothing, 0, said), "a move that goes nowhere says nothing");
}

#[test]
fn a_knob_of_the_repository_says_so_and_stays() {
    let on = showing(&["unified"], 0, &["off"], 0);
    let shown = build(&knobs(), &on, "histogram", "exact", false);
    let mut w: SettingsWindow<u32> = SettingsWindow::new();
    assert_eq!(w.turn(&shown, 2), Act::Nothing);
    assert_eq!(w.sel, 2);
    assert_eq!(w.footer.as_deref(), Some("set by the repository — not here"));
    assert_eq!(w.footer_text(&shown), "set by the repository — not here");
    assert_eq!(w.turn(&shown, 4), Act::Apply { setting: Setting::Context, dir: 1 });
    assert_eq!(w.footer, None);
    assert_eq!(w.footer_text(&shown), "15 rows · 6 sections");
    assert_eq!(w.turn(&shown, 15), Act::OpenFile);
    w.opened(Some("no editor".to_string()));
    assert_eq!(w.footer_text(&shown), "no editor");
    w.opened(None);
    assert_eq!(w.footer, None);
    assert_eq!(w.turn(&shown, 16), Act::Nothing);
}

#[test]
fn the_side_counts_what_the_filter_leaves() {
    let all = sections();
    let mut w: SettingsWindow<u32> = SettingsWindow::new();
    w.edited("context".to_string());
    let shown = w.filtered(&all);
    let side = w.side(&all, &shown);
    assert_eq!(side.len(), 1);
    assert_eq!((side[0].title, side[0].start, side[0].active), ("diff", 0, true));
    assert_eq!(side[0].count, "1/5");
    w.edited(String::new());
    let side = w.side(&all, &w.filtered(&all));
    let counts: Vec<&str> = side.iter().map(|e| e.count.as_str()).collect();
    assert_eq!(counts, vec!["2", "5", "1", "2", "4", "1"]);
    let starts: Vec<usize> = side.iter().map(|e| e.start).collect();
    assert_eq!(starts, vec![0, 2, 7, 8, 10, 14]);
    let body = w.body(&all);
    assert_eq!(body.len(), 6 + 15 + 1);
    assert_eq!(body[1], BodyLine::Row { s: 0, r: 0, index: 0, selected: true });
    assert_eq!(body[4], BodyLine::Row { s: 1, r: 0, index: 2, selected: false });
    assert_eq!(body[21], BodyLine::File { index: 15, selected: false });
}

#[test]
fn the_selected_row_stands_out_and_an_inert_one_is_dim() {
    let inks =
        PanelInks { title_bg: 1, selection_bg: 2, accent: 3, fg: 4, dim: 5, inert: 6 };
    assert_eq!(row_look(true, true, &inks), RowLook { bg: 2, bar: 3, label: 4, value: 3 });
    assert_eq!(row_look(false, true, &inks), RowLook { bg: 1, bar: 1, label: 4, value: 4 });
    assert_eq!(row_look(false, false, &inks), RowLook { bg: 1, bar: 1, label: 6, value: 4 });
    assert_eq!(side_look(true, &inks), (2, 4));
    assert_eq!(side_look(false, &inks), (1, 5));
}

#[test]
fn a_key_that_is_not_bound_is_named() {
    let mut w: SettingsWindow<u32> = SettingsWindow::new();
    assert!(!w.on_key(false, vec![]), "no key, nothing to look up");
    assert!(w.on_key(false, vec![7]));
    assert!(w.on_key(true, vec![8]), "the keyboard moved: the chord begins again");
    assert_eq!(w.typed(), vec![8]);
    assert_eq!(w.resolved(Resolved::Unbound, false, "q"), Pressed::Consumed);
    assert_eq!(w.footer.as_deref(), Some("q is not bound"));
    assert!(w.pending.is_empty());
    // In the field it is text.
    assert!(w.on_key(false, vec![9]));
    assert_eq!(w.resolved(Resolved::Unbound, true, "x"), Pressed::PassOn);
    assert!(w.pending.is_empty());
}
