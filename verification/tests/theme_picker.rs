//! The theme picker: what a query matches, and what the grid does with it.
use gitten_shell::theme_picker::{cards, CardLook, PickerInks, Theme, ThemePicker};

fn theme(name: &str, label: &str, family: &str) -> Theme {
    Theme {
        name: name.to_string(),
        label: label.to_string(),
        family: family.to_string(),
        bg: 1,
        border: 2,
        accent: 3,
        adds_fg: 4,
        dels_fg: 5,
        added_bg: 6,
        removed_bg: 7,
    }
}

fn shelf() -> Vec<Theme> {
    vec![
        theme("github-dark", "GitHub Dark", "GitHub"),
        theme("intellij-light", "IntelliJ Light", "JetBrains"),
        theme("catppuccin-mocha", "Catppuccin Mocha", "Catppuccin"),
    ]
}

fn matches(query: &str, label: &str, family: &str, name: &str) -> bool {
    gitten_shell::theme_picker::matches(query, label, family, name)
}

#[test]
fn a_query_matches_the_label_the_family_or_the_name() {
    assert!(matches("dark", "GitHub Dark", "GitHub", "github-dark"));
    assert!(matches("git dark", "GitHub Dark", "GitHub", "github-dark"));
    assert!(matches("jet", "IntelliJ Light", "JetBrains", "intellij-light"));
    assert!(matches("mocha", "Catppuccin Mocha", "Catppuccin", "catppuccin-mocha"));
    // The registry name is searched too, so a palette the file named but
    // never labelled is still findable.
    assert!(matches("solarized", "solarized-ish", "", "solarized-ish"));
    assert!(!matches("dracula", "GitHub Dark", "GitHub", "github-dark"));
    assert!(!matches("dark light", "GitHub Dark", "GitHub", "github-dark"));
}

#[test]
fn no_query_is_every_theme_and_one_of_them_is_on() {
    let all = cards("", &shelf(), "intellij-light");
    assert_eq!(all.len(), 3);
    let on: Vec<&str> = all.iter().filter(|c| c.current).map(|c| c.name.as_str()).collect();
    assert_eq!(on, vec!["intellij-light"]);
    assert_eq!((all[0].surface, all[0].line, all[0].green, all[0].del), (1, 2, 4, 7));
    assert_eq!(cards("MOCHA", &shelf(), "x").len(), 1);
    assert!(cards("dracula", &shelf(), "x").is_empty());
}

#[test]
fn the_picker_opens_on_the_theme_that_is_on() {
    let shelf = shelf();
    let mut p = ThemePicker::new();
    assert!(!p.open);
    p.open(&cards("", &shelf, "catppuccin-mocha"));
    assert!(p.open);
    assert_eq!(p.sel, 2);
    p.edited("git".to_string());
    assert_eq!(p.sel, 0);
    let shown = p.cards(&shelf, "catppuccin-mocha");
    assert_eq!(shown.len(), 1);
    assert_eq!(p.run_selection(&shown), Some("github-dark".to_string()));
    assert!(p.open, "a choice leaves it standing");
}

#[test]
fn a_choice_past_the_end_is_none() {
    let shelf = shelf();
    let all = cards("", &shelf, "github-dark");
    let mut p = ThemePicker::new();
    p.open(&all);
    assert_eq!(p.choose_at(3, &all), None);
    assert!(p.open);
    p.close();
    assert!(!p.open);
}

#[test]
fn the_grid_is_two_abreast_and_marks_the_selection() {
    let all = cards("", &shelf(), "github-dark");
    let mut p = ThemePicker::new();
    p.open(&all);
    p.step(1, all.len());
    assert_eq!(p.sel, 1);
    let inks = PickerInks { bg: 10, accent: 11, faint: 12, selection_bg: 13 };
    let grid = p.grid(&all, &inks);
    assert_eq!(grid.len(), 2);
    assert_eq!(grid[0].left.index, 0);
    assert_eq!(grid[0].right.unwrap().index, 1);
    assert_eq!(grid[1].left.index, 2);
    assert!(grid[1].right.is_none());
    assert_ne!(grid[0].left.bg, grid[0].right.unwrap().bg);
    let looks = |l: CardLook| (l.border, l.bg);
    assert_eq!(looks(grid[0].left), (11, 10), "the one in use, not selected");
    assert_eq!(looks(grid[0].right.unwrap()), (12, 13), "selected, not in use");
    assert_eq!(looks(grid[1].left), (10, 10));
    assert_eq!(p.hint(&all), "3 themes · enter to choose · esc to close");
    assert_eq!(p.empty_note(&all), None);
    assert_eq!(p.empty_note(&vec![]), Some("No theme matches that."));
}

#[test]
fn a_query_takes_cards_away_and_keeps_their_order() {
    let shelf = shelf();
    let names = |typed: &str| -> Vec<String> {
        cards(typed, &shelf, "github-dark").into_iter().map(|c| c.name).collect()
    };
    let all = names("");
    assert_eq!(all, shelf.iter().map(|t| t.name.clone()).collect::<Vec<_>>());
    assert_eq!(names("  \t"), all, "a field of blanks asks for nothing");
    for typed in ["a", "GIT", "dark", "no such theme"] {
        let kept = names(typed);
        let mut rest = all.iter();
        assert!(kept.iter().all(|k| rest.any(|n| n == k)), "{typed}: {kept:?}");
    }
}
