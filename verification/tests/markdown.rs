//! The rendered-markdown presentation.
use gitten_shell::views::draw::{GutterInks, Inks, RowState, Selected};
use gitten_shell::views::markdown::{
    heading_slot, Bar, Body, Furniture, MarkdownRows, PageDrawn, PageInks, PageLine, PageLineView,
    PageRow,
};
use gitten_shell::views::diff::Diff;
use gitten_shell::views::rows::{File, Hunk, Line, LineKind, Models, PathText, Rows, Span};
use gitten_shell::views::source::{Source, SourceHunk, SourceLine};
use gitten_shell::views::text_rows::{TextRows, TextStart};
use std::sync::Arc;

fn rows(extensions: &[&str]) -> MarkdownRows {
    MarkdownRows::new(extensions.iter().map(|e| e.to_string()).collect())
}

fn plain() -> Furniture {
    Furniture {
        bar: None,
        depth: 0,
        bullet: false,
        table: false,
        table_rule: false,
        rule: false,
        blank: false,
        heading: None,
        fence_label: false,
    }
}

fn line(text: &str, furniture: Furniture) -> PageRow {
    PageRow::Line(PageLine {
        line: Line {
            kind: LineKind::Added,
            moved: false,
            old_no: None,
            new_no: Some(7),
            text: Arc::from(text),
            spans: Arc::new(vec![]),
            tokens: Arc::new(vec![]),
        },
        furniture,
        depth: furniture.depth,
        text: Arc::from(text),
        pieces: vec![],
        ruled: vec![],
    })
}

/// A line of every shape a document has.
fn document() -> MarkdownRows {
    let mut r = MarkdownRows::default();
    let mut table = line("│ a │ bb\n│   │ c ", Furniture { table: true, ..plain() });
    if let PageRow::Line(l) = &mut table {
        l.pieces = vec![Span { start: 0, end: 12 }, Span { start: 13, end: 25 }];
        l.ruled = vec![false, true];
    }
    r.build(vec![
        PageRow::File { path: Arc::from("docs/README.md"), adds: 1, dels: 2 },
        PageRow::Hunk(Arc::from("@@ -1,9 +1,9 @@")),
        line("gitten  ", Furniture { heading: Some(1), ..plain() }),
        line("", Furniture { blank: true, ..plain() }),
        line("nested", Furniture { bullet: true, depth: 1, ..plain() }),
        line("quoted", Furniture { bar: Some(Bar::Quote), depth: 1, ..plain() }),
        line("rust", Furniture { bar: Some(Bar::Code), fence_label: true, ..plain() }),
        line("", Furniture { bar: Some(Bar::Code), fence_label: true, ..plain() }),
        table,
        line("├──┤", Furniture { table: true, table_rule: true, ..plain() }),
        line("---", Furniture { rule: true, ..plain() }),
    ]);
    r
}

fn inks() -> Inks {
    Inks {
        accent: 1,
        faint: 2,
        error: 3,
        selection_bg: 4,
        added_bg: 5,
        added_fg: 6,
        moved_added_bg: 7,
        removed_bg: 8,
        removed_fg: 9,
        moved_removed_bg: 10,
        context_bg: 11,
        context_fg: 12,
        file_bg: 13,
        file_fg: 14,
        dir_fg: 15,
        hunk_bg: 16,
        hunk_fg: 17,
        adds_fg: 18,
        dels_fg: 19,
        rule: 20,
        gutter: GutterInks {
            context: 21,
            added: 22,
            removed: 23,
            moved_added: 24,
            moved_removed: 25,
            cursor: 26,
        },
    }
}

fn page() -> PageInks {
    PageInks {
        marker: 31,
        rule: 32,
        quote_bar: 33,
        code_bar: 34,
        bullets: vec!["•", "◦", "▪", "·"],
    }
}

/// How a row stands to the keyboard, in the pane that holds it or beside it.
fn state(current: bool, focused: bool) -> RowState {
    RowState { current, focused, armed: false, in_hunk: false }
}

fn drawn(r: &MarkdownRows, index: usize, seg: usize, current: bool) -> PageLineView {
    match r.render(index, seg, &inks(), &page(), None, state(current, false), 15) {
        Some(PageDrawn::Line(v)) => v,
        other => panic!("a line expected, got {other:?}"),
    }
}

#[test]
fn it_claims_markdown_and_nothing_else() {
    let r = MarkdownRows::default();
    assert_eq!(r.extensions, vec!["md", "markdown", "mdx"]);
    assert_eq!(r.len(), 0);
    for p in ["README.md", "docs/a.markdown", "x/y/z.mdx", "a.b.md"] {
        assert!(r.claims(p), "{p}");
    }
    for p in ["a.rs", "Cargo.lock", "no-extension", "weird.xyz", "md", ".md.rs"] {
        assert!(!r.claims(p), "{p}");
    }
}

#[test]
fn a_dot_in_a_parent_directory_is_not_an_extension() {
    let r = MarkdownRows::default();
    assert!(!r.claims("v1.md/CHANGELOG"));
    assert!(r.claims("v1.2/CHANGELOG.md"));
}

#[test]
fn what_it_claims_is_configurable() {
    let r = rows(&["mdown", "txt"]);
    assert!(r.claims("a.mdown") && r.claims("b.txt"));
    assert!(!r.claims("c.md"), "the default list was replaced, not extended");
}

#[test]
fn a_table_row_measures_in_columns_not_bytes() {
    let r = document();
    let table_row = r.width(8, r.chars(8, 0));
    assert!(table_row < 40, "a table row measured {table_row}");
    assert_eq!(r.chars(8, 0), 8);
    assert_eq!(r.chars(9, 0), 4);
}

#[test]
fn every_row_draws_with_the_cursor_bar_on_it() {
    let r = document();
    assert!((0..r.len()).any(|i| r.rows(i) > 0));
    for i in 0..r.len() {
        for seg in 0..r.rows(i) {
            for (current, focused) in [(true, true), (true, false), (false, true), (false, false)] {
                let at = state(current, focused);
                let edge = match r.render(i, seg, &inks(), &page(), None, at, 15).unwrap() {
                    PageDrawn::File(f) => f.edge,
                    PageDrawn::Hunk(h) => h.edge,
                    PageDrawn::Line(l) => l.edge,
                };
                assert_eq!(edge.bg == inks().selection_bg, current, "row {i}.{seg}");
                let bar = match (current, focused) {
                    (true, true) => inks().accent,
                    (true, false) => inks().faint,
                    (false, _) => edge.bg,
                };
                assert_eq!((edge.bar, edge.extent), (bar, bar), "row {i}.{seg}");
            }
        }
    }
    assert!(r.render(99, 0, &inks(), &page(), None, state(true, true), 0).is_none());
}

#[test]
fn a_line_of_prose_stands_to_the_keyboard_as_a_line_of_code_does() {
    let r = document();
    let draw = |at: RowState| match r.render(2, 0, &inks(), &page(), None, at, 0) {
        Some(PageDrawn::Line(v)) => v,
        other => panic!("a line expected, got {other:?}"),
    };
    let plain = draw(RowState::default());
    assert_eq!((plain.edge.bg, plain.edge.bar, plain.edge.extent), (5, 5, 5));
    assert_eq!((plain.gutter, plain.sign_fg), (22, 6));
    let here = draw(state(true, true));
    assert_eq!((here.edge.bg, here.edge.bar, here.gutter, here.sign_fg), (4, 1, 26, 6));
    let armed = draw(RowState { armed: true, in_hunk: true, ..RowState::default() });
    assert_eq!((armed.gutter, armed.sign_fg, armed.edge.extent), (3, 3, 20));
    assert!(matches!(armed.body, Body::Text { fg: 6, .. }), "the text keeps its own ink");
}

#[test]
fn metrics_stay_inside_a_row() {
    // Out-of-range levels answer rather than panicking on the render path.
    assert_eq!(heading_slot(0), heading_slot(1));
    assert_eq!(heading_slot(9), heading_slot(6));
    assert_eq!((heading_slot(1), heading_slot(6)), (0, 5));
    assert_eq!(page().bullet(99), "·");
    assert_eq!(page().bullet(1), "◦");
}

#[test]
fn a_file_with_no_hunks_still_produces_its_header() {
    let mut r = rows(&["md"]);
    r.build(vec![PageRow::File { path: Arc::from("a.md"), adds: 0, dels: 0 }]);
    assert_eq!(r.len(), 1);
    assert!(r.width(0, 0) > 0);
    assert!(r.is_file_header(0) && r.is_header(0) && !r.is_header(1));
}

#[test]
fn what_is_drawn_in_front_of_a_line_comes_out_of_its_budget() {
    assert_eq!(plain().steps(), 0);
    assert_eq!(Furniture { bullet: true, depth: 2, ..plain() }.steps(), 3);
    assert_eq!(Furniture { bar: Some(Bar::Quote), ..plain() }.steps(), 1);
    assert_eq!(Furniture { bar: Some(Bar::Code), bullet: true, depth: 255, ..plain() }.steps(), 257);
}

#[test]
fn the_caret_follows_the_furniture_the_row_drew() {
    let r = document();
    assert_eq!(r.text_start(0), Some((TextStart::Page, 0)));
    assert_eq!(r.text_start(1), Some((TextStart::Code, 0)));
    assert_eq!(r.text_start(2), Some((TextStart::Code, 0)));
    assert_eq!(r.text_start(4), Some((TextStart::Code, 2)));
    assert_eq!(r.text_start(99), None);
    // A click at the start of a row's own text is byte 0 of it.
    for i in 0..r.len() {
        assert_eq!(r.hit(i, 0, 0).unwrap().off, 0, "row {i}");
    }
}

#[test]
fn a_heading_is_selected_by_the_size_it_is_drawn_at() {
    let r = document();
    let text = r.selectable(2).unwrap().to_string();
    assert_eq!(r.hit(2, 0, text.chars().count()).unwrap().off, text.len());
}

#[test]
fn what_it_copies_is_what_it_drew() {
    let r = document();
    let all: Vec<&str> = (0..r.len()).filter_map(|i| r.selectable(i)).collect();
    assert_eq!(all.len(), r.len(), "a row with nothing to copy");
    assert!(all.contains(&"docs/README.md"), "the file header is in it");
    assert!(all.contains(&"nested"));
    assert_eq!(r.selectable(99), None);
}

#[test]
fn a_copy_of_a_squeezed_table_yields_its_rows_and_not_one_long_one() {
    let r = document();
    let copied = r.selectable(8).expect("a table row copies");
    let lines: Vec<&str> = copied.split('\n').collect();
    assert_eq!(lines.len(), r.rows(8), "{copied:?}");
    // And a caret lands inside the sub-row it was clicked on.
    assert_eq!(r.hit(8, 0, 3).unwrap().off, "│ a".len());
    assert_eq!(r.hit(8, 1, 3).unwrap().off, 13 + "│  ".len());
}

#[test]
fn a_hairline_goes_between_two_table_rows_and_nowhere_else() {
    let r = document();
    match drawn(&r, 8, 0, false).body {
        Body::Grid { hairline, fg, .. } => assert_eq!((hairline, fg), (None, 6)),
        other => panic!("a grid expected, got {other:?}"),
    }
    match drawn(&r, 8, 1, false).body {
        Body::Grid { hairline, piece, .. } => {
            assert_eq!(hairline, Some((8, 32)));
            assert_eq!(piece, Span { start: 13, end: 25 });
        }
        other => panic!("a grid expected, got {other:?}"),
    }
    match drawn(&r, 9, 0, false).body {
        Body::Grid { hairline, fg, .. } => assert_eq!((hairline, fg), (None, 32)),
        other => panic!("a grid expected, got {other:?}"),
    }
}

#[test]
fn furniture_stands_where_the_markers_stood() {
    let r = document();
    let heading = drawn(&r, 2, 0, false);
    assert!(matches!(heading.body, Body::Text { heading: Some(1), fg: 6, .. }));
    assert_eq!((heading.old.as_str(), heading.new.as_str(), heading.sign), ("", "7", "+"));
    assert_eq!((heading.edge.bg, heading.gutter), (5, 22));
    assert!(matches!(drawn(&r, 3, 0, false).body, Body::Nothing));

    let bullet = drawn(&r, 4, 0, false);
    assert_eq!((bullet.indent, bullet.bullet, bullet.bar), (1, Some("◦"), None));
    let continued = drawn(&r, 4, 1, false);
    assert_eq!((continued.bullet, continued.sign, continued.new.as_str()), (Some(" "), " ", ""));

    assert_eq!(drawn(&r, 5, 0, false).bar, Some(33));
    let fence = drawn(&r, 6, 0, false);
    assert_eq!(fence.bar, Some(34));
    assert!(matches!(fence.body, Body::Text { fg: 31, heading: None, .. }));
    let bare = drawn(&r, 7, 0, false);
    assert_eq!(bare.bar, Some(34));
    assert!(matches!(bare.body, Body::Nothing));

    let rule = drawn(&r, 10, 0, false);
    assert!(matches!(rule.body, Body::Rule(32)));
    assert_eq!((rule.bar, rule.indent, rule.bullet), (None, 0, None));
}

#[test]
fn trailing_blanks_are_not_ink_and_a_heading_is_wider() {
    let r = document();
    assert_eq!(r.chars(2, 0), 6);
    assert_eq!(r.width(2, 7), 9);
    assert_eq!(r.width(4, r.chars(4, 0)), 9, "a step of indent costs a character");
    assert_eq!(r.width(0, 0), "docs/README.md".len());
    assert_eq!((r.chars(99, 0), r.width(99, 5), r.rows(99)), (0, 0, 1));
}

#[test]
fn a_selection_reaches_the_row_it_is_on() {
    let r = document();
    let sel = Some(Selected { part: 0, bytes: Span { start: 1, end: 4 } });
    match r.render(2, 0, &inks(), &page(), sel, state(false, true), 0) {
        Some(PageDrawn::Line(PageLineView { body: Body::Text { lit, .. }, .. })) => {
            assert_eq!(lit, Span { start: 1, end: 4 })
        }
        other => panic!("text expected, got {other:?}"),
    }
    match r.render(0, 0, &inks(), &page(), None, state(true, true), 0) {
        Some(PageDrawn::File(f)) => assert_eq!(f.edge.bar, 1, "the pane holds the keyboard"),
        other => panic!("a file expected, got {other:?}"),
    }
    match r.render(0, 0, &inks(), &page(), None, state(true, false), 0) {
        Some(PageDrawn::File(f)) => {
            assert_eq!(f.dir.unwrap().text, "docs/");
            assert_eq!(f.edge.bar, 2, "a remembered row is faint");
        }
        other => panic!("a file expected, got {other:?}"),
    }
}

/// Code and pages side by side.
enum Any {
    Text(TextRows),
    Page(MarkdownRows),
}

impl Rows for Any {
    // What the contracts speak of has no value when the program runs.
    fn model(&self) -> Models {
        unreachable!()
    }
    fn wants(&self, _: PathText) -> bool {
        unreachable!()
    }
    fn rows_for(&self, _: Models, _: File) -> Models {
        unreachable!()
    }
    fn ready(&self) -> bool {
        unreachable!()
    }
    fn takes(&self, _: Models, _: File) -> bool {
        unreachable!()
    }
    fn claims(&self, path: &str) -> bool {
        match self {
            Any::Text(t) => t.claims(path),
            Any::Page(p) => p.claims(path),
        }
    }
    fn len(&self) -> usize {
        match self {
            Any::Text(t) => t.len(),
            Any::Page(p) => p.len(),
        }
    }
    fn build(&mut self, file: &File) {
        match self {
            Any::Text(t) => t.build(file),
            Any::Page(p) => {
                let (path, adds, dels) = (file.path.clone(), file.adds, file.dels);
                let mut laid_out = vec![PageRow::File { path, adds, dels }];
                for h in &file.hunks {
                    laid_out.push(PageRow::Hunk(h.header.clone()));
                    laid_out.extend(h.lines.iter().map(|l| line(&l.text, plain())));
                }
                p.build(laid_out);
            }
        }
    }
    fn is_file_header(&self, index: usize) -> bool {
        match self {
            Any::Text(t) => t.is_file_header(index),
            Any::Page(p) => p.is_file_header(index),
        }
    }
    fn is_header(&self, index: usize) -> bool {
        self.is_file_header(index)
    }
    fn rows(&self, index: usize) -> usize {
        match self {
            Any::Text(t) => t.rows(index),
            Any::Page(p) => p.rows(index),
        }
    }
    fn width(&self, index: usize, seg: usize) -> usize {
        match self {
            Any::Text(t) => t.width(index, seg),
            Any::Page(p) => p.width(index, p.chars(index, seg)),
        }
    }
    fn hunk_at(&self, index: usize) -> Option<(&str, usize)> {
        match self {
            Any::Text(t) => t.hunk_at(index),
            Any::Page(_) => None,
        }
    }
    fn hunk_span(&self, index: usize) -> Option<(u32, u32)> {
        match self {
            Any::Text(t) => t.hunk_span(index),
            Any::Page(_) => None,
        }
    }
    fn selectable(&self, index: usize, part: u16) -> Option<&str> {
        match self {
            Any::Text(t) => t.selectable(index, part),
            Any::Page(p) => p.selectable(index),
        }
    }
}

/// A file whose first line was replaced.
fn replaced(path: &str, old: &str, new: &str) -> (Source, File) {
    let header: Arc<str> = Arc::from("@@ -1,1 +1,1 @@");
    let sides = [(LineKind::Removed, Some(1), None, old), (LineKind::Added, None, Some(1), new)];
    let read = sides.map(|(kind, old_no, new_no, text)| SourceLine {
        kind,
        moved: false,
        old_no,
        new_no,
        text: Arc::from(text),
    });
    let lines = sides.map(|(kind, old_no, new_no, text)| Line {
        kind,
        moved: false,
        old_no,
        new_no,
        text: Arc::from(text),
        spans: Arc::new(vec![]),
        tokens: Arc::new(vec![]),
    });
    let source = SourceHunk { header: header.clone(), lines: read.into() };
    let hunk = Hunk { header, lines: lines.into() };
    (
        Source { path: Arc::from(path), hunks: vec![source] },
        File { path: Arc::from(path), adds: 1, dels: 1, hunks: vec![hunk] },
    )
}

#[test]
fn it_takes_the_markdown_and_leaves_the_code_to_the_built_in() {
    let (code, rust) = replaced("a.rs", "let x = 1;", "let x = 2;");
    let (page, prose) = replaced("README.md", "# old", "# new");
    let diff = Diff::with_renderers(
        vec![code, page],
        vec![rust, prose],
        0,
        vec![Any::Text(TextRows::new()), Any::Page(MarkdownRows::default())],
        Any::Text(TextRows::new()),
    );
    // Two headers and a removed/added pair per file, every row accounted for
    // exactly once, and only the markdown file's two lines were laid out.
    assert_eq!(diff.total(), 8);
    let owners: Vec<u16> = diff.order.iter().map(|r| r.owner).collect();
    assert_eq!(owners, vec![0, 0, 0, 0, 1, 1, 1, 1]);
    let Any::Page(pages) = &diff.renderers[1] else { panic!("pages expected") };
    let laid_out = pages.rows.iter().filter(|r| matches!(r, PageRow::Line(_))).count();
    assert_eq!(laid_out, 2);
}
