//! The diff pane: its presentations, its order table, and the keyboard over it.
use gitten_shell::views::diff::{
    autoscroll, copied, drag_to, load_line, load_reports, press, reflow, reflow_note, Diff,
    DiffCommand, FileSummary, Layouts, Press, Ran, Rearranged,
};
use gitten_shell::views::draw::{
    clipped, extent_ink, file_header, hunk_header, hunk_runs, line_colors, merged, number,
    row_background, row_bar, split_path, GutterInks, Highlight, Inks, RowState, Run, Selected,
    Surface,
};
use gitten_shell::views::list::{Drift, Motion, Wheel};
use gitten_shell::views::rows::{
    extent_of, File, Hunk, Line, LineKind, Models, PathText, Rows, Span, Token,
};
use gitten_shell::views::source::{is_prepared, same_diff, Source, SourceHunk, SourceLine};
use gitten_shell::views::text_rows::{wrappable, Drawn, Row, TextRows, TextStart, Wrapped};
use std::sync::Arc;

// ---------------------------------------------------------------------------
// Fixtures
// ---------------------------------------------------------------------------

/// Reads a unified diff into the files a pane loads.
fn parse(src: &str) -> Vec<File> {
    let mut files: Vec<File> = Vec::new();
    let (mut old, mut new) = (0u32, 0u32);
    for l in src.lines() {
        if let Some(rest) = l.strip_prefix("diff --git ") {
            let path = rest.rsplit_once(" b/").unwrap().1;
            files.push(File { path: Arc::from(path), adds: 0, dels: 0, hunks: vec![] });
            continue;
        }
        let Some(file) = files.last_mut() else { continue };
        if l.starts_with("@@") {
            let at = |mark: char| -> u32 {
                let from = l.find(mark).unwrap() + 1;
                l[from..].split([',', ' ']).next().unwrap().parse().unwrap()
            };
            (old, new) = (at('-'), at('+'));
            file.hunks.push(Hunk { header: Arc::from(l), lines: vec![] });
            continue;
        }
        let Some(hunk) = file.hunks.last_mut() else { continue };
        let (kind, old_no, new_no) = match l.chars().next() {
            Some('+') => {
                file.adds += 1;
                (LineKind::Added, None, Some(new))
            }
            Some('-') => {
                file.dels += 1;
                (LineKind::Removed, Some(old), None)
            }
            Some(' ') => (LineKind::Context, Some(old), Some(new)),
            _ => continue,
        };
        old += old_no.is_some() as u32;
        new += new_no.is_some() as u32;
        hunk.lines.push(Line {
            kind,
            moved: false,
            old_no,
            new_no,
            text: Arc::from(&l[1..]),
            spans: Arc::new(vec![]),
            tokens: Arc::new(vec![]),
        });
    }
    files
}

/// The diff that files were read from.
fn source(files: &[File]) -> Vec<Source> {
    let line = |l: &Line| SourceLine {
        kind: l.kind,
        moved: l.moved,
        old_no: l.old_no,
        new_no: l.new_no,
        text: l.text.clone(),
    };
    let hunk = |h: &Hunk| SourceHunk {
        header: h.header.clone(),
        lines: h.lines.iter().map(line).collect(),
    };
    files
        .iter()
        .map(|f| Source { path: f.path.clone(), hunks: f.hunks.iter().map(hunk).collect() })
        .collect()
}

/// A pane on files in the presentations `rs`.
fn pinned(files: Vec<File>, rs: Vec<Any>) -> Diff<Any> {
    Diff::with_renderers(source(&files), files, 0, rs, text())
}

const SAMPLE: &str = "\
diff --git a/a.rs b/a.rs
@@ -1,2 +1,2 @@
 fn main() {
-    let x = 1;
+    let x = 2;
";

const TWO_FILES: &str = "\
diff --git a/a.rs b/a.rs
@@ -1,2 +1,2 @@
 fn main() {
-    let x = 1;
+    let x = 2;
diff --git a/b.md b/b.md
@@ -1,1 +1,1 @@
-# old heading
+# new heading
";

/// One line far too long for any sensible window, and one that fits.
const LONG: &str = "\
diff --git a/a.rs b/a.rs
@@ -1,2 +1,2 @@
 fn main() {
-    let x = one(alpha) + two(beta) + three(gamma) + four(delta) + five(epsilon);
+    let x = one(alpha) + two(beta) + three(gamma) + four(delta) + six(epsilon);
";

/// Two files, two hunks in the first and one in the second.
const THREE_HUNKS: &str = "\
diff --git a/one.txt b/one.txt
--- a/one.txt
+++ b/one.txt
@@ -1,3 +1,3 @@
 alpha
-beta
+BETA
 gamma
@@ -10,2 +10,2 @@
 delta
-epsilon old
+epsilon new
diff --git a/two.txt b/two.txt
--- a/two.txt
+++ b/two.txt
@@ -5,2 +5,2 @@
 zeta
-eta old
+eta new
";

/// Two files, two hunks each, with totals the other file does not share.
const TWO_FILES_TWO_HUNKS: &str = "\
diff --git a/one.txt b/one.txt
--- a/one.txt
+++ b/one.txt
@@ -1,4 +1,4 @@
 alpha
-beta
+BETA
 gamma
 delta
@@ -10,4 +10,4 @@
-epsilon old
 zeta
+inserted
 eta
 theta
diff --git a/two.txt b/two.txt
--- a/two.txt
+++ b/two.txt
@@ -1,3 +1,3 @@
 one
-two old
+two new
 three
@@ -20,4 +21,4 @@
 four
-five old
-five more old
+five new
+six new
 seven
";

/// Enough rows that a position in them means something.
fn long_diff() -> Vec<File> {
    let mut raw = String::from("diff --git a/big.rs b/big.rs\n@@ -1,200 +1,200 @@\n");
    for i in 0..200 {
        if i % 5 == 0 {
            raw.push_str(&format!("-    let x{i} = {i};\n+    let x{i} = {};\n", i + 1));
        } else {
            raw.push_str(&format!("     let y{i} = {i};\n"));
        }
    }
    parse(&raw)
}

// ---------------------------------------------------------------------------
// Presentations
// ---------------------------------------------------------------------------

/// A row of a presentation of the tests' own: its text, whether it is a file's
/// band, and the hunk it is in.
struct Plain {
    text: String,
    band: bool,
    hunk: Option<(String, usize, (u32, u32))>,
}

/// A presentation that makes its own rows of a file.
struct Own {
    rows: Vec<Plain>,
    only: Option<&'static str>,
    make: fn(&File, u32) -> Vec<Plain>,
}

/// One row per file and nothing else.
fn one_row(f: &File, _: u32) -> Vec<Plain> {
    vec![Plain { text: format!("rendered {}", f.path), band: false, hunk: None }]
}

/// Side by side: a removed line and the line that replaced it share a row.
fn paired(f: &File, at: u32) -> Vec<Plain> {
    let mut out = vec![Plain { text: f.path.to_string(), band: true, hunk: None }];
    for (n, h) in f.hunks.iter().enumerate() {
        let mut texts = vec![h.header.to_string()];
        let mut i = 0;
        while i < h.lines.len() {
            let run = |from: usize, kind: LineKind| {
                h.lines[from..].iter().take_while(|l| l.kind == kind).count()
            };
            let (dels, adds) = match h.lines[i].kind {
                LineKind::Removed => {
                    let dels = run(i, LineKind::Removed);
                    (dels, run(i + dels, LineKind::Added))
                }
                LineKind::Added => (0, run(i, LineKind::Added)),
                LineKind::Context => (0, 0),
            };
            let rows = dels.max(adds).max(1);
            for k in 0..rows {
                texts.push(h.lines[i + k.min(h.lines.len() - i - 1)].text.to_string());
            }
            i += (dels + adds).max(1);
        }
        let start = at + out.len() as u32;
        let span = (start, start + texts.len() as u32);
        for text in texts {
            out.push(Plain { text, band: false, hunk: Some((f.path.to_string(), n, span)) });
        }
    }
    out
}

impl Own {
    fn only_md() -> Own {
        Own { rows: vec![], only: Some(".md"), make: one_row }
    }

    fn everything() -> Own {
        Own { rows: vec![], only: None, make: one_row }
    }

    fn split() -> Own {
        Own { rows: vec![], only: None, make: paired }
    }
}

/// The presentations a pane of these tests may hold.
enum Any {
    Text(TextRows),
    Own(Own),
}

impl Rows for Any {
    // What the contracts speak of has no value when the program runs.
    fn model(&self) -> Models {
        unreachable!()
    }
    fn wants(&self, _: PathText) -> bool {
        unreachable!()
    }
    fn rows_for(&self, _: Models, _: File) -> Models {
        unreachable!()
    }
    fn ready(&self) -> bool {
        unreachable!()
    }
    fn takes(&self, _: Models, _: File) -> bool {
        unreachable!()
    }
    fn claims(&self, path: &str) -> bool {
        match self {
            Any::Text(t) => t.claims(path),
            Any::Own(o) => o.only.map_or(true, |end| path.ends_with(end)),
        }
    }
    fn len(&self) -> usize {
        match self {
            Any::Text(t) => t.len(),
            Any::Own(o) => o.rows.len(),
        }
    }
    fn build(&mut self, file: &File) {
        match self {
            Any::Text(t) => t.build(file),
            Any::Own(o) => {
                let at = o.rows.len() as u32;
                o.rows.extend((o.make)(file, at));
            }
        }
    }
    fn is_file_header(&self, index: usize) -> bool {
        match self {
            Any::Text(t) => t.is_file_header(index),
            Any::Own(o) => o.rows.get(index).is_some_and(|r| r.band),
        }
    }
    fn is_header(&self, index: usize) -> bool {
        self.is_file_header(index)
    }
    fn rows(&self, index: usize) -> usize {
        match self {
            Any::Text(t) => t.rows(index),
            Any::Own(_) => 1,
        }
    }
    fn width(&self, index: usize, seg: usize) -> usize {
        match self {
            Any::Text(t) => t.width(index, seg),
            Any::Own(o) => o.rows[index].text.chars().count(),
        }
    }
    fn hunk_at(&self, index: usize) -> Option<(&str, usize)> {
        match self {
            Any::Text(t) => t.hunk_at(index),
            Any::Own(o) => o.rows.get(index)?.hunk.as_ref().map(|(p, n, _)| (p.as_str(), *n)),
        }
    }
    fn hunk_span(&self, index: usize) -> Option<(u32, u32)> {
        match self {
            Any::Text(t) => t.hunk_span(index),
            Any::Own(o) => o.rows.get(index)?.hunk.as_ref().map(|(_, _, span)| *span),
        }
    }
    fn selectable(&self, index: usize, part: u16) -> Option<&str> {
        match self {
            Any::Text(t) => t.selectable(index, part),
            Any::Own(o) => o.rows.get(index).map(|r| r.text.as_str()),
        }
    }
}

fn text() -> Any {
    Any::Text(TextRows::new())
}

/// The rows of a presentation that is loaded by name.
fn renderers(name: &str) -> Vec<Any> {
    match name {
        "split" => vec![Any::Own(Own::split())],
        "one-liner" => vec![Any::Own(Own::everything())],
        _ => vec![text()],
    }
}

/// The break policy of the tests: at the last blank that fits, else anywhere.
fn word_breaks(line: &str, cols: usize) -> Vec<Span> {
    let chars: Vec<(usize, char)> = line.char_indices().collect();
    let byte = |i: usize| chars.get(i).map_or(line.len(), |c| c.0);
    let mut out = Vec::new();
    let mut from = 0;
    while chars.len() - from > cols {
        let blank = (from + 1..=from + cols).rev().find(|i| chars[*i - 1].1 == ' ');
        let cut = match blank {
            Some(i) if i > from => i,
            _ => from + cols,
        };
        out.push(Span { start: byte(from), end: byte(cut) });
        from = cut;
    }
    out.push(Span { start: byte(from), end: line.len() });
    out
}

fn wrap_at(t: &TextRows, cols: usize) -> Wrapped {
    let pieces = t
        .rows
        .iter()
        .map(|r| match r {
            Row::Line(_) => word_breaks(wrappable(r), cols),
            _ => vec![],
        })
        .collect();
    Wrapped { pieces, rejected: 0 }
}

fn wrap(t: &mut TextRows, cols: usize) -> bool {
    let breaks = wrap_at(t, cols);
    t.reflow(cols, "word", Some(breaks))
}

fn text_rows(src: &str) -> TextRows {
    let mut t = TextRows::new();
    t.build(&parse(src)[0]);
    t
}

// ---------------------------------------------------------------------------
// The pane and its viewport
// ---------------------------------------------------------------------------

/// The viewport that owns the keyboard and the top row. Scrolling pans: the
/// keyboard stays where it is.
#[derive(Clone, Copy)]
struct Viewport {
    len: usize,
    height: usize,
    margin: usize,
    cursor: usize,
    top: usize,
}

impl Viewport {
    fn last(&self) -> usize {
        self.len.saturating_sub(1)
    }

    fn lowest(&self) -> usize {
        match self.height {
            0 => self.last(),
            h => self.len.saturating_sub(h),
        }
    }

    fn go_to(&mut self, row: usize) {
        self.cursor = row.min(self.last());
        if self.height > 0 {
            let margin = self.margin.min((self.height - 1) / 2);
            if self.cursor < self.top + margin {
                self.top = self.cursor.saturating_sub(margin);
            }
            if self.cursor + margin >= self.top + self.height {
                self.top = self.cursor + margin + 1 - self.height;
            }
        }
        self.top = self.top.min(self.lowest());
    }

    fn pan_to(&mut self, row: usize) {
        self.top = row.min(self.lowest());
    }

    fn step(&mut self, motion: Motion) {
        let page = self.height.saturating_sub(1);
        match motion {
            Motion::Down => self.go_to(self.cursor + 1),
            Motion::Up => self.go_to(self.cursor.saturating_sub(1)),
            Motion::PageDown => self.go_to(self.cursor + page),
            Motion::PageUp => self.go_to(self.cursor.saturating_sub(page)),
            Motion::ScrollDown => self.pan_to(self.top + 1),
            Motion::ScrollUp => self.pan_to(self.top.saturating_sub(1)),
            Motion::Top => self.go_to(0),
            Motion::Bottom => self.go_to(self.last()),
            _ => {}
        }
    }
}

const WRAPS: usize = 3;

struct Pane {
    d: Diff<Any>,
    v: Viewport,
}

impl Pane {
    fn named(files: Vec<File>, layout: &str) -> Pane {
        let layouts: Layouts<()> = Layouts::builtin((), ());
        let at = layouts.opening(layout);
        let name = layouts.names()[at];
        let rows = renderers(name);
        let d =
            Diff::with_layouts(source(&files), files, layouts.names(), at, 1, rows, text());
        let v = Viewport { len: d.total(), height: 0, margin: 3, cursor: 0, top: 0 };
        Pane { d, v }
    }

    fn new(files: Vec<File>) -> Pane {
        Pane::named(files, "unified")
    }

    fn height(mut self, n: usize) -> Pane {
        self.v.height = n;
        self
    }

    fn apply_layout(&mut self, index: usize) {
        let name = self.d.layout_names()[index];
        let down = self.d.cursor as f32 / self.d.total().max(1) as f32;
        self.d.apply_layout(index, renderers(name), text());
        self.v.len = self.d.total();
        let row = (down * self.d.total() as f32) as usize;
        self.v.pan_to(row);
        self.v.go_to(row);
        self.d.parked(self.v.cursor, self.v.top);
    }

    /// Another face, in the same presentation.
    fn apply_font(&mut self) {
        let name = self.d.layout();
        self.d.apply_font(renderers(name), text());
        self.v.len = self.d.total();
        self.v.go_to(self.d.cursor);
        self.d.parked(self.v.cursor, self.v.top);
    }

    fn key(&mut self, command: &str) -> bool {
        let asked = self.d.run_view(command);
        self.v.len = self.d.total();
        self.v.cursor = self.d.cursor;
        if let DiffCommand::Move(m) = asked {
            self.v.step(m);
        }
        match self.d.ran(asked, self.v.cursor, self.v.top, WRAPS) {
            Ran::Refused => return false,
            Ran::Jumped(row) => {
                self.v.go_to(row);
                self.d.followed(self.v.cursor, self.v.top);
            }
            Ran::Layout(index) => self.apply_layout(index),
            Ran::Done | Ran::Moved | Ran::Pan(_) => {}
        }
        true
    }

    fn keys(&mut self, command: &str, n: usize) {
        for _ in 0..n {
            assert!(self.key(command));
        }
    }

    /// A width of `cols` characters of text.
    fn reflow(&mut self, cols: usize) {
        let mut changed = false;
        for r in self.d.renderers.iter_mut() {
            if let Any::Text(t) = r {
                changed |= wrap(t, cols);
            }
        }
        if changed {
            self.d.reflowed();
            self.v.len = self.d.total();
            self.v.go_to(self.d.cursor);
            self.d.parked(self.v.cursor, self.v.top);
        }
    }

    fn at(&self, i: usize) -> (u16, u32) {
        self.d.order[i].logical()
    }

    fn hunk_at_row(&self, index: usize) -> Option<String> {
        let r = self.d.order.get(index)?;
        let (path, n) = self.d.renderers.get(r.owner as usize)?.hunk_at(r.index as usize)?;
        Some(format!("{path}#{n}"))
    }

    fn rows_of(&self, owner: u16, index: u32) -> Vec<usize> {
        let e = extent_of(&self.d.renderers, owner, index).expect("on a hunk");
        (0..self.d.order.len())
            .filter(|&i| {
                let r = self.d.order[i];
                e.contains(r.owner, r.index)
            })
            .collect()
    }
}

fn inks() -> Inks {
    Inks {
        accent: 1,
        faint: 2,
        error: 3,
        selection_bg: 4,
        added_bg: 5,
        added_fg: 6,
        moved_added_bg: 7,
        removed_bg: 8,
        removed_fg: 9,
        moved_removed_bg: 10,
        context_bg: 11,
        context_fg: 12,
        file_bg: 13,
        file_fg: 14,
        dir_fg: 15,
        hunk_bg: 16,
        hunk_fg: 17,
        adds_fg: 18,
        dels_fg: 19,
        rule: 20,
        gutter: GutterInks {
            context: 21,
            added: 22,
            removed: 23,
            moved_added: 24,
            moved_removed: 25,
            cursor: 26,
        },
    }
}

// ---------------------------------------------------------------------------
// Runs
// ---------------------------------------------------------------------------

const KEYWORD: u16 = 1;
const STR: u16 = 2;
const COMMENT: u16 = 3;

fn tok(start: usize, end: usize, kind: u16) -> Token {
    Token { start, end, kind }
}

/// The stretches of `at` of which one thing is true throughout: every edge of a
/// token, a changed word and the selection cuts.
fn sweep(
    at: (usize, usize),
    tokens: &[Token],
    spans: &[Span],
    kind: LineKind,
    moved: bool,
    sel: (usize, usize),
) -> Vec<Run> {
    let mut edges = vec![at.0, at.1, sel.0, sel.1];
    edges.extend(tokens.iter().flat_map(|t| [t.start, t.end]));
    edges.extend(spans.iter().flat_map(|s| [s.start, s.end]));
    edges.retain(|e| at.0 <= *e && *e <= at.1);
    edges.sort();
    edges.dedup();
    let (base, lit) = match (kind, moved) {
        (LineKind::Context, _) => (Surface::Context, None),
        (LineKind::Added, false) => (Surface::Added, Some(Surface::AddedWord)),
        (LineKind::Removed, false) => (Surface::Removed, Some(Surface::RemovedWord)),
        (LineKind::Added, true) => (Surface::MovedAdded, None),
        (LineKind::Removed, true) => (Surface::MovedRemoved, None),
    };
    edges
        .windows(2)
        .map(|w| {
            let inside = |s: usize, e: usize| s <= w[0] && w[1] <= e;
            let word = lit.is_some() && spans.iter().any(|s| inside(s.start, s.end));
            let selected = inside(sel.0, sel.1);
            Run {
                start: w[0],
                end: w[1],
                kind: tokens.iter().find(|t| inside(t.start, t.end)).map(|t| t.kind),
                word: word && !selected,
                surface: if selected {
                    Surface::Selected
                } else if word {
                    lit.unwrap()
                } else {
                    base
                },
            }
        })
        .collect()
}

fn runs_sel(
    at: (usize, usize),
    tokens: &[Token],
    spans: &[Span],
    kind: LineKind,
    moved: bool,
    sel: (usize, usize),
) -> Vec<Highlight> {
    merged(&sweep(at, tokens, spans, kind, moved, sel), at.0, false)
}

fn runs(
    at: (usize, usize),
    tokens: &[Token],
    spans: &[Span],
    kind: LineKind,
    moved: bool,
) -> Vec<Highlight> {
    runs_sel(at, tokens, spans, kind, moved, (0, 0))
}

fn well_formed(text: &str, runs: &[Highlight]) {
    assert!(runs.windows(2).all(|w| w[0].end <= w[1].start), "overlapping: {runs:?}");
    for r in runs {
        assert!(r.start < r.end && r.end <= text.len(), "{r:?} outside {text:?}");
        assert!(text.is_char_boundary(r.start) && text.is_char_boundary(r.end), "{r:?}");
    }
}

#[test]
fn plain_text_produces_no_runs_at_all() {
    assert!(runs((0, 12), &[], &[], LineKind::Context, false).is_empty());
}

#[test]
fn a_token_and_a_span_over_the_same_bytes_split_into_both() {
    let text = "let x = 1;";
    let out = runs(
        (0, text.len()),
        &[tok(0, 3, KEYWORD)],
        &[Span { start: 0, end: 3 }],
        LineKind::Added,
        false,
    );
    well_formed(text, &out);
    assert_eq!(out.len(), 1);
    assert_eq!((out[0].start, out[0].end), (0, 3));
    assert!(out[0].token.is_some() && out[0].background.is_some());
}

#[test]
fn a_span_crossing_a_token_edge_splits_at_the_edge() {
    let text = "let x = 1;";
    let out = runs(
        (0, text.len()),
        &[tok(0, 3, KEYWORD)],
        &[Span { start: 2, end: 7 }],
        LineKind::Added,
        false,
    );
    well_formed(text, &out);
    let shape: Vec<_> = out
        .iter()
        .map(|h| (h.start, h.end, h.token.is_some(), h.background.is_some()))
        .collect();
    assert_eq!(shape, vec![(0, 2, true, false), (2, 3, true, true), (3, 7, false, true)]);
}

#[test]
fn multi_byte_text_keeps_its_boundaries() {
    let text = "let s = \"café 😀\";";
    let quote = text.find('"').unwrap();
    let out = runs(
        (0, text.len()),
        &[tok(0, 3, KEYWORD), tok(quote, text.len() - 1, STR)],
        &[Span { start: quote, end: text.len() - 1 }],
        LineKind::Added,
        false,
    );
    well_formed(text, &out);
}

#[test]
fn a_moved_line_is_drawn_on_its_own_background() {
    let p = inks();
    for kind in [LineKind::Added, LineKind::Removed] {
        let (plain, _, sign) = line_colors(kind, false, &p);
        let (moved, _, moved_sign) = line_colors(kind, true, &p);
        assert_ne!(plain, moved, "{kind:?} moved and unmoved share a background");
        assert_eq!(sign, moved_sign, "the sign column must stay scannable");
    }
    // Context is never moved, and asking must not change what it looks like.
    assert_eq!(
        line_colors(LineKind::Context, true, &p),
        line_colors(LineKind::Context, false, &p)
    );
}

#[test]
fn the_cursor_bar_beats_every_row_background_in_every_presentation() {
    let p = inks();
    for kind in [LineKind::Context, LineKind::Added, LineKind::Removed] {
        for moved in [false, true] {
            let (base, _, _) = line_colors(kind, moved, &p);
            assert_eq!(row_background(true, base, &p), p.selection_bg, "{kind:?} hid the cursor");
            assert_eq!(row_background(false, base, &p), base);
        }
    }
    // The furniture rows the presentations share.
    assert_eq!(row_background(true, p.file_bg, &p), p.selection_bg);
    assert_eq!(row_background(true, p.hunk_bg, &p), p.selection_bg);
    assert_eq!(row_background(false, p.file_bg, &p), p.file_bg);
    let state =
        |current, focused| RowState { current, focused, armed: false, in_hunk: false };
    assert_eq!(row_bar(state(true, true), p.context_bg, &p), p.accent);
    assert_eq!(row_bar(state(true, false), p.context_bg, &p), p.faint);
    assert_eq!(
        row_bar(state(false, true), p.context_bg, &p),
        row_background(false, p.context_bg, &p)
    );
}

#[test]
fn every_row_of_the_cursors_hunk_reports_the_extent() {
    let mut p = Pane::new(parse(THREE_HUNKS)).height(20);
    // A file header owns no hunk.
    let r = p.d.order[0];
    assert!(extent_of(&p.d.renderers, r.owner, r.index).is_none(), "row 0 is a file header");

    // The keyboard onto hunk 0's header row.
    p.key("view.down");
    let r = p.d.order[p.d.cursor];
    let e = extent_of(&p.d.renderers, r.owner, r.index).expect("on a hunk");
    assert_eq!(
        p.rows_of(r.owner, r.index),
        vec![1, 2, 3, 4, 5],
        "the hunk's rows, and only them"
    );
    assert!(!e.contains(r.owner, 0), "row 0 is above the extent");
    assert!(!e.contains(r.owner, 6), "row 6 is the next hunk's header");
    let two = p.d.order[12];
    assert!(!e.contains(two.owner, two.index), "the second file maps to no extent here");

    // And the rows drawn say the same.
    let (here, armed) = p.d.extents();
    assert!(armed.is_none());
    let lit: Vec<usize> =
        (0..p.d.total()).filter(|i| p.d.row_state(*i, here, armed).in_hunk).collect();
    assert_eq!(lit, vec![1, 2, 3, 4, 5]);
}

#[test]
fn the_armed_tint_covers_exactly_the_armed_hunk() {
    let mut p = Pane::new(parse(THREE_HUNKS)).height(20);
    // Row 6 is hunk 1's header, 7 is `delta`.
    p.keys("view.down", 7);
    let id = p.d.cursor_row_id();
    assert!(!p.d.confirm_or_arm_discard_hunk(id), "first press asks");
    let armed = p.d.armed_hunk.expect("armed, and waiting");
    assert_eq!(
        p.rows_of(armed.0, armed.1),
        vec![6, 7, 8, 9],
        "the armed hunk's rows, and only them"
    );
    p.key("view.down");
    assert!(p.d.armed_hunk.is_none(), "a cursor move disarms");
}

#[test]
fn a_header_row_carries_the_cursor_bar() {
    let p = inks();
    let state =
        |current, in_hunk| RowState { current, focused: true, armed: false, in_hunk };
    // Both headers draw with the keyboard on them and off them.
    assert_eq!(hunk_header(15, &p, None, state(true, true)).edge.bar, p.accent);
    assert_eq!(file_header("one.txt", 1, 2, &p, None, state(true, true)).edge.bar, p.accent);
    assert_eq!(hunk_header(15, &p, None, state(false, true)).edge.extent, p.rule);
    assert_eq!(file_header("one.txt", 1, 2, &p, None, state(false, true)).edge.extent, p.rule);
    assert_eq!(row_bar(state(true, false), p.hunk_bg, &p), p.accent);
    assert_eq!(row_bar(state(false, false), p.hunk_bg, &p), p.hunk_bg);
    assert_eq!(row_bar(state(false, false), p.file_bg, &p), p.file_bg);
    assert_eq!(extent_ink(state(false, true), p.hunk_bg, &p), p.rule);
    assert_eq!(extent_ink(state(false, false), p.file_bg, &p), p.file_bg);
    assert_eq!(
        extent_ink(state(true, true), p.hunk_bg, &p),
        row_bar(state(true, true), p.hunk_bg, &p)
    );
}

#[test]
fn a_layout_cycle_disarms_before_the_rows_mean_something_else() {
    let mut p = Pane::new(parse(THREE_HUNKS));
    let id = p.d.cursor_row_id();
    assert!(!p.d.confirm_or_arm_discard_hunk(id), "first press asks");
    assert!(p.d.armed_hunk.is_some(), "armed, and waiting");
    p.apply_layout(1);
    assert!(p.d.armed_hunk.is_none(), "the cycle spent nothing: it cleared");
}

#[test]
fn a_token_on_a_moved_line_is_resolved_against_that_background() {
    let text = "// a comment that moved";
    let tokens = [tok(0, text.len(), COMMENT)];
    let plain = runs((0, text.len()), &tokens, &[], LineKind::Removed, false);
    let moved = runs((0, text.len()), &tokens, &[], LineKind::Removed, true);
    well_formed(text, &plain);
    well_formed(text, &moved);
    assert_ne!(plain[0].token, moved[0].token, "the same surface for both");
}

#[test]
fn a_moved_line_lights_up_no_changed_words() {
    let text = "let x = 1;";
    let spans = [Span { start: 0, end: 3 }];
    let out = runs((0, text.len()), &[], &spans, LineKind::Added, true);
    let unmoved = runs((0, text.len()), &[], &spans, LineKind::Added, false);
    assert!(unmoved.iter().any(|h| h.background.is_some()));
    assert!(out.is_empty(), "a moved line produced runs for nothing: {out:?}");
}

#[test]
fn a_comment_on_a_changed_word_is_lifted_off_the_background() {
    let text = "# Collect every check failure before exiting";
    let out = runs(
        (0, text.len()),
        &[tok(0, text.len(), COMMENT)],
        &[Span { start: 10, end: text.len() }],
        LineKind::Added,
        false,
    );
    well_formed(text, &out);
    let plain = out.iter().find(|h| h.start == 0).unwrap();
    let on_word = out.iter().find(|h| h.start == 10).unwrap();
    assert!(on_word.background.is_some());
    assert_ne!(plain.token, on_word.token, "the same surface for both");
}

#[test]
fn on_the_keyboards_row_a_token_is_read_against_the_bar() {
    let tokens = [tok(0, 3, KEYWORD), tok(4, 5, KEYWORD)];
    let spans = [Span { start: 4, end: 5 }];
    let sweep = sweep((0, 10), &tokens, &spans, LineKind::Added, false, (0, 0));
    let out = merged(&sweep, 0, true);
    assert_eq!(out[0].token, Some((KEYWORD, Surface::Cursor)));
    assert_eq!(out[1].token, Some((KEYWORD, Surface::AddedWord)), "a word keeps its own");
}

#[test]
fn a_gutter_number_formats_into_the_scratch_and_pads_nowhere() {
    assert_eq!(number(Some(9), false), "9");
    assert_eq!(number(Some(12345), false), "12345");
    assert_eq!(number(Some(7), true), "", "a continuation row draws nothing");
    assert_eq!(number(None, false), "", "so does a side with no number");
    assert_eq!(number(Some(41), false), "41");
}

#[test]
fn a_click_lands_on_the_byte_under_it() {
    let r = text_rows(SAMPLE);
    // Row 3 is the removed line, stored without its sign.
    let text = r.selectable(3, 0).expect("a line");
    assert_eq!(text, "    let x = 1;");
    for col in [0, 4, 7, 13] {
        let hit = r.hit(3, 0, col).expect("a hit");
        assert_eq!((hit.part, hit.off), (0, col), "column {col}");
    }
    // Past the end of the text clamps to the end of it.
    assert_eq!(r.hit(3, 0, 400).unwrap().off, text.len());
    assert!(r.hit(99, 0, 0).is_none());
}

#[test]
fn a_click_on_a_continuation_row_addresses_the_line_and_not_the_row() {
    let mut r = text_rows(LONG);
    assert!(wrap(&mut r, 40));
    let row = (0..r.len()).find(|i| r.rows(*i) > 1).expect("a wrapped line");
    let first = r.hit(row, 0, 3).unwrap().off;
    let second = r.hit(row, 1, 3).unwrap().off;
    assert_eq!(first, 3);
    assert!(second > 30, "the second row rebased to {second}, not into the line");
    // And the byte it names is the byte drawn there.
    assert_eq!(second, r.piece(row, 1).start + 3);
}

#[test]
fn a_header_is_selectable_because_a_paste_of_three_files_needs_its_paths() {
    let r = text_rows(SAMPLE);
    assert_eq!(r.selectable(0, 0), Some("a.rs"));
    assert_eq!(r.selectable(1, 0), Some("@@ -1,2 +1,2 @@"));
    assert_eq!(r.text_start(0), Some(TextStart::Page));
    assert_eq!(r.hit(0, 0, 2).unwrap().off, 2);
}

#[test]
fn a_selected_run_carries_a_background_and_outranks_a_changed_word() {
    let text = "    let x = 1;";
    let out = runs_sel(
        (0, text.len()),
        &[],
        &[Span { start: 8, end: 9 }],
        LineKind::Removed,
        false,
        (4, 11),
    );
    well_formed(text, &out);
    let painted: Vec<usize> = out
        .iter()
        .filter(|h| h.background == Some(Surface::Selected))
        .flat_map(|h| h.start..h.end)
        .collect();
    assert_eq!(painted, (4..11).collect::<Vec<_>>());
    assert!(
        !out.iter().any(|h| (h.start..h.end).contains(&8)
            && h.background == Some(Surface::RemovedWord)),
        "the changed word kept its background inside the selection"
    );
}

/// Where a hunk header's coordinates end.
fn marker(header: &str) -> usize {
    match header.strip_prefix("@@").and_then(|rest| rest.find("@@")) {
        Some(i) => i + 4,
        None => header.len(),
    }
}

#[test]
fn a_hunk_header_paints_its_coordinates_and_leaves_its_code_alone() {
    let header = "@@ -41,9 +41,11 @@ fn dispatch() {";
    let marker = marker(header);
    let out = hunk_runs(marker, Span { start: 0, end: 0 });
    assert_eq!(out.len(), 1, "one run: the coordinates");
    assert_eq!((out[0].start, out[0].end), (0, marker));
    assert!(out[0].in_marker && !out[0].in_sel);
    assert!(marker < header.len() && out.iter().all(|r| r.end <= marker));
}

#[test]
fn a_selection_across_a_hunk_header_keeps_both_of_its_colours() {
    let header = "@@ -41,9 +41,11 @@ fn dispatch() {";
    let marker = marker(header);
    let out = hunk_runs(marker, Span { start: 5, end: 25 });
    assert!(out.windows(2).all(|w| w[0].end <= w[1].start));
    let painted: Vec<usize> =
        out.iter().filter(|r| r.in_sel).flat_map(|r| r.start..r.end).collect();
    assert_eq!(painted, (5..25).collect::<Vec<_>>(), "the selection, exactly");
    // ...and the coordinates are still the coordinates inside it.
    let coloured: Vec<usize> =
        out.iter().filter(|r| r.in_marker).flat_map(|r| r.start..r.end).collect();
    assert_eq!(coloured, (0..marker).collect::<Vec<_>>());
}

#[test]
fn a_header_with_no_coordinates_is_all_coordinates() {
    let header = "not a hunk header";
    let marker = marker(header);
    assert_eq!(marker, header.len(), "the whole string is the marker");
    let out = hunk_runs(marker, Span { start: 0, end: 0 });
    assert_eq!(out.len(), 1);
    assert_eq!((out[0].start, out[0].end), (0, header.len()));
    // A zero-length marker is a selection background and nothing else.
    let out = hunk_runs(0, Span { start: 2, end: 6 });
    assert_eq!(out.len(), 1);
    assert_eq!((out[0].start, out[0].end), (2, 6));
    assert!(!out[0].in_marker, "no coordinates to colour");
    assert!(hunk_runs(0, Span { start: 0, end: 0 }).is_empty(), "nothing at all");
}

#[test]
fn a_paths_selection_is_split_between_its_directory_and_its_name() {
    let cut = "src/views/".len();
    let len = "src/views/diff.rs".len();
    let span = |start, end| Span { start, end };
    // A selection over the whole path.
    assert_eq!(clipped(span(0, len), span(0, cut)), span(0, cut));
    assert_eq!(clipped(span(0, len), span(cut, len)), span(0, len - cut));
    // One that straddles the boundary: three bytes of directory, four of name.
    let sel = span(cut - 3, cut + 4);
    assert_eq!(clipped(sel, span(0, cut)), span(cut - 3, cut));
    assert_eq!(clipped(sel, span(cut, len)), span(0, 4));
    // One that misses each side entirely is empty, not inverted.
    let empty = |s: Span| s.start >= s.end;
    assert!(empty(clipped(span(0, 2), span(cut, len))));
    assert!(empty(clipped(span(cut + 1, len), span(0, cut))));
    // Nothing selected at all.
    assert!(empty(clipped(span(0, 0), span(cut, len))));
    assert_eq!(split_path("src/views/diff.rs"), (Some("src/views/"), "diff.rs"));
    assert_eq!(split_path("diff.rs"), (None, "diff.rs"));
}

#[test]
fn a_selection_is_clipped_into_the_row_that_draws_it() {
    let text = "aaaa bbbb cccc";
    let first = runs_sel((0, 5), &[], &[], LineKind::Context, false, (2, 12));
    let second = runs_sel((5, text.len()), &[], &[], LineKind::Context, false, (2, 12));
    assert_eq!(first.first().map(|h| (h.start, h.end)), Some((2, 5)));
    assert_eq!(second.first().map(|h| (h.start, h.end)), Some((0, 7)));
    // A selection that misses this row entirely leaves no runs at all.
    assert!(runs_sel((5, 14), &[], &[], LineKind::Context, false, (0, 2)).is_empty());
}

// ---------------------------------------------------------------------------
// Wrapping
// ---------------------------------------------------------------------------

#[test]
fn a_wrapped_line_is_several_rows_and_still_one_line() {
    let mut r = text_rows(LONG);
    let before = r.len();
    assert!((0..r.len()).all(|i| r.rows(i) == 1), "nothing wraps before a reflow");

    assert!(wrap(&mut r, 40));
    assert_eq!(r.len(), before, "wrapping changed the line count");
    let rows: Vec<usize> = (0..r.len()).map(|i| r.rows(i)).collect();
    assert_eq!(rows, [1, 1, 1, 3, 3], "headers, a short line, two long ones");
}

#[test]
fn no_row_is_wider_than_the_window_once_it_has_wrapped() {
    let mut r = text_rows(LONG);
    for cols in [12, 20, 40, 77] {
        wrap(&mut r, cols);
        for i in 0..r.len() {
            // Headers are exempt and stay one row each.
            if !matches!(r.rows[i], Row::Line(_)) {
                assert_eq!(r.rows(i), 1);
                continue;
            }
            for seg in 0..r.rows(i) {
                assert!(r.width(i, seg) <= cols, "{cols}: row {i}/{seg}");
            }
        }
    }
}

#[test]
fn a_resize_that_crosses_no_character_boundary_costs_nothing() {
    let mut r = text_rows(LONG);
    assert!(wrap(&mut r, 40));
    assert!(!r.reflow_needed(40, "word"));
    assert!(!wrap(&mut r, 40), "the same columns rebuilt the table");
    assert!(wrap(&mut r, 45), "five characters did not");
}

#[test]
fn turning_it_off_collapses_the_rows_again() {
    let mut r = text_rows(LONG);
    wrap(&mut r, 20);
    assert!(r.rows(3) > 1);

    assert!(r.reflow(20, "off", None));
    assert!((0..r.len()).all(|i| r.rows(i) == 1), "off still broke something");
    // And the widest row is the whole line again.
    assert!(r.width(3, 0) > 20);
    assert!(!r.reflow(21, "off", None), "nothing was broken, nothing changed");
}

#[test]
fn a_registered_wrap_reaches_the_rows() {
    // A policy that breaks every line into single characters.
    let mut r = text_rows(LONG);
    let pieces = r
        .rows
        .iter()
        .map(|row| match row {
            Row::Line(l) => l
                .text
                .char_indices()
                .map(|(i, c)| Span { start: i, end: i + c.len_utf8() })
                .collect(),
            _ => vec![],
        })
        .collect();
    r.reflow(40, "every-char", Some(Wrapped { pieces, rejected: 0 }));
    assert_eq!(r.rows(2), "fn main() {".chars().count());
    assert!((0..r.len()).all(|i| r.width(i, 0) <= 1 || !matches!(r.rows[i], Row::Line(_))));
}

#[test]
fn a_report_says_what_moved_and_what_was_refused() {
    let mut files = parse(SAMPLE);
    files[0].hunks[0].lines[1].moved = true;
    let mut r = TextRows::new();
    r.build(&files[0]);
    assert_eq!(r.report(), "1 moved");
    r.reflow(9, "odd", Some(Wrapped { pieces: vec![], rejected: 2 }));
    assert_eq!(r.report(), "1 moved · 2 invalid breaks from odd");
    assert_eq!(TextRows::new().report(), "");
}

#[test]
fn the_order_table_grows_and_keeps_the_line_you_were_reading() {
    let mut p = Pane::new(parse(LONG));
    let unwrapped = p.d.total();

    p.reflow(40);
    assert!(p.d.total() > unwrapped, "the order table did not grow");
    // The segments of one line are consecutive and start at zero.
    let mut expect = 0;
    let mut last = None;
    for r in p.d.order.iter() {
        if last != Some(r.logical()) {
            expect = 0;
            last = Some(r.logical());
        }
        assert_eq!(r.seg, expect, "segments out of order");
        expect += 1;
    }

    // Park the keyboard on the last line, reflow narrower, and it is still the
    // line under the cursor — at a different row number.
    let last_line = p.at(p.d.total() - 1);
    p.v.len = p.d.total();
    p.v.go_to(p.d.total() - 1);
    p.d.followed(p.v.cursor, p.v.top);
    p.reflow(20);
    assert_eq!(p.at(p.d.cursor), last_line);
    assert_eq!(p.d.order[p.d.cursor].seg, 0, "not the top of its line");
}

#[test]
fn a_row_that_wrapped_styles_its_own_slice_and_not_the_line() {
    let text = "let alpha = 1; let beta = 2;";
    let tokens = [tok(0, 3, KEYWORD), tok(15, 18, KEYWORD)];
    let second = text.find("let beta").unwrap();

    let out = runs((second, text.len()), &tokens, &[], LineKind::Context, false);
    assert_eq!(out.len(), 1, "{out:?}");
    assert_eq!((out[0].start, out[0].end), (0, 3), "the second `let` is at 0 of the second row");

    // And the first row sees only the first token.
    let out = runs((0, second), &tokens, &[], LineKind::Context, false);
    assert_eq!(out.len(), 1);
    assert_eq!((out[0].start, out[0].end), (0, 3));
}

#[test]
fn a_span_straddling_a_break_is_clipped_to_each_row() {
    let text = "aaaa bbbb cccc";
    let spans = [Span { start: 2, end: 12 }];
    let first = runs((0, 5), &[], &spans, LineKind::Added, false);
    let second = runs((5, text.len()), &[], &spans, LineKind::Added, false);
    assert_eq!((first[0].start, first[0].end), (2, 5));
    assert_eq!((second[0].start, second[0].end), (0, 7));
    assert!(first[0].background.is_some());
    assert!(second[0].background.is_some());
}

#[test]
fn a_presentation_that_ignores_wrapping_is_untouched_by_it() {
    let mut r = Any::Own(Own::only_md());
    r.build(&parse(TWO_FILES)[1]);
    assert_eq!(r.rows(0), 1);
    let mut p = Pane::named(parse(TWO_FILES), "split");
    let before = p.d.total();
    p.reflow(5);
    assert_eq!(p.d.total(), before, "a reflow it ignored changed its row count");
}

#[test]
fn the_built_in_renderer_claims_every_path() {
    let r = TextRows::new();
    for p in ["a.rs", "b.md", "no-extension", "weird.xyz"] {
        assert!(r.claims(p));
    }
}

#[test]
fn building_a_file_yields_a_row_per_line_plus_the_headers() {
    let r = text_rows(SAMPLE);
    assert_eq!(r.len(), 2 + 3, "file header, hunk header, three lines");
    // Widths are answered for every row it built.
    assert!((0..r.len()).all(|i| r.width(i, 0) > 0));
}

#[test]
fn a_one_file_diff_leaves_its_file_header_out_of_the_order() {
    let d = pinned(parse(SAMPLE), vec![text()]);
    assert_eq!(d.renderers[0].len(), 5, "file header, hunk header, three lines built");
    assert_eq!(d.order.len(), 4, "but the file header is not drawn");
    assert!(d.order.iter().all(|r| !d.renderers[0].is_file_header(r.index as usize)));
    let first = d.order[0];
    assert_eq!(
        d.renderers[0].selectable(first.index as usize, 0),
        Some("@@ -1,2 +1,2 @@"),
        "the body opens on the hunk header"
    );
}

fn bin() -> Vec<File> {
    vec![File { path: Arc::from("bin.dat"), adds: 0, dels: 0, hunks: vec![] }]
}

#[test]
fn a_one_file_diff_with_no_hunks_keeps_its_only_row() {
    let d = pinned(bin(), vec![text()]);
    assert_eq!(d.order.len(), 1);
    assert_eq!(d.file_summary().map(|s| s.path), Some("bin.dat".to_string()));
}

#[test]
fn a_two_file_diff_keeps_both_file_headers() {
    let d = pinned(parse(TWO_FILES), vec![text()]);
    let headers =
        d.order.iter().filter(|r| d.renderers[0].is_file_header(r.index as usize)).count();
    assert_eq!(headers, 2);
    assert_eq!(d.order.len(), d.renderers[0].len());
}

#[test]
fn a_hunk_header_is_hit_where_the_code_is() {
    let r = text_rows(SAMPLE);
    let header = r.selectable(1, 0).expect("the hunk header");
    assert!(header.starts_with("@@"));
    assert_eq!(r.text_start(1), Some(TextStart::Code));
    for col in [0, 3, 8] {
        let hit = r.hit(1, 0, col).expect("a hit");
        assert_eq!((hit.part, hit.off), (0, col), "column {col}");
    }
    // The file header still measures from the padding.
    assert_eq!(r.text_start(0), Some(TextStart::Page));
    assert_eq!(r.hit(0, 0, 0).unwrap().off, 0);
    assert_eq!(r.text_start(9), None);
}

#[test]
fn a_specialist_renderer_takes_only_the_files_it_claims() {
    let files = parse(TWO_FILES);
    assert_eq!(files.len(), 2);
    let d = pinned(files, vec![text(), Any::Own(Own::only_md())]);
    // a.rs went to the built-in: file header, hunk header, three lines.
    // b.md went to the specialist, which collapsed it to a single row.
    let by_owner = |o: u16| d.order.iter().filter(|r| r.owner == o).count();
    assert_eq!(by_owner(0), 5);
    assert_eq!(by_owner(1), 1);
    assert_eq!(d.total(), 6);
    let load = load_line(d.total(), d.files.len(), d.layout(), "1 ms", &vec![]);
    assert!(load.contains("2 files"), "{load}");
}

#[test]
fn the_shipped_registry_has_both_presentations() {
    let l: Layouts<()> = Layouts::builtin((), ());
    assert_eq!(l.names(), vec!["unified", "split"]);
    assert_eq!(l.position("split"), Some(1));
    assert_eq!(l.position("sidebyside"), None);
    assert_eq!(l.len(), 2);
}

#[test]
fn the_host_chooses_which_presentation_opens() {
    let split = Pane::named(parse(TWO_FILES), "split");
    assert_eq!(split.d.layout(), "split");
    // The two-column layout collapses a replace pair onto one row.
    let unified = Pane::new(parse(TWO_FILES));
    assert_eq!(unified.d.layout(), "unified");
    assert!(split.d.total() < unified.d.total());
}

#[test]
fn an_unknown_layout_name_opens_the_first_rather_than_nothing() {
    let p = Pane::named(parse(SAMPLE), "sidebyside");
    assert_eq!(p.d.layout(), "unified");
    assert!(p.d.total() > 0, "a typo in a live-reloaded file must not blank the diff");
}

#[test]
fn cycling_returns_to_where_it_started() {
    let mut p = Pane::new(parse(TWO_FILES));
    let (name, total) = (p.d.layout(), p.d.total());
    p.apply_layout(1);
    assert_eq!(p.d.layout(), "split");
    assert_ne!(p.d.total(), total);
    p.apply_layout(0);
    assert_eq!(p.d.layout(), name);
    assert_eq!(p.d.total(), total, "a round trip must rebuild the same rows");
}

#[test]
fn swapping_the_diff_keeps_the_presentation() {
    let mut p = Pane::new(parse(SAMPLE));
    p.apply_layout(1);
    assert_eq!(p.d.layout(), "split");
    p.v.len = p.d.total();
    p.v.go_to(p.d.total().saturating_sub(1));
    p.d.followed(p.v.cursor, p.v.top);

    let row = p.d.cursor();
    let to = p.d.swap_prepared(
        source(&parse(TWO_FILES)),
        parse(TWO_FILES),
        renderers("split"),
        text(),
    );
    assert_eq!(p.d.layout(), "split", "the swap reset the presentation");
    assert!(to.park);
    assert!(p.d.cursor() < p.d.total(), "the old cursor was not clamped");
    assert_eq!(p.d.cursor(), row, "a row that is there is kept");
    let load = load_line(p.d.total(), p.d.files.len(), p.d.layout(), "1 ms", &vec![]);
    assert!(load.contains("2 files") && load.contains("split"), "{load}");

    // And an empty diff is a swap too — a revspec whose changes vanished.
    let to = p.d.swap_prepared(Vec::new(), Vec::new(), renderers("split"), text());
    assert_eq!(p.d.total(), 0);
    assert_eq!(p.d.layout(), "split");
    assert_eq!((p.d.cursor(), p.d.top), (0, 0));
    assert_eq!(to, Rearranged { len: 0, cursor: 0, top: 0, park: false });
    assert!(!p.d.pending.is_awaiting());
}

#[test]
fn a_shorter_diff_holds_the_keyboard_and_the_top_inside_it() {
    let mut p = Pane::new(long_diff());
    p.d.followed(p.d.total() - 1, 150);
    assert_eq!((p.d.cursor(), p.d.top), (240, 150));
    let files = parse(TWO_FILES);
    let to = p.d.replace(source(&files), files, renderers("unified"), text());
    assert_eq!(p.d.total(), 9);
    assert_eq!((p.d.cursor(), p.d.top), (8, 8));
    assert_eq!(to, Some(Rearranged { len: 9, cursor: 8, top: 8, park: true }));
    assert!(p.d.file_summary().is_some(), "the keyboard is on a row");
}

#[test]
fn an_unchanged_diff_is_left_alone() {
    let mut p = Pane::new(parse(SAMPLE));
    let id = p.d.cursor_row_id();
    p.d.confirm_or_arm_discard_hunk(id);
    let mut replace = |files: Vec<File>| {
        let to = p.d.replace(source(&files), files, renderers("unified"), text());
        (to.is_some(), p.d.armed_hunk.is_some(), p.d.files.len())
    };
    assert_eq!(replace(parse(SAMPLE)), (false, true, 1));
    assert_eq!(replace(parse(TWO_FILES)), (true, false, 2));
    assert_eq!(replace(parse(TWO_FILES)), (false, false, 2));
}

#[test]
fn any_difference_makes_another_diff() {
    let read = || source(&parse(TWO_FILES));
    assert!(same_diff(&read(), &read()));
    assert!(same_diff(&vec![], &vec![]));
    assert!(!same_diff(&read(), &vec![]));
    let mut other = read();
    other[1].path = Arc::from("c.md");
    assert!(!same_diff(&read(), &other));
    let mut other = read();
    other[0].hunks[0].header = Arc::from("@@ -9,2 +9,2 @@");
    assert!(!same_diff(&read(), &other));
    let mut other = read();
    other[0].hunks.clear();
    assert!(!same_diff(&read(), &other));
    let change = |f: &dyn Fn(&mut SourceLine)| {
        let mut other = read();
        f(&mut other[0].hunks[0].lines[1]);
        !same_diff(&read(), &other)
    };
    assert!(change(&|l| l.text = Arc::from("    let x = 3;")));
    assert!(change(&|l| l.kind = LineKind::Context));
    assert!(change(&|l| l.moved = true));
    assert!(change(&|l| l.old_no = None));
    assert!(change(&|l| l.new_no = Some(7)));
    assert!(!change(&|_| ()));
}

#[test]
fn a_font_change_rebuilds_the_presentation() {
    let mut p = Pane::new(parse(SAMPLE));
    let prepared = p.d.files[0].path.clone();
    // Construction built once, for the face of size 14 and for no width.
    let mut builds = 1;
    let mut applied = (14, 0);
    let mut frame = |p: &mut Pane, size: usize, cols: usize| {
        let due = reflow(size == applied.0, cols == applied.1, cols > 0);
        applied = (size, cols);
        if due.rebuild {
            builds += 1;
            p.apply_font();
        }
        if due.rebreak {
            p.reflow(cols);
        }
        builds
    };
    assert_eq!(frame(&mut p, 14, 40), 1);

    // Same font again and again: nothing to do.
    assert_eq!(frame(&mut p, 14, 40), 1);
    assert_eq!(frame(&mut p, 14, 40), 1, "an unchanged frame rebuilt the renderers");

    // A bigger face: every glyph moves, the width does not.
    assert_eq!(frame(&mut p, 18, 40), 2, "a font change left the presentation stale");
    assert!(Arc::ptr_eq(&prepared, &p.d.files[0].path), "a font change re-prepared the diff");

    // And it settles again: frames under the new font are free once more.
    assert_eq!(frame(&mut p, 18, 40), 2);
    assert_eq!(frame(&mut p, 18, 40), 2, "the rebuild fired again on an unchanged frame");

    // A new width breaks the rows again, and rebuilds nothing; no width, neither.
    assert_eq!(frame(&mut p, 18, 30), 2);
    let moved = reflow(true, false, true);
    assert!(!moved.rebuild && moved.rebreak);
    assert!(reflow(false, true, true).rebreak, "rows that were just built are not broken yet");
    assert!(!reflow(false, false, false).rebreak);
}

/// What a selection from a byte of one logical row to a byte of another copies.
fn selected_text(d: &Diff<Any>, from: (u32, usize), to: (u32, usize)) -> String {
    let lines: Vec<&str> = (from.0..=to.0)
        .map(|i| {
            let line = d.renderers[0].selectable(i as usize, 0).unwrap();
            let start = if i == from.0 { from.1 } else { 0 };
            let end = if i == to.0 { to.1.min(line.len()) } else { line.len() };
            &line[start..end]
        })
        .collect();
    lines.join("\n")
}

#[test]
fn a_font_edit_keeps_the_selection_and_the_row() {
    let mut p = Pane::new(parse(TWO_FILES));
    p.reflow(40);
    let text = selected_text(&p.d, (1, 0), (3, 9));
    assert_eq!(text, "@@ -1,2 +1,2 @@\nfn main() {\n    let x");

    // A known row, past the start, so a fall-back to 0 would not
    // accidentally pass.
    p.v.go_to(3);
    p.d.followed(p.v.cursor, p.v.top);
    let logical_before = p.at(p.d.cursor());
    p.d.confirm_or_arm_discard_hunk(logical_before);

    p.apply_font();
    assert!(p.d.armed_hunk.is_none(), "a question outlived the rows it was asked about");
    p.reflow(40);
    assert_eq!(
        selected_text(&p.d, (1, 0), (3, 9)),
        text,
        "the same bytes, at the same width, under a new font"
    );
    // The visual index may legitimately have moved if the new font
    // changed the column budget; the row it names must not have.
    assert_eq!(p.at(p.d.cursor()), logical_before, "the cursor landed on a different logical row");

    // An actual presentation change is another matter: other rows.
    p.apply_layout(1);
    assert_eq!(p.d.layout(), "split");
}

#[test]
fn a_font_edit_finds_the_row_under_lines_that_wrapped() {
    let mut p = Pane::new(parse(LONG));
    p.reflow(20);
    assert!(p.d.total() > 8, "the lines above wrapped");
    let last = p.d.total() - 1;
    p.v.go_to(last);
    p.d.followed(p.v.cursor, p.v.top);
    let logical = p.at(last);
    assert_eq!(logical, (0, 4));

    // Rebuilt, nothing is broken yet: the line is the fourth row of four.
    p.d.apply_font(renderers("unified"), text());
    assert_eq!((p.d.total(), p.d.cursor()), (4, 3));
    assert_eq!(p.d.cursor_row_id(), logical);

    // And broken again it is still on that line, on the first row it takes.
    p.reflow(20);
    assert_eq!(p.d.cursor_row_id(), logical);
    assert_eq!(p.d.order[p.d.cursor()].seg, 0);
    assert!(p.d.cursor() < last);
}

#[test]
fn a_logical_row_is_found_where_it_starts() {
    let mut p = Pane::new(parse(LONG));
    assert_eq!(p.d.kept_row((0, 3)), 2, "the only file's band is left out");
    p.reflow(20);
    let at = p.d.kept_row((0, 4));
    assert_eq!((p.at(at), p.d.order[at].seg), ((0, 4), 0));
    assert_eq!(p.at(at - 1), (0, 3));
    assert_eq!(p.d.kept_row((0, 40)), 0, "a row that is not there");
    assert_eq!(p.d.kept_row((u16::MAX, u32::MAX)), 0);
    assert_eq!(Pane::new(vec![]).d.kept_row((0, 0)), 0);
}

#[test]
fn breaking_the_rows_again_changes_nothing() {
    let mut p = Pane::new(parse(LONG));
    p.reflow(20);
    p.d.followed(p.d.total() - 1, 2);
    p.d.reflowed();
    let (order, cursor, top) = (p.d.order.clone(), p.d.cursor(), p.d.top);
    p.d.reflowed();
    assert_eq!(p.d.order, order);
    assert_eq!((p.d.cursor(), p.d.top), (cursor, top));
    for (i, r) in order.iter().enumerate() {
        assert!(
            r.seg == 0 || (order[i - 1].logical() == r.logical() && order[i - 1].seg + 1 == r.seg),
            "the rows of a line stand together"
        );
    }
}

#[test]
fn scrolling_leaves_the_keyboard_on_its_row() {
    let mut p = Pane::new(long_diff()).height(20);
    p.keys("view.down", 4);
    p.d.confirm_or_arm_discard_hunk((0, 4));
    // Whatever row the viewport reports, a scroll is not a move of the keyboard.
    p.d.landed(Motion::ScrollDown, 90, 7);
    assert_eq!((p.d.cursor(), p.d.top), (4, 7));
    assert!(p.d.armed_hunk.is_none());
    p.d.landed(Motion::ScrollUp, 90, 2);
    assert_eq!((p.d.cursor(), p.d.top), (4, 2));
    p.keys("view.scroll-down", 30);
    assert_eq!(p.d.cursor(), 4);
    assert!(p.d.top > 4);
    // So does the wheel, and one over a list that cannot move changes nothing.
    p.d.confirm_or_arm_discard_hunk((0, 4));
    assert!(!p.d.wheeled(false, 90) && p.d.armed_hunk.is_some());
    assert!(p.d.wheeled(true, 90));
    assert_eq!((p.d.cursor(), p.d.top, p.d.armed_hunk), (4, 90, None));
    // A move is held inside the rows, and what is no move changes nothing.
    p.d.landed(Motion::Down, 900, 900);
    assert_eq!((p.d.cursor(), p.d.top), (240, 240));
    p.d.landed(Motion::Inert, 1, 1);
    assert_eq!((p.d.cursor(), p.d.top), (240, 240));
}

#[test]
fn a_command_is_run_or_changes_nothing() {
    let mut p = Pane::new(parse(TWO_FILES));
    p.d.followed(2, 1);
    let id = p.d.cursor_row_id();
    p.d.confirm_or_arm_discard_hunk(id);
    let asked = |p: &Pane, name: &str| p.d.run_view(name);
    let c = asked(&p, "diff.stage");
    assert_eq!(p.d.ran(c, 7, 7, WRAPS), Ran::Refused);
    let c = asked(&p, "view.left");
    assert_eq!(p.d.ran(c, 7, 7, WRAPS), Ran::Pan(-8));
    let c = asked(&p, "view.right");
    assert_eq!(p.d.ran(c, 7, 7, WRAPS), Ran::Pan(8));
    let c = asked(&p, "diff.prev-file");
    assert_eq!(p.d.ran(c, 7, 7, WRAPS), Ran::Jumped(0));
    assert!(p.d.armed_hunk.is_none());
    p.d.confirm_or_arm_discard_hunk(id);
    assert_eq!(p.d.ran(c, 7, 7, WRAPS), Ran::Done, "there is no file above");
    assert_eq!((p.d.cursor(), p.d.top, p.d.armed_hunk), (0, 1, Some(id)));
    let c = asked(&p, "view.bottom");
    assert_eq!(p.d.ran(c, 8, 3, WRAPS), Ran::Moved);
    assert_eq!((p.d.cursor(), p.d.top, p.d.armed_hunk), (8, 3, None));
    let c = asked(&p, "diff.cycle-layout");
    assert_eq!(p.d.ran(c, 0, 0, WRAPS), Ran::Layout(1));
    let c = asked(&p, "diff.cycle-wrap");
    assert_eq!(p.d.ran(c, 0, 0, WRAPS), Ran::Done);
    assert_eq!(p.d.wrap_index(), 2);
    assert_eq!(p.d.ran(c, 0, 0, 1), Ran::Done, "nothing to cycle to");
    assert_eq!(p.d.wrap_index(), 2);
}

#[test]
fn the_title_names_the_hunk_that_a_verb_acts_on() {
    for src in [THREE_HUNKS, TWO_FILES_TWO_HUNKS, TWO_FILES] {
        let mut p = Pane::new(parse(src));
        let read = source(&parse(src));
        for row in 0..p.d.total() {
            p.d.followed(row, 0);
            let s = p.d.file_summary().expect("every row is in a file");
            let file = read.iter().find(|f| *f.path == *s.path).unwrap();
            assert_eq!(s.hunks, file.hunks.len());
            match p.d.current_hunk() {
                Some((path, hunk)) => {
                    assert_eq!(path, s.path);
                    assert!(1 <= s.hunk && s.hunk <= s.hunks);
                    assert_eq!(file.hunks[s.hunk - 1].header, hunk.header);
                }
                None => assert_eq!((s.hunk, p.d.order[row].seg), (1, 0)),
            }
        }
    }
    let bare = Pane::new(parse("diff --git a/a.png b/a.png\n"));
    let s = bare.d.file_summary().unwrap();
    assert_eq!((s.hunk, s.hunks), (0, 0));
    assert!(bare.d.current_hunk().is_none());
    let empty = Pane::new(vec![]);
    assert!(empty.d.file_summary().is_none() && empty.d.current_hunk().is_none());
}

#[test]
fn files_are_held_against_the_diff_they_were_made_of() {
    let read = || source(&parse(THREE_HUNKS));
    assert!(is_prepared(&parse(THREE_HUNKS), &read()));
    assert!(is_prepared(&vec![], &vec![]));
    assert!(!is_prepared(&parse(TWO_FILES), &read()), "other paths");
    assert!(!is_prepared(&parse(SAMPLE), &read()), "fewer files");
    let mut short = parse(THREE_HUNKS);
    short[0].hunks.pop();
    assert!(!is_prepared(&short, &read()), "fewer hunks");
}

#[test]
fn a_built_row_holds_all_that_its_line_says() {
    let mut files = parse(THREE_HUNKS);
    let moved = &mut files[0].hunks[0].lines;
    moved[1].moved = true;
    moved[2].moved = true;
    moved[2].spans = Arc::new(vec![Span { start: 0, end: 4 }]);
    moved[2].tokens = Arc::new(vec![Token { start: 0, end: 4, kind: 3 }]);
    let mut t = TextRows::new();
    t.build(&files[0]);
    assert!(matches!(&t.rows[0], Row::File { path, adds: 2, dels: 2 } if &**path == "one.txt"));
    assert!(matches!(&t.rows[1], Row::Hunk(h) if &**h == "@@ -1,3 +1,3 @@"));
    let line = |t: &TextRows, i: usize| match &t.rows[i] {
        Row::Line(l) => (l.kind, l.moved, l.old_no, l.new_no, l.text.to_string()),
        other => panic!("row {i} is {other:?}"),
    };
    assert_eq!(line(&t, 2), (LineKind::Context, false, Some(1), Some(1), "alpha".into()));
    assert_eq!(line(&t, 3), (LineKind::Removed, true, Some(2), None, "beta".into()));
    assert_eq!(line(&t, 4), (LineKind::Added, true, None, Some(2), "BETA".into()));
    assert!(matches!(&t.rows[4], Row::Line(l) if l.spans.len() == 1 && l.tokens[0].kind == 3));
    assert_eq!(line(&t, 9), (LineKind::Added, false, None, Some(11), "epsilon new".into()));
    assert_eq!((t.rows.len(), t.moved), (10, 2));
    assert_eq!(t.report(), "2 moved");

    // A second file comes behind the first, and its moved lines are counted too.
    let mut two = parse(THREE_HUNKS);
    two[1].hunks[0].lines[0].moved = true;
    t.build(&two[1]);
    assert!(matches!(&t.rows[10], Row::File { path, adds: 1, dels: 1 } if &**path == "two.txt"));
    assert_eq!((t.rows.len(), t.moved), (15, 3));
    assert_eq!(t.report(), "3 moved");
}

#[test]
fn only_what_is_on_the_list_is_switched_to() {
    let mut p = Pane::new(parse(SAMPLE));
    assert!(p.d.set_layout(1));
    assert!(!p.d.set_layout(0), "it is on");
    assert!(!p.d.set_layout(2), "it is not there");
    assert_eq!(p.d.wrap_index(), 1);
    assert!(p.d.set_wrap(2, WRAPS));
    assert!(!p.d.set_wrap(2, WRAPS));
    assert!(!p.d.set_wrap(3, WRAPS));
    assert_eq!(p.d.wrap_index(), 2);
}

#[test]
fn cycling_keeps_you_at_the_same_point_in_the_diff() {
    let mut p = Pane::new(long_diff());
    let total = p.d.total();
    p.v.len = total;
    p.v.go_to(total / 2);
    p.d.followed(p.v.cursor, p.v.top);
    p.apply_layout(1);
    let landed = p.d.top as f32 / p.d.total() as f32;
    assert!((landed - 0.5).abs() < 0.05, "landed {landed} of the way through");
}

#[test]
fn a_registered_presentation_is_cycled_to_like_a_built_in() {
    let mut layouts: Layouts<()> = Layouts::builtin((), ());
    layouts.register("one-liner", ());
    assert_eq!(layouts.names(), vec!["unified", "split", "one-liner"]);
    let at = layouts.opening("one-liner");
    let d = Diff::with_layouts(
        source(&parse(TWO_FILES)),
        parse(TWO_FILES),
        layouts.names(),
        at,
        0,
        renderers("one-liner"),
        text(),
    );
    assert_eq!(d.layout(), "one-liner");
    assert_eq!(d.total(), 2, "one row per file and nothing else");
}

#[test]
fn registering_a_name_twice_replaces_the_presentation() {
    let mut layouts = Layouts::builtin("unified", "split");
    layouts.register("unified", "one-liner");
    assert_eq!(layouts.names(), vec!["unified", "split"], "a replacement must not append");
    let build = layouts.entries[layouts.opening("unified")].build;
    let files = parse(TWO_FILES);
    let rows = renderers(build);
    let d = Diff::with_layouts(source(&files), files, layouts.names(), 0, 0, rows, text());
    assert_eq!(d.total(), 2);
}

#[test]
fn a_pinned_set_of_renderers_has_nothing_to_cycle_to() {
    let mut d = pinned(parse(SAMPLE), vec![text()]);
    assert_eq!(d.layout_names().len(), 1);
    assert_eq!(d.layout(), "custom");
    assert_eq!(d.cycle_layout(), None);
}

#[test]
fn every_layout_survives_the_shapes_that_break_things() {
    let long = "x".repeat(9000);
    let raw = format!(
        "diff --git a/min.js b/min.js\n@@ -1,1 +1,1 @@\n-var a={long};\n+var b={long};\n\
         diff --git a/wide.txt b/wide.txt\n@@ -1,2 +1,2 @@\n-箱の中身は「猫」\n+箱の中身は「犬」\n \
         😀 unchanged\n\
         diff --git a/doc.md b/doc.md\n@@ -1,3 +1,4 @@\n # Heading\n-| a | b |\n+| a | bb |\n+| c | d |\n\
         diff --git a/Makefile b/Makefile\n@@ -1,0 +1,2 @@\n+all:\n+\tcargo build\n"
    );
    assert_eq!(parse(&raw).len(), 4);
    for name in ["unified", "split"] {
        let p = Pane::named(parse(&raw), name);
        assert_eq!(p.d.layout(), name);
        assert!(p.d.total() > 0, "{name} produced no rows");
        for r in p.d.order.iter() {
            let _ = p.d.renderers[r.owner as usize].width(r.index as usize, r.seg as usize);
        }
        assert!(p.d.widest < p.d.total(), "{name}: widest {} of {}", p.d.widest, p.d.total());
    }
    // And cycling between them, both ways, over the same input.
    let mut p = Pane::new(parse(&raw));
    for i in [1, 0, 1, 0] {
        p.apply_layout(i);
        assert!(p.d.total() > 0);
    }
    // The widest row is the widest there is.
    let width = |i: usize| {
        let r = p.d.order[i];
        p.d.renderers[r.owner as usize].width(r.index as usize, r.seg as usize)
    };
    assert!((0..p.d.total()).all(|i| width(i) <= width(p.d.widest)));
}

#[test]
fn the_fallback_is_used_when_nobody_claims_a_file() {
    let d = pinned(parse(SAMPLE), vec![text(), Any::Own(Own::only_md())]);
    assert!(d.order.iter().all(|r| r.owner == 0));
    // With no presentation at all, the fallback holds everything.
    let d = pinned(parse(SAMPLE), vec![]);
    assert_eq!(d.total(), 4);
}

// ---------------------------------------------------------------------------
// Navigation
// ---------------------------------------------------------------------------

#[test]
fn diff_navigation_moves_the_cursor_and_the_view_follows_with_a_margin() {
    let mut p = Pane::new(long_diff()).height(20);
    p.keys("view.down", 3);
    assert_eq!(p.d.cursor(), 3);
    assert_eq!(p.d.top, 0, "inside the margin, nothing scrolled");
    // Past the margin the view moves one row, not a screenful.
    p.keys("view.down", 20);
    assert_eq!(p.d.cursor(), 23);
    assert!(p.d.top > 0, "the margin was breached");
}

#[test]
fn pages_move_a_screenful_and_top_bottom_reach_both_ends() {
    let mut p = Pane::new(long_diff()).height(20);
    let total = p.d.total();
    assert!(p.key("view.page-down"));
    assert_eq!(p.d.cursor(), 19, "a screenful less one row");
    assert!(p.key("view.page-up"));
    assert_eq!(p.d.cursor(), 0);
    assert!(p.key("view.bottom"));
    assert_eq!(p.d.cursor(), total - 1, "clamped to the last row");
    assert!(p.key("view.top"));
    assert_eq!((p.d.cursor(), p.d.top), (0, 0));
}

#[test]
fn navigation_clamps_instead_of_leaving_the_diff() {
    let mut p = Pane::new(long_diff()).height(20);
    p.keys("view.up", 5);
    assert_eq!(p.d.cursor(), 0, "clamped at the first row");
    assert!(p.d.total() > 10);
    assert!(p.key("view.scroll-down"));
    // A scroll is not a cursor move.
    assert_eq!(p.d.top, 1);
    assert_eq!(p.d.cursor(), 0);
}

#[test]
fn file_jumps_land_on_headers_in_both_directions() {
    let mut p = Pane::new(parse(TWO_FILES));
    assert_eq!(p.d.headers.len(), 2, "two files, two headers");
    assert!(p.d.headers.windows(2).all(|w| w[0] < w[1]));
    assert!(p.key("diff.next-file"));
    assert_eq!(p.d.cursor(), p.d.headers[1], "skipped to the second header");
    assert!(p.key("diff.next-file"));
    assert_eq!(p.d.cursor(), p.d.headers[1], "no third file: it stayed");
    assert!(p.key("diff.prev-file"));
    assert_eq!(p.d.cursor(), p.d.headers[0]);
    assert!(p.key("diff.prev-file"));
    assert_eq!(p.d.cursor(), p.d.headers[0], "no row above the first header");
}

#[test]
fn cycling_layout_and_wrap_are_commands_too() {
    let mut p = Pane::new(long_diff());
    assert!(p.key("diff.cycle-layout"));
    assert_eq!(p.d.layout_index(), 1);
    assert_eq!(p.d.layout(), "split");
    assert!(p.key("diff.cycle-layout"));
    assert_eq!(p.d.layout_index(), 0, "wrapped round");
    let before = p.d.wrap_index();
    assert!(p.key("diff.cycle-wrap"));
    assert_ne!(p.d.wrap_index(), before, "moved on");
}

#[test]
fn a_command_no_screen_owns_is_reported_not_swallowed() {
    let mut p = Pane::new(long_diff()).height(20);
    assert!(!p.key("blame.toggle"));
}

#[test]
fn consecutive_commands_compose_rather_than_resetting_each_other() {
    let mut p = Pane::new(long_diff()).height(20);
    p.keys("view.down", 4);
    assert_eq!(p.d.cursor(), 4);
    p.key("view.page-down");
    assert_eq!(p.d.cursor(), 23, "four rows plus a nineteen-row page");
    p.key("view.down");
    assert_eq!(p.d.cursor(), 24, "and one more, not back to zero plus one");
}

#[test]
fn diff_a_thumb_drag_is_reconciled_before_anything_reads_the_cursor() {
    let mut p = Pane::new(long_diff()).height(20);
    p.key("view.top");
    assert_eq!(p.d.cursor(), 0, "the stale cursor is what the fix is for");
    // Ten rows of drag.
    assert_eq!(p.d.reconcile(false, true, 10, p.d.top), Drift::Follow);
    p.v.pan_to(10);
    p.d.followed(p.v.cursor, p.v.top);
    assert_eq!(p.d.top, 10, "the model caught up with the visible top");
    assert_eq!(p.d.cursor(), 0, "a drag pans; it does not select");
    // Idempotent: meeting the list twice is not moving it twice.
    assert_eq!(p.d.reconcile(false, false, 10, p.d.top), Drift::Leave);
    assert_eq!((p.d.top, p.d.cursor()), (10, 0));
}

#[test]
fn a_click_on_a_wrapped_continuation_moves_the_cursor_there() {
    let mut p = Pane::new(parse(LONG));
    p.reflow(30);
    let continuation =
        p.d.order.iter().position(|r| r.seg > 0).expect("a continuation row");
    p.v.height = 20;
    let l = p.d.locate(continuation).expect("a row under the click");
    assert_eq!((l.visual, l.row), (continuation, p.d.order[continuation]));
    assert!(l.first < continuation && continuation < l.first + l.count);
    p.v.go_to(l.visual);
    p.d.followed(p.v.cursor, p.v.top);
    assert_eq!(p.d.cursor(), continuation, "the keyboard is on the clicked visual row");
    assert!(p.d.top <= p.d.cursor() && p.d.cursor() < p.d.top + 20, "the clicked row is visible");
}

#[test]
fn a_first_click_lands_where_it_pointed_before_any_navigation() {
    let p = Pane::new(parse(LONG));
    let last = p.d.order.len() - 1;
    assert_eq!(p.d.locate(last).unwrap().visual, last, "row zero is not where I clicked");
    // Below the last row is the last row.
    assert_eq!(p.d.locate(last + 50).unwrap().visual, last);
    assert!(Pane::new(vec![]).d.locate(0).is_none());
}

#[test]
fn a_reflow_keeps_the_line_under_the_cursor_not_the_one_at_the_top() {
    let mut p = Pane::new(long_diff());
    p.reflow(80);
    p.v.height = 20;
    p.keys("view.page-down", 3);
    p.key("view.up");
    let cursor_line = p.at(p.d.cursor());
    let top_line = p.at(p.d.top);
    assert_ne!(cursor_line, top_line, "the test wants the cursor away from the top");

    p.reflow(12);
    assert_eq!(p.at(p.d.cursor()), cursor_line, "the cursor kept its line");
    assert_ne!(p.at(p.d.top), top_line, "the old top row was not held still");
    assert!(p.d.top <= p.d.cursor() && p.d.cursor() < p.d.top + 20);
}

#[test]
fn a_cursor_preserving_reflow_waits_for_the_new_geometry() {
    let mut p = Pane::new(long_diff());
    p.reflow(80);
    p.v.height = 20;
    let wide_rows = p.d.total();
    assert!(p.key("view.bottom"));
    let cursor_line = p.at(p.d.cursor());

    p.reflow(12);
    assert!(p.d.total() >= wide_rows * 3 / 2, "{} did not materially grow", p.d.total());
    assert_eq!(p.at(p.d.cursor()), cursor_line, "the reflow moved the keyboard");
    assert!(p.d.pending.is_awaiting(), "the position was not parked for layout");
    // And the parked row is one the old geometry had no offset for.
    assert!(p.d.top > wide_rows - 20);
    assert_eq!(p.d.scroll_pixels(true), Wheel::Join, "the wheel keeps the deferred target");
}

#[test]
fn diff_a_restored_row_inside_the_first_screen_still_moves_the_list() {
    let mut p = Pane::new(long_diff());
    let row = p.d.scroll_to(5).expect("no request was parked");
    assert_eq!(row, 5);
    p.v.pan_to(row);
    p.d.parked(p.v.cursor, p.v.top);
    assert_eq!(p.d.top, 5, "and the model says so too");
    assert!(p.d.pending.is_awaiting());
    assert_eq!(Pane::new(vec![]).d.scroll_to(5), None);
}

#[test]
fn a_restore_this_view_accepted_is_not_reconciled_as_a_drag() {
    let mut p = Pane::new(long_diff());
    let row = p.d.scroll_to(40).unwrap();
    p.v.pan_to(row);
    p.d.parked(p.v.cursor, p.v.top);
    p.v.go_to(40);
    p.d.followed(p.v.cursor, p.v.top);
    assert!(p.d.pending.accept(false), "prepaint's offset was not accepted");
    assert_eq!(p.d.reconcile(false, false, 40, 40), Drift::Leave);
    p.v.height = 20;
    assert!(p.key("view.down"));
    assert_eq!(p.d.cursor(), 41);
}

#[test]
fn a_wheel_cancels_selection_autoscroll_instead_of_joining_its_request() {
    let p = Pane::new(long_diff()).height(20);
    // A drag beyond the window's edge makes a request of its own.
    assert_eq!(autoscroll(p.d.top, 2, 1, p.d.total()), Some(2));
    assert!(!p.d.pending.is_awaiting());
    assert_eq!(p.d.scroll_pixels(true), Wheel::Replace);
}

#[test]
fn diff_a_fresh_viewport_restores_a_saved_row_without_preseeding() {
    let mut p = Pane::new(long_diff());
    p.v = Viewport { len: 0, height: 0, margin: 5, cursor: 0, top: 0 };
    let row = p.d.scroll_to(40).unwrap();
    p.v.len = p.d.total();
    p.v.pan_to(row);
    p.d.parked(p.v.cursor, p.v.top);
    p.v.go_to(40);
    p.d.followed(p.v.cursor, p.v.top);
    assert_eq!(p.d.cursor(), 40, "the keyboard came back where it left off");
    assert_eq!(p.d.top, 40);
    // When the first height arrives, the view settles with the file's margin.
    p.v.height = 30;
    p.v.go_to(40);
    assert_eq!((p.v.cursor, p.v.top), (40, 35), "scrolloff from the file, not the built-in");
}

#[test]
fn diff_key_navigation_uses_the_live_scrolloff() {
    let build = |margin: usize| {
        let mut p = Pane::new(long_diff()).height(20);
        p.v.margin = margin;
        p
    };
    let (mut tight, mut loose) = (build(3), build(8));
    tight.keys("view.down", 16);
    loose.keys("view.down", 16);
    assert_eq!(tight.d.cursor(), loose.d.cursor());
    assert_eq!(tight.d.top, 0, "a three-row margin holds at cursor 16");
    assert!(loose.d.top > 0, "an eight-row margin scrolled already");
}

#[test]
fn the_cursor_row_text_is_what_copy_falls_back_to() {
    let mut p = Pane::new(parse(TWO_FILES)).height(10);
    p.key("diff.prev-file");
    assert_eq!(p.d.cursor_text(), "a.rs");
    assert_eq!(Pane::new(vec![]).d.cursor_text(), "");
}

#[test]
fn nothing_selected_copies_nothing_rather_than_everything() {
    assert_eq!(copied(String::new(), String::new()), None, "neither leaves the clipboard alone");
    assert_eq!(copied(String::new(), "row".to_string()), Some("row".to_string()));
    assert_eq!(copied("sel".to_string(), "row".to_string()), Some("sel".to_string()));
}

// ---------------------------------------------------------------------------
// Hunks
// ---------------------------------------------------------------------------

#[test]
fn every_row_of_a_hunk_answers_with_that_hunk() {
    let p = Pane::new(parse(THREE_HUNKS));
    assert_eq!(p.hunk_at_row(0), None, "a file header is no hunk");
    assert_eq!(p.hunk_at_row(1), Some("one.txt#0".into()));
    assert_eq!(p.hunk_at_row(3), Some("one.txt#0".into()), "mid-hunk");
    assert_eq!(p.hunk_at_row(5), Some("one.txt#0".into()));
    assert_eq!(p.hunk_at_row(6), Some("one.txt#1".into()));
    assert_eq!(p.hunk_at_row(8), Some("one.txt#1".into()));
    assert_eq!(
        p.hunk_at_row(12),
        Some("two.txt#0".into()),
        "the second file maps by its own path"
    );
}

#[test]
fn every_hunk_leaves_a_tick_at_its_start() {
    let p = Pane::new(parse(THREE_HUNKS));
    assert_eq!(p.d.order.len(), 15);
    assert_eq!(p.d.marks, [1, 6, 11]);
    let fractions: Vec<f32> =
        p.d.marks.iter().map(|m| *m as f32 / p.d.order.len() as f32).collect();
    assert_eq!(fractions, [1.0 / 15.0, 6.0 / 15.0, 11.0 / 15.0]);
}

#[test]
fn an_empty_diff_holds_no_marks() {
    assert!(Pane::new(vec![]).d.marks.is_empty(), "nothing to divide, nothing to mark");
}

#[test]
fn the_smallest_hunk_marks_the_top_of_the_track() {
    let src = "\
diff --git a/one.txt b/one.txt
--- a/one.txt
+++ b/one.txt
@@ -1 +1 @@
-alpha
+beta
";
    let p = Pane::new(parse(src));
    assert_eq!(p.d.order.len(), 3);
    assert_eq!(p.d.marks, [0]);
}

#[test]
fn marks_follow_the_order_through_a_reflow_and_a_layout_swap() {
    let mut p = Pane::new(parse(THREE_HUNKS));
    let hunks: usize = p.d.files.iter().map(|f| f.hunks.len()).sum();
    assert_eq!(hunks, 3, "the fixture has hunks to mark");
    assert_eq!(p.d.marks.len(), hunks);
    let before = p.d.marks.clone();

    p.reflow(5);
    assert!(p.d.order.len() > 15, "the width wrapped something");
    assert_eq!(p.d.marks.len(), hunks, "a wrap renumbers, never re-marks");
    assert!(p.d.marks.iter().all(|m| *m < p.d.order.len()));
    assert!(p.d.marks.windows(2).all(|w| w[0] < w[1]), "ascending");
    assert_ne!(p.d.marks, before);

    p.apply_layout(1);
    assert_eq!(p.d.layout(), "split");
    assert_eq!(p.d.marks.len(), hunks);
    assert!(p.d.marks.iter().all(|m| *m < p.d.order.len()));
}

#[test]
fn current_hunk_hands_over_the_loaded_diffs_own_hunk() {
    let mut p = Pane::new(parse(THREE_HUNKS)).height(20);
    p.keys("view.down", 7);
    let (path, hunk) = p.d.current_hunk().expect("on a hunk");
    assert_eq!(path, "one.txt");
    assert!(hunk.header.starts_with("@@ -10"), "{}", hunk.header);
    assert_eq!(hunk.lines.len(), 3);

    // Back up onto the first header: nothing to act on.
    p.keys("view.up", 7);
    assert!(p.d.current_hunk().is_none(), "row 0 is the first file header");
}

#[test]
fn a_verb_gets_the_whole_line_where_the_rows_have_it_clipped() {
    let long = "x".repeat(40);
    let raw = format!("diff --git a/a.js b/a.js\n@@ -1,0 +1,1 @@\n+{long}\n");
    let mut clipped = parse(&raw);
    clipped[0].hunks[0].lines[0].text = Arc::from(&long[..10]);
    let d = Diff::with_renderers(source(&parse(&raw)), clipped, 0, vec![text()], text());
    assert_eq!(d.renderers[0].selectable(2, 0), Some(&long[..10]));
    let (_, hunk) = d.current_hunk().expect("on a hunk");
    assert_eq!(&*hunk.lines[0].text, long);
}

#[test]
fn the_summary_names_the_file_and_hunk_the_keyboard_is_in() {
    let mut p = Pane::new(parse(TWO_FILES_TWO_HUNKS)).height(30);
    p.keys("view.down", 8);
    let s: FileSummary = p.d.file_summary().expect("on a hunk");
    assert_eq!(s.path, "one.txt");
    assert_eq!((s.adds, s.dels), (2, 2));
    assert_eq!((s.hunk, s.hunks), (2, 2));

    p.keys("view.down", 13);
    let s = p.d.file_summary().expect("still on a hunk");
    assert_eq!(s.path, "two.txt");
    assert_eq!((s.adds, s.dels), (3, 3));
    assert_eq!((s.hunk, s.hunks), (2, 2));
}

#[test]
fn a_header_row_says_hunk_one_unless_the_file_has_none() {
    let p = Pane::new(parse(TWO_FILES_TWO_HUNKS));
    let s = p.d.file_summary().expect("on a header");
    assert_eq!(s.path, "one.txt");
    assert_eq!((s.adds, s.dels), (2, 2));
    assert_eq!((s.hunk, s.hunks), (1, 2));

    // The second file's header answers with the second file's own counts.
    let mut p = Pane::new(parse(TWO_FILES_TWO_HUNKS)).height(30);
    p.keys("view.down", 13);
    let s = p.d.file_summary().expect("on the second header");
    assert_eq!(s.path, "two.txt");
    assert_eq!((s.adds, s.dels), (3, 3));
    assert_eq!((s.hunk, s.hunks), (1, 2));

    // A file with no hunks at all has no first to point at.
    let s = Pane::new(bin()).d.file_summary().expect("its header is still there");
    assert_eq!(s.path, "bin.dat");
    assert_eq!((s.adds, s.dels), (0, 0));
    assert_eq!((s.hunk, s.hunks), (0, 0));
}

#[test]
fn split_answers_the_same_file_from_fewer_rows() {
    let mut p = Pane::named(parse(TWO_FILES_TWO_HUNKS), "split").height(30);
    p.keys("view.down", 6);
    let s = p.d.file_summary().expect("on a hunk in split");
    assert_eq!(s.path, "one.txt");
    assert_eq!((s.adds, s.dels), (2, 2));
    assert_eq!((s.hunk, s.hunks), (2, 2));
}

#[test]
fn an_empty_diff_has_nothing_to_name() {
    assert!(Pane::new(vec![]).d.file_summary().is_none());
}

#[test]
fn split_pairs_a_replace_but_not_the_hunks_address() {
    let mut p = Pane::named(parse(THREE_HUNKS), "split").height(20);
    p.keys("view.down", 6);
    let (path, hunk) = p.d.current_hunk().expect("on a hunk");
    assert_eq!(path, "one.txt");
    assert!(hunk.header.starts_with("@@ -10"), "{}", hunk.header);
}

#[test]
fn an_armed_discard_survives_nothing_but_the_same_spot() {
    let mut p = Pane::new(parse(THREE_HUNKS)).height(20);
    let id = p.d.cursor_row_id();
    assert!(!p.d.confirm_or_arm_discard_hunk(id), "first press asks");
    // The keyboard moves — any move disarms before it can lie.
    p.key("view.down");
    assert!(!p.d.confirm_or_arm_discard_hunk(id), "the arm died with the cursor move");

    // Arm here, stay put: the second press spends it, and a third asks afresh.
    let id = p.d.cursor_row_id();
    assert!(!p.d.confirm_or_arm_discard_hunk(id));
    assert!(p.d.confirm_or_arm_discard_hunk(id));
    assert!(!p.d.confirm_or_arm_discard_hunk(id));
}

// ---------------------------------------------------------------------------
// The mouse, and what is said of a load
// ---------------------------------------------------------------------------

#[test]
fn a_press_extends_its_own_part_and_starts_over_elsewhere() {
    assert_eq!(press(true, Some(0), 0, 1), Press::Extend);
    assert_eq!(press(true, Some(1), 0, 1), Press::Start, "another part of the row");
    assert_eq!(press(false, Some(0), 0, 2), Press::Word);
    assert_eq!(press(false, None, 0, 3), Press::Row);
    assert_eq!(press(false, None, 0, 1), Press::Start);
    // A drag that wandered into another part takes the whole of this one's side.
    assert_eq!(drag_to(0, 0, 7, 20), 7);
    assert_eq!(drag_to(1, 0, 7, 20), 20);
    assert_eq!(drag_to(0, 1, 7, 20), 0);
    assert_eq!(autoscroll(5, -3, -1, 100), Some(2));
    assert_eq!(autoscroll(5, 0, -1, 100), Some(4), "a few pixels are a row at least");
    assert_eq!(autoscroll(0, -3, -1, 100), Some(0), "the first row is the edge");
    assert_eq!(autoscroll(98, 3, 1, 100), Some(99), "and so is the last");
    assert_eq!(autoscroll(5, 0, 1, 0), None);
}

#[test]
fn a_row_is_drawn_as_its_kind_is() {
    let t = text_rows(SAMPLE);
    let p = inks();
    let sel = Some(Selected { part: 0, bytes: Span { start: 1, end: 3 } });
    let state = RowState { current: false, focused: true, armed: false, in_hunk: true };
    match t.render(0, 0, &p, sel, state, 0) {
        Drawn::File(f) => {
            assert_eq!((f.name.text.as_str(), f.adds.as_str(), f.dels.as_str()), ("a.rs", "+1", "−1"));
            assert_eq!(f.name.lit, Span { start: 1, end: 3 });
            assert!(f.dir.is_none());
        }
        other => panic!("a file expected, got {other:?}"),
    }
    assert!(matches!(t.render(1, 0, &p, None, state, 15), Drawn::Hunk(_)));
    match t.render(3, 0, &p, sel, state, 0) {
        Drawn::Line(l) => {
            assert_eq!((l.old.as_str(), l.new.as_str(), l.sign), ("2", "", "-"));
            assert_eq!((l.edge.bg, l.edge.extent), (p.removed_bg, p.rule));
            assert_eq!((l.fg, l.gutter), (p.removed_fg, p.gutter.removed));
            assert_eq!((l.piece, l.lit), (Span { start: 0, end: 14 }, Span { start: 1, end: 3 }));
        }
        other => panic!("a line expected, got {other:?}"),
    }
    // A continuation has no number and no sign.
    match t.render(3, 1, &p, None, state, 0) {
        Drawn::Line(l) => assert_eq!((l.old.as_str(), l.sign), ("", " ")),
        other => panic!("a line expected, got {other:?}"),
    }
}

#[test]
fn a_load_says_what_it_did() {
    let reports = load_reports("1 ms", "2 ms", 4, 3, &vec![String::new(), "2 moved".to_string()]);
    assert_eq!(
        reports,
        vec![
            "intraline 1 ms · syntax 2 ms cpu across 4",
            "3 spans/tokens rejected",
            "2 moved",
        ]
    );
    assert_eq!(load_reports("1 ms", "2 ms", 1, 0, &vec![]), vec!["intraline 1 ms · syntax 2 ms"]);
    assert!(reflow_note("word", "800", 12, 7, None).contains("word"));
}
