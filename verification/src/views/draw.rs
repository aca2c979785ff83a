//! What a row of a diff looks like: its colours, its furniture, and which bytes
//! of its text are styled. Colours are plain numbers, resolved by whoever holds
//! the theme; what is decided here is which of them goes where.
use super::rows::{LineKind, Span};
use crate::text;
use vstd::prelude::*;

verus! {

/// A colour: red, green and blue in the low three bytes.
pub type Rgb = u32;

/// The colour of a line number, resolved against each background it lands on.
#[derive(Clone, Copy, Debug, PartialEq, Eq, Structural)]
pub struct GutterInks {
    pub context: Rgb,
    pub added: Rgb,
    pub removed: Rgb,
    pub moved_added: Rgb,
    pub moved_removed: Rgb,
    /// On the bar under the keyboard's row.
    pub cursor: Rgb,
}

/// The colours a diff is drawn in.
#[derive(Clone, Copy, Debug, PartialEq, Eq, Structural)]
pub struct Inks {
    pub accent: Rgb,
    pub faint: Rgb,
    pub error: Rgb,
    /// The bar under the keyboard's row.
    pub selection_bg: Rgb,
    pub added_bg: Rgb,
    pub added_fg: Rgb,
    pub moved_added_bg: Rgb,
    pub removed_bg: Rgb,
    pub removed_fg: Rgb,
    pub moved_removed_bg: Rgb,
    pub context_bg: Rgb,
    pub context_fg: Rgb,
    pub file_bg: Rgb,
    pub file_fg: Rgb,
    /// A directory in front of a file's name, readable on `file_bg`.
    pub dir_fg: Rgb,
    pub hunk_bg: Rgb,
    pub hunk_fg: Rgb,
    pub adds_fg: Rgb,
    pub dels_fg: Rgb,
    pub rule: Rgb,
    pub gutter: GutterInks,
}

/// How a row stands to the keyboard.
#[derive(Clone, Copy, Debug, PartialEq, Eq, Structural)]
pub struct RowState {
    /// The keyboard's row.
    pub current: bool,
    /// The pane holds the keyboard.
    pub focused: bool,
    /// A question about destroying something stands over this row's hunk.
    pub armed: bool,
    /// The row is inside the hunk the keyboard is on.
    pub in_hunk: bool,
}

impl Default for RowState {
    /// An ordinary row: nothing stands over it.
    fn default() -> (r: RowState)
        ensures
            r == (RowState { current: false, focused: false, armed: false, in_hunk: false }),
    {
        RowState { current: false, focused: false, armed: false, in_hunk: false }
    }
}

/// The background, the foreground and the sign of a line. A block that moved
/// changes its background and nothing else, and a line that did not change did
/// not move.
pub fn line_colors(kind: LineKind, moved: bool, inks: &Inks) -> (r: (Rgb, Rgb, &'static str))
    ensures
        r.0 == match (kind, moved) {
            (LineKind::Added, false) => inks.added_bg,
            (LineKind::Added, true) => inks.moved_added_bg,
            (LineKind::Removed, false) => inks.removed_bg,
            (LineKind::Removed, true) => inks.moved_removed_bg,
            (LineKind::Context, _) => inks.context_bg,
        },
        r.1 == match kind {
            LineKind::Added => inks.added_fg,
            LineKind::Removed => inks.removed_fg,
            LineKind::Context => inks.context_fg,
        },
        r.2@ == match kind {
            LineKind::Added => "+"@,
            LineKind::Removed => "-"@,
            LineKind::Context => " "@,
        },
{
    match (kind, moved) {
        (LineKind::Added, false) => (inks.added_bg, inks.added_fg, "+"),
        (LineKind::Added, true) => (inks.moved_added_bg, inks.added_fg, "+"),
        (LineKind::Removed, false) => (inks.removed_bg, inks.removed_fg, "-"),
        (LineKind::Removed, true) => (inks.moved_removed_bg, inks.removed_fg, "-"),
        (LineKind::Context, _) => (inks.context_bg, inks.context_fg, " "),
    }
}

/// The background a row paints: its own, unless the keyboard is on it.
pub fn row_background(current: bool, base: Rgb, inks: &Inks) -> (r: Rgb)
    ensures
        r == background_of(current, base, *inks),
{
    if current {
        inks.selection_bg
    } else {
        base
    }
}

/// The background a row paints.
pub open spec fn background_of(current: bool, base: Rgb, inks: Inks) -> Rgb {
    if current {
        inks.selection_bg
    } else {
        base
    }
}

/// The ink on the bar down a row's left edge: accent on the keyboard's row,
/// faint where the keyboard is in another pane, and the row's own background
/// everywhere else.
pub fn row_bar(state: RowState, base: Rgb, inks: &Inks) -> (r: Rgb)
    ensures
        r == bar_of(state, base, *inks),
{
    match (state.current, state.focused) {
        (true, true) => inks.accent,
        (true, false) => inks.faint,
        (false, _) => base,
    }
}

/// The ink on the bar down a row's left edge.
pub open spec fn bar_of(state: RowState, base: Rgb, inks: Inks) -> Rgb {
    match (state.current, state.focused) {
        (true, true) => inks.accent,
        (true, false) => inks.faint,
        (false, _) => base,
    }
}

/// The ink of the hairline that says where the keyboard's hunk starts and ends:
/// the bar's on the keyboard's row, the rule's inside its hunk, and the row's
/// own background where there is nothing to say.
pub fn extent_ink(state: RowState, base: Rgb, inks: &Inks) -> (r: Rgb)
    ensures
        r == extent_of_row(state, base, *inks),
{
    match (state.current, state.in_hunk) {
        (true, _) => row_bar(state, base, inks),
        (false, true) => inks.rule,
        (false, false) => base,
    }
}

/// The ink of the hairline down a row's left edge.
pub open spec fn extent_of_row(state: RowState, base: Rgb, inks: Inks) -> Rgb {
    match (state.current, state.in_hunk) {
        (true, _) => bar_of(state, base, inks),
        (false, true) => inks.rule,
        (false, false) => base,
    }
}

/// The colour of a line number. It is read off the background the row paints,
/// and a row that a question stands over says so in it.
pub fn gutter_ink(kind: LineKind, moved: bool, state: RowState, inks: &Inks) -> (r: Rgb)
    ensures
        r == gutter_of(kind, moved, state, *inks),
{
    if state.armed {
        return inks.error;
    }
    if state.current {
        return inks.gutter.cursor;
    }
    match (kind, moved) {
        (LineKind::Added, false) => inks.gutter.added,
        (LineKind::Added, true) => inks.gutter.moved_added,
        (LineKind::Removed, false) => inks.gutter.removed,
        (LineKind::Removed, true) => inks.gutter.moved_removed,
        (LineKind::Context, _) => inks.gutter.context,
    }
}

/// The colour of a line number.
pub open spec fn gutter_of(kind: LineKind, moved: bool, state: RowState, inks: Inks) -> Rgb {
    if state.armed {
        inks.error
    } else if state.current {
        inks.gutter.cursor
    } else {
        match (kind, moved) {
            (LineKind::Added, false) => inks.gutter.added,
            (LineKind::Added, true) => inks.gutter.moved_added,
            (LineKind::Removed, false) => inks.gutter.removed,
            (LineKind::Removed, true) => inks.gutter.moved_removed,
            (LineKind::Context, _) => inks.gutter.context,
        }
    }
}

/// A line number as the gutter spells it. A continuation row has none.
pub open spec fn number_text(n: Option<u32>, blank: bool) -> Seq<char> {
    match n {
        Some(n) => if blank {
            seq![]
        } else {
            text::decimal(n as nat)
        },
        None => seq![],
    }
}

/// A line number as the gutter spells it.
pub fn number(n: Option<u32>, blank: bool) -> (r: String)
    ensures
        r@ == number_text(n, blank),
{
    let mut out = String::new();
    if let Some(n) = n {
        if !blank {
            text::push_decimal(&mut out, n as u64);
        }
    }
    assert(out@ =~= number_text(n, blank));
    out
}

// ---------------------------------------------------------------------------
// Paths
// ---------------------------------------------------------------------------

/// How many characters of a path its directory takes, slash included.
pub open spec fn dir_len(path: Seq<char>) -> nat
    decreases path.len(),
{
    if path.len() == 0 {
        0
    } else if path.last() == '/' {
        path.len()
    } else {
        dir_len(path.drop_last())
    }
}

pub proof fn dir_len_bound(path: Seq<char>)
    ensures
        dir_len(path) <= path.len(),
    decreases path.len(),
{
    if path.len() > 0 && path.last() != '/' {
        dir_len_bound(path.drop_last());
    }
}

/// A path as its directory, slash included, and its name. No directory for a
/// bare name.
pub fn split_path(path: &str) -> (r: (Option<&str>, &str))
    ensures
        r.0 is None <==> dir_len(path@) == 0,
        r.0 is Some ==> r.0.unwrap()@ == path@.take(dir_len(path@) as int),
        r.1@ == path@.skip(dir_len(path@) as int),
{
    let v = text::chars_of(path);
    let mut n: usize = v.len();
    assert(v@.take(n as int) =~= v@);
    while n > 0 && v[n - 1] != '/'
        invariant
            n <= v@.len(),
            v@ == path@,
            dir_len(v@) == dir_len(v@.take(n as int)),
        decreases n,
    {
        assert(v@.take(n as int).drop_last() =~= v@.take(n - 1));
        n -= 1;
    }
    let len: usize = v.len();
    let name = path.substring_char(n, len);
    assert(name@ =~= path@.skip(n as int));
    if n == 0 {
        (None, name)
    } else {
        let dir = path.substring_char(0, n);
        assert(dir@ =~= path@.take(n as int));
        (Some(dir), name)
    }
}

/// A directory and a name are the whole path, and the name has no slash.
pub proof fn a_split_path_is_the_path(path: Seq<char>)
    ensures
        path.take(dir_len(path) as int) + path.skip(dir_len(path) as int) == path,
        forall|i: int| dir_len(path) <= i < path.len() ==> path[i] != '/',
    decreases path.len(),
{
    dir_len_bound(path);
    assert(path.take(dir_len(path) as int) + path.skip(dir_len(path) as int) =~= path);
    if path.len() > 0 && path.last() != '/' {
        let rest = path.drop_last();
        a_split_path_is_the_path(rest);
        assert forall|i: int| dir_len(path) <= i < path.len() implies path[i] != '/' by {
            if i < rest.len() {
                assert(rest[i] == path[i]);
            }
        }
    }
}

// ---------------------------------------------------------------------------
// Selections
// ---------------------------------------------------------------------------

/// `i`, held between `lo` and `hi`.
pub open spec fn held(i: int, lo: int, hi: int) -> int {
    if i < lo {
        lo
    } else if i > hi {
        hi
    } else {
        i
    }
}

/// The part of `sel` inside `at`, counted from the start of `at`.
pub fn clipped(sel: Span, at: Span) -> (r: Span)
    requires
        at.start <= at.end,
    ensures
        r == clip(sel, at),
{
    let a: usize = if sel.start < at.start {
        at.start
    } else if sel.start > at.end {
        at.end
    } else {
        sel.start
    };
    let b: usize = if sel.end < at.start {
        at.start
    } else if sel.end > at.end {
        at.end
    } else {
        sel.end
    };
    Span { start: a - at.start, end: b - at.start }
}

/// The part of `sel` inside `at`, counted from the start of `at`.
pub open spec fn clip(sel: Span, at: Span) -> Span {
    Span {
        start: (held(sel.start as int, at.start as int, at.end as int) - at.start) as usize,
        end: (held(sel.end as int, at.start as int, at.end as int) - at.start) as usize,
    }
}

/// A byte of `at` is lit by the clipped selection exactly where the selection
/// itself lights it.
pub proof fn clipping_keeps_the_selected_bytes(sel: Span, at: Span, b: int)
    requires
        sel.start <= sel.end,
        at.start <= b < at.end,
    ensures
        (clip(sel, at).start <= b - at.start < clip(sel, at).end) <==> (sel.start <= b < sel.end),
        clip(sel, at).end <= at.end - at.start,
{
}

// ---------------------------------------------------------------------------
// Runs
// ---------------------------------------------------------------------------

/// A stretch of a hunk header: in its coordinates, selected, or both.
#[derive(Clone, Copy, Debug, PartialEq, Eq, Structural)]
pub struct HunkRun {
    pub start: usize,
    pub end: usize,
    pub in_marker: bool,
    pub in_sel: bool,
}

/// Strictly rising.
pub open spec fn rises(v: Seq<usize>) -> bool {
    forall|i: int, j: int| 0 <= i < j < v.len() ==> v[i] < v[j]
}

/// Adds `x` to a rising list, unless it is there.
fn insert_edge(v: &mut Vec<usize>, x: usize)
    requires
        rises(old(v)@),
    ensures
        rises(final(v)@),
        forall|y: usize| #[trigger] final(v)@.contains(y) <==> (old(v)@.contains(y) || y == x),
{
    let mut i: usize = 0;
    while i < v.len() && v[i] < x
        invariant
            v@ == old(v)@,
            i <= v@.len(),
            forall|k: int| 0 <= k < i ==> v@[k] < x,
        decreases v@.len() - i,
    {
        i += 1;
    }
    let ghost was = v@;
    if i < v.len() && v[i] == x {
        assert(was[i as int] == x);
        assert(was.contains(x));
        return;
    }
    v.insert(i, x);
    proof {
        assert(v@ == was.insert(i as int, x));
        assert forall|a: int, b: int| 0 <= a < b < v@.len() implies v@[a] < v@[b] by {
            if a < i && b > i {
                assert(was[a] < was[b - 1]);
            } else if a == i {
                assert(was[i as int] <= was[b - 1]);
            } else if a > i {
                assert(was[a - 1] < was[b - 1]);
            }
        }
        assert forall|y: usize| #[trigger] v@.contains(y) <==> (was.contains(y) || y == x) by {
            if v@.contains(y) {
                let k = choose|k: int| 0 <= k < v@.len() && v@[k] == y;
                if k < i {
                    assert(was[k] == y);
                } else if k > i {
                    assert(was[k - 1] == y);
                }
            }
            if was.contains(y) {
                let k = choose|k: int| 0 <= k < was.len() && was[k] == y;
                if k < i {
                    assert(v@[k] == y);
                } else {
                    assert(v@[k + 1] == y);
                }
            }
            assert(v@[i as int] == x);
        }
    }
}

/// A place where the look of a hunk header may change.
pub open spec fn is_edge(marker: usize, sel: Span, x: usize) -> bool {
    x == 0 || x == marker || x == sel.start || x == sel.end
}

/// One run of a hunk header: between two neighbouring edges, with something to
/// show there.
pub open spec fn is_hunk_run(marker: usize, sel: Span, r: HunkRun) -> bool {
    &&& r.start < r.end
    &&& is_edge(marker, sel, r.start)
    &&& is_edge(marker, sel, r.end)
    &&& forall|x: usize| r.start < x < r.end ==> !is_edge(marker, sel, x)
    &&& r.in_marker == (r.start < marker)
    &&& r.in_sel == (sel.start <= r.start < sel.end)
    &&& r.in_marker || r.in_sel
}

/// Byte `b` is in one of the runs.
pub open spec fn covered(runs: Seq<HunkRun>, b: usize) -> bool {
    exists|i: int| 0 <= i < runs.len() && (#[trigger] runs[i]).start <= b < runs[i].end
}

/// The runs of a hunk header whose coordinates take its first `marker` bytes,
/// with `sel` selected. What is neither has no run: it is the row's own colour.
pub fn hunk_runs(marker: usize, sel: Span) -> (out: Vec<HunkRun>)
    ensures
        forall|i: int| 0 <= i < out@.len() ==> is_hunk_run(marker, sel, #[trigger] out@[i]),
        forall|i: int, j: int| 0 <= i < j < out@.len() ==> out@[i].end <= out@[j].start,
        forall|b: usize|
            b < marker || sel.start <= b < sel.end ==> #[trigger] covered(out@, b),
{
    let mut edges: Vec<usize> = Vec::new();
    insert_edge(&mut edges, 0);
    insert_edge(&mut edges, marker);
    insert_edge(&mut edges, sel.start);
    insert_edge(&mut edges, sel.end);
    assert(forall|x: usize| #[trigger] edges@.contains(x) <==> is_edge(marker, sel, x));
    assert(edges@.len() > 0) by {
        assert(edges@.contains(0));
    }
    assert(edges@[0] == 0) by {
        let k = choose|k: int| 0 <= k < edges@.len() && edges@[k] == 0;
        assert(edges@.contains(0));
        assert(edges@[k] == 0);
    }
    let mut out: Vec<HunkRun> = Vec::new();
    let mut i: usize = 1;
    while i < edges.len()
        invariant
            1 <= i <= edges@.len(),
            rises(edges@),
            forall|x: usize| #[trigger] edges@.contains(x) <==> is_edge(marker, sel, x),
            edges@[0] == 0,
            forall|k: int| 0 <= k < out@.len() ==> is_hunk_run(marker, sel, #[trigger] out@[k]),
            forall|a: int, b: int| 0 <= a < b < out@.len() ==> out@[a].end <= out@[b].start,
            forall|k: int| 0 <= k < out@.len() ==> (#[trigger] out@[k]).end <= edges@[i - 1],
            forall|b: usize|
                b < edges@[i - 1] && (b < marker || sel.start <= b < sel.end)
                    ==> #[trigger] covered(out@, b),
        decreases edges@.len() - i,
    {
        let start: usize = edges[i - 1];
        let end: usize = edges[i];
        let in_marker: bool = start < marker;
        let in_sel: bool = sel.start <= start && start < sel.end;
        let ghost was = out@;
        proof {
            assert(edges@.contains(start));
            assert(edges@.contains(end));
            assert forall|x: usize| start < x < end implies !is_edge(marker, sel, x) by {
                if edges@.contains(x) {
                    let k = choose|k: int| 0 <= k < edges@.len() && edges@[k] == x;
                    assert(edges@[k] == x);
                    if k < i - 1 {
                        assert(edges@[k] < edges@[i - 1]);
                    } else if k > i {
                        assert(edges@[i as int] < edges@[k]);
                    }
                }
            }
        }
        if in_marker || in_sel {
            out.push(HunkRun { start, end, in_marker, in_sel });
            assert(is_hunk_run(marker, sel, out@[out@.len() - 1]));
        }
        proof {
            assert forall|b: usize|
                b < edges@[i as int] && (b < marker || sel.start <= b < sel.end)
                implies #[trigger] covered(out@, b) by {
                if b < edges@[i - 1] {
                    assert(covered(was, b));
                    let k = choose|k: int|
                        0 <= k < was.len() && (#[trigger] was[k]).start <= b < was[k].end;
                    assert(out@[k] == was[k]);
                } else {
                    assert(!is_edge(marker, sel, b) || b == start);
                    if b < marker && start >= marker {
                        assert(false);
                    }
                    if sel.start <= b < sel.end && !(sel.start <= start < sel.end) {
                        assert(is_edge(marker, sel, sel.start));
                        assert(start < sel.start < end);
                        assert(false);
                    }
                    assert(out@[out@.len() - 1].start <= b);
                }
            }
        }
        i += 1;
    }
    proof {
        let last = edges@[edges@.len() - 1];
        assert forall|b: usize| b < marker || sel.start <= b < sel.end implies #[trigger] covered(
            out@,
            b,
        ) by {
            assert(edges@.contains(marker) && edges@.contains(sel.end));
            let km = choose|k: int| 0 <= k < edges@.len() && edges@[k] == marker;
            let ke = choose|k: int| 0 <= k < edges@.len() && edges@[k] == sel.end;
            assert(edges@[km] == marker && edges@[ke] == sel.end);
            assert(marker <= last && sel.end <= last);
            assert(b < last);
        }
    }
    out
}

/// What a stretch of text is drawn on.
#[derive(Clone, Copy, Debug, PartialEq, Eq, Structural)]
pub enum Surface {
    Context,
    Added,
    Removed,
    MovedAdded,
    MovedRemoved,
    AddedWord,
    RemovedWord,
    Selected,
    /// The bar under the keyboard's row.
    Cursor,
}

/// A stretch of a line of which one thing is true throughout.
#[derive(Clone, Copy, Debug, PartialEq, Eq, Structural)]
pub struct Run {
    pub start: usize,
    pub end: usize,
    /// The kind of syntax token it is part of.
    pub kind: Option<u16>,
    /// It is one of the words that changed.
    pub word: bool,
    pub surface: Surface,
}

/// A stretch of a row to style: a token's look on the surface it lands on, and
/// a background of its own.
#[derive(Clone, Copy, Debug, PartialEq, Eq)]
pub struct Highlight {
    pub start: usize,
    pub end: usize,
    pub token: Option<(u16, Surface)>,
    pub background: Option<Surface>,
}

/// A run with something to show: a plain stretch is the row's own colour.
pub open spec fn shown(r: Run) -> bool {
    r.kind is Some || r.word || r.surface == Surface::Selected
}

/// How a run is styled in the row that starts at byte `from` of the line. On
/// the keyboard's row a token is read against the bar, unless a changed word
/// keeps its own background there.
pub open spec fn styled(r: Run, from: usize, current: bool) -> Highlight {
    Highlight {
        start: (r.start - from) as usize,
        end: (r.end - from) as usize,
        token: match r.kind {
            Some(k) => Some(
                (
                    k,
                    if current && !r.word {
                        Surface::Cursor
                    } else {
                        r.surface
                    },
                ),
            ),
            None => None,
        },
        background: if r.surface == Surface::Selected {
            Some(Surface::Selected)
        } else if r.word {
            Some(r.surface)
        } else {
            None
        },
    }
}

/// The styled stretches of the row that starts at byte `from` of its line.
pub fn merged(runs: &Vec<Run>, from: usize, current: bool) -> (out: Vec<Highlight>)
    requires
        forall|i: int|
            0 <= i < runs@.len() ==> from <= (#[trigger] runs@[i]).start <= runs@[i].end,
    ensures
        out@ == runs@.filter(|r: Run| shown(r)).map_values(|r: Run| styled(r, from, current)),
{
    let ghost keep = |r: Run| shown(r);
    let ghost look = |r: Run| styled(r, from, current);
    let mut out: Vec<Highlight> = Vec::new();
    let mut i: usize = 0;
    proof {
        reveal(Seq::filter);
        assert(out@ =~= runs@.take(0).filter(keep).map_values(look));
    }
    while i < runs.len()
        invariant
            i <= runs@.len(),
            keep == (|r: Run| shown(r)),
            look == (|r: Run| styled(r, from, current)),
            forall|i: int|
                0 <= i < runs@.len() ==> from <= (#[trigger] runs@[i]).start <= runs@[i].end,
            out@ == runs@.take(i as int).filter(keep).map_values(look),
        decreases runs@.len() - i,
    {
        let r = runs[i];
        let selected: bool = r.surface == Surface::Selected;
        proof {
            reveal(Seq::filter);
            assert(runs@.take(i + 1).drop_last() =~= runs@.take(i as int));
        }
        if r.kind.is_some() || r.word || selected {
            let token: Option<(u16, Surface)> = match r.kind {
                Some(k) => Some(
                    (
                        k,
                        if current && !r.word {
                            Surface::Cursor
                        } else {
                            r.surface
                        },
                    ),
                ),
                None => None,
            };
            let background: Option<Surface> = if selected {
                Some(Surface::Selected)
            } else if r.word {
                Some(r.surface)
            } else {
                None
            };
            let ghost was = out@;
            out.push(Highlight { start: r.start - from, end: r.end - from, token, background });
            assert(out@ =~= runs@.take(i + 1).filter(keep).map_values(look));
        }
        i += 1;
    }
    assert(runs@.take(i as int) =~= runs@);
    out
}

// ---------------------------------------------------------------------------
// Whole rows
// ---------------------------------------------------------------------------

/// The part of a selection that falls on one row: which of the row's texts, and
/// which bytes of it.
#[derive(Clone, Copy, Debug, PartialEq, Eq, Structural)]
pub struct Selected {
    pub part: u16,
    pub bytes: Span,
}

/// The bytes of part `part` that a selection covers: none where the selection
/// is in another part, or is not there.
pub fn selected(sel: Option<Selected>, part: u16) -> (r: Span)
    ensures
        r == selected_bytes(sel, part),
{
    match sel {
        Some(s) => if s.part == part {
            s.bytes
        } else {
            Span { start: 0, end: 0 }
        },
        None => Span { start: 0, end: 0 },
    }
}

/// The bytes of part `part` that a selection covers.
pub open spec fn selected_bytes(sel: Option<Selected>, part: u16) -> Span {
    match sel {
        Some(s) => if s.part == part {
            s.bytes
        } else {
            Span { start: 0, end: 0 }
        },
        None => Span { start: 0, end: 0 },
    }
}

/// A stretch of a band: its text, its colour, and which bytes are selected.
#[derive(Debug)]
pub struct Label {
    pub text: String,
    pub fg: Rgb,
    pub lit: Span,
}

/// The left edge of a row and its background.
#[derive(Clone, Copy, Debug, PartialEq, Eq, Structural)]
pub struct Edge {
    pub bg: Rgb,
    pub bar: Rgb,
    pub extent: Rgb,
}

/// The edge of a row on background `base`.
pub open spec fn band_edge(state: RowState, base: Rgb, inks: Inks) -> Edge {
    Edge {
        bg: background_of(state.current, base, inks),
        bar: bar_of(state, base, inks),
        extent: extent_of_row(state, base, inks),
    }
}

/// The edge of a row on background `base`.
pub fn header_gutter(state: RowState, base: Rgb, inks: &Inks) -> (r: Edge)
    ensures
        r == band_edge(state, base, *inks),
{
    Edge {
        bg: row_background(state.current, base, inks),
        bar: row_bar(state, base, inks),
        extent: extent_ink(state, base, inks),
    }
}

/// The band that names a file: its directory, its name, and what changed in it.
#[derive(Debug)]
pub struct FileBand {
    pub edge: Edge,
    /// The line along the top.
    pub rule: Rgb,
    pub dir: Option<Label>,
    pub name: Label,
    pub adds: String,
    pub adds_fg: Rgb,
    pub dels: String,
    pub dels_fg: Rgb,
}

/// How many bytes of a path its directory takes.
pub open spec fn dir_bytes(path: Seq<char>) -> nat {
    text::byte_len(path.take(dir_len(path) as int))
}

impl FileBand {
    /// The band of a file at `path`, with `sel` of the path selected.
    pub open spec fn names(
        &self,
        path: Seq<char>,
        adds: usize,
        dels: usize,
        inks: Inks,
        sel: Span,
        state: RowState,
    ) -> bool {
        let cut = dir_bytes(path) as usize;
        let end = text::byte_len(path) as usize;
        &&& self.edge == band_edge(state, inks.file_bg, inks)
        &&& self.rule == inks.rule
        &&& self.dir is Some <==> dir_len(path) > 0
        &&& self.dir is Some ==> {
            &&& self.dir.unwrap().text@ == path.take(dir_len(path) as int)
            &&& self.dir.unwrap().fg == inks.dir_fg
            &&& self.dir.unwrap().lit == clip(sel, (Span { start: 0, end: cut }))
        }
        &&& self.name.text@ == path.skip(dir_len(path) as int)
        &&& self.name.fg == inks.file_fg
        &&& self.name.lit == clip(sel, (Span { start: cut, end }))
        &&& self.adds@ == "+"@ + text::decimal(adds as nat)
        &&& self.adds_fg == inks.adds_fg
        &&& self.dels@ == "−"@ + text::decimal(dels as nat)
        &&& self.dels_fg == inks.dels_fg
    }
}

fn signed(sign: &str, n: usize) -> (r: String)
    ensures
        r@ == sign@ + text::decimal(n as nat),
{
    let mut out = sign.to_owned();
    text::push_decimal(&mut out, n as u64);
    out
}

/// The band that names a file. One selection over the whole path is split
/// between the directory and the name.
pub fn file_header(
    path: &str,
    adds: usize,
    dels: usize,
    inks: &Inks,
    sel: Option<Selected>,
    state: RowState,
) -> (r: FileBand)
    ensures
        r.names(path@, adds, dels, *inks, selected_bytes(sel, 0), state),
{
    let sel = selected(sel, 0);
    let (dir, name) = split_path(path);
    let end: usize = text::byte_count(path);
    proof {
        dir_len_bound(path@);
        let d = path@.take(dir_len(path@) as int);
        let n = path@.skip(dir_len(path@) as int);
        assert(d + n =~= path@);
        text::encode_append(d, n);
        if dir_len(path@) == 0 {
            assert(d =~= seq![]);
        }
    }
    let cut: usize = match dir {
        Some(d) => text::byte_count(d),
        None => 0,
    };
    let dir = match dir {
        Some(d) => Some(
            Label {
                text: d.to_owned(),
                fg: inks.dir_fg,
                lit: clipped(sel, Span { start: 0, end: cut }),
            },
        ),
        None => None,
    };
    FileBand {
        edge: header_gutter(state, inks.file_bg, inks),
        rule: inks.rule,
        dir,
        name: Label {
            text: name.to_owned(),
            fg: inks.file_fg,
            lit: clipped(sel, Span { start: cut, end }),
        },
        adds: signed("+", adds),
        adds_fg: inks.adds_fg,
        dels: signed("−", dels),
        dels_fg: inks.dels_fg,
    }
}

/// The band over a hunk.
#[derive(Debug)]
pub struct HunkBand {
    pub edge: Edge,
    pub fg: Rgb,
    pub runs: Vec<HunkRun>,
}

impl HunkBand {
    /// The band over a hunk whose coordinates take `marker` bytes, with `sel` of
    /// it selected.
    pub open spec fn heads(&self, marker: usize, inks: Inks, sel: Span, state: RowState) -> bool {
        &&& self.edge == band_edge(state, inks.hunk_bg, inks)
        &&& self.fg == inks.hunk_fg
        &&& forall|i: int|
            0 <= i < self.runs@.len() ==> is_hunk_run(marker, sel, #[trigger] self.runs@[i])
        &&& forall|i: int, j: int|
            0 <= i < j < self.runs@.len() ==> self.runs@[i].end <= self.runs@[j].start
        &&& forall|b: usize|
            b < marker || sel.start <= b < sel.end ==> #[trigger] covered(self.runs@, b)
    }
}

/// The band over a hunk whose coordinates take its first `marker` bytes.
pub fn hunk_header(marker: usize, inks: &Inks, sel: Option<Selected>, state: RowState) -> (r:
    HunkBand)
    ensures
        r.heads(marker, *inks, selected_bytes(sel, 0), state),
{
    HunkBand {
        edge: header_gutter(state, inks.hunk_bg, inks),
        fg: inks.hunk_fg,
        runs: hunk_runs(marker, selected(sel, 0)),
    }
}

/// One row of a line: its furniture, its colours, and which bytes of the line
/// it draws.
#[derive(Debug)]
pub struct LineRow {
    pub edge: Edge,
    pub gutter: Rgb,
    pub old: String,
    pub new: String,
    pub sign: &'static str,
    pub sign_fg: Rgb,
    pub fg: Rgb,
    pub piece: Span,
    /// The bytes of the line that are selected.
    pub lit: Span,
}

} // verus!
