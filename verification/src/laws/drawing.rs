//! What a row of a diff shows: its numbers, its sign, its colours, and the furniture
//! around it.
use super::texts::numbers_are_told_apart;
use crate::text;
use crate::views::draw::{
    a_split_path_is_the_path, clipped, dir_len, dir_len_bound, extent_ink, file_header, gutter_ink,
    header_gutter, hunk_header, hunk_runs, line_colors, merged, number, row_background, row_bar,
    selected, shown, split_path, styled, Edge, FileBand, Highlight, HunkBand, HunkRun, Inks, Rgb,
    RowState, Run, Selected, Surface,
};
use crate::views::rows::{LineKind, Span};
use vstd::prelude::*;
use vstd::utf8::encode_utf8;

verus! {

// ---------------------------------------------------------------------------
// Colours
// ---------------------------------------------------------------------------

/// Each kind of line has its own sign and its own ink, whether or not it moved, and
/// only the ground tells a move. A line that did not change did not move.
pub proof fn a_kind_of_line_has_its_look(
    kind: LineKind,
    inks: Inks,
    still: (Rgb, Rgb, &'static str),
    moved: (Rgb, Rgb, &'static str),
)
    requires
        call_ensures(line_colors, (kind, false, &inks), still),
        call_ensures(line_colors, (kind, true, &inks), moved),
    ensures
        still.1 == moved.1,
        still.2@ == moved.2@,
        kind == LineKind::Added ==> still.0 == inks.added_bg && moved.0 == inks.moved_added_bg
            && still.1 == inks.added_fg && still.2@ == "+"@,
        kind == LineKind::Removed ==> still.0 == inks.removed_bg && moved.0
            == inks.moved_removed_bg && still.1 == inks.removed_fg && still.2@ == "-"@,
        kind == LineKind::Context ==> still.0 == inks.context_bg && moved.0 == inks.context_bg
            && still.1 == inks.context_fg && still.2@ == " "@,
{
}

/// The keyboard's row has the selection's ground whatever its own is, and every other
/// row its own.
pub proof fn the_keyboards_row_has_its_own_ground(base: Rgb, inks: Inks, on: Rgb, off: Rgb)
    requires
        call_ensures(row_background, (true, base, &inks), on),
        call_ensures(row_background, (false, base, &inks), off),
    ensures
        on == inks.selection_bg,
        off == base,
{
}

/// The bar and the hairline stand out on the keyboard's row alone, but that the
/// hairline runs down the rest of its hunk: accent where the pane has the keyboard,
/// faint where another has it, and out of sight elsewhere.
pub proof fn the_edge_says_where_the_keyboard_is(
    state: RowState,
    base: Rgb,
    inks: Inks,
    bar: Rgb,
    hairline: Rgb,
)
    requires
        call_ensures(row_bar, (state, base, &inks), bar),
        call_ensures(extent_ink, (state, base, &inks), hairline),
    ensures
        state.current && state.focused ==> bar == inks.accent && hairline == inks.accent,
        state.current && !state.focused ==> bar == inks.faint && hairline == inks.faint,
        !state.current ==> bar == base,
        !state.current && state.in_hunk ==> hairline == inks.rule,
        !state.current && !state.in_hunk ==> hairline == base,
{
}

/// The edge of a row is its ground, its bar and its hairline.
pub proof fn an_edge_is_its_three_inks(
    state: RowState,
    base: Rgb,
    inks: Inks,
    edge: Edge,
    ground: Rgb,
    bar: Rgb,
    hairline: Rgb,
)
    requires
        call_ensures(header_gutter, (state, base, &inks), edge),
        call_ensures(row_background, (state.current, base, &inks), ground),
        call_ensures(row_bar, (state, base, &inks), bar),
        call_ensures(extent_ink, (state, base, &inks), hairline),
    ensures
        edge.bg == ground,
        edge.bar == bar,
        edge.extent == hairline,
{
}

/// A line number is in the error's ink under a question, in the cursor's on the
/// keyboard's row, and else in the one that can be read on its line's ground.
pub proof fn a_line_number_can_be_read_on_its_ground(
    kind: LineKind,
    moved: bool,
    state: RowState,
    inks: Inks,
    r: Rgb,
)
    requires
        call_ensures(gutter_ink, (kind, moved, state, &inks), r),
    ensures
        state.armed ==> r == inks.error,
        !state.armed && state.current ==> r == inks.gutter.cursor,
        !state.armed && !state.current ==> {
            &&& kind == LineKind::Context ==> r == inks.gutter.context
            &&& kind == LineKind::Added && !moved ==> r == inks.gutter.added
            &&& kind == LineKind::Added && moved ==> r == inks.gutter.moved_added
            &&& kind == LineKind::Removed && !moved ==> r == inks.gutter.removed
            &&& kind == LineKind::Removed && moved ==> r == inks.gutter.moved_removed
        },
{
}

/// A row is ordinary until something is said of it.
pub proof fn a_row_is_ordinary_to_begin_with(r: RowState)
    requires
        call_ensures(<RowState as Default>::default, (), r),
    ensures
        !r.current,
        !r.focused,
        !r.armed,
        !r.in_hunk,
{
}

// ---------------------------------------------------------------------------
// Numbers and paths
// ---------------------------------------------------------------------------

/// A line's number is spelled on the line's first row, and on no other, and a side
/// without the line has none. Two numbers are never spelled alike.
pub proof fn a_line_number_is_spelled_once(
    a: u32,
    b: u32,
    first: String,
    other: String,
    further: String,
    missing: String,
)
    requires
        call_ensures(number, (Some(a), false), first),
        call_ensures(number, (Some(b), false), other),
        call_ensures(number, (Some(a), true), further),
        call_ensures(number, (None::<u32>, false), missing),
    ensures
        first@ == text::decimal(a as nat),
        further@.len() == 0,
        missing@.len() == 0,
        first@ == other@ <==> a == b,
{
    numbers_are_told_apart(a as nat, b as nat);
}

/// A path is cut behind its last slash: the two parts are the whole path, the name
/// holds no slash, and the directory, where there is one, ends in one.
pub proof fn a_path_is_cut_behind_its_last_slash(path: &str, r: (Option<&str>, &str))
    requires
        call_ensures(split_path, (path,), r),
    ensures
        r.0 is Some ==> r.0.unwrap()@ + r.1@ == path@ && r.0.unwrap()@.len() > 0
            && r.0.unwrap()@.last() == '/',
        r.0 is None ==> r.1@ == path@,
        !r.1@.contains('/'),
{
    a_split_path_is_the_path(path@);
    dir_len_bound(path@);
    dir_ends_in_a_slash(path@);
    if dir_len(path@) == 0 {
        assert(path@.skip(0) =~= path@);
    }
    if r.1@.contains('/') {
        let k = choose|k: int| 0 <= k < r.1@.len() && r.1@[k] == '/';
        assert(r.1@[k] == path@[k + dir_len(path@)]);
    }
}

proof fn dir_ends_in_a_slash(path: Seq<char>)
    ensures
        dir_len(path) <= path.len(),
        dir_len(path) > 0 ==> path[dir_len(path) - 1] == '/',
    decreases path.len(),
{
    if path.len() > 0 && path.last() != '/' {
        dir_ends_in_a_slash(path.drop_last());
    }
}

// ---------------------------------------------------------------------------
// Selections
// ---------------------------------------------------------------------------

/// A stretch of a row is lit exactly where the selection lights the row, counted from
/// the start of the stretch.
pub proof fn a_stretch_is_lit_where_the_row_is(sel: Span, at: Span, r: Span, b: int)
    requires
        sel.start <= sel.end,
        at.start <= at.end,
        call_ensures(clipped, (sel, at), r),
    ensures
        r.start <= r.end <= at.end - at.start,
        at.start <= b < at.end ==> (r.start <= b - at.start < r.end <==> sel.start <= b < sel.end),
{
}

/// A selection lights the part of a row that it is in, and no other.
pub proof fn a_selection_lights_its_own_part(sel: Selected, part: u16, r: Span, none: Span)
    requires
        call_ensures(selected, (Some(sel), part), r),
        call_ensures(selected, (None::<Selected>, part), none),
    ensures
        sel.part == part ==> r == sel.bytes,
        sel.part != part ==> r.start == r.end,
        none.start == none.end,
{
}

/// Some run is over byte `b`.
pub open spec fn under_a_run(runs: Seq<HunkRun>, b: int) -> bool {
    exists|i: int| 0 <= i < runs.len() && (#[trigger] runs[i]).start <= b < runs[i].end
}

/// Of a hunk's band, every byte of the coordinates or of the selection is under one
/// run, which says of it which of the two it is in, and no other byte is under any.
pub proof fn the_runs_of_a_band_say_what_each_byte_is(
    marker: usize,
    sel: Span,
    runs: Vec<HunkRun>,
    b: int,
)
    requires
        call_ensures(hunk_runs, (marker, sel), runs),
        0 <= b <= usize::MAX,
    ensures
        under_a_run(runs@, b) <==> b < marker || sel.start <= b < sel.end,
        forall|i: int|
            0 <= i < runs@.len() && (#[trigger] runs@[i]).start <= b < runs@[i].end ==> {
                &&& runs@[i].in_marker <==> b < marker
                &&& runs@[i].in_sel <==> sel.start <= b < sel.end
            },
        forall|i: int, j: int|
            0 <= i < runs@.len() && 0 <= j < runs@.len() && (#[trigger] runs@[i]).start <= b
                < runs@[i].end && (#[trigger] runs@[j]).start <= b < runs@[j].end ==> i == j,
{
    runs_say(marker, sel, runs@, b as usize);
    if b < marker || sel.start <= b < sel.end {
        assert(crate::views::draw::covered(runs@, b as usize));
    }
}

/// A run of a band says of each of its bytes whether it is in the coordinates and
/// whether it is selected, and every one of them is one or the other.
pub proof fn runs_say(marker: usize, sel: Span, runs: Seq<HunkRun>, b: usize)
    requires
        forall|i: int|
            0 <= i < runs.len() ==> crate::views::draw::is_hunk_run(
                marker,
                sel,
                #[trigger] runs[i],
            ),
    ensures
        forall|i: int|
            0 <= i < runs.len() && (#[trigger] runs[i]).start <= b < runs[i].end ==> {
                &&& runs[i].in_marker <==> b < marker
                &&& runs[i].in_sel <==> sel.start <= b < sel.end
                &&& b < marker || sel.start <= b < sel.end
            },
{
    assert forall|i: int|
        0 <= i < runs.len() && (#[trigger] runs[i]).start <= b < runs[i].end implies {
        &&& runs[i].in_marker <==> b < marker
        &&& runs[i].in_sel <==> sel.start <= b < sel.end
        &&& b < marker || sel.start <= b < sel.end
    } by {
        let r = runs[i];
        assert(crate::views::draw::is_hunk_run(marker, sel, r));
        assert(crate::views::draw::is_edge(marker, sel, marker));
        assert(crate::views::draw::is_edge(marker, sel, sel.start));
        assert(crate::views::draw::is_edge(marker, sel, sel.end));
        assert(!(r.start < marker < r.end));
        assert(!(r.start < sel.start < r.end));
        assert(!(r.start < sel.end < r.end));
    }
}

/// What is styled of a row is its runs with something to show, in order, each over
/// its own bytes counted from the row's first. A run's own ground wins over the
/// bar's, and a token is read against the ground that it lands on.
pub proof fn a_run_is_styled_where_it_stands(
    runs: Vec<Run>,
    from: usize,
    current: bool,
    out: Vec<Highlight>,
    r: Run,
)
    requires
        forall|i: int|
            0 <= i < runs@.len() ==> from <= (#[trigger] runs@[i]).start <= runs@[i].end,
        call_ensures(merged, (&runs, from, current), out),
        runs@.len() == 1,
        runs@[0] == r,
    ensures
        r.kind is None && !r.word && r.surface != Surface::Selected <==> out@.len() == 0,
        out@.len() > 0 ==> {
            let h = out@[0];
            &&& out@.len() == 1
            &&& h.start + from == r.start
            &&& h.end + from == r.end
            &&& h.token is Some <==> r.kind is Some
            &&& r.kind is Some ==> h.token.unwrap().0 == r.kind.unwrap()
            &&& r.kind is Some && current && !r.word ==> h.token.unwrap().1 == Surface::Cursor
            &&& r.kind is Some && (!current || r.word) ==> h.token.unwrap().1 == r.surface
            &&& r.surface == Surface::Selected ==> h.background == Some(Surface::Selected)
            &&& r.surface != Surface::Selected && r.word ==> h.background == Some(r.surface)
            &&& r.surface != Surface::Selected && !r.word ==> h.background is None
        },
{
    let keep = |r: Run| shown(r);
    let look = |r: Run| styled(r, from, current);
    assert(runs@ =~= seq![r]);
    reveal_with_fuel(Seq::filter, 2);
    assert(runs@.drop_last() =~= seq![]);
    assert(runs@.drop_last().filter(keep) =~= seq![]);
    if shown(r) {
        assert(runs@.filter(keep) =~= seq![r]);
        assert(out@ =~= seq![styled(r, from, current)]);
    } else {
        assert(runs@.filter(keep) =~= seq![]);
        assert(out@ =~= seq![]);
    }
}

/// Styling a row run by run and styling it at once are the same: what is styled of
/// some runs and more runs behind them is what is styled of each, one after the
/// other.
pub proof fn runs_are_styled_one_by_one(
    a: Vec<Run>,
    b: Vec<Run>,
    both: Vec<Run>,
    from: usize,
    current: bool,
    r: Vec<Highlight>,
    s: Vec<Highlight>,
    t: Vec<Highlight>,
)
    requires
        call_ensures(merged, (&a, from, current), r),
        call_ensures(merged, (&b, from, current), s),
        call_ensures(merged, (&both, from, current), t),
        both@ == a@ + b@,
    ensures
        t@ == r@ + s@,
{
    let keep = |r: Run| shown(r);
    let look = |r: Run| styled(r, from, current);
    filter_appends(a@, b@, keep);
    assert(t@ =~= r@ + s@);
}

proof fn filter_appends(a: Seq<Run>, b: Seq<Run>, keep: spec_fn(Run) -> bool)
    ensures
        (a + b).filter(keep) == a.filter(keep) + b.filter(keep),
    decreases b.len(),
{
    reveal(Seq::filter);
    if b.len() == 0 {
        assert(a + b =~= a);
        assert(a.filter(keep) + b.filter(keep) =~= a.filter(keep));
    } else {
        filter_appends(a, b.drop_last(), keep);
        assert((a + b).drop_last() =~= a + b.drop_last());
        assert((a + b).filter(keep) =~= a.filter(keep) + b.filter(keep));
    }
}

// ---------------------------------------------------------------------------
// Bands
// ---------------------------------------------------------------------------

/// A file's band spells what was added behind a plus and what was removed behind a
/// minus, each in its own ink, under the whole path.
pub proof fn a_files_band_spells_its_totals(
    path: &str,
    adds: usize,
    dels: usize,
    inks: Inks,
    sel: Option<Selected>,
    state: RowState,
    r: FileBand,
    edge: Edge,
)
    requires
        call_ensures(file_header, (path, adds, dels, &inks, sel, state), r),
        call_ensures(header_gutter, (state, inks.file_bg, &inks), edge),
    ensures
        r.adds@ == "+"@ + text::decimal(adds as nat),
        r.dels@ == "−"@ + text::decimal(dels as nat),
        r.adds_fg == inks.adds_fg,
        r.dels_fg == inks.dels_fg,
        r.rule == inks.rule,
        r.edge == edge,
        r.name.fg == inks.file_fg,
        r.dir is Some ==> r.dir.unwrap().text@ + r.name.text@ == path@ && r.dir.unwrap().fg
            == inks.dir_fg,
        r.dir is None ==> r.name.text@ == path@,
        r.dir is Some <==> path@.contains('/'),
        !r.name.text@.contains('/'),
{
    let d = dir_len(path@) as int;
    a_split_path_is_the_path(path@);
    dir_ends_in_a_slash(path@);
    if d == 0 {
        assert(path@.skip(0) =~= path@);
    } else {
        assert(path@[d - 1] == '/');
    }
    if r.name.text@.contains('/') {
        let k = choose|k: int| 0 <= k < r.name.text@.len() && r.name.text@[k] == '/';
        assert(r.name.text@[k] == path@[k + d]);
    }
    if path@.contains('/') {
        let k = choose|k: int| 0 <= k < path@.len() && path@[k] == '/';
        assert(k < d);
    }
}

/// One selection over a path is split at the end of its directory: a byte is lit in
/// the part it is in exactly where the selection covers it.
pub proof fn a_selection_over_a_path_is_split(
    path: &str,
    adds: usize,
    dels: usize,
    inks: Inks,
    bytes: Span,
    state: RowState,
    r: FileBand,
    b: int,
)
    requires
        bytes.start <= bytes.end,
        encode_utf8(path@).len() <= usize::MAX,
        call_ensures(
            file_header,
            (path, adds, dels, &inks, Some(Selected { part: 0, bytes }), state),
            r,
        ),
        r.dir is Some,
        0 <= b < encode_utf8(path@).len(),
    ensures
        ({
            let cut = encode_utf8(r.dir.unwrap().text@).len();
            let (dir, name) = (r.dir.unwrap().lit, r.name.lit);
            &&& b < cut ==> (dir.start <= b < dir.end <==> bytes.start <= b < bytes.end)
            &&& b >= cut ==> (name.start <= b - cut < name.end <==> bytes.start <= b < bytes.end)
        }),
{
    dir_len_bound(path@);
    let d = path@.take(dir_len(path@) as int);
    let n = path@.skip(dir_len(path@) as int);
    assert(d + n =~= path@);
    text::encode_append(d, n);
}

/// A hunk's band is on the hunk's ground and in its ink, and its runs say which of
/// its bytes are coordinates and which are selected.
pub proof fn a_hunks_band_has_its_own_look(
    marker: usize,
    inks: Inks,
    sel: Option<Selected>,
    state: RowState,
    r: HunkBand,
    edge: Edge,
    lit: Span,
    b: int,
)
    requires
        call_ensures(hunk_header, (marker, &inks, sel, state), r),
        call_ensures(header_gutter, (state, inks.hunk_bg, &inks), edge),
        call_ensures(selected, (sel, 0u16), lit),
        0 <= b <= usize::MAX,
    ensures
        r.edge == edge,
        r.fg == inks.hunk_fg,
        under_a_run(r.runs@, b) <==> b < marker || lit.start <= b < lit.end,
        forall|i: int|
            0 <= i < r.runs@.len() && (#[trigger] r.runs@[i]).start <= b < r.runs@[i].end ==> {
                &&& r.runs@[i].in_marker <==> b < marker
                &&& r.runs@[i].in_sel <==> lit.start <= b < lit.end
            },
{
    runs_say(marker, lit, r.runs@, b as usize);
    if b < marker || lit.start <= b < lit.end {
        assert(crate::views::draw::covered(r.runs@, b as usize));
    }
}

} // verus!
