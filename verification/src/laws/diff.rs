//! The diff pane: the title, the hunk and the text under the keyboard are those of
//! its row, and what a key does to them.
use crate::text;
use crate::views::diff::{
    autoscroll, copied, drag_to, file_at, layout_names, load_line, load_reports, press, reflow,
    reflow_note, run_command, spoken, the_commands_of_a_diff, the_first_file_is_found, Diff,
    DiffCommand, FileSummary, Layout, Layouts, Located, Press, Ran, Rearranged, Reflow,
};
use crate::views::draw::{Inks, RowState, Selected};
use crate::views::list::Motion;
use crate::views::rows::{
    all_ready, anchor_is_found, arrange, arrangeable, chosen, claimant, collapsed, grown, grown_len,
    headers_are_listed, known, positions, row_of, segments_stand_together, shown_rows, Built, File,
    HunkExtent, RowRef, Rows,
};
use crate::views::source::{
    find_source, is_prepared, prepared_from, same_diff, source_views, the_first_source_is_found,
    Source, SourceHunk,
};
use crate::views::text_rows::{file_rows, Drawn, Row, TextRows};
use vstd::prelude::*;

verus! {

// ---------------------------------------------------------------------------
// The title
// ---------------------------------------------------------------------------

/// What the title counts are the lines that the first file of its path adds and
/// removes, each under its own name, and how many hunks that file has.
pub proof fn the_title_counts_its_own_file<R: Rows>(
    pane: Diff<R>,
    r: Option<FileSummary>,
    s: FileSummary,
) -> (i: int)
    requires
        pane.addressed(),
        call_ensures(Diff::<R>::file_summary, (&pane,), r),
        r == Some(s),
    ensures
        0 <= i < pane.files@.len(),
        pane.files@[i].path@ == s.path@,
        forall|j: int| 0 <= j < i ==> (#[trigger] pane.files@[j]).path@ != s.path@,
        s.adds == pane.files@[i].adds,
        s.dels == pane.files@[i].dels,
        s.hunks == pane.files@[i].hunks@.len(),
{
    let summary = pane.summary_here().unwrap();
    the_first_file_is_found(pane.files@, summary.path);
    let i = file_at(pane.files@, summary.path).unwrap();
    assert(s@ == summary);
    i
}

/// The title names the file and the hunk that the keyboard's row says it is in, hunks
/// counted from one. Between hunks it names a file only on the file's band, and there
/// the file's first hunk.
pub proof fn the_title_names_the_rows_hunk<R: Rows>(
    pane: Diff<R>,
    r: Option<FileSummary>,
    at: RowRef,
    hunk: Option<(&str, usize)>,
    band: bool,
    words: Option<&str>,
)
    requires
        pane.addressed(),
        call_ensures(Diff::<R>::file_summary, (&pane,), r),
        pane.cursor < pane.order@.len(),
        at == pane.order@[pane.cursor as int],
        call_ensures(R::hunk_at, (&pane.renderers@[at.owner as int], at.index as usize), hunk),
        call_ensures(R::is_header, (&pane.renderers@[at.owner as int], at.index as usize), band),
        call_ensures(
            R::selectable,
            (&pane.renderers@[at.owner as int], at.index as usize, 0u16),
            words,
        ),
    ensures
        hunk is None && !band ==> r is None,
        r matches Some(s) ==> {
            &&& hunk matches Some((path, n)) ==> s.path@ == path@ && s.hunk == n + 1
            &&& hunk is None ==> band && words is Some && s.path@ == words.unwrap()@ && s.hunk == (
            if s.hunks == 0 {
                0int
            } else {
                1
            })
        },
{
    assert(known(pane.m(), at.id()));
    let rows = pane.renderers@[at.owner as int];
    assert(pane.m()[at.owner as int] == rows.model());
    if r is Some {
        assert(r.unwrap()@ == pane.summary_here().unwrap());
    }
}

/// Where the diff has a file of that path, a row in one of its hunks and its own band
/// have a title.
pub proof fn a_row_of_a_file_has_a_title<R: Rows>(
    pane: Diff<R>,
    r: Option<FileSummary>,
    at: RowRef,
    hunk: Option<(&str, usize)>,
    band: bool,
    words: Option<&str>,
    i: int,
)
    requires
        pane.addressed(),
        call_ensures(Diff::<R>::file_summary, (&pane,), r),
        pane.cursor < pane.order@.len(),
        at == pane.order@[pane.cursor as int],
        call_ensures(R::hunk_at, (&pane.renderers@[at.owner as int], at.index as usize), hunk),
        call_ensures(R::is_header, (&pane.renderers@[at.owner as int], at.index as usize), band),
        call_ensures(
            R::selectable,
            (&pane.renderers@[at.owner as int], at.index as usize, 0u16),
            words,
        ),
        0 <= i < pane.files@.len(),
    ensures
        hunk is Some && pane.files@[i].path@ == hunk.unwrap().0@ ==> r is Some,
        hunk is None && band && words is Some && pane.files@[i].path@ == words.unwrap()@ ==> r
            is Some,
{
    assert(known(pane.m(), at.id()));
    let rows = pane.renderers@[at.owner as int];
    assert(pane.m()[at.owner as int] == rows.model());
    the_first_file_is_found(pane.files@, pane.files@[i].path@);
}

/// An empty diff has no title, no hunk and no text.
pub proof fn an_empty_diff_says_nothing<R: Rows>(
    pane: Diff<R>,
    r: Option<FileSummary>,
    h: Option<(&str, &SourceHunk)>,
    t: String,
)
    requires
        pane.addressed(),
        pane.order@.len() == 0,
        call_ensures(Diff::<R>::file_summary, (&pane,), r),
        call_ensures(Diff::<R>::current_hunk, (&pane,), h),
        call_ensures(Diff::<R>::cursor_text, (&pane,), t),
    ensures
        r is None,
        h is None,
        t@.len() == 0,
{
}

proof fn a_band_is_a_files(rs: Seq<TextRows>, files: Seq<File>, o: int, k: int) -> (i: int)
    requires
        rs.len() > 0,
        forall|i: int| 0 <= i < rs.len() ==> (#[trigger] rs[i]).rows@.len() == 0,
        0 <= o < grown(rs, files).len(),
        0 <= k < grown(rs, files)[o].len(),
        grown(rs, files)[o][k].header,
    ensures
        0 <= i < files.len(),
        grown(rs, files)[o][k].texts[0] == files[i].path@,
        grown(rs, files)[o][k].totals == Some((files[i].adds, files[i].dels)),
        grown(rs, files)[o][k].hunk is None,
    decreases files.len(),
{
    if files.len() == 0 {
        assert(rs[o].rows@.len() == 0);
        0
    } else {
        let rest = files.drop_last();
        let f = files.last();
        let before = grown(rs, rest);
        let c = claimant(rs, f.path@);
        assert(rs[rs.len() - 1].wants(f.path@));
        grown_len(rs, rest);
        if o == c && k >= before[c].len() {
            let at = before[c].len() as int;
            assert(grown(rs, files)[o][k] == file_rows(at, f)[k - at]);
            only_the_band_heads(at, f, k - at);
            assert(files[files.len() - 1] == f);
            files.len() - 1
        } else {
            let i = a_band_is_a_files(rs, rest, o, k);
            assert(files[i] == rest[i]);
            i
        }
    }
}

proof fn only_the_band_heads(at: int, file: File, k: int)
    requires
        0 <= k < file_rows(at, file).len(),
        file_rows(at, file)[k].header,
    ensures
        k == 0,
        file_rows(at, file)[k].texts[0] == file.path@,
        file_rows(at, file)[k].totals == Some((file.adds, file.dels)),
        file_rows(at, file)[k].hunk is None,
{
    if k > 0 {
        hunk_rows_head_nothing(at + 1, file, file.hunks@, k - 1);
    }
}

proof fn hunk_rows_head_nothing(
    at: int,
    file: File,
    hunks: Seq<crate::views::rows::Hunk>,
    k: int,
)
    requires
        0 <= k < crate::views::text_rows::hunks_rows(at, file.path, hunks).len(),
    ensures
        !crate::views::text_rows::hunks_rows(at, file.path, hunks)[k].header,
    decreases hunks.len(),
{
    let earlier = crate::views::text_rows::hunks_rows(at, file.path, hunks.drop_last());
    if k < earlier.len() {
        hunk_rows_head_nothing(at, file, hunks.drop_last(), k);
    }
}

/// In the default presentation, where no two files have one path, the title counts
/// what the band under the keyboard shows: the same number behind the plus and the
/// same behind the minus.
pub proof fn the_title_counts_what_the_band_shows(
    pane: Diff<TextRows>,
    rs: Seq<TextRows>,
    s: FileSummary,
    r: Option<FileSummary>,
    at: RowRef,
    inks: Inks,
    sel: Option<Selected>,
    state: RowState,
    marker: usize,
    drawn: Drawn,
)
    requires
        pane.wf(),
        rs.len() > 0,
        forall|i: int| 0 <= i < rs.len() ==> (#[trigger] rs[i]).rows@.len() == 0,
        pane.arranged_from(rs, pane.files@),
        forall|i: int, j: int|
            0 <= i < j < pane.files@.len() ==> (#[trigger] pane.files@[i]).path@ != (
            #[trigger] pane.files@[j]).path@,
        pane.cursor < pane.order@.len(),
        at == pane.order@[pane.cursor as int],
        pane.renderers@[at.owner as int].rows@[at.index as int] is File,
        call_ensures(Diff::<TextRows>::file_summary, (&pane,), r),
        r == Some(s),
        call_ensures(
            TextRows::render,
            (
                &pane.renderers@[at.owner as int],
                at.index as usize,
                at.seg as usize,
                &inks,
                sel,
                state,
                marker,
            ),
            drawn,
        ),
    ensures
        drawn matches Drawn::File(band) && band.adds@ == "+"@ + text::decimal(s.adds as nat)
            && band.dels@ == "−"@ + text::decimal(s.dels as nat),
{
    assert(known(pane.m(), at.id()));
    let rows = pane.renderers@[at.owner as int];
    assert(pane.m()[at.owner as int] == rows.model());
    let (o, k) = (at.owner as int, at.index as int);
    let row = rows.model()[k];
    assert(row.header && row.totals is Some);
    let i = a_band_is_a_files(rs, pane.files@, o, k);
    let j = the_title_counts_its_own_file(pane, r, s);
    assert(s@ == pane.summary_here().unwrap());
    assert(s.path@ == pane.files@[i].path@);
    assert(i == j);
}

// ---------------------------------------------------------------------------
// The hunk and the text
// ---------------------------------------------------------------------------

/// The hunk that a verb acts on is the one that the keyboard's row says it is in: of
/// the first file of that path in the diff, the hunk of that number.
pub proof fn a_verb_acts_on_the_rows_hunk<R: Rows>(
    pane: Diff<R>,
    r: Option<(&str, &SourceHunk)>,
    at: RowRef,
    hunk: Option<(&str, usize)>,
    i: int,
)
    requires
        pane.addressed(),
        call_ensures(Diff::<R>::current_hunk, (&pane,), r),
        pane.cursor < pane.order@.len(),
        at == pane.order@[pane.cursor as int],
        call_ensures(R::hunk_at, (&pane.renderers@[at.owner as int], at.index as usize), hunk),
        hunk is Some,
        0 <= i < pane.source@.len(),
        pane.source@[i].path@ == hunk.unwrap().0@,
        forall|j: int| 0 <= j < i ==> (#[trigger] pane.source@[j]).path@ != hunk.unwrap().0@,
    ensures
        hunk.unwrap().1 < pane.source@[i].hunks@.len() <==> r is Some,
        r matches Some((path, h)) ==> path@ == hunk.unwrap().0@ && *h
            == pane.source@[i].hunks@[hunk.unwrap().1 as int],
{
    assert(known(pane.m(), at.id()));
    let rows = pane.renderers@[at.owner as int];
    assert(pane.m()[at.owner as int] == rows.model());
    let path = hunk.unwrap().0@;
    let k = the_first_source_is_found(pane.source@, path);
    assert(k == i);
}

/// Off the hunks there is nothing to act on.
pub proof fn between_hunks_nothing_is_acted_on<R: Rows>(
    pane: Diff<R>,
    r: Option<(&str, &SourceHunk)>,
    at: RowRef,
    hunk: Option<(&str, usize)>,
)
    requires
        pane.addressed(),
        call_ensures(Diff::<R>::current_hunk, (&pane,), r),
        pane.cursor < pane.order@.len(),
        at == pane.order@[pane.cursor as int],
        call_ensures(R::hunk_at, (&pane.renderers@[at.owner as int], at.index as usize), hunk),
        hunk is None,
    ensures
        r is None,
{
    assert(known(pane.m(), at.id()));
    let rows = pane.renderers@[at.owner as int];
    assert(pane.m()[at.owner as int] == rows.model());
}

/// Copying without a selection copies the whole text of the keyboard's row.
pub proof fn the_keyboards_text_is_its_rows(pane: Diff<TextRows>, r: String, at: RowRef)
    requires
        pane.addressed(),
        call_ensures(Diff::<TextRows>::cursor_text, (&pane,), r),
        pane.cursor < pane.order@.len(),
        at == pane.order@[pane.cursor as int],
    ensures
        r@ == match pane.renderers@[at.owner as int].rows@[at.index as int] {
            Row::File { path, .. } => path@,
            Row::Hunk(header) => header@,
            Row::Line(line) => line.text@,
        },
{
    assert(known(pane.m(), at.id()));
    let rows = pane.renderers@[at.owner as int];
    assert(pane.m()[at.owner as int] == rows.model());
    assert(rows.model()[at.index as int].texts.contains_key(0));
    assert(rows.model()[at.index as int].texts[0] == rows.rows@[at.index as int].text());
}

/// A selection wins over the row, and nothing is copied where there is nothing.
pub proof fn what_is_selected_is_copied(selection: String, row: String, r: Option<String>)
    requires
        call_ensures(copied, (selection, row), r),
    ensures
        selection@.len() > 0 ==> r is Some && r.unwrap()@ == selection@,
        selection@.len() == 0 && row@.len() > 0 ==> r is Some && r.unwrap()@ == row@,
        selection@.len() == 0 && row@.len() == 0 ==> r is None,
{
}

/// A first press asks about a hunk, and only a second press on the same row acts.
pub proof fn only_a_second_press_discards<R: Rows>(
    a: Ghost<&mut Diff<R>>,
    b: Ghost<&mut Diff<R>>,
    id: (u16, u32),
    next: (u16, u32),
    r: bool,
    s: bool,
)
    requires
        a@.armed_hunk is None,
        call_ensures(Diff::<R>::confirm_or_arm_discard_hunk, (a@, id), r),
        *b@ == *final(a@),
        call_ensures(Diff::<R>::confirm_or_arm_discard_hunk, (b@, next), s),
    ensures
        !r,
        final(a@).armed_hunk == Some(id),
        s <==> id == next,
        s ==> final(b@).armed_hunk is None,
        !s ==> final(b@).armed_hunk == Some(next),
        final(b@).cursor == a@.cursor,
        final(b@).order == a@.order,
        final(b@).source == a@.source,
{
}

// ---------------------------------------------------------------------------
// Moves
// ---------------------------------------------------------------------------

/// A move lands the keyboard on the row it is told, a scroll leaves the keyboard and
/// moves the top, either drops the question, and what is no move changes nothing.
pub proof fn a_move_lands_where_it_is_told<R: Rows>(
    c: Ghost<&mut Diff<R>>,
    motion: Motion,
    cursor: usize,
    top: usize,
)
    requires
        call_ensures(Diff::<R>::landed, (c@, motion, cursor, top), ()),
    ensures
        motion == Motion::Inert || motion == Motion::Unknown ==> *final(c@) == *c@,
        motion == Motion::ScrollDown || motion == Motion::ScrollUp ==> final(c@).cursor == c@.cursor
            && final(c@).armed_hunk is None,
        motion == Motion::Down || motion == Motion::Up || motion == Motion::PageDown || motion
            == Motion::PageUp || motion == Motion::Top || motion == Motion::Bottom ==> {
            &&& final(c@).armed_hunk is None
            &&& cursor < c@.order@.len() ==> final(c@).cursor == cursor
            &&& 0 < c@.order@.len() <= cursor ==> final(c@).cursor + 1 == c@.order@.len()
        },
        !(motion == Motion::Inert || motion == Motion::Unknown) && top < c@.order@.len()
            ==> final(c@).top == top,
        final(c@).order == c@.order,
        final(c@).source == c@.source,
        final(c@).files == c@.files,
        final(c@).current == c@.current,
        final(c@).wrap == c@.wrap,
{
}

/// The wheel leaves the keyboard where it is; a wheel that moves nothing changes
/// nothing, and a scrollbar asks no question anew and drops none.
pub proof fn a_wheel_leaves_the_keyboard<R: Rows>(
    c: Ghost<&mut Diff<R>>,
    d: Ghost<&mut Diff<R>>,
    e: Ghost<&mut Diff<R>>,
    moved: bool,
    cursor: usize,
    top: usize,
    r: bool,
)
    requires
        call_ensures(Diff::<R>::wheeled, (c@, moved, top), r),
        call_ensures(Diff::<R>::followed, (d@, cursor, top), ()),
        call_ensures(Diff::<R>::parked, (e@, cursor, top), ()),
    ensures
        r == moved,
        !moved ==> *final(c@) == *c@,
        moved ==> final(c@).cursor == c@.cursor && final(c@).armed_hunk is None,
        moved && top < c@.order@.len() ==> final(c@).top == top,
        moved && 0 < c@.order@.len() <= top ==> final(c@).top + 1 == c@.order@.len(),
        0 < d@.order@.len() <= cursor ==> final(d@).cursor + 1 == d@.order@.len(),
        0 < e@.order@.len() <= cursor ==> final(e@).cursor + 1 == e@.order@.len(),
        final(d@).armed_hunk == d@.armed_hunk,
        final(d@).pending == d@.pending,
        cursor < d@.order@.len() ==> final(d@).cursor == cursor,
        top < d@.order@.len() ==> final(d@).top == top,
        final(e@).armed_hunk == e@.armed_hunk,
        final(e@).pending.awaiting,
        cursor < e@.order@.len() ==> final(e@).cursor == cursor,
        top < e@.order@.len() ==> final(e@).top == top,
{
}

/// A jump goes to the nearest band of a file in its direction, and to no other row;
/// where there is none it goes nowhere and the question stays.
pub proof fn a_jump_goes_to_the_nearest_band<R: Rows>(
    c: Ghost<&mut Diff<R>>,
    by: isize,
    r: Option<usize>,
    k: int,
)
    requires
        c@.wf(),
        call_ensures(Diff::<R>::jump_file, (c@, by), r),
    ensures
        ({
            let order = c@.order@;
            let band = |k: int|
                0 <= k < order.len() && order[k].seg == 0 && row_of(c@.m(), order[k].id()).header;
            &&& r matches Some(h) ==> {
                &&& band(h as int)
                &&& final(c@).cursor == h
                &&& final(c@).armed_hunk is None
                &&& by >= 0 ==> h > c@.cursor && (band(k) && k > c@.cursor ==> k >= h)
                &&& by < 0 ==> h < c@.cursor && (band(k) && k < c@.cursor ==> k <= h)
            }
            &&& r is None ==> {
                &&& *final(c@) == *c@
                &&& by >= 0 ==> (band(k) ==> k <= c@.cursor)
                &&& by < 0 ==> (band(k) ==> k >= c@.cursor)
            }
        }),
{
    let ids = collapsed(c@.order@);
    let rows = crate::views::rows::header_rows(c@.m(), ids);
    headers_are_listed(c@.m(), ids);
    let h = c@.headers@;
    assert(positions(h) == rows);
    assert(positions(h).len() == h.len());
    assert forall|i: int| 0 <= i < h.len() implies rows[i] == #[trigger] h[i] by {
        assert(positions(h)[i] == h[i] as int);
    }
    if r is Some {
        let i = choose|i: int| 0 <= i < h.len() && h[i] == r.unwrap();
        assert(rows[i] == h[i]);
        assert(rows.contains(r.unwrap() as int));
    }
    if 0 <= k < c@.order@.len() && c@.order@[k].seg == 0 && row_of(c@.m(), c@.order@[k].id()).header {
        assert(rows.contains(k));
        let i = choose|i: int| 0 <= i < rows.len() && rows[i] == k;
        assert(h[i] as int == k);
    }
}

/// Each name is its own command, and a name that is none of them is none.
pub proof fn a_name_is_its_own_command(command: &str, r: DiffCommand)
    requires
        call_ensures(run_command, (command,), r),
    ensures
        command@ == "view.left"@ <==> r == DiffCommand::Pan((-8) as isize),
        command@ == "view.right"@ <==> r == DiffCommand::Pan(8),
        command@ == "diff.next-file"@ <==> r == DiffCommand::JumpFile(1),
        command@ == "diff.prev-file"@ <==> r == DiffCommand::JumpFile((-1) as isize),
        command@ == "diff.cycle-layout"@ <==> r == DiffCommand::CycleLayout,
        command@ == "diff.cycle-wrap"@ <==> r == DiffCommand::CycleWrap,
        command@ == "view.down"@ ==> r == DiffCommand::Move(Motion::Down),
        command@ == "view.up"@ ==> r == DiffCommand::Move(Motion::Up),
        command@ == "view.page-down"@ ==> r == DiffCommand::Move(Motion::PageDown),
        command@ == "view.page-up"@ ==> r == DiffCommand::Move(Motion::PageUp),
        command@ == "view.scroll-down"@ ==> r == DiffCommand::Move(Motion::ScrollDown),
        command@ == "view.scroll-up"@ ==> r == DiffCommand::Move(Motion::ScrollUp),
        command@ == "view.top"@ ==> r == DiffCommand::Move(Motion::Top),
        command@ == "view.bottom"@ ==> r == DiffCommand::Move(Motion::Bottom),
        r is Unknown <==> {
            &&& command@ != "view.down"@ && command@ != "view.up"@
            &&& command@ != "view.page-down"@ && command@ != "view.page-up"@
            &&& command@ != "view.scroll-down"@ && command@ != "view.scroll-up"@
            &&& command@ != "view.top"@ && command@ != "view.bottom"@
            &&& command@ != "view.left"@ && command@ != "view.right"@
            &&& command@ != "diff.next-file"@ && command@ != "diff.prev-file"@
            &&& command@ != "diff.cycle-layout"@ && command@ != "diff.cycle-wrap"@
        },
{
    the_commands_of_a_diff(command@);
}

/// A command is answered in kind: a pan by its columns, a jump by where it went, a
/// cycle of presentations by the one to load, and none of these but a wrap's cycle
/// changes which wrap is on.
pub proof fn a_command_is_answered_in_kind<R: Rows>(
    c: Ghost<&mut Diff<R>>,
    command: DiffCommand,
    cursor: usize,
    top: usize,
    wraps: usize,
    r: Ran,
)
    requires
        c@.wf(),
        c@.current < usize::MAX,
        c@.wrap < usize::MAX,
        call_ensures(Diff::<R>::ran, (c@, command, cursor, top, wraps), r),
    ensures
        command is Unknown <==> r is Refused,
        command is Unknown ==> *final(c@) == *c@,
        command matches DiffCommand::Pan(by) ==> r == Ran::Pan(by) && *final(c@) == *c@,
        command is Move <==> r is Moved,
        command is CycleLayout && c@.names@.len() >= 2 && c@.current < c@.names@.len() ==> r
            == Ran::Layout(
            if c@.current + 1 == c@.names@.len() {
                0
            } else {
                (c@.current + 1) as usize
            },
        ),
        command is CycleLayout && c@.names@.len() < 2 ==> r is Done,
        command is CycleLayout ==> final(c@).current == c@.current && final(c@).armed_hunk is None,
        r is Jumped ==> command is JumpFile && final(c@).cursor == r->Jumped_0,
        command is JumpFile && r is Done ==> *final(c@) == *c@,
        !(command is CycleWrap) ==> final(c@).wrap == c@.wrap,
        command is CycleWrap ==> r is Done && final(c@).armed_hunk is None && final(c@).cursor
            == c@.cursor,
        command is CycleWrap && wraps < 2 ==> final(c@).wrap == c@.wrap,
        command is CycleWrap && wraps >= 2 && c@.wrap < wraps ==> final(c@).wrap == if c@.wrap + 1
            == wraps {
            0int
        } else {
            c@.wrap + 1
        },
        final(c@).order == c@.order,
        final(c@).source == c@.source,
{
    assert(c@.names.len() == c@.names@.len());
    next_of(c@.current, c@.names.len());
    next_of(c@.wrap, wraps);
}

/// A move that is run is the move that lands.
pub proof fn a_move_that_is_run_lands<R: Rows>(
    a: Ghost<&mut Diff<R>>,
    b: Ghost<&mut Diff<R>>,
    motion: Motion,
    cursor: usize,
    top: usize,
    wraps: usize,
    r: Ran,
)
    requires
        a@.wf(),
        a@.current < usize::MAX,
        a@.wrap < usize::MAX,
        *a@ == *b@,
        call_ensures(Diff::<R>::ran, (a@, DiffCommand::Move(motion), cursor, top, wraps), r),
        call_ensures(Diff::<R>::landed, (b@, motion, cursor, top), ()),
    ensures
        *final(a@) == *final(b@),
        r is Moved,
{
}

proof fn next_of(current: usize, count: usize)
    ensures
        current < count && count >= 2 ==> crate::views::diff::cycled(current, count) == if current
            + 1 == count {
            0int
        } else {
            current + 1
        },
{
    if current < count && count >= 2 {
        if current + 1 == count {
            vstd::arithmetic::div_mod::lemma_mod_self_0(count as int);
        } else {
            vstd::arithmetic::div_mod::lemma_small_mod((current + 1) as nat, count as nat);
        }
    }
}

/// Cycling goes to the next presentation or wrap, and from the last to the first;
/// one alone has nothing to cycle to.
pub proof fn cycling_goes_to_the_next<R: Rows>(
    c: Ghost<&mut Diff<R>>,
    d: Ghost<&mut Diff<R>>,
    count: usize,
    r: Option<usize>,
)
    requires
        c@.current < usize::MAX,
        d@.wrap < usize::MAX,
        call_ensures(Diff::<R>::cycle_layout, (c@,), r),
        call_ensures(Diff::<R>::cycle_wrap, (d@, count), ()),
    ensures
        r is Some <==> c@.names@.len() >= 2,
        c@.current + 1 < c@.names@.len() ==> r == Some((c@.current + 1) as usize),
        c@.names@.len() >= 2 && c@.current + 1 == c@.names@.len() ==> r == Some(0usize),
        final(c@).current == c@.current,
        final(c@).armed_hunk is None,
        final(d@).armed_hunk is None,
        d@.wrap + 1 < count ==> final(d@).wrap == d@.wrap + 1,
        count >= 2 && d@.wrap + 1 == count ==> final(d@).wrap == 0,
        count < 2 ==> final(d@).wrap == d@.wrap,
        final(d@).current == d@.current,
{
    assert(c@.names.len() == c@.names@.len());
    next_of(c@.current, c@.names.len());
    next_of(d@.wrap, count);
}

/// A wrap or a presentation is taken where it is there and not on already.
pub proof fn only_another_choice_is_taken<R: Rows>(
    c: Ghost<&mut Diff<R>>,
    pane: Diff<R>,
    index: usize,
    count: usize,
    r: bool,
    s: bool,
    name: &'static str,
)
    requires
        call_ensures(Diff::<R>::set_wrap, (c@, index, count), r),
        call_ensures(Diff::<R>::set_layout, (&pane, index), s),
        call_ensures(Diff::<R>::layout, (&pane,), name),
    ensures
        r <==> index < count && index != c@.wrap,
        r ==> final(c@).wrap == index,
        !r ==> *final(c@) == *c@,
        final(c@).armed_hunk == c@.armed_hunk,
        s <==> index < pane.names@.len() && index != pane.current,
        pane.current < pane.names@.len() ==> name@ == pane.names@[pane.current as int]@,
        pane.current >= pane.names@.len() ==> name@ == "custom"@,
{
}

/// A saved position comes back to its own row, or to the last past the end.
pub proof fn a_saved_row_comes_back<R: Rows>(pane: Diff<R>, row: usize, r: Option<usize>)
    requires
        call_ensures(Diff::<R>::scroll_to, (&pane, row), r),
    ensures
        r is None <==> pane.order@.len() == 0,
        row < pane.order@.len() ==> r == Some(row),
        pane.order@.len() > 0 && row >= pane.order@.len() ==> r.unwrap() + 1 == pane.order@.len(),
{
}

// ---------------------------------------------------------------------------
// The mouse
// ---------------------------------------------------------------------------

/// A click lands on the row that is drawn there, or on the last below the end, and
/// says where the rows of its line start and how many they are.
pub proof fn a_click_finds_the_line_drawn_there<R: Rows>(
    pane: Diff<R>,
    visual: usize,
    r: Option<Located>,
    l: Located,
)
    requires
        pane.wf(),
        call_ensures(Diff::<R>::locate, (&pane, visual), r),
        r == Some(l),
    ensures
        l.visual < pane.order@.len(),
        visual < pane.order@.len() ==> l.visual == visual,
        visual >= pane.order@.len() ==> l.visual + 1 == pane.order@.len(),
        l.row == pane.order@[l.visual as int],
        l.first <= l.visual,
        pane.order@[l.first as int].seg == 0,
        forall|k: int|
            l.first <= k <= l.visual ==> (#[trigger] pane.order@[k]).owner == l.row.owner
                && pane.order@[k].index == l.row.index && pane.order@[k].seg == k - l.first,
        l.count >= 1,
        l.count <= 0xffff ==> l.first + l.count <= pane.order@.len() && forall|k: int|
            l.first <= k < l.first + l.count ==> (#[trigger] pane.order@[k]).owner == l.row.owner
                && pane.order@[k].index == l.row.index,
{
    let ids = collapsed(pane.order@);
    segments_stand_together(pane.m(), ids, l.visual as int);
    let first = l.first as int;
    let n = shown_rows(row_of(pane.m(), l.row.id()));
    assert forall|k: int| first <= k < first + n implies #[trigger] pane.order@[k] == (RowRef {
        owner: l.row.owner,
        seg: (k - first) as u16,
        index: l.row.index,
    }) by {
        let j = k - first;
        assert(pane.order@[first + j] == (RowRef {
            owner: l.row.owner,
            seg: j as u16,
            index: l.row.index,
        }));
    }
}

/// Shift extends a selection of the same text and of no other; two clicks take the
/// word and more the row.
pub proof fn a_press_does_what_its_clicks_say(
    shift: bool,
    selected: Option<u16>,
    part: u16,
    clicks: usize,
    r: Press,
)
    requires
        call_ensures(press, (shift, selected, part, clicks), r),
    ensures
        r == Press::Extend <==> shift && selected == Some(part),
        r == Press::Word ==> clicks == 2,
        r == Press::Row ==> clicks > 2,
        r == Press::Start ==> clicks < 2,
{
}

/// A drag over the text it began in ends under the mouse, and over another at the end
/// of the first text that faces it.
pub proof fn a_drag_ends_on_the_side_of_the_mouse(
    part: u16,
    anchor: u16,
    off: usize,
    len: usize,
    r: usize,
)
    requires
        call_ensures(drag_to, (part, anchor, off, len), r),
    ensures
        part == anchor ==> r == off,
        part > anchor ==> r == len,
        part < anchor ==> r == 0,
{
}

/// A drag past an edge scrolls that way by as many rows as it is past, one at the
/// least, and stops at the ends.
pub proof fn a_drag_past_the_edge_scrolls_that_way(
    top: usize,
    over: i64,
    sign: i64,
    len: usize,
    r: Option<usize>,
)
    requires
        -1 <= sign <= 1,
        call_ensures(autoscroll, (top, over, sign, len), r),
    ensures
        r is None <==> len == 0,
        r matches Some(to) ==> {
            &&& to < len
            &&& over != 0 && 0 <= top + over < len ==> to == top + over
            &&& over == 0 && 0 <= top + sign < len ==> to == top + sign
            &&& over < 0 && top + over < 0 ==> to == 0
            &&& over > 0 && top + over >= len ==> to + 1 == len
            &&& over == 0 && top + sign < 0 ==> to == 0
            &&& over == 0 && top + sign >= len ==> to + 1 == len
        },
{
}

// ---------------------------------------------------------------------------
// Frames and the overlay
// ---------------------------------------------------------------------------

/// A frame rebuilds the rows for a new face alone, and breaks them anew for a new
/// face or a new width, once there is a width.
pub proof fn a_frame_does_what_changed(same_font: bool, same_width: bool, positive: bool, r: Reflow)
    requires
        call_ensures(reflow, (same_font, same_width, positive), r),
    ensures
        r.rebuild <==> !same_font,
        !positive ==> !r.rebreak,
        positive ==> (r.rebreak <==> !same_font || !same_width),
{
}

/// The overlay's line on a reflow: the policy, the width, the rows and then the
/// lines, and how far there is to the right where there is anything there.
pub proof fn a_reflow_is_reported(
    wrap: &str,
    width: &str,
    rows: usize,
    lines: usize,
    px: &str,
    r: String,
    s: String,
)
    requires
        call_ensures(reflow_note, (wrap, width, rows, lines, None::<&str>), r),
        call_ensures(reflow_note, (wrap, width, rows, lines, Some(px)), s),
    ensures
        r@ == wrap@ + " · "@ + width@ + " px · "@ + text::decimal(rows as nat) + " rows / "@
            + text::decimal(lines as nat) + " lines"@,
        s@ == r@ + (" · "@ + px@ + " px right"@),
{
    assert(r@ =~= wrap@ + " · "@ + width@ + " px · "@ + text::decimal(rows as nat) + " rows / "@
        + text::decimal(lines as nat) + " lines"@);
}

/// The overlay's line on a load counts rows, then files, and names the presentation
/// and what its parts report, with a dot between each two.
pub proof fn a_load_is_reported(
    rows: usize,
    files: usize,
    name: &str,
    took: &str,
    none: Vec<String>,
    one: Vec<String>,
    two: Vec<String>,
    a: String,
    b: String,
    r: String,
    s: String,
    t: String,
)
    requires
        none@.len() == 0,
        one@ == seq![a],
        two@ == seq![a, b],
        call_ensures(load_line, (rows, files, name, took, &none), r),
        call_ensures(load_line, (rows, files, name, took, &one), s),
        call_ensures(load_line, (rows, files, name, took, &two), t),
    ensures
        ({
            let head = text::decimal(rows as nat) + " rows · "@ + text::decimal(files as nat)
                + " files · "@ + name@ + " · build "@ + took@ + " ("@;
            &&& r@ == head + ")"@
            &&& s@ == head + a@ + ")"@
            &&& t@ == head + (a@ + " · "@ + b@) + ")"@
        }),
{
    let head = text::decimal(rows as nat) + " rows · "@ + text::decimal(files as nat)
        + " files · "@ + name@ + " · build "@ + took@ + " ("@;
    assert(r@ =~= head + ")"@);
    reveal_with_fuel(crate::views::diff::joined, 3);
    assert(two@.drop_last() =~= seq![a]);
}

/// One report more comes last, behind a dot.
pub proof fn a_further_report_comes_last(
    rows: usize,
    files: usize,
    name: &str,
    took: &str,
    some: Vec<String>,
    more: Vec<String>,
    b: String,
    r: String,
    s: String,
)
    requires
        some@.len() > 0,
        more@ == some@.push(b),
        call_ensures(load_line, (rows, files, name, took, &some), r),
        call_ensures(load_line, (rows, files, name, took, &more), s),
    ensures
        r@.last() == ')',
        s@ == r@.drop_last() + " · "@ + b@ + ")"@,
{
    assert(more@.drop_last() =~= some@);
    reveal_strlit(")");
    let head = text::decimal(rows as nat) + " rows · "@ + text::decimal(files as nat)
        + " files · "@ + name@ + " · build "@ + took@ + " ("@;
    let said = crate::views::diff::joined(some@);
    assert(r@ =~= (head + said).push(')'));
    assert(r@.drop_last() =~= head + said);
    assert(s@ =~= head + said + " · "@ + b@ + ")"@);
}

/// A report that says something comes behind those there are, and one that says
/// nothing changes nothing.
pub proof fn a_spoken_report_is_added(
    intraline: &str,
    syntax: &str,
    threads: usize,
    rejected: usize,
    some: Vec<String>,
    more: Vec<String>,
    b: String,
    r: Vec<String>,
    s: Vec<String>,
)
    requires
        more@ == some@.push(b),
        call_ensures(load_reports, (intraline, syntax, threads, rejected, &some), r),
        call_ensures(load_reports, (intraline, syntax, threads, rejected, &more), s),
    ensures
        b@.len() == 0 ==> s@.len() == r@.len(),
        b@.len() > 0 ==> s@.len() == r@.len() + 1 && s@.last()@ == b@,
        forall|i: int| 0 <= i < r@.len() ==> (#[trigger] s@[i])@ == r@[i]@,
{
    assert(more@.drop_last() =~= some@);
    let (x, y) = (r@.map_values(|s: String| s@), s@.map_values(|s: String| s@));
    assert(x.len() == r@.len() && y.len() == s@.len());
    if b@.len() > 0 {
        assert(y =~= x.push(b@));
    } else {
        assert(y =~= x);
    }
    assert forall|i: int| 0 <= i < r@.len() implies (#[trigger] s@[i])@ == r@[i]@ by {
        assert(y[i] == x[i]);
    }
    if b@.len() > 0 {
        assert(y[s@.len() - 1] == s@.last()@);
    }
}

/// The parts of a load come after the passes, which are summed over threads only
/// where there are several, and what was thrown away is said only where something
/// was. A presentation with nothing to say is left out.
pub proof fn the_parts_of_a_load_report(
    intraline: &str,
    syntax: &str,
    threads: usize,
    rejected: usize,
    reports: Vec<String>,
    a: String,
    b: String,
    r: Vec<String>,
)
    requires
        reports@ == seq![a, b],
        call_ensures(load_reports, (intraline, syntax, threads, rejected, &reports), r),
    ensures
        r@.len() == 1 + (if rejected > 0 {
            1int
        } else {
            0
        }) + (if a@.len() > 0 {
            1int
        } else {
            0
        }) + (if b@.len() > 0 {
            1int
        } else {
            0
        }),
        threads <= 1 ==> r@[0]@ == "intraline "@ + intraline@ + " · syntax "@ + syntax@,
        threads > 1 ==> r@[0]@ == "intraline "@ + intraline@ + " · syntax "@ + syntax@ + (
        " cpu across "@ + text::decimal(threads as nat)),
        rejected > 0 ==> r@[1]@ == text::decimal(rejected as nat) + " spans/tokens rejected"@,
        b@.len() > 0 ==> r@.last()@ == b@,
        b@.len() == 0 && a@.len() > 0 ==> r@.last()@ == a@,
        b@.len() > 0 && a@.len() > 0 ==> r@[r@.len() - 2]@ == a@,
{
    reveal_with_fuel(spoken, 3);
    let one = reports@.drop_last();
    assert(one =~= seq![a]);
    assert(one.drop_last() =~= seq![]);
    let said = r@.map_values(|s: String| s@);
    assert(said.len() == r@.len());
    assert(forall|i: int| 0 <= i < r@.len() ==> said[i] == (#[trigger] r@[i])@);
    if threads <= 1 {
        assert(r@[0]@ =~= "intraline "@ + intraline@ + " · syntax "@ + syntax@);
    }
}

// ---------------------------------------------------------------------------
// Presentations
// ---------------------------------------------------------------------------

/// Registering a name makes it the place of that presentation: a name that was there
/// keeps its place, and a new one comes last. The others stay as they are.
pub proof fn a_registered_name_is_found<B>(
    l: Ghost<&mut Layouts<B>>,
    name: &'static str,
    build: B,
    before: Option<usize>,
    after: Option<usize>,
)
    requires
        call_ensures(Layouts::<B>::position, (l@, name), before),
        call_ensures(Layouts::<B>::register, (l@, name, build), ()),
        call_ensures(Layouts::<B>::position, (&*final(l@), name), after),
    ensures
        after is Some,
        final(l@).entries@[after.unwrap() as int].build == build,
        final(l@).entries@[after.unwrap() as int].name@ == name@,
        before is Some ==> after == before && final(l@).entries@.len() == l@.entries@.len(),
        before is None ==> after.unwrap() == l@.entries@.len() && final(l@).entries@.len()
            == l@.entries@.len() + 1,
        forall|i: int|
            0 <= i < l@.entries@.len() && i != after.unwrap() ==> #[trigger] final(l@).entries@[i]
                == l@.entries@[i],
{
    let was = layout_names(l@.entries@);
    let now = layout_names(final(l@).entries@);
    text::place_is_first(was, name@);
    text::place_is_first(now, name@);
    if before is Some {
        assert(now =~= was);
    } else {
        assert(now.drop_last() =~= was);
        assert(now.last() == name@);
    }
}

/// A pane opens on the presentation of the name it is given, or on the first.
pub proof fn a_pane_opens_on_the_name_given<B>(
    l: Layouts<B>,
    name: &str,
    r: usize,
    names: Vec<&'static str>,
)
    requires
        call_ensures(Layouts::<B>::opening, (&l, name), r),
        call_ensures(Layouts::<B>::names, (&l,), names),
    ensures
        names@.len() == l.entries@.len(),
        forall|i: int| 0 <= i < names@.len() ==> (#[trigger] names@[i])@ == l.entries@[i].name@,
        (exists|i: int| 0 <= i < names@.len() && (#[trigger] names@[i])@ == name@) ==> r
            < names@.len() && names@[r as int]@ == name@,
        (forall|i: int| 0 <= i < names@.len() ==> (#[trigger] names@[i])@ != name@) ==> r == 0,
{
    let all = layout_names(l.entries@);
    let texts = names@.map_values(|s: &'static str| s@);
    assert(texts == all);
    assert(texts.len() == names@.len() && all.len() == l.entries@.len());
    assert forall|i: int| 0 <= i < names@.len() implies (#[trigger] names@[i])@
        == l.entries@[i].name@ by {
        assert(texts[i] == all[i]);
    }
    text::place_is_first(all, name@);
    if exists|i: int| 0 <= i < names@.len() && (#[trigger] names@[i])@ == name@ {
        let i = choose|i: int| 0 <= i < names@.len() && (#[trigger] names@[i])@ == name@;
        assert(all[i] == name@);
    }
}

/// The two shipped presentations are called what they are.
pub proof fn the_shipped_presentations<B>(unified: B, split: B, l: Layouts<B>)
    requires
        call_ensures(Layouts::<B>::builtin, (unified, split), l),
    ensures
        l.entries@.len() == 2,
        l.entries@[0].name@ == "unified"@ && l.entries@[0].build == unified,
        l.entries@[1].name@ == "split"@ && l.entries@[1].build == split,
{
}

// ---------------------------------------------------------------------------
// New diffs, presentations and faces
// ---------------------------------------------------------------------------

/// Two diffs are the same where every file, hunk and line of them is: paths, headers,
/// kinds, moves, numbers and texts.
pub proof fn same_diffs_say_the_same(
    a: Vec<Source>,
    b: Vec<Source>,
    r: bool,
    f: int,
    h: int,
    l: int,
)
    requires
        call_ensures(same_diff, (&a, &b), r),
        r,
    ensures
        a@.len() == b@.len(),
        0 <= f < a@.len() ==> a@[f].path@ == b@[f].path@ && a@[f].hunks@.len()
            == b@[f].hunks@.len(),
        0 <= f < a@.len() && 0 <= h < a@[f].hunks@.len() ==> a@[f].hunks@[h].header@
            == b@[f].hunks@[h].header@ && a@[f].hunks@[h].lines@.len()
            == b@[f].hunks@[h].lines@.len(),
        0 <= f < a@.len() && 0 <= h < a@[f].hunks@.len() && 0 <= l
            < a@[f].hunks@[h].lines@.len() ==> ({
            let (x, y) = (a@[f].hunks@[h].lines@[l], b@[f].hunks@[h].lines@[l]);
            &&& x.kind == y.kind
            &&& x.moved == y.moved
            &&& x.old_no == y.old_no
            &&& x.new_no == y.new_no
            &&& x.text@ == y.text@
        }),
{
    assert(source_views(a@).len() == a@.len() && source_views(b@).len() == b@.len());
    if 0 <= f < a@.len() {
        assert(source_views(a@)[f] == a@[f]@ && source_views(b@)[f] == b@[f]@);
        let (x, y) = (a@[f], b@[f]);
        assert(x@.hunks.len() == x.hunks@.len() && y@.hunks.len() == y.hunks@.len());
        if 0 <= h < x.hunks@.len() {
            assert(x@.hunks[h] == x.hunks@[h]@ && y@.hunks[h] == y.hunks@[h]@);
            let (u, v) = (x.hunks@[h], y.hunks@[h]);
            assert(u@.lines.len() == u.lines@.len() && v@.lines.len() == v.lines@.len());
            if 0 <= l < u.lines@.len() {
                assert(u@.lines[l] == u.lines@[l]@ && v@.lines[l] == v.lines@[l]@);
            }
        }
    }
}

/// Diffs that say the same, file by file, are the same, whoever read them.
pub proof fn diffs_that_say_the_same_are_the_same(a: Vec<Source>, b: Vec<Source>, r: bool)
    requires
        call_ensures(same_diff, (&a, &b), r),
        a@.len() == b@.len(),
        forall|f: int| 0 <= f < a@.len() ==> (#[trigger] a@[f])@ == b@[f]@,
    ensures
        r,
{
    assert(source_views(a@) =~= source_views(b@));
}

/// A diff is the same as itself, and one with another line is not the same.
pub proof fn a_diff_differs_by_any_line(
    a: Vec<Source>,
    b: Vec<Source>,
    same: bool,
    r: bool,
    f: int,
    h: int,
    l: int,
)
    requires
        call_ensures(same_diff, (&a, &a), same),
        call_ensures(same_diff, (&a, &b), r),
        0 <= f < a@.len(),
        0 <= h < a@[f].hunks@.len(),
        0 <= l < a@[f].hunks@[h].lines@.len(),
        a@[f].hunks@[h].lines@[l]@ != b@[f].hunks@[h].lines@[l]@,
    ensures
        same,
        !r,
{
    if r {
        same_diffs_say_the_same(a, b, r, f, h, l);
    }
}

/// The file found at a path is the first that has it, and the files are those of a
/// diff where paths and hunk counts agree, one by one.
pub proof fn the_file_at_a_path_is_the_first(
    files: Vec<Source>,
    path: &str,
    r: Option<&Source>,
    prepared: Vec<File>,
    s: bool,
)
    requires
        call_ensures(find_source, (&files, path), r),
        call_ensures(is_prepared, (&prepared, &files), s),
    ensures
        r matches Some(f) ==> f.path@ == path@ && exists|i: int|
            0 <= i < files@.len() && #[trigger] files@[i] == *f && forall|j: int|
                0 <= j < i ==> (#[trigger] files@[j]).path@ != path@,
        r is None ==> forall|i: int| 0 <= i < files@.len() ==> (#[trigger] files@[i]).path@ != path@,
        s <==> prepared@.len() == files@.len() && forall|i: int|
            0 <= i < files@.len() ==> prepared@[i].path@ == (#[trigger] files@[i]).path@
                && prepared@[i].hunks@.len() == files@[i].hunks@.len(),
{
    let i = the_first_source_is_found(files@, path@);
    if prepared@.len() == files@.len() && forall|i: int|
        0 <= i < files@.len() ==> prepared@[i].path@ == (#[trigger] files@[i]).path@
            && prepared@[i].hunks@.len() == files@[i].hunks@.len() {
        assert(prepared_from(prepared@, files@));
    }
}

/// A diff that says the same changes nothing, question and all; another one takes the
/// place of the old, drops the question, and keeps the keyboard on the row of its
/// number, or on the last.
pub proof fn a_new_diff_takes_the_place_of_the_old<R: Rows>(
    c: Ghost<&mut Diff<R>>,
    source: Vec<Source>,
    files: Vec<File>,
    renderers: Vec<R>,
    fallback: R,
    r: Option<Rearranged>,
    same: bool,
)
    requires
        all_ready(chosen(renderers@, fallback)),
        renderers@.len() <= u16::MAX,
        arrangeable(chosen(renderers@, fallback), files@),
        prepared_from(files@, source@),
        call_ensures(Diff::<R>::replace, (c@, source, files, renderers, fallback), r),
        call_ensures(same_diff, (&source, &c@.source), same),
    ensures
        same <==> r is None,
        same ==> *final(c@) == *c@,
        r matches Some(to) ==> {
            let now = *final(c@);
            &&& now.source == source
            &&& now.files == files
            &&& now.armed_hunk is None
            &&& now.current == c@.current
            &&& now.wrap == c@.wrap
            &&& now.focused == c@.focused
            &&& now.names == c@.names
            &&& c@.cursor < now.order@.len() ==> now.cursor == c@.cursor
            &&& c@.top < now.order@.len() ==> now.top == c@.top
            &&& 0 < now.order@.len() <= c@.cursor ==> now.cursor + 1 == now.order@.len()
            &&& to.len == now.order@.len() && to.cursor == now.cursor && to.top == now.top
            &&& to.park <==> now.order@.len() > 0
            &&& now.pending.awaiting <==> now.order@.len() > 0
        },
{
    if r is Some {
        assert(final(c@).order.len() == final(c@).order@.len());
    }
}

/// Another presentation of the same diff keeps the diff and the wrap, drops the
/// question, and keeps the keyboard's row number where there is such a row.
pub proof fn another_presentation_keeps_the_diff<R: Rows>(
    c: Ghost<&mut Diff<R>>,
    index: usize,
    renderers: Vec<R>,
    fallback: R,
)
    requires
        c@.addressed(),
        all_ready(chosen(renderers@, fallback)),
        renderers@.len() <= u16::MAX,
        arrangeable(chosen(renderers@, fallback), c@.files@),
        call_ensures(Diff::<R>::apply_layout, (c@, index, renderers, fallback), ()),
    ensures
        final(c@).current == index,
        final(c@).source == c@.source,
        final(c@).files == c@.files,
        final(c@).wrap == c@.wrap,
        final(c@).names == c@.names,
        final(c@).focused == c@.focused,
        final(c@).armed_hunk is None,
        final(c@).pending.awaiting,
        c@.cursor < final(c@).order@.len() ==> final(c@).cursor == c@.cursor,
        c@.top < final(c@).order@.len() ==> final(c@).top == c@.top,
        0 < final(c@).order@.len() <= c@.cursor ==> final(c@).cursor + 1 == final(c@).order@.len(),
{
}

/// A new face keeps the presentation and the keyboard on its line, on the first of
/// the rows that it now takes, and the same row is what a kept row finds.
pub proof fn another_face_keeps_the_line<R: Rows>(
    c: Ghost<&mut Diff<R>>,
    renderers: Vec<R>,
    fallback: R,
    k: int,
)
    requires
        c@.addressed(),
        c@.cursor < c@.order@.len(),
        all_ready(chosen(renderers@, fallback)),
        renderers@.len() <= u16::MAX,
        arrangeable(chosen(renderers@, fallback), c@.files@),
        call_ensures(Diff::<R>::apply_font, (c@, renderers, fallback), ()),
        0 <= k < final(c@).order@.len(),
        final(c@).order@[k].owner == c@.order@[c@.cursor as int].owner,
        final(c@).order@[k].index == c@.order@[c@.cursor as int].index,
    ensures
        final(c@).current == c@.current,
        final(c@).files == c@.files,
        final(c@).armed_hunk is None,
        final(c@).cursor < final(c@).order@.len(),
        final(c@).order@[final(c@).cursor as int].owner == c@.order@[c@.cursor as int].owner,
        final(c@).order@[final(c@).cursor as int].index == c@.order@[c@.cursor as int].index,
        final(c@).order@[final(c@).cursor as int].seg == 0,
        c@.top < final(c@).order@.len() ==> final(c@).top == c@.top,
{
    let now = *final(c@);
    let ids = collapsed(now.order@);
    crate::views::rows::entries_are_listed(now.m(), now.order@, k);
    assert(c@.row_id() == now.order@[k].id());
    anchor_is_found(now.m(), ids, c@.row_id());
}

/// Breaking the rows anew keeps the keyboard on its line, on the first row of it, and
/// keeps the question, the diff and the presentation.
pub proof fn breaking_anew_keeps_the_line<R: Rows>(c: Ghost<&mut Diff<R>>)
    requires
        c@.addressed(),
        c@.cursor < c@.order@.len(),
        call_ensures(Diff::<R>::reflowed, (c@,), ()),
    ensures
        ({
            let (now, was) = (*final(c@), *c@);
            let (to, from) = (now.order@[now.cursor as int], was.order@[was.cursor as int]);
            &&& now.cursor < now.order@.len()
            &&& to.owner == from.owner
            &&& to.index == from.index
            &&& to.seg == 0
            &&& was.top < now.order@.len() ==> now.top == was.top
            &&& now.armed_hunk == was.armed_hunk
            &&& now.files == was.files
            &&& now.current == was.current
            &&& now.pending.awaiting
        }),
{
    crate::views::diff::a_reflow_keeps_the_reading(*c@, *final(c@));
}

/// A pane starts on its first row with nothing asked, on the diff it is given.
pub proof fn a_pane_starts_on_its_first_row<R: Rows>(
    source: Vec<Source>,
    files: Vec<File>,
    names: Vec<&'static str>,
    current: usize,
    wrap: usize,
    renderers: Vec<R>,
    fallback: R,
    r: Diff<R>,
)
    requires
        all_ready(chosen(renderers@, fallback)),
        renderers@.len() <= u16::MAX,
        arrangeable(chosen(renderers@, fallback), files@),
        prepared_from(files@, source@),
        call_ensures(
            Diff::<R>::with_layouts,
            (source, files, names, current, wrap, renderers, fallback),
            r,
        ),
    ensures
        r.cursor == 0,
        r.top == 0,
        r.armed_hunk is None,
        !r.focused,
        r.source == source,
        r.files == files,
        r.names == names,
        r.current == current,
        r.wrap == wrap,
{
}

// ---------------------------------------------------------------------------
// How rows stand to the keyboard
// ---------------------------------------------------------------------------

/// The keyboard's row alone is the current one. A row is in the keyboard's hunk where
/// its presentation spans it with the row of the keyboard, and under the question
/// where it is spanned with the row that was asked about.
pub proof fn a_row_stands_to_the_keyboard_by_its_hunk<R: Rows>(
    pane: Diff<R>,
    i: usize,
    extents: (Option<HunkExtent>, Option<HunkExtent>),
    r: RowState,
    at: RowRef,
    span: Option<(u32, u32)>,
)
    requires
        pane.wf(),
        i < pane.order@.len(),
        pane.cursor < pane.order@.len(),
        at == pane.order@[pane.cursor as int],
        call_ensures(Diff::<R>::extents, (&pane,), extents),
        call_ensures(Diff::<R>::row_state, (&pane, i, extents.0, extents.1), r),
        call_ensures(R::hunk_span, (&pane.renderers@[at.owner as int], at.index as usize), span),
    ensures
        r.current <==> i == pane.cursor,
        r.focused == pane.focused,
        pane.armed_hunk is None ==> !r.armed,
        span is None ==> !r.in_hunk,
        span matches Some((from, to)) ==> (r.in_hunk <==> pane.order@[i as int].owner == at.owner
            && from <= pane.order@[i as int].index < to),
        pane.armed_hunk == Some((at.owner, at.index)) ==> r.armed == r.in_hunk,
{
    assert(known(pane.m(), at.id()));
    let rows = pane.renderers@[at.owner as int];
    assert(pane.m()[at.owner as int] == rows.model());
}

/// A row is under the question where it is in the hunk of the row that was asked
/// about, wherever the keyboard is.
pub proof fn the_question_stands_over_its_own_hunk<R: Rows>(
    pane: Diff<R>,
    i: usize,
    extents: (Option<HunkExtent>, Option<HunkExtent>),
    r: RowState,
    owner: u16,
    index: u32,
    span: Option<(u32, u32)>,
)
    requires
        pane.wf(),
        i < pane.order@.len(),
        call_ensures(Diff::<R>::extents, (&pane,), extents),
        call_ensures(Diff::<R>::row_state, (&pane, i, extents.0, extents.1), r),
        pane.armed_hunk == Some((owner, index)),
        owner < pane.renderers@.len(),
        call_ensures(R::hunk_span, (&pane.renderers@[owner as int], index as usize), span),
    ensures
        span is None ==> !r.armed,
        span matches Some((from, to)) ==> (r.armed <==> pane.order@[i as int].owner == owner && from
            <= pane.order@[i as int].index < to),
{
    assert(pane.m()[owner as int] == pane.renderers@[owner as int].model());
}

// ---------------------------------------------------------------------------
// Arranging
// ---------------------------------------------------------------------------

/// However a pane comes to its rows, they are those that its files are arranged to.
pub proof fn a_pane_lists_what_is_arranged<R: Rows>(
    source: Vec<Source>,
    files: Vec<File>,
    names: Vec<&'static str>,
    current: usize,
    wrap: usize,
    renderers: Vec<R>,
    fallback: R,
    built: Built<R>,
    opened: Diff<R>,
    swapped: Ghost<&mut Diff<R>>,
    r: Rearranged,
    laid: Ghost<&mut Diff<R>>,
    faced: Ghost<&mut Diff<R>>,
)
    requires
        all_ready(chosen(renderers@, fallback)),
        renderers@.len() <= u16::MAX,
        arrangeable(chosen(renderers@, fallback), files@),
        prepared_from(files@, source@),
        call_ensures(arrange::<R>, (&files, renderers, fallback), built),
        call_ensures(
            Diff::<R>::with_layouts,
            (source, files, names, current, wrap, renderers, fallback),
            opened,
        ),
        call_ensures(Diff::<R>::swap_prepared, (swapped@, source, files, renderers, fallback), r),
        laid@.addressed(),
        laid@.files@ == files@,
        call_ensures(Diff::<R>::apply_layout, (laid@, current, renderers, fallback), ()),
        faced@.addressed(),
        faced@.files@ == files@,
        call_ensures(Diff::<R>::apply_font, (faced@, renderers, fallback), ()),
    ensures
        opened.order@ == built.order@,
        final(swapped@).order@ == built.order@,
        final(laid@).order@ == built.order@,
        final(faced@).order@ == built.order@,
        positions(opened.headers@) == positions(built.headers@),
        positions(opened.marks@) == positions(built.marks@),
        positions(final(swapped@).headers@) == positions(built.headers@),
        positions(final(swapped@).marks@) == positions(built.marks@),
        positions(final(laid@).headers@) == positions(built.headers@),
        positions(final(laid@).marks@) == positions(built.marks@),
        positions(final(faced@).headers@) == positions(built.headers@),
        positions(final(faced@).marks@) == positions(built.marks@),
{
}

} // verus!
