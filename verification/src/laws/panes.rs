//! What the panes have in common: the keyboard, the wheel and the selection.
use crate::settings::{section_views, Section as Group};
use crate::settings_window::{filtered, SettingsWindow};
use crate::text;
use crate::theme_picker::{card_views, cards, Card, Theme, ThemePicker};
use crate::views::branches::{Branches, HeadInfo, Target};
use crate::views::commits::{Commits, Data};
use crate::views::diff::{run_command, Diff, DiffCommand, Layouts, Rearranged};
use crate::views::files::{Files, Section};
use crate::views::list::{reconcile, run_view, Drift, Motion, PendingScroll, Wheel};
use crate::views::markdown::{MarkdownRows, PageRow};
use crate::views::rows::{
    all_ready, anchor_is_found, anchor_is_the_last_start, arrangeable, chosen, collapsed, File,
    Rows,
};
use crate::views::source::{prepared_from, Source};
use crate::views::text_rows::{HunkMap, Row, TextRows, Wrapped};
use vstd::prelude::*;

verus! {

// ---------------------------------------------------------------------------
// Lists
// ---------------------------------------------------------------------------

/// A command is the same move in every list.
pub proof fn a_command_is_the_same_move_everywhere(
    command: &str,
    b: Branches,
    c: Commits,
    f: Files,
    r: Motion,
    x: Motion,
    y: Motion,
    z: Motion,
)
    requires
        call_ensures(run_view, (command,), r),
        call_ensures(Branches::run_view, (&b, command), x),
        call_ensures(Commits::run_view, (&c, command), y),
        call_ensures(Files::run_view, (&f, command), z),
    ensures
        x == r && y == r && z == r,
{
}

/// A list that moved under its viewport is treated alike in every pane.
pub proof fn a_moved_list_is_followed_everywhere<R: Rows>(
    parked: bool,
    moved: bool,
    shown: usize,
    top: usize,
    b: Branches,
    c: Commits,
    f: Files,
    d: Diff<R>,
    r: Drift,
    w: Drift,
    x: Drift,
    y: Drift,
    z: Drift,
)
    requires
        call_ensures(reconcile, (parked, moved, shown, top), r),
        call_ensures(Branches::reconcile, (&b, parked, moved, shown, top), w),
        call_ensures(Commits::reconcile, (&c, parked, moved, shown, top), x),
        call_ensures(Files::reconcile, (&f, parked, moved, shown, top), y),
        call_ensures(Diff::<R>::reconcile, (&d, parked, moved, shown, top), z),
    ensures
        w == r && x == r && y == r && z == r,
{
}

/// A turn of the wheel waits with the pane's own request, in every pane.
pub proof fn a_wheel_waits_with_its_panes_request<R: Rows>(
    p: PendingScroll,
    parked: bool,
    b: Branches,
    c: Commits,
    f: Files,
    d: Diff<R>,
    r: Wheel,
    w: Wheel,
    x: Wheel,
    y: Wheel,
    z: Wheel,
    waits: bool,
)
    requires
        b.pending == p && c.pending == p && f.pending == p && d.pending == p,
        call_ensures(PendingScroll::wheel, (&p, parked), r),
        call_ensures(PendingScroll::is_awaiting, (&p,), waits),
        call_ensures(Branches::scroll_pixels, (&b, parked), w),
        call_ensures(Commits::scroll_pixels, (&c, parked), x),
        call_ensures(Files::scroll_pixels, (&f, parked), y),
        call_ensures(Diff::<R>::scroll_pixels, (&d, parked), z),
    ensures
        w == r && x == r && y == r && z == r,
        waits == p.awaiting,
{
}

/// A list has nothing to either side and nothing to select.
pub proof fn a_list_has_nothing_to_select(
    b: Ghost<&mut Branches>,
    c: Ghost<&mut Commits>,
    f: Ghost<&mut Files>,
    b2: Ghost<&mut Branches>,
    c2: Ghost<&mut Commits>,
    f2: Ghost<&mut Files>,
    x: bool,
    y: bool,
    z: bool,
    x2: bool,
    y2: bool,
    z2: bool,
    pb: bool,
    pc: bool,
    pf: bool,
)
    requires
        call_ensures(Branches::select_all, (b@,), x),
        call_ensures(Commits::select_all, (c@,), y),
        call_ensures(Files::select_all, (f@,), z),
        call_ensures(Branches::select_none, (b2@,), x2),
        call_ensures(Commits::select_none, (c2@,), y2),
        call_ensures(Files::select_none, (f2@,), z2),
        call_ensures(Branches::pan_pixels, (b@,), pb),
        call_ensures(Commits::pan_pixels, (c@,), pc),
        call_ensures(Files::pan_pixels, (f@,), pf),
    ensures
        !x && !y && !z && !x2 && !y2 && !z2 && !pb && !pc && !pf,
        *final(b@) == *b@ && *final(c@) == *c@ && *final(f@) == *f@,
        *final(b2@) == *b2@ && *final(c2@) == *c2@ && *final(f2@) == *f2@,
{
}

/// A pane remembers whether it was told that it holds the keyboard, and nothing else
/// of it changes.
pub proof fn a_pane_remembers_the_keyboard<R: Rows>(
    focused: bool,
    b: Ghost<&mut Branches>,
    c: Ghost<&mut Commits>,
    d: Ghost<&mut Diff<R>>,
    x: bool,
    y: bool,
    z: bool,
)
    requires
        call_ensures(Branches::set_focused, (b@, focused), ()),
        call_ensures(Commits::set_focused, (c@, focused), ()),
        call_ensures(Diff::<R>::set_focused, (d@, focused), ()),
        call_ensures(Branches::focused, (&*final(b@),), x),
        call_ensures(Commits::focused, (&*final(c@),), y),
        call_ensures(Diff::<R>::focused, (&*final(d@),), z),
    ensures
        x == focused && y == focused && z == focused,
        final(b@).rows == b@.rows && final(b@).cursor == b@.cursor && final(b@).armed == b@.armed
            && final(b@).head == b@.head,
        final(c@).data == c@.data && final(c@).cursor == c@.cursor && final(c@).armed == c@.armed
            && final(c@).visible == c@.visible && final(c@).query == c@.query,
        final(d@).order == d@.order && final(d@).cursor == d@.cursor && final(d@).armed_hunk
            == d@.armed_hunk && final(d@).source == d@.source,
{
}

/// A pane says what it holds: its rows, its keyboard's row, its query, its question
/// and who HEAD is.
pub proof fn a_pane_says_what_it_holds<R: Rows>(
    b: Branches,
    c: Commits,
    f: Files,
    d: Diff<R>,
    rows: usize,
    empty: bool,
    head: &Option<HeadInfo>,
    target: &Option<Target>,
    cursor: usize,
    query: Option<&str>,
    sha: &Option<String>,
    file: &Option<(Section, Vec<u8>)>,
    total: usize,
    at: usize,
    id: (u16, u32),
    names: &Vec<&'static str>,
    layout: usize,
    wrap: usize,
)
    requires
        call_ensures(Branches::rows, (&b,), rows),
        call_ensures(Branches::is_empty, (&b,), empty),
        call_ensures(Branches::head_info, (&b,), head),
        call_ensures(Branches::armed_row, (&b,), target),
        call_ensures(Commits::cursor, (&c,), cursor),
        call_ensures(Commits::query, (&c,), query),
        call_ensures(Commits::armed_sha, (&c,), sha),
        call_ensures(Files::armed_row, (&f,), file),
        call_ensures(Diff::<R>::total, (&d,), total),
        call_ensures(Diff::<R>::cursor, (&d,), at),
        call_ensures(Diff::<R>::cursor_row_id, (&d,), id),
        call_ensures(Diff::<R>::layout_names, (&d,), names),
        call_ensures(Diff::<R>::layout_index, (&d,), layout),
        call_ensures(Diff::<R>::wrap_index, (&d,), wrap),
    ensures
        rows == b.rows@.len(),
        empty <==> b.rows@.len() == 0,
        *head == b.head,
        *target == b.armed,
        cursor == c.cursor,
        query is Some <==> c.query is Some,
        query is Some ==> query.unwrap()@ == c.query.unwrap()@,
        *sha == c.armed,
        *file == f.armed,
        total == d.order@.len(),
        at == d.cursor,
        d.cursor < d.order@.len() ==> id.0 == d.order@[d.cursor as int].owner && id.1
            == d.order@[d.cursor as int].index,
        *names == d.names,
        layout == d.current,
        wrap == d.wrap,
{
}

/// A list of commits opens on its first row with all of them shown, asks nothing, and
/// goes where a scrollbar or a saved position takes it, with the question kept.
pub proof fn a_list_of_commits_opens_on_all(
    data: Data,
    r: Commits,
    p: Ghost<&mut Commits>,
    q: Ghost<&mut Commits>,
    cursor: usize,
    top: usize,
    i: int,
)
    requires
        data.wf(),
        call_ensures(Commits::new, (data,), r),
        call_ensures(Commits::parked, (p@, cursor, top), ()),
        call_ensures(Commits::followed, (q@, cursor, top), ()),
        0 <= i < data.commits@.len(),
    ensures
        r.visible@.len() == data.commits@.len(),
        r.visible@[i] == i,
        r.cursor == 0 && r.top == 0,
        r.query is None && r.armed is None,
        r.data == data,
        cursor < p@.visible@.len() ==> final(p@).cursor == cursor,
        top < p@.visible@.len() ==> final(p@).top == top,
        final(p@).pending.awaiting,
        final(p@).armed == p@.armed && final(p@).visible == p@.visible && final(p@).query
            == p@.query,
        cursor < q@.visible@.len() ==> final(q@).cursor == cursor,
        top < q@.visible@.len() ==> final(q@).top == top,
        final(q@).pending == q@.pending,
        final(q@).armed == q@.armed && final(q@).visible == q@.visible && final(q@).query
            == q@.query,
{
    assert(data.commits.len() == data.commits@.len());
}

// ---------------------------------------------------------------------------
// The diff
// ---------------------------------------------------------------------------

/// A pane pinned to one presentation has nothing to cycle to, and starts like any
/// other. A command is what its name is.
pub proof fn a_pinned_pane_has_one_presentation<R: Rows>(
    source: Vec<Source>,
    files: Vec<File>,
    wrap: usize,
    renderers: Vec<R>,
    fallback: R,
    r: Diff<R>,
    command: &str,
    x: DiffCommand,
    y: DiffCommand,
)
    requires
        all_ready(chosen(renderers@, fallback)),
        renderers@.len() <= u16::MAX,
        arrangeable(chosen(renderers@, fallback), files@),
        prepared_from(files@, source@),
        call_ensures(Diff::<R>::with_renderers, (source, files, wrap, renderers, fallback), r),
        call_ensures(Diff::<R>::run_view, (&r, command), x),
        call_ensures(run_command, (command,), y),
    ensures
        r.names@.len() == 1,
        r.names@[0]@ == "custom"@,
        r.current == 0 && r.cursor == 0 && r.top == 0,
        r.armed_hunk is None,
        r.source == source && r.files == files && r.wrap == wrap,
        x == y,
{
}

/// A new diff is taken whole: the rows are its own, the question goes, and the
/// keyboard keeps its row number where there is such a row.
pub proof fn a_swapped_diff_is_taken_whole<R: Rows>(
    c: Ghost<&mut Diff<R>>,
    source: Vec<Source>,
    files: Vec<File>,
    renderers: Vec<R>,
    fallback: R,
    r: Rearranged,
)
    requires
        all_ready(chosen(renderers@, fallback)),
        renderers@.len() <= u16::MAX,
        arrangeable(chosen(renderers@, fallback), files@),
        prepared_from(files@, source@),
        call_ensures(Diff::<R>::swap_prepared, (c@, source, files, renderers, fallback), r),
    ensures
        ({
            let now = *final(c@);
            &&& now.source == source && now.files == files
            &&& now.armed_hunk is None
            &&& now.current == c@.current && now.wrap == c@.wrap && now.focused == c@.focused
            &&& c@.cursor < now.order@.len() ==> now.cursor == c@.cursor
            &&& c@.top < now.order@.len() ==> now.top == c@.top
            &&& 0 < now.order@.len() <= c@.cursor ==> now.cursor + 1 == now.order@.len()
            &&& r.len == now.order@.len() && r.cursor == now.cursor && r.top == now.top
            &&& r.park <==> now.order@.len() > 0
        }),
{
    assert(final(c@).order.len() == final(c@).order@.len());
}

/// A row that is kept is found where it starts, and one that is gone at the top.
pub proof fn a_kept_row_is_found_where_it_starts<R: Rows>(
    pane: Diff<R>,
    id: (u16, u32),
    r: usize,
    k: int,
)
    requires
        pane.wf(),
        call_ensures(Diff::<R>::kept_row, (&pane, id), r),
    ensures
        0 <= k < pane.order@.len() && pane.order@[k].owner == id.0 && pane.order@[k].index == id.1
            ==> r < pane.order@.len() && pane.order@[r as int].owner == id.0
            && pane.order@[r as int].index == id.1 && pane.order@[r as int].seg == 0,
        (forall|k: int|
            0 <= k < pane.order@.len() ==> (#[trigger] pane.order@[k]).owner != id.0
                || pane.order@[k].index != id.1) ==> r == 0,
{
    let ids = collapsed(pane.order@);
    anchor_is_the_last_start(pane.m(), ids, id);
    if 0 <= k < pane.order@.len() && pane.order@[k].owner == id.0 && pane.order@[k].index == id.1 {
        crate::views::rows::entries_are_listed(pane.m(), pane.order@, k);
        assert(pane.order@[k].id() == id);
        anchor_is_found(pane.m(), ids, id);
    }
    if ids.contains(id) {
        anchor_is_found(pane.m(), ids, id);
        let at = crate::views::rows::anchor_row(pane.m(), ids, Some(id));
        assert(pane.order@[at].owner == id.0 && pane.order@[at].index == id.1);
    }
}

/// Presentations start empty, and the default one wants every file.
pub proof fn presentations_start_empty<B>(
    l: Layouts<B>,
    n: usize,
    t: TextRows,
    rows: usize,
    map: HunkMap,
    w: Wrapped,
    m: MarkdownRows,
    extensions: Vec<String>,
    pages: usize,
    path: &str,
    wants: bool,
)
    requires
        call_ensures(Layouts::<B>::new, (), l),
        call_ensures(Layouts::<B>::len, (&l,), n),
        call_ensures(TextRows::new, (), t),
        call_ensures(<TextRows as Rows>::len, (&t,), rows),
        call_ensures(HunkMap::new, (), map),
        call_ensures(Wrapped::unbroken, (), w),
        call_ensures(MarkdownRows::new, (extensions,), m),
        call_ensures(MarkdownRows::len, (&m,), pages),
        call_ensures(<TextRows as Rows>::claims, (&t, path), wants),
    ensures
        n == 0 && l.entries@.len() == 0,
        t.rows@.len() == 0 && rows == 0 && t.moved == 0 && t.cols == 0,
        t.hunks.spans@.len() == 0,
        t.wrapped.pieces@.len() == 0 && t.wrapped.rejected == 0,
        map.spans@.len() == 0,
        w.pieces@.len() == 0 && w.rejected == 0,
        m.rows@.len() == 0 && pages == 0,
        m.extensions == extensions,
        wants,
{
}

/// What is laid out of a file comes behind the rows there are, and a row draws its own
/// text.
pub proof fn a_page_comes_behind_the_rows(
    m: Ghost<&mut MarkdownRows>,
    laid_out: Vec<PageRow>,
    row: Row,
    words: &str,
)
    requires
        m@.wf(),
        forall|i: int| 0 <= i < laid_out@.len() ==> (#[trigger] laid_out@[i]).fits(),
        call_ensures(MarkdownRows::build, (m@, laid_out), ()),
        call_ensures(Row::drawn, (&row,), words),
    ensures
        final(m@).rows@ == m@.rows@ + laid_out@,
        final(m@).extensions == m@.extensions,
        words@ == match row {
            Row::File { path, .. } => path@,
            Row::Hunk(header) => header@,
            Row::Line(line) => line.text@,
        },
{
}

// ---------------------------------------------------------------------------
// Fields
// ---------------------------------------------------------------------------

/// A window filters by what its own field holds.
pub proof fn a_window_filters_by_its_field<K>(
    w: SettingsWindow<K>,
    sections: Vec<Group>,
    typed: &str,
    a: Vec<Group>,
    b: Vec<Group>,
    p: ThemePicker,
    themes: Vec<Theme>,
    current: &str,
    asked: &str,
    x: Vec<Card>,
    y: Vec<Card>,
)
    requires
        typed@ == w.query@,
        call_ensures(SettingsWindow::<K>::filtered, (&w, &sections), a),
        call_ensures(filtered, (typed, &sections), b),
        asked@ == p.query@,
        call_ensures(ThemePicker::cards, (&p, &themes, current), x),
        call_ensures(cards, (asked, &themes, current), y),
    ensures
        a@.len() == b@.len(),
        forall|i: int| 0 <= i < a@.len() ==> (#[trigger] a@[i])@ == b@[i]@,
        x@.len() == y@.len(),
        forall|i: int| 0 <= i < x@.len() ==> (#[trigger] x@[i])@ == y@[i]@,
{
    assert(section_views(a@).len() == a@.len() && section_views(b@).len() == b@.len());
    assert(card_views(x@).len() == x@.len() && card_views(y@).len() == y@.len());
    assert forall|i: int| 0 <= i < a@.len() implies (#[trigger] a@[i])@ == b@[i]@ by {
        assert(section_views(a@)[i] == section_views(b@)[i]);
    }
    assert forall|i: int| 0 <= i < x@.len() implies (#[trigger] x@[i])@ == y@[i]@ by {
        assert(card_views(x@)[i] == card_views(y@)[i]);
    }
}

} // verus!
