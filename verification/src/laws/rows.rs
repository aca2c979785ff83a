//! The order table: every row of every file is listed once, in order, on as many rows
//! of the screen as it takes.
use super::text_rows::rows_above;
use crate::views::rows::{
    addresses, all_known, all_ready, anchor_is_found, anchor_is_the_last_start, anchor_row, arrange,
    arrangeable, arranged, chosen, claimant, claimant_among, coherent, collapsed, drawable, entries,
    entries_are_listed, expand, extent_of, grown, grown_len, header_rows, headers_are_listed, hunk_marks,
    hunk_starts, ids_of, jump_target, known, laid_out, laying_out_makes_a_table,
    marks_are_hunk_starts, models, positions, rising, row_of, same_id, segments_stand_together,
    shown_rows, span_at, the_last_claimant_wins, width_at, Built, File, Hunk, HunkExtent, Ordered, RowModel, RowRef, Rows,
};
use crate::views::text_rows::{
    file_rows, hunk_rows, hunks_rows, text_rows_are_coherent, Row, TextRows,
};
use std::sync::Arc;
use vstd::prelude::*;

verus! {

// ---------------------------------------------------------------------------
// Tables
// ---------------------------------------------------------------------------

/// A reference is told by its presentation and its row, whatever its segment.
pub proof fn a_row_is_told_by_owner_and_index(
    a: RowRef,
    b: RowRef,
    x: (u16, u32),
    y: (u16, u32),
    r: bool,
)
    requires
        call_ensures(RowRef::logical, (&a,), x),
        call_ensures(RowRef::logical, (&b,), y),
        call_ensures(same_id, (x, y), r),
    ensures
        r <==> a.owner == b.owner && a.index == b.index,
{
}

/// In a table a row's segments stand one after the other from its first, as many as
/// its presentation says it takes.
pub proof fn a_rows_segments_stand_together<R: Rows>(
    logical: &[RowRef],
    renderers: &[R],
    anchor: Option<RowRef>,
    r: (Ordered, Vec<usize>),
    k: int,
    n: usize,
)
    requires
        all_ready(renderers@),
        addresses(models(renderers@), logical@),
        call_ensures(expand::<R>, (logical, renderers, anchor), r),
        0 <= k < r.0.order@.len(),
        r.0.order@[k].owner < renderers@.len(),
        r.0.order@[k].index < renderers@[r.0.order@[k].owner as int].model().len(),
        call_ensures(
            R::rows,
            (&renderers@[r.0.order@[k].owner as int], r.0.order@[k].index as usize),
            n,
        ),
    ensures
        ({
            let order = r.0.order@;
            let at = order[k];
            &&& at.seg > 0 ==> k > 0 && order[k - 1].owner == at.owner && order[k - 1].index
                == at.index && order[k - 1].seg + 1 == at.seg
            &&& at.seg + 1 < n && at.seg + 1 < 0xffff ==> k + 1 < order.len() && order[k + 1].owner
                == at.owner && order[k + 1].index == at.index && order[k + 1].seg == at.seg + 1
            &&& n >= 1 ==> at.seg < n
        }),
{
    let m = models(renderers@);
    let ids = drawable(m.len(), collapsed(logical@));
    let order = r.0.order@;
    let at = order[k];
    segments_stand_together(m, ids, k);
    let first = k - at.seg;
    assert(m[at.owner as int] == renderers@[at.owner as int].model());
    if at.seg > 0 {
        assert(order[first + (at.seg - 1)] == order[k - 1]);
    }
    if at.seg + 1 < shown_rows(row_of(m, at.id())) {
        assert(order[first + (at.seg + 1)] == order[k + 1]);
    }
}

/// The anchor lands on the first segment of its row where that is in the table.
pub proof fn an_anchor_lands_on_its_row<R: Rows>(
    logical: &[RowRef],
    renderers: &[R],
    anchor: RowRef,
    r: (Ordered, Vec<usize>),
    k: int,
)
    requires
        all_ready(renderers@),
        addresses(models(renderers@), logical@),
        call_ensures(expand::<R>, (logical, renderers, Some(anchor)), r),
        0 <= k < r.0.order@.len(),
        r.0.order@[k].owner == anchor.owner,
        r.0.order@[k].index == anchor.index,
    ensures
        r.0.anchor < r.0.order@.len(),
        r.0.order@[r.0.anchor as int].owner == anchor.owner,
        r.0.order@[r.0.anchor as int].index == anchor.index,
        r.0.order@[r.0.anchor as int].seg == 0,
{
    let m = models(renderers@);
    let ids = drawable(m.len(), collapsed(logical@));
    let i = named(m, ids, k);
    assert(ids[i] == anchor.id());
    anchor_is_found(m, ids, anchor.id());
}

/// Without an anchor, or with one that is not in the table, the top is what is left.
pub proof fn a_lost_anchor_lands_on_top<R: Rows>(
    logical: &[RowRef],
    renderers: &[R],
    anchor: Option<RowRef>,
    r: (Ordered, Vec<usize>),
)
    requires
        all_ready(renderers@),
        addresses(models(renderers@), logical@),
        call_ensures(expand::<R>, (logical, renderers, anchor), r),
        anchor matches Some(a) ==> forall|k: int|
            0 <= k < r.0.order@.len() ==> (#[trigger] r.0.order@[k]).owner != a.owner
                || r.0.order@[k].index != a.index,
    ensures
        r.0.anchor == 0,
{
    let m = models(renderers@);
    let ids = drawable(m.len(), collapsed(logical@));
    match anchor {
        Some(a) => {
            anchor_is_the_last_start(m, ids, a.id());
            if ids.contains(a.id()) {
                anchor_is_found(m, ids, a.id());
                let at = anchor_row(m, ids, Some(a.id()));
                assert(r.0.order@[at].owner == a.owner);
            }
        },
        None => {
            no_anchor(m, ids);
        },
    }
}

proof fn no_anchor(m: Seq<Seq<RowModel>>, ids: Seq<(u16, u32)>)
    ensures
        anchor_row(m, ids, None) == 0,
    decreases ids.len(),
{
    if ids.len() > 0 {
        no_anchor(m, ids.drop_last());
    }
}

/// No row is lost: what was listed is listed, on its first row at least.
pub proof fn no_row_is_lost<R: Rows>(
    logical: &[RowRef],
    renderers: &[R],
    anchor: Option<RowRef>,
    r: (Ordered, Vec<usize>),
    i: int,
) -> (k: int)
    requires
        all_ready(renderers@),
        all_known(models(renderers@), logical@),
        call_ensures(expand::<R>, (logical, renderers, anchor), r),
        0 <= i < logical@.len(),
    ensures
        0 <= k < r.0.order@.len(),
        r.0.order@[k].owner == logical@[i].owner,
        r.0.order@[k].index == logical@[i].index,
        r.0.order@[k].seg == 0,
{
    let m = models(renderers@);
    laying_out_makes_a_table(m, logical@);
    entries_are_listed(m, logical@, i);
    anchor_is_found(m, collapsed(logical@), logical@[i].id());
    anchor_row(m, collapsed(logical@), Some(logical@[i].id()))
}

proof fn named(m: Seq<Seq<RowModel>>, ids: Seq<(u16, u32)>, k: int) -> (i: int)
    requires
        0 <= k < laid_out(m, ids).len(),
    ensures
        0 <= i < ids.len(),
        ids[i] == laid_out(m, ids)[k].id(),
    decreases ids.len(),
{
    let earlier = laid_out(m, ids.drop_last());
    if k < earlier.len() {
        named(m, ids.drop_last(), k)
    } else {
        ids.len() - 1
    }
}

/// The jump list has exactly the first rows of headers, rising.
pub proof fn the_jump_list_has_every_header<R: Rows>(
    logical: &[RowRef],
    renderers: &[R],
    anchor: Option<RowRef>,
    r: (Ordered, Vec<usize>),
    k: usize,
    header: bool,
)
    requires
        all_ready(renderers@),
        addresses(models(renderers@), logical@),
        call_ensures(expand::<R>, (logical, renderers, anchor), r),
        k < r.0.order@.len(),
        r.0.order@[k as int].owner < renderers@.len(),
        r.0.order@[k as int].index < renderers@[r.0.order@[k as int].owner as int].model().len(),
        call_ensures(
            R::is_header,
            (&renderers@[r.0.order@[k as int].owner as int], r.0.order@[k as int].index as usize),
            header,
        ),
    ensures
        r.1@.contains(k) <==> header && r.0.order@[k as int].seg == 0,
        forall|i: int, j: int| 0 <= i < j < r.1@.len() ==> r.1@[i] < r.1@[j],
{
    let m = models(renderers@);
    let ids = drawable(m.len(), collapsed(logical@));
    let rows = header_rows(m, ids);
    headers_are_listed(m, ids);
    let at = r.0.order@[k as int];
    assert(m[at.owner as int] == renderers@[at.owner as int].model());
    let h = r.1@;
    assert(positions(h) == rows);
    assert(positions(h).len() == h.len());
    assert forall|i: int| 0 <= i < h.len() implies rows[i] == #[trigger] h[i] by {
        assert(positions(h)[i] == h[i] as int);
    }
    if h.contains(k) {
        let i = choose|i: int| 0 <= i < h.len() && h[i] == k;
        assert(rows[i] == k);
        assert(rows.contains(k as int));
    }
    if rows.contains(k as int) {
        let i = choose|i: int| 0 <= i < rows.len() && rows[i] == k;
        assert(h[i] == k);
    }
    assert forall|i: int, j: int| 0 <= i < j < h.len() implies h[i] < h[j] by {
        assert(rows[i] == h[i] && rows[j] == h[j]);
    }
}

/// The widest row is wider than every row above it, and no row is wider.
pub proof fn the_widest_row_is_the_widest<R: Rows>(
    logical: &[RowRef],
    renderers: &[R],
    anchor: Option<RowRef>,
    r: (Ordered, Vec<usize>),
    k: int,
    at: RowRef,
    widest: RowRef,
    a: usize,
    b: usize,
)
    requires
        all_ready(renderers@),
        addresses(models(renderers@), logical@),
        call_ensures(expand::<R>, (logical, renderers, anchor), r),
        0 <= k < r.0.order@.len(),
        at == r.0.order@[k],
        widest == r.0.order@[r.0.widest as int],
        known(models(renderers@), at.id()),
        known(models(renderers@), widest.id()),
        call_ensures(
            R::width,
            (&renderers@[at.owner as int], at.index as usize, at.seg as usize),
            a,
        ),
        call_ensures(
            R::width,
            (&renderers@[widest.owner as int], widest.index as usize, widest.seg as usize),
            b,
        ),
    ensures
        r.0.widest < r.0.order@.len(),
        a <= b,
        k < r.0.widest ==> a < b,
{
    let m = models(renderers@);
    assert(m[at.owner as int] == renderers@[at.owner as int].model());
    assert(m[widest.owner as int] == renderers@[widest.owner as int].model());
}

/// The hunk over a row is the one that its presentation spans it with, and a row that
/// no presentation has is in none.
pub proof fn a_rows_extent_is_its_hunks_span<R: Rows>(
    renderers: &[R],
    owner: u16,
    index: u32,
    r: Option<HunkExtent>,
    span: Option<(u32, u32)>,
    i: u32,
    o: u16,
    inside: bool,
)
    requires
        all_ready(renderers@),
        call_ensures(extent_of::<R>, (renderers, owner, index), r),
        owner < renderers@.len(),
        call_ensures(R::hunk_span, (&renderers@[owner as int], index as usize), span),
        r is Some,
        call_ensures(HunkExtent::contains, (&r.unwrap(), o, i), inside),
    ensures
        span is Some,
        inside <==> o == owner && span.unwrap().0 <= i < span.unwrap().1,
{
    assert(models(renderers@)[owner as int] == renderers@[owner as int].model());
}

/// A row outside of every presentation has no extent, and neither has one that its
/// presentation spans with nothing.
pub proof fn no_span_no_extent<R: Rows>(
    renderers: &[R],
    owner: u16,
    index: u32,
    r: Option<HunkExtent>,
    span: Option<(u32, u32)>,
)
    requires
        all_ready(renderers@),
        call_ensures(extent_of::<R>, (renderers, owner, index), r),
        owner < renderers@.len() ==> call_ensures(
            R::hunk_span,
            (&renderers@[owner as int], index as usize),
            span,
        ),
        owner >= renderers@.len() ==> span is None,
    ensures
        r is Some <==> span is Some,
        span matches Some((from, to)) ==> r.unwrap().owner == owner && r.unwrap().span.0 == from
            && r.unwrap().span.1 == to,
{
    if owner < renderers@.len() {
        let m = models(renderers@);
        assert(m[owner as int] == renderers@[owner as int].model());
    }
}

/// A jump that goes somewhere goes to the nearest header in its direction.
pub proof fn a_jump_goes_to_the_nearest_header(
    headers: Vec<usize>,
    cursor: usize,
    by: isize,
    r: Option<usize>,
    i: int,
)
    requires
        crate::views::rows::ascending(headers@),
        call_ensures(jump_target, (&headers, cursor, by), r),
        0 <= i < headers@.len(),
    ensures
        r matches Some(to) ==> {
            &&& headers@.contains(to)
            &&& by >= 0 ==> to > cursor && (headers@[i] > cursor ==> to <= headers@[i])
            &&& by < 0 ==> to < cursor && (headers@[i] < cursor ==> to >= headers@[i])
        },
{
}

/// In the default presentation a hunk leaves a mark exactly where its first row is
/// drawn first.
pub proof fn a_hunk_is_marked_where_it_starts(
    order: &[RowRef],
    renderers: &[TextRows],
    marks: Vec<usize>,
    k: usize,
    span: Option<(u32, u32)>,
)
    requires
        all_ready(renderers@),
        addresses(models(renderers@), order@),
        rising(order@),
        call_ensures(hunk_marks::<TextRows>, (order, renderers), marks),
        k < order@.len(),
        order@[k as int].owner < renderers@.len(),
        call_ensures(
            <TextRows as Rows>::hunk_span,
            (&renderers@[order@[k as int].owner as int], order@[k as int].index as usize),
            span,
        ),
    ensures
        marks@.contains(k) <==> order@[k as int].seg == 0 && span is Some && span.unwrap().0
            == order@[k as int].index,
{
    let m = models(renderers@);
    assert forall|o: int| 0 <= o < m.len() implies coherent(#[trigger] m[o]) by {
        assert(renderers@[o].ready());
        text_rows_are_coherent(renderers@[o]);
    }
    marks_are_hunk_starts(m, order@);
    starts_are_listed(m, order@, k as int);
    let at = order@[k as int];
    assert(m[at.owner as int] == renderers@[at.owner as int].model());
    let starts = hunk_starts(m, order@);
    assert(positions(marks@) == starts);
    assert(positions(marks@).len() == marks@.len());
    if marks@.contains(k) {
        let i = choose|i: int| 0 <= i < marks@.len() && marks@[i] == k;
        assert(positions(marks@)[i] == k as int);
        assert(starts.contains(k as int));
    }
    if starts.contains(k as int) {
        let i = choose|i: int| 0 <= i < starts.len() && starts[i] == k;
        assert(positions(marks@)[i] == marks@[i] as int);
    }
}

proof fn starts_are_listed(m: Seq<Seq<RowModel>>, order: Seq<RowRef>, k: int)
    requires
        0 <= k,
    ensures
        hunk_starts(m, order).contains(k) <==> k < order.len() && order[k].seg == 0 && span_at(
            m,
            order[k],
        ) is Some && span_at(m, order[k]).unwrap().0 == order[k].index,
    decreases order.len(),
{
    if order.len() > 0 {
        let rest = order.drop_last();
        starts_are_listed(m, rest, k);
        let (all, earlier) = (hunk_starts(m, order), hunk_starts(m, rest));
        if earlier.contains(k) {
            let i = choose|i: int| 0 <= i < earlier.len() && earlier[i] == k;
            assert(all[i] == k);
        }
        if all.contains(k) {
            let i = choose|i: int| 0 <= i < all.len() && all[i] == k;
            if i < earlier.len() {
                assert(earlier[i] == k);
            }
        }
        if k == order.len() - 1 && all.len() > earlier.len() {
            assert(all[all.len() - 1] == k);
        }
    }
}

// ---------------------------------------------------------------------------
// Arranging
// ---------------------------------------------------------------------------

/// How many rows the first `n` files take: a band each, and their hunks.
pub open spec fn rows_before(files: Seq<File>, n: int) -> int
    decreases n,
{
    if n <= 0 {
        0
    } else {
        rows_before(files, n - 1) + 1 + rows_above(
            files[n - 1].hunks@,
            files[n - 1].hunks@.len() as int,
        )
    }
}

/// A presentation that holds nothing yet.
pub open spec fn fresh(t: TextRows) -> bool {
    t.wf() && t.rows@.len() == 0
}

proof fn hunk_models(at: int, path: Arc<str>, hunks: Seq<Hunk>, n: int, i: int)
    requires
        0 <= n < hunks.len(),
        0 <= i <= hunks[n].lines@.len(),
    ensures
        0 <= rows_above(hunks, n),
        rows_above(hunks, n) + i < hunks_rows(at, path, hunks).len(),
        hunks_rows(at, path, hunks)[rows_above(hunks, n) + i] == hunk_rows(
            at + rows_above(hunks, n),
            path,
            n,
            hunks[n],
        )[i],
    decreases hunks.len(),
{
    let rest = hunks.drop_last();
    hunk_count(at, path, rest);
    above_front(hunks, hunks.len() - 1);
    above_front(hunks, n);
    above_is_natural(hunks, n);
    if n < hunks.len() - 1 {
        hunk_models(at, path, rest, n, i);
    }
}

proof fn above_is_natural(hunks: Seq<Hunk>, n: int)
    ensures
        0 <= rows_above(hunks, n),
    decreases n,
{
    if n > 0 {
        above_is_natural(hunks, n - 1);
    }
}

proof fn above_front(hunks: Seq<Hunk>, n: int)
    requires
        n < hunks.len(),
    ensures
        rows_above(hunks.drop_last(), n) == rows_above(hunks, n),
    decreases n,
{
    if n > 0 {
        above_front(hunks, n - 1);
    }
}

proof fn hunk_count(at: int, path: Arc<str>, hunks: Seq<Hunk>)
    ensures
        hunks_rows(at, path, hunks).len() == rows_above(hunks, hunks.len() as int),
        forall|k: int|
            0 <= k < hunks_rows(at, path, hunks).len() ==> (#[trigger] hunks_rows(
                at,
                path,
                hunks,
            )[k]).rows == 1 && !hunks_rows(at, path, hunks)[k].file_header,
    decreases hunks.len(),
{
    if hunks.len() > 0 {
        let rest = hunks.drop_last();
        hunk_count(at, path, rest);
        above_front(hunks, hunks.len() - 1);
        let earlier = hunks_rows(at, path, rest);
        let all = hunks_rows(at, path, hunks);
        assert forall|k: int| 0 <= k < all.len() implies (#[trigger] all[k]).rows == 1
            && !all[k].file_header by {
            if k < earlier.len() {
                assert(all[k] == earlier[k]);
            }
        }
    }
}

proof fn one_claims(rs: Seq<TextRows>, path: Seq<char>)
    requires
        rs.len() == 1,
    ensures
        claimant(rs, path) == 0,
{
    assert(rs[0].wants(path));
    reveal_with_fuel(crate::views::rows::claimant_among, 2);
}

proof fn before_is_natural(files: Seq<File>, n: int)
    ensures
        0 <= rows_before(files, n),
    decreases n,
{
    if n > 0 {
        before_is_natural(files, n - 1);
        above_is_natural(files[n - 1].hunks@, files[n - 1].hunks@.len() as int);
    }
}

proof fn before_front(files: Seq<File>, n: int)
    requires
        n < files.len(),
    ensures
        rows_before(files.drop_last(), n) == rows_before(files, n),
    decreases n,
{
    if n > 0 {
        before_front(files, n - 1);
    }
}

proof fn rows_of_files(rs: Seq<TextRows>, files: Seq<File>)
    requires
        rs.len() == 1,
        fresh(rs[0]),
        arrangeable(rs, files),
    ensures
        grown(rs, files).len() == 1,
        grown(rs, files)[0].len() == rows_before(files, files.len() as int) <= u32::MAX,
        forall|k: int| 0 <= k < grown(rs, files)[0].len() ==> (#[trigger] grown(rs, files)[0][k]).rows == 1,
    decreases files.len(),
{
    if files.len() == 0 {
        assert(models(rs)[0] == rs[0].model());
    } else {
        let rest = files.drop_last();
        let f = files.last();
        rows_of_files(rs, rest);
        one_claims(rs, f.path@);
        let before = grown(rs, rest)[0];
        let at = before.len() as int;
        hunk_count(at + 1, f.path, f.hunks@);
        before_front(files, files.len() - 1);
        let all = grown(rs, files)[0];
        assert(all == before + file_rows(at, f));
        assert forall|k: int| 0 <= k < all.len() implies (#[trigger] all[k]).rows == 1 by {
            if k < at {
                assert(all[k] == before[k]);
            } else if k > at {
                assert(all[k] == hunks_rows(at + 1, f.path, f.hunks@)[k - at - 1]);
            }
        }
    }
}

proof fn file_stays(rs: Seq<TextRows>, files: Seq<File>, n: int, k: int)
    requires
        rs.len() == 1,
        fresh(rs[0]),
        arrangeable(rs, files),
        0 <= n < files.len(),
        0 <= k < file_rows(rows_before(files, n), files[n]).len(),
    ensures
        0 <= rows_before(files, n),
        rows_before(files, n) + k < grown(rs, files)[0].len(),
        grown(rs, files)[0][rows_before(files, n) + k] == file_rows(
            rows_before(files, n),
            files[n],
        )[k],
    decreases files.len(),
{
    let rest = files.drop_last();
    let f = files.last();
    before_is_natural(files, n);
    rows_of_files(rs, rest);
    one_claims(rs, f.path@);
    before_front(files, files.len() - 1);
    before_front(files, n);
    if n < files.len() - 1 {
        file_stays(rs, rest, n, k);
    }
}

/// Every file of a diff is in the rows, in order: its band with its own path and
/// totals, and behind it each of its hunks as its band and its lines.
pub proof fn every_file_is_in_the_rows(
    files: Vec<File>,
    none: Vec<TextRows>,
    fallback: TextRows,
    built: Built<TextRows>,
    f: int,
    n: int,
    i: int,
)
    requires
        none@.len() == 0,
        fresh(fallback),
        arrangeable(seq![fallback], files@),
        call_ensures(arrange::<TextRows>, (&files, none, fallback), built),
        0 <= f < files@.len(),
    ensures
        ({
            let rows = built.renderers@[0].rows@;
            let band = rows_before(files@, f);
            let hunk = band + 1 + rows_above(files@[f].hunks@, n);
            &&& built.renderers@.len() == 1
            &&& rows.len() == rows_before(files@, files@.len() as int)
            &&& rows[band] matches Row::File { path, adds, dels } && path@ == files@[f].path@
                && adds == files@[f].adds && dels == files@[f].dels
            &&& 0 <= n < files@[f].hunks@.len() ==> (rows[hunk] matches Row::Hunk(header)
                && header@ == files@[f].hunks@[n].header@)
            &&& 0 <= n < files@[f].hunks@.len() && 0 <= i < files@[f].hunks@[n].lines@.len()
                ==> rows[hunk + 1 + i] == Row::Line(files@[f].hunks@[n].lines@[i])
        }),
{
    let rs = seq![fallback];
    assert(chosen(none@, fallback) =~= rs);
    rows_of_files(rs, files@);
    let t = built.renderers@[0];
    let m = models(built.renderers@);
    assert(m.len() == built.renderers@.len());
    assert(m[0] == t.model());
    let file = files@[f];
    let band = rows_before(files@, f);
    hunk_count(band + 1, file.path, file.hunks@);
    file_stays(rs, files@, f, 0);
    let all = file_rows(band, file);
    let b = t.model()[band];
    assert(b.texts[0] == t.rows@[band].text());
    assert(b.totals == Some((file.adds, file.dels)));
    assert(b.texts[0] == file.path@);
    if 0 <= n < file.hunks@.len() {
        hunk_models(band + 1, file.path, file.hunks@, n, 0);
        let above = rows_above(file.hunks@, n);
        file_stays(rs, files@, f, 1 + above);
        assert(all[1 + above] == hunks_rows(band + 1, file.path, file.hunks@)[above]);
        let h = t.model()[band + 1 + above];
        assert(h.texts[0] == t.rows@[band + 1 + above].text());
        assert(h.texts[0] == file.hunks@[n].header@);
        assert(h.line is None && h.totals is None);
        if 0 <= i < file.hunks@[n].lines@.len() {
            hunk_models(band + 1, file.path, file.hunks@, n, i + 1);
            file_stays(rs, files@, f, 1 + above + 1 + i);
            assert(all[1 + above + 1 + i] == hunks_rows(band + 1, file.path, file.hunks@)[above + 1
                + i]);
            let l = t.model()[band + 1 + above + 1 + i];
            assert(l.line == Some(file.hunks@[n].lines@[i]));
        }
    }
}

proof fn unwrapped(m: Seq<Seq<RowModel>>, ids: Seq<(u16, u32)>)
    requires
        forall|i: int| 0 <= i < ids.len() ==> known(m, #[trigger] ids[i]) && row_of(m, ids[i]).rows == 1,
    ensures
        laid_out(m, ids).len() == ids.len(),
        forall|i: int|
            0 <= i < ids.len() ==> #[trigger] laid_out(m, ids)[i] == (RowRef {
                owner: ids[i].0,
                seg: 0,
                index: ids[i].1,
            }),
    decreases ids.len(),
{
    if ids.len() > 0 {
        let rest = ids.drop_last();
        assert forall|i: int| 0 <= i < rest.len() implies known(m, #[trigger] rest[i]) && row_of(
            m,
            rest[i],
        ).rows == 1 by {
            assert(rest[i] == ids[i]);
        }
        unwrapped(m, rest);
        let all = laid_out(m, ids);
        assert(known(m, ids[ids.len() - 1]));
        assert forall|i: int| 0 <= i < ids.len() implies #[trigger] all[i] == (RowRef {
            owner: ids[i].0,
            seg: 0,
            index: ids[i].1,
        }) by {
            if i < rest.len() {
                assert(all[i] == laid_out(m, rest)[i]);
            }
        }
    }
}

proof fn all_entries(rows: Seq<RowModel>, first: int)
    requires
        0 <= first <= rows.len() <= u32::MAX,
    ensures
        entries(rows, 0, first, false).len() == rows.len() - first,
        forall|k: int|
            0 <= k < rows.len() - first ==> #[trigger] entries(rows, 0, first, false)[k] == (RowRef {
                owner: 0,
                seg: 0,
                index: (first + k) as u32,
            }),
    decreases rows.len(),
{
    if rows.len() > first {
        all_entries(rows.drop_last(), first);
        let earlier = entries(rows.drop_last(), 0, first, false);
        let all = entries(rows, 0, first, false);
        assert forall|k: int| 0 <= k < rows.len() - first implies #[trigger] all[k] == (RowRef {
            owner: 0,
            seg: 0,
            index: (first + k) as u32,
        }) by {
            if k < earlier.len() {
                assert(all[k] == earlier[k]);
            }
        }
    }
}

proof fn entries_below(rows: Seq<RowModel>)
    requires
        0 < rows.len() <= u32::MAX,
        rows[0].file_header,
        forall|k: int| 0 < k < rows.len() ==> !(#[trigger] rows[k]).file_header,
    ensures
        entries(rows, 0, 0, true).len() == rows.len() - 1,
        forall|k: int|
            0 <= k < rows.len() - 1 ==> #[trigger] entries(rows, 0, 0, true)[k] == (RowRef {
                owner: 0,
                seg: 0,
                index: (k + 1) as u32,
            }),
    decreases rows.len(),
{
    let rest = rows.drop_last();
    if rows.len() > 1 {
        assert forall|k: int| 0 < k < rest.len() implies !(#[trigger] rest[k]).file_header by {
            assert(rest[k] == rows[k]);
        }
        entries_below(rest);
        assert(!rows[rows.len() - 1].file_header);
        let earlier = entries(rest, 0, 0, true);
        let all = entries(rows, 0, 0, true);
        assert forall|k: int| 0 <= k < rows.len() - 1 implies #[trigger] all[k] == (RowRef {
            owner: 0,
            seg: 0,
            index: (k + 1) as u32,
        }) by {
            if k < earlier.len() {
                assert(all[k] == earlier[k]);
            }
        }
    } else {
        assert(rest =~= seq![]);
        assert(entries(rest, 0, 0, true) =~= seq![]);
    }
}

proof fn all_arranged(rs: Seq<TextRows>, files: Seq<File>)
    requires
        rs.len() == 1,
        fresh(rs[0]),
        arrangeable(rs, files),
    ensures
        arranged(rs, files, false).len() == grown(rs, files)[0].len(),
        forall|k: int|
            0 <= k < grown(rs, files)[0].len() ==> #[trigger] arranged(rs, files, false)[k] == (RowRef {
                owner: 0,
                seg: 0,
                index: k as u32,
            }),
    decreases files.len(),
{
    rows_of_files(rs, files);
    if files.len() > 0 {
        let rest = files.drop_last();
        let f = files.last();
        all_arranged(rs, rest);
        rows_of_files(rs, rest);
        one_claims(rs, f.path@);
        let (rows, first) = (grown(rs, files)[0], grown(rs, rest)[0].len() as int);
        all_entries(rows, first);
        let earlier = arranged(rs, rest, false);
        let all = arranged(rs, files, false);
        assert(all == earlier + entries(rows, 0, first, false));
        assert forall|k: int| 0 <= k < rows.len() implies #[trigger] all[k] == (RowRef {
            owner: 0,
            seg: 0,
            index: k as u32,
        }) by {
            if k < first {
                assert(all[k] == earlier[k]);
            } else {
                assert(all[k] == entries(rows, 0, first, false)[k - first]);
            }
        }
    } else {
        assert(models(rs)[0] == rs[0].model());
    }
}

/// With several files, or none, every row of every file is listed once, in order.
pub proof fn several_files_are_listed_whole(
    files: Vec<File>,
    none: Vec<TextRows>,
    fallback: TextRows,
    built: Built<TextRows>,
    k: int,
)
    requires
        none@.len() == 0,
        fresh(fallback),
        files@.len() != 1,
        arrangeable(seq![fallback], files@),
        call_ensures(arrange::<TextRows>, (&files, none, fallback), built),
    ensures
        built.renderers@.len() == 1,
        built.order@.len() == built.renderers@[0].rows@.len(),
        0 <= k < built.order@.len() ==> built.order@[k] == (RowRef {
            owner: 0,
            seg: 0,
            index: k as u32,
        }) && k <= u32::MAX,
{
    let rs = seq![fallback];
    assert(chosen(none@, fallback) =~= rs);
    let m = grown(rs, files@);
    rows_of_files(rs, files@);
    all_arranged(rs, files@);
    let t = built.renderers@[0];
    assert(models(built.renderers@).len() == built.renderers@.len());
    assert(models(built.renderers@)[0] == t.model());
    let refs = arranged(rs, files@, false);
    let ids = ids_of(refs);
    assert forall|i: int| 0 <= i < ids.len() implies known(m, #[trigger] ids[i]) && row_of(
        m,
        ids[i],
    ).rows == 1 by {
        assert(refs[i] == (RowRef { owner: 0, seg: 0, index: i as u32 }));
        assert(ids[i] == refs[i].id());
        assert(m[0][i].rows == 1);
    }
    unwrapped(m, ids);
    if 0 <= k < built.order@.len() {
        assert(refs[k] == (RowRef { owner: 0, seg: 0, index: k as u32 }));
        assert(laid_out(m, ids)[k] == built.order@[k]);
    }
}

/// The only file of a diff is listed without the band that names it: every row below
/// it, once, in order. A file with nothing else to show keeps its band.
pub proof fn a_single_file_is_listed_below_its_band(
    file: File,
    files: Vec<File>,
    none: Vec<TextRows>,
    fallback: TextRows,
    built: Built<TextRows>,
    k: int,
)
    requires
        none@.len() == 0,
        fresh(fallback),
        files@ == seq![file],
        arrangeable(seq![fallback], files@),
        call_ensures(arrange::<TextRows>, (&files, none, fallback), built),
    ensures
        built.renderers@.len() == 1,
        built.renderers@[0].rows@[0] is File,
        file.hunks@.len() > 0 ==> built.order@.len() + 1 == built.renderers@[0].rows@.len(),
        file.hunks@.len() > 0 && 0 <= k < built.order@.len() ==> built.order@[k].owner == 0
            && built.order@[k].seg == 0 && built.order@[k].index == k + 1,
        file.hunks@.len() == 0 ==> built.order@ == seq![RowRef { owner: 0, seg: 0, index: 0 }],
{
    let rs = seq![fallback];
    assert(chosen(none@, fallback) =~= rs);
    let m = grown(rs, files@);
    rows_of_files(rs, files@);
    let t = built.renderers@[0];
    assert(models(built.renderers@).len() == built.renderers@.len());
    assert(models(built.renderers@)[0] == t.model());
    let rest = files@.drop_last();
    assert(rest =~= seq![]);
    one_claims(rs, file.path@);
    assert(models(rs)[0] == rs[0].model());
    let rows = m[0];
    assert(rows =~= file_rows(0, file));
    hunk_count(1, file.path, file.hunks@);
    assert(rows[0].file_header);
    assert(t.model()[0].file_header == (t.rows@[0] is File));
    assert forall|k: int| 0 < k < rows.len() implies !(#[trigger] rows[k]).file_header by {
        assert(rows[k] == hunks_rows(1, file.path, file.hunks@)[k - 1]);
    }
    let refs = arranged(rs, files@, true);
    let bare = file.hunks@.len() > 0;
    reveal_with_fuel(arranged, 2);
    assert(arranged(rs, rest, true) =~= seq![]);
    assert(refs =~= entries(rows, 0, 0, bare));
    if bare {
        entries_below(rows);
    } else {
        all_entries(rows, 0);
        assert(rows.len() == 1);
    }
    let ids = ids_of(refs);
    let from = if bare {
        1int
    } else {
        0
    };
    assert forall|i: int| 0 <= i < ids.len() implies known(m, #[trigger] ids[i]) && row_of(
        m,
        ids[i],
    ).rows == 1 by {
        assert(refs[i] == (RowRef { owner: 0, seg: 0, index: (i + from) as u32 }));
        assert(ids[i] == refs[i].id());
        assert(m[0][i + from].rows == 1);
    }
    unwrapped(m, ids);
    assert(built.order@ == laid_out(m, ids));
    if 0 <= k < built.order@.len() {
        assert(refs[k] == (RowRef { owner: 0, seg: 0, index: (k + from) as u32 }));
        assert(laid_out(m, ids)[k] == built.order@[k]);
    }
    if !bare {
        assert(refs[0] == (RowRef { owner: 0, seg: 0, index: 0 }));
        assert(laid_out(m, ids)[0] == built.order@[0]);
        assert(built.order@ =~= seq![RowRef { owner: 0, seg: 0, index: 0 }]);
    }
}

/// With no files there is nothing to list, and the presentations stay as they were.
pub proof fn no_files_no_rows<R: Rows>(
    files: Vec<File>,
    given: Vec<R>,
    fallback: R,
    built: Built<R>,
    i: int,
)
    requires
        files@.len() == 0,
        given@.len() > 0,
        call_ensures(arrange::<R>, (&files, given, fallback), built),
        0 <= i < given@.len(),
    ensures
        built.order@.len() == 0,
        built.headers@.len() == 0,
        built.marks@.len() == 0,
        built.renderers@.len() == given@.len(),
        built.renderers@[i].model() == given@[i].model(),
{
    let rs = given@;
    let m = grown(rs, files@);
    assert(models(built.renderers@)[i] == built.renderers@[i].model());
    assert(models(rs)[i] == rs[i].model());
    let ids = ids_of(arranged(rs, files@, false));
    assert(ids.len() == 0);
    assert(positions(built.headers@).len() == built.headers@.len());
    assert(positions(built.marks@).len() == built.marks@.len());
}

/// A further file goes to the last presentation that wants it, or to the first where
/// none does. That one adds its rows behind those it has, and no other changes.
pub proof fn a_further_file_goes_to_its_last_claimant<R: Rows>(
    files: Vec<File>,
    more: Vec<File>,
    file: File,
    given: Vec<R>,
    fallback: R,
    was: Built<R>,
    now: Built<R>,
    o: int,
    i: int,
)
    requires
        more@ == files@.push(file),
        call_ensures(arrange::<R>, (&files, given, fallback), was),
        call_ensures(arrange::<R>, (&more, given, fallback), now),
        0 <= o < given@.len(),
        given@[o].wants(file.path@) || o == 0,
        forall|j: int| o < j < given@.len() ==> !(#[trigger] given@[j]).wants(file.path@),
        0 <= i < given@.len(),
    ensures
        was.renderers@.len() == given@.len(),
        now.renderers@.len() == given@.len(),
        now.renderers@[o].model() == was.renderers@[o].model() + given@[o].rows_for(
            was.renderers@[o].model(),
            file,
        ),
        i != o ==> now.renderers@[i].model() == was.renderers@[i].model(),
{
    let rs = given@;
    assert(more@.drop_last() =~= files@);
    the_last_claimant_wins(rs, file.path@, o);
    grown_len(rs, files@);
    assert(models(was.renderers@)[i] == was.renderers@[i].model());
    assert(models(now.renderers@)[i] == now.renderers@[i].model());
    assert(models(was.renderers@)[o] == was.renderers@[o].model());
    assert(models(now.renderers@)[o] == now.renderers@[o].model());
}

proof fn entries_in_order(rows: Seq<RowModel>, owner: int, first: int)
    requires
        0 <= first <= rows.len() <= u32::MAX,
    ensures
        entries(rows, owner, first, false).len() == rows.len() - first,
        forall|k: int|
            0 <= k < rows.len() - first ==> #[trigger] entries(rows, owner, first, false)[k] == (
            RowRef { owner: owner as u16, seg: 0, index: (first + k) as u32 }),
    decreases rows.len(),
{
    if rows.len() > first {
        entries_in_order(rows.drop_last(), owner, first);
        let earlier = entries(rows.drop_last(), owner, first, false);
        let all = entries(rows, owner, first, false);
        assert forall|k: int| 0 <= k < rows.len() - first implies #[trigger] all[k] == (RowRef {
            owner: owner as u16,
            seg: 0,
            index: (first + k) as u32,
        }) by {
            if k < earlier.len() {
                assert(all[k] == earlier[k]);
            }
        }
    }
}

proof fn arranged_is_known<R: Rows>(rs: Seq<R>, files: Seq<File>)
    requires
        0 < rs.len() <= u16::MAX,
        arrangeable(rs, files),
    ensures
        forall|k: int|
            0 <= k < arranged(rs, files, false).len() ==> known(
                grown(rs, files),
                (#[trigger] arranged(rs, files, false)[k]).id(),
            ),
    decreases files.len(),
{
    if files.len() > 0 {
        let rest = files.drop_last();
        arranged_is_known(rs, rest);
        grown_len(rs, files);
        grown_len(rs, rest);
        let o = claimed(rs, files.last().path@);
        let (before, m) = (grown(rs, rest), grown(rs, files));
        let first = before[o].len() as int;
        entries_in_order(m[o], o, first);
        let earlier = arranged(rs, rest, false);
        let all = arranged(rs, files, false);
        assert forall|k: int| 0 <= k < all.len() implies known(m, (#[trigger] all[k]).id()) by {
            if k < earlier.len() {
                assert(all[k] == earlier[k]);
                assert(known(before, earlier[k].id()));
            } else {
                assert(all[k] == entries(m[o], o, first, false)[k - earlier.len()]);
            }
        }
    }
}

proof fn claimed<R: Rows>(rs: Seq<R>, path: Seq<char>) -> (o: int)
    requires
        rs.len() > 0,
    ensures
        o == claimant(rs, path),
        0 <= o < rs.len(),
{
    claimed_among(rs, path, rs.len());
    claimant(rs, path)
}

proof fn claimed_among<R: Rows>(rs: Seq<R>, path: Seq<char>, n: nat)
    requires
        0 < n <= rs.len(),
    ensures
        claimant_among(rs, path, n) < n,
    decreases n,
{
    if n > 1 {
        claimed_among(rs, path, (n - 1) as nat);
    } else {
        reveal_with_fuel(claimant_among, 2);
    }
}

proof fn laid_out_by_rows(a: Seq<Seq<RowModel>>, b: Seq<Seq<RowModel>>, ids: Seq<(u16, u32)>)
    requires
        forall|i: int| 0 <= i < ids.len() ==> row_of(a, #[trigger] ids[i]) == row_of(b, ids[i]),
    ensures
        laid_out(a, ids) == laid_out(b, ids),
    decreases ids.len(),
{
    if ids.len() > 0 {
        let rest = ids.drop_last();
        assert forall|i: int| 0 <= i < rest.len() implies row_of(a, #[trigger] rest[i]) == row_of(
            b,
            rest[i],
        ) by {
            assert(rest[i] == ids[i]);
        }
        laid_out_by_rows(a, b, rest);
        assert(row_of(a, ids[ids.len() - 1]) == row_of(b, ids[ids.len() - 1]));
    }
}

proof fn laid_out_parts(m: Seq<Seq<RowModel>>, a: Seq<(u16, u32)>, b: Seq<(u16, u32)>)
    ensures
        laid_out(m, a + b) == laid_out(m, a) + laid_out(m, b),
    decreases b.len(),
{
    if b.len() == 0 {
        assert(a + b =~= a);
    } else {
        assert((a + b).drop_last() =~= a + b.drop_last());
        laid_out_parts(m, a, b.drop_last());
        assert(laid_out(m, a + b) =~= laid_out(m, a) + laid_out(m, b));
    }
}

/// With several files a further one is listed behind them: the table keeps what it
/// had, and all that comes behind it are the rows the file added, each of them.
pub proof fn a_further_file_is_listed_behind<R: Rows>(
    files: Vec<File>,
    more: Vec<File>,
    file: File,
    given: Vec<R>,
    fallback: R,
    was: Built<R>,
    now: Built<R>,
    o: int,
    k: int,
    row: u32,
) -> (at: int)
    requires
        files@.len() > 1,
        more@ == files@.push(file),
        given@.len() <= u16::MAX,
        arrangeable(given@, more@),
        call_ensures(arrange::<R>, (&files, given, fallback), was),
        call_ensures(arrange::<R>, (&more, given, fallback), now),
        0 <= o < given@.len(),
        given@[o].wants(file.path@) || o == 0,
        forall|j: int| o < j < given@.len() ==> !(#[trigger] given@[j]).wants(file.path@),
        was.renderers@[o].model().len() <= row < now.renderers@[o].model().len(),
    ensures
        was.order@.len() <= now.order@.len(),
        0 <= k < was.order@.len() ==> now.order@[k] == was.order@[k],
        was.order@.len() <= k < now.order@.len() ==> now.order@[k].owner == o
            && was.renderers@[o].model().len() <= now.order@[k].index,
        was.order@.len() <= at < now.order@.len(),
        now.order@[at] == (RowRef { owner: o as u16, seg: 0, index: row }),
{
    let rs = given@;
    assert(more@.drop_last() =~= files@);
    the_last_claimant_wins(rs, file.path@, o);
    grown_len(rs, files@);
    grown_len(rs, more@);
    let (before, m) = (grown(rs, files@), grown(rs, more@));
    assert(models(was.renderers@)[o] == was.renderers@[o].model());
    assert(models(now.renderers@)[o] == now.renderers@[o].model());
    arranged_is_known(rs, files@);
    let first = before[o].len() as int;
    entries_in_order(m[o], o, first);
    let earlier = arranged(rs, files@, false);
    let added = entries(m[o], o, first, false);
    let (a, b) = (ids_of(earlier), ids_of(added));
    assert(ids_of(arranged(rs, more@, false)) =~= a + b);
    laid_out_parts(m, a, b);
    assert forall|i: int| 0 <= i < a.len() implies row_of(before, #[trigger] a[i]) == row_of(
        m,
        a[i],
    ) by {
        assert(known(before, earlier[i].id()));
    }
    laid_out_by_rows(before, m, a);
    assert(was.order@ == laid_out(m, a));
    assert(now.order@ == was.order@ + laid_out(m, b));
    let behind = laid_out(m, b);
    let cut = was.order@.len() as int;
    if cut <= k < now.order@.len() {
        let i = named(m, b, k - cut);
        assert(added[i] == (RowRef { owner: o as u16, seg: 0, index: (first + i) as u32 }));
        assert(behind[k - cut] == now.order@[k]);
    }
    assert(added[row - first] == (RowRef { owner: o as u16, seg: 0, index: row }));
    assert(b[row - first] == (o as u16, row));
    anchor_is_found(m, b, (o as u16, row));
    let at = anchor_row(m, b, Some((o as u16, row)));
    assert(behind[at] == now.order@[cut + at]);
    cut + at
}

proof fn positions_tell(a: Seq<usize>, b: Seq<usize>)
    requires
        positions(a) == positions(b),
    ensures
        a == b,
{
    assert(positions(a).len() == a.len());
    assert(positions(b).len() == b.len());
    assert forall|i: int| 0 <= i < a.len() implies a[i] == b[i] by {
        assert(positions(a)[i] == a[i] as int);
        assert(positions(b)[i] == b[i] as int);
    }
    assert(a =~= b);
}

/// An arranged diff is broken already: breaking its table again changes neither the
/// table nor its widest row, and the jumps and the marks are those of that table.
pub proof fn an_arranged_diff_is_broken_already<R: Rows>(
    files: Vec<File>,
    given: Vec<R>,
    fallback: R,
    built: Built<R>,
    order: &[RowRef],
    renderers: &[R],
    r: (Ordered, Vec<usize>),
    marks: Vec<usize>,
)
    requires
        call_ensures(arrange::<R>, (&files, given, fallback), built),
        order@ == built.order@,
        renderers@ == built.renderers@,
        call_ensures(expand::<R>, (order, renderers, None), r),
        call_ensures(hunk_marks::<R>, (order, renderers), marks),
    ensures
        r.0.order@ == built.order@,
        r.0.widest == built.widest,
        r.1@ == built.headers@,
        marks@ == built.marks@,
{
    let m = models(renderers@);
    assert(all_known(m, order@));
    laying_out_makes_a_table(m, order@);
    positions_tell(r.1@, built.headers@);
    positions_tell(marks@, built.marks@);
    let (a, b) = (r.0.widest as int, built.widest as int);
    let table = built.order@;
    if table.len() > 0 {
        assert(width_at(m, table[a]) <= width_at(m, table[b]));
        assert(width_at(m, table[b]) <= width_at(m, table[a]));
        if a < b {
            assert(width_at(m, table[a]) < width_at(m, table[b]));
        }
        if b < a {
            assert(width_at(m, table[b]) < width_at(m, table[a]));
        }
    }
}

} // verus!
