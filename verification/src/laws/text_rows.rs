//! The default presentation: every line is drawn with the numbers it has on either
//! side, and every row names the hunk it is in.
use super::drawing::{runs_say, under_a_run};
use super::texts::{blanks_are_cut_off_the_end, numbers_are_told_apart};
use crate::text;
use crate::views::draw::{
    extent_ink, file_header, gutter_ink, hunk_header, line_colors, row_background, row_bar,
    selected, FileBand, HunkBand, Inks, Rgb, RowState, Selected,
};
use crate::views::rows::{File, Hunk, Line, Rows, Span};
use crate::views::text_rows::{
    hunk_over, hunk_rows, hunks_lines, hunks_rows, moved_rows, wrappable, Drawn, Hit, HunkMap, Row,
    TextRows, TextStart, Wrapped,
};
use std::sync::Arc;
use vstd::prelude::*;
use vstd::utf8::encode_utf8;

verus! {

// ---------------------------------------------------------------------------
// Lines
// ---------------------------------------------------------------------------

/// On its first row a line of any kind shows its old number in the old column and
/// its new number in the new one, and nothing where that side does not have it. On
/// the rows below it shows neither.
pub proof fn a_line_shows_its_number_on_either_side(
    t: TextRows,
    index: usize,
    seg: usize,
    inks: Inks,
    sel: Option<Selected>,
    state: RowState,
    marker: usize,
    r: Drawn,
    line: Line,
)
    requires
        t.wf(),
        index < t.rows@.len(),
        t.rows@[index as int] == Row::Line(line),
        call_ensures(TextRows::render, (&t, index, seg, &inks, sel, state, marker), r),
    ensures
        r matches Drawn::Line(row) && {
            &&& seg == 0 && line.old_no is Some ==> row.old@ == text::decimal(
                line.old_no.unwrap() as nat,
            )
            &&& seg == 0 && line.new_no is Some ==> row.new@ == text::decimal(
                line.new_no.unwrap() as nat,
            )
            &&& line.old_no is None ==> row.old@.len() == 0
            &&& line.new_no is None ==> row.new@.len() == 0
            &&& seg > 0 ==> row.old@.len() == 0 && row.new@.len() == 0
        },
{
}

/// A line that stands at different places on the two sides shows different numbers.
pub proof fn different_numbers_are_shown_differently(
    t: TextRows,
    index: usize,
    inks: Inks,
    sel: Option<Selected>,
    state: RowState,
    marker: usize,
    r: Drawn,
    line: Line,
    a: u32,
    b: u32,
)
    requires
        t.wf(),
        index < t.rows@.len(),
        t.rows@[index as int] == Row::Line(line),
        line.old_no == Some(a),
        line.new_no == Some(b),
        call_ensures(TextRows::render, (&t, index, 0usize, &inks, sel, state, marker), r),
    ensures
        r matches Drawn::Line(row) && row.old@ == text::decimal(a as nat) && row.new@
            == text::decimal(b as nat) && (row.old@ == row.new@ <==> a == b),
{
    numbers_are_told_apart(a as nat, b as nat);
}

/// What a line looks like follows from its kind, whether it moved, and where the
/// keyboard is: the sign on its first row alone, in the line's own ink unless a
/// question stands over it, on the line's own ground unless the keyboard does.
pub proof fn a_line_looks_like_its_kind(
    t: TextRows,
    index: usize,
    seg: usize,
    inks: Inks,
    sel: Option<Selected>,
    state: RowState,
    marker: usize,
    r: Drawn,
    line: Line,
    look: (Rgb, Rgb, &'static str),
    ground: Rgb,
    bar: Rgb,
    hairline: Rgb,
    gutter: Rgb,
    lit: Span,
)
    requires
        t.wf(),
        index < t.rows@.len(),
        t.rows@[index as int] == Row::Line(line),
        call_ensures(TextRows::render, (&t, index, seg, &inks, sel, state, marker), r),
        call_ensures(line_colors, (line.kind, line.moved, &inks), look),
        call_ensures(row_background, (state.current, look.0, &inks), ground),
        call_ensures(row_bar, (state, ground, &inks), bar),
        call_ensures(extent_ink, (state, ground, &inks), hairline),
        call_ensures(gutter_ink, (line.kind, line.moved, state, &inks), gutter),
        call_ensures(selected, (sel, 0u16), lit),
    ensures
        r matches Drawn::Line(row) && {
            &&& seg == 0 ==> row.sign@ == look.2@
            &&& seg > 0 ==> row.sign@ == " "@
            &&& row.fg == look.1
            &&& !state.armed ==> row.sign_fg == look.1
            &&& state.armed ==> row.sign_fg == inks.error
            &&& row.edge.bg == ground
            &&& row.edge.bar == bar
            &&& row.edge.extent == hairline
            &&& row.gutter == gutter
            &&& row.lit == lit
        },
{
}

/// A row that is not broken is drawn whole, and a broken one by the break that its
/// segment stands for.
pub proof fn a_row_is_drawn_by_its_break(
    t: TextRows,
    index: usize,
    seg: usize,
    inks: Inks,
    sel: Option<Selected>,
    state: RowState,
    marker: usize,
    r: Drawn,
    piece: Span,
)
    requires
        t.wf(),
        index < t.rows@.len(),
        call_ensures(TextRows::piece, (&t, index, seg), piece),
        call_ensures(TextRows::render, (&t, index, seg, &inks, sel, state, marker), r),
    ensures
        ({
            let broken = index < t.wrapped.pieces@.len() && seg
                < t.wrapped.pieces@[index as int]@.len();
            &&& broken ==> piece == t.wrapped.pieces@[index as int]@[seg as int]
            &&& !broken ==> piece.start == 0 && piece.end == encode_utf8(
                match t.rows@[index as int] {
                    Row::File { path, .. } => path@,
                    Row::Hunk(header) => header@,
                    Row::Line(line) => line.text@,
                },
            ).len() as usize
        }),
        r matches Drawn::Line(row) ==> row.piece == piece,
        r is Line <==> t.rows@[index as int] is Line,
{
}

/// The band of a file is the one of its path and its totals, and the band of a hunk
/// the one of its coordinates.
pub proof fn a_band_is_drawn_as_a_band(
    t: TextRows,
    index: usize,
    seg: usize,
    inks: Inks,
    sel: Option<Selected>,
    state: RowState,
    marker: usize,
    r: Drawn,
)
    requires
        t.wf(),
        index < t.rows@.len(),
        call_ensures(TextRows::render, (&t, index, seg, &inks, sel, state, marker), r),
    ensures
        t.rows@[index as int] matches Row::File { path, adds, dels } ==> (r matches Drawn::File(
            band,
        ) && {
            &&& band.adds@ == "+"@ + text::decimal(adds as nat)
            &&& band.dels@ == "−"@ + text::decimal(dels as nat)
            &&& band.adds_fg == inks.adds_fg
            &&& band.dels_fg == inks.dels_fg
            &&& band.dir is Some ==> band.dir.unwrap().text@ + band.name.text@ == path@
            &&& band.dir is None ==> band.name.text@ == path@
        }),
        t.rows@[index as int] is Hunk ==> (r matches Drawn::Hunk(band) && band.fg == inks.hunk_fg
            && (!state.current ==> band.edge.bg == inks.hunk_bg)),
{
    if let Row::File { path, .. } = t.rows@[index as int] {
        let d = crate::views::draw::dir_len(path@) as int;
        crate::views::draw::a_split_path_is_the_path(path@);
        if d == 0 {
            assert(path@.skip(0) =~= path@);
        }
    }
}

/// The band that is drawn for a file is the one that its path and its totals make, and
/// the band of a hunk the one that its coordinates make, under the same selection and
/// with the same keyboard.
pub proof fn a_band_is_the_one_its_row_makes(
    t: TextRows,
    index: usize,
    seg: usize,
    inks: Inks,
    sel: Option<Selected>,
    state: RowState,
    marker: usize,
    r: Drawn,
    path: &str,
    adds: usize,
    dels: usize,
    file: FileBand,
    hunk: HunkBand,
    lit: Span,
    b: int,
)
    requires
        t.wf(),
        index < t.rows@.len(),
        call_ensures(TextRows::render, (&t, index, seg, &inks, sel, state, marker), r),
        t.rows@[index as int] matches Row::File { path: p, adds: a, dels: d } ==> p@ == path@ && a
            == adds && d == dels,
        call_ensures(file_header, (path, adds, dels, &inks, sel, state), file),
        call_ensures(hunk_header, (marker, &inks, sel, state), hunk),
        call_ensures(selected, (sel, 0u16), lit),
        0 <= b <= usize::MAX,
    ensures
        t.rows@[index as int] is File ==> (r matches Drawn::File(band) && same_band(band, file)),
        t.rows@[index as int] is Hunk ==> (r matches Drawn::Hunk(band) && band.edge == hunk.edge
            && band.fg == hunk.fg && (under_a_run(band.runs@, b) <==> b < marker || lit.start <= b
            < lit.end)),
{
    if let Drawn::Hunk(band) = r {
        if b < marker || lit.start <= b < lit.end {
            assert(crate::views::draw::covered(band.runs@, b as usize));
        }
        runs_say(marker, lit, band.runs@, b as usize);
    }
}

/// Two bands of a file that are drawn alike.
pub open spec fn same_band(a: FileBand, b: FileBand) -> bool {
    &&& a.edge == b.edge
    &&& a.rule == b.rule
    &&& a.dir is Some <==> b.dir is Some
    &&& a.dir is Some ==> a.dir.unwrap().text@ == b.dir.unwrap().text@ && a.dir.unwrap().fg
        == b.dir.unwrap().fg && a.dir.unwrap().lit == b.dir.unwrap().lit
    &&& a.name.text@ == b.name.text@
    &&& a.name.fg == b.name.fg
    &&& a.name.lit == b.name.lit
    &&& a.adds@ == b.adds@
    &&& a.adds_fg == b.adds_fg
    &&& a.dels@ == b.dels@
    &&& a.dels_fg == b.dels_fg
}

// ---------------------------------------------------------------------------
// What a row says of itself
// ---------------------------------------------------------------------------

/// A jump from file to file stops on the band of a file and on nothing else, and a
/// one-file diff leaves out exactly that row.
pub proof fn a_files_band_is_its_header(t: TextRows, index: usize, r: bool, s: bool)
    requires
        t.wf(),
        call_ensures(<TextRows as Rows>::is_header, (&t, index), r),
        call_ensures(<TextRows as Rows>::is_file_header, (&t, index), s),
    ensures
        r <==> index < t.rows@.len() && t.rows@[index as int] is File,
        s <==> r,
{
    if index < t.rows@.len() {
        assert(t.model()[index as int].header == (t.rows@[index as int] is File));
    }
}

/// The text of a row, which is what is copied of it: a file's path, a hunk's header,
/// a line's own text.
pub proof fn a_row_copies_its_text(
    t: TextRows,
    index: usize,
    part: u16,
    r: Option<&str>,
    wraps: &str,
)
    requires
        t.wf(),
        index < t.rows@.len(),
        call_ensures(<TextRows as Rows>::selectable, (&t, index, part), r),
        call_ensures(wrappable, (&t.rows@[index as int],), wraps),
    ensures
        r is Some,
        r.unwrap()@ == match t.rows@[index as int] {
            Row::File { path, .. } => path@,
            Row::Hunk(header) => header@,
            Row::Line(line) => line.text@,
        },
        wraps@ == match t.rows@[index as int] {
            Row::Line(line) => line.text@,
            _ => seq![],
        },
{
    let m = t.model()[index as int];
    assert(m.texts.contains_key(part));
    assert(m.texts[part] == t.rows@[index as int].text());
}

/// A row takes as many rows of the screen as it has breaks, and one without any.
pub proof fn a_row_takes_a_row_per_break(t: TextRows, index: usize, n: usize)
    requires
        t.wf(),
        call_ensures(<TextRows as Rows>::rows, (&t, index), n),
    ensures
        index < t.wrapped.pieces@.len() && t.wrapped.pieces@[index as int]@.len() > 0 ==> n
            == t.wrapped.pieces@[index as int]@.len(),
        !(index < t.wrapped.pieces@.len() && t.wrapped.pieces@[index as int]@.len() > 0) ==> n == 1,
{
    if index < t.rows@.len() {
        assert(t.model()[index as int].rows == crate::views::text_rows::drawn_rows(
            t.wrapped.of(index as int),
        ));
    }
}

/// A row is as wide as its text, and a line as its text without the blanks at its
/// end.
pub proof fn a_row_is_as_wide_as_its_ink(t: TextRows, index: usize, n: usize)
    requires
        t.wf(),
        index < t.rows@.len(),
        t.wrapped.of(index as int).len() == 0,
        encode_utf8(t.rows@[index as int].text()).len() <= usize::MAX,
        call_ensures(<TextRows as Rows>::width, (&t, index, 0usize), n),
    ensures
        t.rows@[index as int] matches Row::File { path, .. } ==> n == path@.len(),
        t.rows@[index as int] matches Row::Hunk(header) ==> n == header@.len(),
        t.rows@[index as int] matches Row::Line(line) ==> {
            &&& n <= line.text@.len()
            &&& forall|i: int| n <= i < line.text@.len() ==> text::white_space(line.text@[i])
            &&& n > 0 ==> !text::white_space(line.text@[n - 1])
        },
{
    assert(t.model()[index as int].widths[0] == crate::views::text_rows::drawn_width(
        t.rows@[index as int],
        t.wrapped.of(index as int),
        0,
    ));
    if let Row::Line(line) = t.rows@[index as int] {
        let bytes = encode_utf8(line.text@);
        assert(bytes.subrange(0, bytes.len() as int) =~= bytes);
        vstd::utf8::encode_utf8_decode_utf8(line.text@);
        blanks_are_cut_off_the_end(line.text@);
    }
}

/// A segment of a broken line is as wide as what it draws, without the blanks at its
/// end.
pub proof fn a_segment_is_as_wide_as_its_ink(
    t: TextRows,
    index: usize,
    seg: usize,
    n: usize,
    line: Line,
    piece: Span,
    shown: Seq<char>,
)
    requires
        t.wf(),
        index < t.wrapped.pieces@.len(),
        seg < t.wrapped.pieces@[index as int]@.len(),
        piece == t.wrapped.pieces@[index as int]@[seg as int],
        t.rows@[index as int] == Row::Line(line),
        encode_utf8(shown) == encode_utf8(line.text@).subrange(
            piece.start as int,
            piece.end as int,
        ),
        call_ensures(<TextRows as Rows>::width, (&t, index, seg), n),
    ensures
        n <= shown.len(),
        forall|i: int| n <= i < shown.len() ==> text::white_space(shown[i]),
        n > 0 ==> !text::white_space(shown[n - 1]),
{
    let m = t.model()[index as int];
    assert(m.widths[seg as int] == crate::views::text_rows::drawn_width(
        t.rows@[index as int],
        t.wrapped.of(index as int),
        seg as int,
    ));
    vstd::utf8::encode_utf8_decode_utf8(shown);
    blanks_are_cut_off_the_end(shown);
}

/// A file's text starts at the page's padding, and the rest at the code.
pub proof fn a_rows_text_starts_where_it_should(t: TextRows, index: usize, r: Option<TextStart>)
    requires
        call_ensures(TextRows::text_start, (&t, index), r),
    ensures
        r is None <==> index >= t.rows@.len(),
        index < t.rows@.len() ==> match t.rows@[index as int] {
            Row::File { .. } => r == Some(TextStart::Page),
            Row::Hunk(_) => r == Some(TextStart::Code),
            Row::Line(_) => r == Some(TextStart::Code),
        },
{
}

/// A click on a column of a row that is not broken lands behind that many characters
/// of its text, or behind all of them past its end.
pub proof fn a_click_lands_behind_its_column(
    t: TextRows,
    index: usize,
    col: usize,
    r: Option<Hit>,
    shown: Seq<char>,
)
    requires
        t.wf(),
        index < t.rows@.len(),
        t.wrapped.of(index as int).len() == 0,
        encode_utf8(shown).len() <= usize::MAX,
        shown == match t.rows@[index as int] {
            Row::File { path, .. } => path@,
            Row::Hunk(header) => header@,
            Row::Line(line) => line.text@,
        },
        call_ensures(TextRows::hit, (&t, index, 0usize, col), r),
    ensures
        r matches Some(h) && h.part == 0 && h.off == if col < shown.len() {
            encode_utf8(shown.take(col as int)).len()
        } else {
            encode_utf8(shown).len()
        },
{
    let bytes = encode_utf8(shown);
    assert(bytes.subrange(0, bytes.len() as int) =~= bytes);
    vstd::utf8::encode_utf8_decode_utf8(shown);
}

/// A click on a segment of a broken line lands in the line's own bytes: in front of
/// where the segment starts by as many characters of the segment as the column is.
pub proof fn a_click_on_a_segment_lands_in_the_line(
    t: TextRows,
    index: usize,
    seg: usize,
    col: usize,
    r: Option<Hit>,
    line: Line,
    piece: Span,
    shown: Seq<char>,
)
    requires
        t.wf(),
        index < t.wrapped.pieces@.len(),
        seg < t.wrapped.pieces@[index as int]@.len(),
        piece == t.wrapped.pieces@[index as int]@[seg as int],
        t.rows@[index as int] == Row::Line(line),
        encode_utf8(shown) == encode_utf8(line.text@).subrange(
            piece.start as int,
            piece.end as int,
        ),
        call_ensures(TextRows::hit, (&t, index, seg, col), r),
    ensures
        r matches Some(h) && h.part == 0 && h.off == piece.start + if col < shown.len() {
            encode_utf8(shown.take(col as int)).len()
        } else {
            encode_utf8(shown).len()
        },
{
    vstd::utf8::encode_utf8_decode_utf8(shown);
}

// ---------------------------------------------------------------------------
// Building
// ---------------------------------------------------------------------------

/// How many rows the first `n` of some hunks take: a band each, and their lines.
pub open spec fn rows_above(hunks: Seq<Hunk>, n: int) -> int
    decreases n,
{
    if n <= 0 {
        0
    } else {
        rows_above(hunks, n - 1) + 1 + hunks[n - 1].lines@.len()
    }
}

proof fn above_grows(hunks: Seq<Hunk>, m: int, n: int)
    requires
        0 <= m <= n <= hunks.len(),
    ensures
        0 <= rows_above(hunks, m) <= rows_above(hunks, n),
        m < n ==> rows_above(hunks, m) + 1 + hunks[m].lines@.len() <= rows_above(hunks, n),
    decreases n,
{
    if n > 0 {
        if m < n {
            above_grows(hunks, m, n - 1);
        } else {
            above_grows(hunks, n - 1, n - 1);
        }
    }
}

proof fn above_of_front(hunks: Seq<Hunk>, n: int, k: int)
    requires
        0 <= n <= k <= hunks.len(),
    ensures
        rows_above(hunks.take(k), n) == rows_above(hunks, n),
    decreases n,
{
    if n > 0 {
        above_of_front(hunks, n - 1, k);
    }
}

proof fn lines_of_hunks(hunks: Seq<Hunk>, n: int, i: int)
    requires
        0 <= n < hunks.len(),
        0 <= i <= hunks[n].lines@.len(),
    ensures
        hunks_lines(hunks).len() == rows_above(hunks, hunks.len() as int),
        rows_above(hunks, n) + i < hunks_lines(hunks).len(),
        hunks_lines(hunks)[rows_above(hunks, n) + i] == if i == 0 {
            Row::Hunk(hunks[n].header)
        } else {
            Row::Line(hunks[n].lines@[i - 1])
        },
    decreases hunks.len(),
{
    lines_count(hunks);
    above_grows(hunks, n, hunks.len() as int);
    let rest = hunks.drop_last();
    assert(rest =~= hunks.take(hunks.len() - 1));
    above_of_front(hunks, n, hunks.len() - 1);
    lines_count(rest);
    above_of_front(hunks, hunks.len() - 1, hunks.len() - 1);
    if n < hunks.len() - 1 {
        lines_of_hunks(rest, n, i);
    }
}

proof fn lines_count(hunks: Seq<Hunk>)
    ensures
        hunks_lines(hunks).len() == rows_above(hunks, hunks.len() as int),
    decreases hunks.len(),
{
    if hunks.len() > 0 {
        let rest = hunks.drop_last();
        lines_count(rest);
        assert(rest =~= hunks.take(hunks.len() - 1));
        above_of_front(hunks, hunks.len() - 1, hunks.len() - 1);
    }
}

proof fn models_of_hunks(at: int, path: Arc<str>, hunks: Seq<Hunk>, n: int, i: int)
    requires
        0 <= n < hunks.len(),
        0 <= i <= hunks[n].lines@.len(),
    ensures
        hunks_rows(at, path, hunks).len() == rows_above(hunks, hunks.len() as int),
        rows_above(hunks, n) + i < hunks_rows(at, path, hunks).len(),
        hunks_rows(at, path, hunks)[rows_above(hunks, n) + i] == hunk_rows(
            at + rows_above(hunks, n),
            path,
            n,
            hunks[n],
        )[i],
    decreases hunks.len(),
{
    models_count(at, path, hunks);
    above_grows(hunks, n, hunks.len() as int);
    let rest = hunks.drop_last();
    assert(rest =~= hunks.take(hunks.len() - 1));
    above_of_front(hunks, n, hunks.len() - 1);
    models_count(at, path, rest);
    above_of_front(hunks, hunks.len() - 1, hunks.len() - 1);
    if n < hunks.len() - 1 {
        models_of_hunks(at, path, rest, n, i);
    }
}

proof fn models_count(at: int, path: Arc<str>, hunks: Seq<Hunk>)
    ensures
        hunks_rows(at, path, hunks).len() == rows_above(hunks, hunks.len() as int),
    decreases hunks.len(),
{
    if hunks.len() > 0 {
        let rest = hunks.drop_last();
        models_count(at, path, rest);
        assert(rest =~= hunks.take(hunks.len() - 1));
        above_of_front(hunks, hunks.len() - 1, hunks.len() - 1);
    }
}

/// A file is added behind the rows that were there: its band with its own totals,
/// and then each hunk as its band and its lines, in order.
pub proof fn a_file_is_its_band_and_its_hunks(t: Ghost<&mut TextRows>, file: File, n: int, i: int)
    requires
        t@.wf(),
        t@.takes(t@.model(), file),
        call_ensures(<TextRows as Rows>::build, (t@, &file), ()),
    ensures
        ({
            let (before, after) = (t@.rows@, final(t@).rows@);
            let hunk = before.len() + 1 + rows_above(file.hunks@, n);
            &&& after.len() == before.len() + 1 + rows_above(file.hunks@, file.hunks@.len() as int)
            &&& forall|k: int| 0 <= k < before.len() ==> #[trigger] after[k] == before[k]
            &&& after[before.len() as int] matches Row::File { path, adds, dels } && path
                == file.path && adds == file.adds && dels == file.dels
            &&& 0 <= n < file.hunks@.len() ==> after[hunk] == Row::Hunk(file.hunks@[n].header)
            &&& 0 <= n < file.hunks@.len() && 0 <= i < file.hunks@[n].lines@.len() ==> after[hunk
                + 1 + i] == Row::Line(file.hunks@[n].lines@[i])
        }),
{
    lines_count(file.hunks@);
    if 0 <= n < file.hunks@.len() {
        lines_of_hunks(file.hunks@, n, 0);
        above_grows(file.hunks@, n, file.hunks@.len() as int);
        if 0 <= i < file.hunks@[n].lines@.len() {
            lines_of_hunks(file.hunks@, n, i + 1);
        }
    }
}

/// Every row of a hunk, its band among them, says which hunk of which file it is in
/// and where that hunk starts and ends; the band of the file is in none.
pub proof fn a_row_says_which_hunk_it_is_in(
    t: Ghost<&mut TextRows>,
    file: File,
    n: int,
    i: int,
    index: usize,
    band: usize,
    r: Option<(&str, usize)>,
    s: Option<(u32, u32)>,
    none: Option<(&str, usize)>,
)
    requires
        t@.wf(),
        t@.takes(t@.model(), file),
        call_ensures(<TextRows as Rows>::build, (t@, &file), ()),
        0 <= n < file.hunks@.len(),
        0 <= i <= file.hunks@[n].lines@.len(),
        band == t@.rows@.len(),
        index == band + 1 + rows_above(file.hunks@, n) + i,
        call_ensures(<TextRows as Rows>::hunk_at, (&*final(t@), index), r),
        call_ensures(<TextRows as Rows>::hunk_span, (&*final(t@), index), s),
        call_ensures(<TextRows as Rows>::hunk_at, (&*final(t@), band), none),
    ensures
        r matches Some((path, k)) && path@ == file.path@ && k == n,
        s matches Some((start, end)) && start == index - i && end == start + 1
            + file.hunks@[n].lines@.len(),
        none is None,
{
    let now = *final(t@);
    let at = band as int;
    models_of_hunks(at + 1, file.path, file.hunks@, n, i);
    models_count(at + 1, file.path, file.hunks@);
    above_grows(file.hunks@, n, file.hunks@.len() as int);
    let rows = crate::views::text_rows::file_rows(at, file);
    assert(t@.model().len() == at);
    assert(now.model() == t@.model() + rows);
    assert(now.model()[at] == rows[0]);
    assert(now.model()[index as int] == rows[index - at]);
    assert(rows[index - at] == hunks_rows(at + 1, file.path, file.hunks@)[index - at - 1]);
    let h = hunk_rows(at + 1 + rows_above(file.hunks@, n), file.path, n, file.hunks@[n])[i];
    assert(now.model()[index as int] == h);
    assert(now.model().len() <= u32::MAX);
}

/// No row is in a hunk before one is recorded.
pub proof fn a_fresh_map_has_no_hunk(
    map: HunkMap,
    index: usize,
    at: Option<(&str, usize)>,
    span: Option<(u32, u32)>,
)
    requires
        call_ensures(HunkMap::new, (), map),
        call_ensures(HunkMap::at, (&map, index), at),
        call_ensures(HunkMap::span, (&map, index), span),
    ensures
        at is None,
        span is None,
{
}

/// The hunk recorded over some rows is the one that those rows answer with, and the
/// rows outside of it answer as they did.
pub proof fn a_recorded_hunk_is_found(
    map: Ghost<&mut HunkMap>,
    at: usize,
    rows: usize,
    path: Arc<str>,
    hunk: usize,
    index: usize,
    before: Option<(&str, usize)>,
    after: Option<(&str, usize)>,
    span: Option<(u32, u32)>,
)
    requires
        map@.wf(),
        map@.within(at as int),
        at + rows <= u32::MAX,
        hunk <= u16::MAX,
        call_ensures(HunkMap::record, (map@, at, rows, &path, hunk), ()),
        call_ensures(HunkMap::at, (map@, index), before),
        call_ensures(HunkMap::at, (&*final(map@), index), after),
        call_ensures(HunkMap::span, (&*final(map@), index), span),
    ensures
        at <= index < at + rows ==> (after matches Some((p, n)) && p@ == path@ && n == hunk) && (
        span matches Some((from, to)) && from == at && to == at + rows),
        !(at <= index < at + rows) ==> (before is Some <==> after is Some),
        !(at <= index < at + rows) && before is Some ==> after.unwrap().0@ == before.unwrap().0@
            && after.unwrap().1 == before.unwrap().1,
{
    let (was, now) = (map@.spans@, final(map@).spans@);
    assert(now.drop_last() =~= was);
    assert(hunk_over(now, index as int) == if now.last().covers(index as int) {
        Some(now.last())
    } else {
        hunk_over(was, index as int)
    });
}

// ---------------------------------------------------------------------------
// Width and the overlay
// ---------------------------------------------------------------------------

/// The same budget and policy change nothing; another drops the old breaks for the
/// new ones and touches no row.
pub proof fn a_new_budget_breaks_the_rows_anew(
    t: Ghost<&mut TextRows>,
    cols: usize,
    wrap: &'static str,
    breaks: Option<Wrapped>,
    r: bool,
    needed: bool,
)
    requires
        t@.wf(),
        breaks is Some ==> breaks.unwrap().fits(t@.rows@),
        call_ensures(TextRows::reflow, (t@, cols, wrap, breaks), r),
        call_ensures(TextRows::reflow_needed, (t@, cols, wrap), needed),
    ensures
        needed <==> cols != t@.cols || wrap@ != t@.wrap@,
        !needed ==> !r && *final(t@) == *t@,
        final(t@).rows == t@.rows,
        final(t@).hunks == t@.hunks,
        needed ==> final(t@).cols == cols && final(t@).wrap@ == wrap@,
        needed && breaks is Some ==> r && final(t@).wrapped == breaks.unwrap(),
        needed && breaks is None ==> final(t@).wrapped.pieces@.len() == 0
            && final(t@).wrapped.rejected == 0,
        needed && breaks is None ==> (r <==> exists|i: int|
            0 <= i < t@.wrapped.pieces@.len() && (#[trigger] t@.wrapped.pieces@[i])@.len() > 1),
{
}

/// The overlay counts the lines that moved, where any did, and then the breaks that
/// were thrown away, under the policy they came from.
pub proof fn the_overlay_counts_moves_and_bad_breaks(t: TextRows, r: String)
    requires
        t.wf(),
        call_ensures(TextRows::report, (&t,), r),
    ensures
        ({
            let moved = t.rows@.filter(
                |row: Row| row matches Row::Line(line) && line.moved,
            ).len();
            let bad = t.wrapped.rejected as nat;
            &&& moved == 0 && bad == 0 ==> r@.len() == 0
            &&& moved > 0 && bad == 0 ==> r@ == text::decimal(moved) + " moved"@
            &&& moved == 0 && bad > 0 ==> r@ == text::decimal(bad) + " invalid breaks from "@
                + t.wrap@
            &&& moved > 0 && bad > 0 ==> r@ == text::decimal(moved) + " moved"@ + " · "@
                + text::decimal(bad) + " invalid breaks from "@ + t.wrap@
        }),
{
    let moves = |row: Row| row matches Row::Line(line) && line.moved;
    moved_are_counted(t.rows@);
    text::decimal_is_never_empty(t.moved as nat);
    if t.moved == 0 && t.wrapped.rejected > 0 {
        assert(r@ =~= text::decimal(t.wrapped.rejected as nat) + " invalid breaks from "@
            + t.wrap@);
    }
}

proof fn moved_are_counted(rows: Seq<Row>)
    ensures
        moved_rows(rows) == rows.filter(|row: Row| row matches Row::Line(line) && line.moved).len(),
    decreases rows.len(),
{
    reveal(Seq::filter);
    if rows.len() > 0 {
        moved_are_counted(rows.drop_last());
    }
}

} // verus!
