//! The default presentation of a diff: a band per file, a band per hunk, and one
//! line of text per row behind a line-number gutter.
use super::draw::{
    background_of, bar_of, extent_ink, extent_of_row, file_header, gutter_ink, gutter_of,
    hunk_header, line_colors, number, number_text, row_background, row_bar, selected,
    selected_bytes, Edge, FileBand, HunkBand, Inks, LineRow, RowState, Selected,
};
use super::rows::{coherent, rebroken, File, Hunk, Line, LineKind, RowModel, Rows, Span};
use crate::text;
use std::sync::Arc;
use vstd::prelude::*;

verus! {

// ---------------------------------------------------------------------------
// Which hunk a row belongs to
// ---------------------------------------------------------------------------

/// One hunk: the logical rows it spans, and which hunk of which file it is.
#[derive(Debug)]
pub struct SpanEntry {
    /// First logical row of the hunk: its header row.
    pub start: u32,
    /// How many logical rows it spans, header included.
    pub rows: u32,
    pub path: Arc<str>,
    pub hunk: u16,
}

impl SpanEntry {
    /// One past the last row.
    pub open spec fn end(self) -> int {
        self.start + self.rows
    }

    /// A row of this hunk.
    pub open spec fn covers(self, index: int) -> bool {
        self.start <= index < self.end()
    }
}

/// The hunk over a row, if there is one.
pub open spec fn hunk_over(spans: Seq<SpanEntry>, index: int) -> Option<SpanEntry>
    decreases spans.len(),
{
    if spans.len() == 0 {
        None
    } else if spans.last().covers(index) {
        Some(spans.last())
    } else {
        hunk_over(spans.drop_last(), index)
    }
}

/// Which hunk each row belongs to: one entry per hunk, in row order.
#[derive(Debug)]
pub struct HunkMap {
    pub spans: Vec<SpanEntry>,
}

impl HunkMap {
    /// Hunks come in row order and do not overlap.
    pub open spec fn wf(&self) -> bool {
        &&& forall|i: int, j: int|
            #![trigger self.spans@[i], self.spans@[j]]
            0 <= i < j < self.spans@.len() ==> self.spans@[i].end() <= self.spans@[j].start
        &&& forall|i: int|
            0 <= i < self.spans@.len() ==> (#[trigger] self.spans@[i]).end() <= u32::MAX
    }

    /// Every hunk ends by row `len`.
    pub open spec fn within(&self, len: int) -> bool {
        forall|i: int| 0 <= i < self.spans@.len() ==> (#[trigger] self.spans@[i]).end() <= len
    }

    /// No hunks.
    pub fn new() -> (r: HunkMap)
        ensures
            r.wf(),
            r.spans@.len() == 0,
    {
        HunkMap { spans: Vec::new() }
    }

    /// Records hunk number `hunk` of `path` over rows `at..at + rows`, below
    /// every hunk recorded so far.
    pub fn record(&mut self, at: usize, rows: usize, path: &Arc<str>, hunk: usize)
        requires
            old(self).wf(),
            old(self).within(at as int),
            at + rows <= u32::MAX,
            hunk <= u16::MAX,
        ensures
            final(self).wf(),
            final(self).within(at + rows),
            final(self).spans@ == old(self).spans@.push(
                (SpanEntry { start: at as u32, rows: rows as u32, path: *path, hunk: hunk as u16 }),
            ),
    {
        self.spans.push(
            SpanEntry {
                start: at as u32,
                rows: rows as u32,
                path: Arc::clone(path),
                hunk: hunk as u16,
            },
        );
    }

    /// The entry over a row: the last one that starts no later, if it reaches.
    fn entry(&self, index: usize) -> (r: Option<usize>)
        requires
            self.wf(),
        ensures
            match r {
                Some(k) => k < self.spans@.len() && hunk_over(self.spans@, index as int) == Some(
                    self.spans@[k as int],
                ) && self.spans@[k as int].covers(index as int),
                None => hunk_over(self.spans@, index as int) is None,
            },
    {
        let mut lo: usize = 0;
        let mut hi: usize = self.spans.len();
        while lo < hi
            invariant
                self.wf(),
                lo <= hi <= self.spans@.len(),
                forall|i: int| 0 <= i < lo ==> (#[trigger] self.spans@[i]).start <= index,
                forall|i: int|
                    hi <= i < self.spans@.len() ==> (#[trigger] self.spans@[i]).start > index,
            decreases hi - lo,
        {
            let mid: usize = lo + (hi - lo) / 2;
            if self.spans[mid].start as usize <= index {
                proof {
                    assert forall|i: int| 0 <= i < mid + 1 implies (
                    #[trigger] self.spans@[i]).start <= index by {
                        if i < mid {
                            assert(self.spans@[i].end() <= self.spans@[mid as int].start);
                        }
                    }
                }
                lo = mid + 1;
            } else {
                proof {
                    assert forall|i: int| mid <= i < self.spans@.len() implies (
                    #[trigger] self.spans@[i]).start > index by {
                        if i > mid {
                            assert(self.spans@[mid as int].end() <= self.spans@[i].start);
                        }
                    }
                }
                hi = mid;
            }
        }
        if lo == 0 {
            proof {
                over_none(self.spans@, index as int);
            }
            return None;
        }
        let k: usize = lo - 1;
        let s = &self.spans[k];
        assert(s.end() <= u32::MAX);
        if index < s.start as usize + s.rows as usize {
            proof {
                over_some(self.spans@, k as int, index as int);
            }
            Some(k)
        } else {
            proof {
                assert forall|i: int| 0 <= i < self.spans@.len() implies !(
                #[trigger] self.spans@[i]).covers(index as int) by {
                    if i < k {
                        assert(self.spans@[i].end() <= self.spans@[k as int].start);
                    }
                }
                over_none(self.spans@, index as int);
            }
            None
        }
    }

    /// The hunk over a row: its file's path, and which hunk of it. None between
    /// hunks.
    pub fn at(&self, index: usize) -> (r: Option<(&str, usize)>)
        requires
            self.wf(),
        ensures
            match r {
                Some((path, n)) => hunk_over(self.spans@, index as int) is Some && path@
                    == hunk_over(self.spans@, index as int).unwrap().path@ && n == hunk_over(
                    self.spans@,
                    index as int,
                ).unwrap().hunk,
                None => hunk_over(self.spans@, index as int) is None,
            },
    {
        match self.entry(index) {
            Some(k) => Some((&*self.spans[k].path, self.spans[k].hunk as usize)),
            None => None,
        }
    }

    /// The rows that the hunk over a row spans: its first, and one past its last.
    pub fn span(&self, index: usize) -> (r: Option<(u32, u32)>)
        requires
            self.wf(),
        ensures
            r == span_over(self.spans@, index as int),
    {
        match self.entry(index) {
            Some(k) => {
                let s = &self.spans[k];
                assert(s.end() <= u32::MAX);
                Some((s.start, s.start + s.rows))
            },
            None => None,
        }
    }
}

/// The rows that the hunk over a row spans.
pub open spec fn span_over(spans: Seq<SpanEntry>, index: int) -> Option<(u32, u32)> {
    match hunk_over(spans, index) {
        Some(e) => Some((e.start, e.end() as u32)),
        None => None,
    }
}

proof fn over_none(spans: Seq<SpanEntry>, index: int)
    requires
        forall|i: int| 0 <= i < spans.len() ==> !(#[trigger] spans[i]).covers(index),
    ensures
        hunk_over(spans, index) is None,
    decreases spans.len(),
{
    if spans.len() > 0 {
        assert(!spans[spans.len() - 1].covers(index));
        let rest = spans.drop_last();
        assert forall|i: int| 0 <= i < rest.len() implies !(#[trigger] rest[i]).covers(index) by {
            assert(rest[i] == spans[i]);
        }
        over_none(rest, index);
    }
}

proof fn over_some(spans: Seq<SpanEntry>, k: int, index: int)
    requires
        0 <= k < spans.len(),
        spans[k].covers(index),
        forall|i: int| k < i < spans.len() ==> !(#[trigger] spans[i]).covers(index),
    ensures
        hunk_over(spans, index) == Some(spans[k]),
    decreases spans.len(),
{
    if k < spans.len() - 1 {
        assert(!spans[spans.len() - 1].covers(index));
        let rest = spans.drop_last();
        assert forall|i: int| k < i < rest.len() implies !(#[trigger] rest[i]).covers(index) by {
            assert(rest[i] == spans[i]);
        }
        over_some(rest, k, index);
    }
}

/// Every row of a hunk answers with that hunk.
pub proof fn every_row_of_a_hunk_answers(map: HunkMap, k: int, index: int)
    requires
        map.wf(),
        0 <= k < map.spans@.len(),
        map.spans@[k].covers(index),
    ensures
        hunk_over(map.spans@, index) == Some(map.spans@[k]),
{
    assert forall|i: int| k < i < map.spans@.len() implies !(#[trigger] map.spans@[i]).covers(
        index,
    ) by {
        assert(map.spans@[k].end() <= map.spans@[i].start);
    }
    over_some(map.spans@, k, index);
}

proof fn over_is_an_entry(spans: Seq<SpanEntry>, index: int) -> (k: int)
    requires
        hunk_over(spans, index) is Some,
    ensures
        0 <= k < spans.len(),
        hunk_over(spans, index) == Some(spans[k]),
        spans[k].covers(index),
    decreases spans.len(),
{
    if spans.last().covers(index) {
        spans.len() - 1
    } else {
        over_is_an_entry(spans.drop_last(), index)
    }
}

// ---------------------------------------------------------------------------
// The rows
// ---------------------------------------------------------------------------

/// One logical row.
#[derive(Debug)]
pub enum Row {
    File { path: Arc<str>, adds: usize, dels: usize },
    Hunk(Arc<str>),
    Line(Line),
}

impl Row {
    /// The text the row draws, which is what a selection over it copies.
    pub open spec fn text(self) -> Seq<char> {
        match self {
            Row::File { path, .. } => path@,
            Row::Hunk(header) => header@,
            Row::Line(line) => line.text@,
        }
    }

    /// The text the row draws.
    pub fn drawn(&self) -> (r: &str)
        ensures
            r@ == self.text(),
    {
        match self {
            Row::File { path, .. } => &**path,
            Row::Hunk(header) => &**header,
            Row::Line(line) => &*line.text,
        }
    }

    /// The part of the row that may wrap: a line's text. A header does not, and
    /// an empty text says so.
    pub open spec fn wraps(self) -> Seq<char> {
        match self {
            Row::Line(line) => line.text@,
            _ => seq![],
        }
    }
}

/// The part of a row that may wrap.
pub fn wrappable(row: &Row) -> (r: &str)
    ensures
        r@ == row.wraps(),
{
    match row {
        Row::Line(line) => &*line.text,
        _ => {
            proof {
                reveal_strlit("");
            }
            ""
        },
    }
}

/// Where each row's text breaks: the byte ranges it is drawn in, row by row. A
/// row past the end, or with no ranges, is not broken.
#[derive(Debug)]
pub struct Wrapped {
    pub pieces: Vec<Vec<Span>>,
    /// How many breaks were thrown away because they could not be made.
    pub rejected: usize,
}

impl Wrapped {
    /// Nothing is broken.
    pub fn unbroken() -> (r: Wrapped)
        ensures
            r.pieces@.len() == 0,
            r.rejected == 0,
    {
        Wrapped { pieces: Vec::new(), rejected: 0 }
    }

    /// The ranges of one row.
    pub open spec fn of(&self, index: int) -> Seq<Span> {
        if 0 <= index < self.pieces@.len() {
            self.pieces@[index]@
        } else {
            seq![]
        }
    }

    /// Some row is drawn on more than one.
    pub open spec fn broken(&self) -> bool {
        exists|i: int| 0 <= i < self.pieces@.len() && (#[trigger] self.pieces@[i])@.len() > 1
    }

    /// Every range can be cut out of the text of its row, and only lines break.
    pub open spec fn fits(&self, rows: Seq<Row>) -> bool {
        &&& self.pieces@.len() <= rows.len()
        &&& forall|i: int, k: int|
            #![trigger self.pieces@[i]@[k]]
            0 <= i < self.pieces@.len() && 0 <= k < self.pieces@[i]@.len() ==> text::sliceable(
                rows[i].wraps(),
                self.pieces@[i]@[k].start as int,
                self.pieces@[i]@[k].end as int,
            )
        &&& forall|i: int|
            0 <= i < self.pieces@.len() && !(rows[i] is Line) ==> (
            #[trigger] self.pieces@[i])@.len() <= 1
    }

    fn is_broken(&self) -> (r: bool)
        ensures
            r == self.broken(),
    {
        let mut i: usize = 0;
        while i < self.pieces.len()
            invariant
                i <= self.pieces@.len(),
                forall|k: int| 0 <= k < i ==> (#[trigger] self.pieces@[k])@.len() <= 1,
            decreases self.pieces@.len() - i,
        {
            if self.pieces[i].len() > 1 {
                return true;
            }
            i += 1;
        }
        false
    }
}

/// How many rows a text is drawn on.
pub open spec fn drawn_rows(pieces: Seq<Span>) -> nat {
    if pieces.len() == 0 {
        1
    } else {
        pieces.len()
    }
}

/// The bytes drawn on one of them.
pub open spec fn drawn_piece(pieces: Seq<Span>, seg: int, text: Seq<char>) -> Span {
    if 0 <= seg < pieces.len() {
        pieces[seg]
    } else {
        Span { start: 0, end: text::byte_len(text) as usize }
    }
}

/// How wide one of a row's rows is, in characters. Blanks at the end of a line
/// are not ink.
pub open spec fn drawn_width(row: Row, pieces: Seq<Span>, seg: int) -> nat {
    match row {
        Row::Line(line) => {
            let at = drawn_piece(pieces, seg, line.text@);
            text::trimmed_end(text::sliced(line.text@, at.start as int, at.end as int))
        },
        _ => row.text().len(),
    }
}

/// What a row says of itself, given the hunk over it and where its text breaks.
pub open spec fn row_model(row: Row, over: Option<SpanEntry>, pieces: Seq<Span>) -> RowModel {
    RowModel {
        file_header: row is File,
        header: row is File,
        rows: drawn_rows(pieces),
        widths: Seq::new(drawn_rows(pieces), |seg: int| drawn_width(row, pieces, seg)),
        hunk: match over {
            Some(e) => Some((e.path@, e.hunk as nat)),
            None => None,
        },
        span: match over {
            Some(e) => Some((e.start, e.end() as u32)),
            None => None,
        },
        texts: Map::new(|part: u16| true, |part: u16| row.text()),
        line: match row {
            Row::Line(line) => Some(line),
            _ => None,
        },
        totals: match row {
            Row::File { adds, dels, .. } => Some((adds, dels)),
            _ => None,
        },
    }
}

/// The rows of one hunk: its band, then its lines.
pub open spec fn hunk_lines(h: Hunk) -> Seq<Row> {
    seq![Row::Hunk(h.header)] + h.lines@.map_values(|l: Line| Row::Line(l))
}

/// The rows of some hunks, hunk after hunk.
pub open spec fn hunks_lines(hunks: Seq<Hunk>) -> Seq<Row>
    decreases hunks.len(),
{
    if hunks.len() == 0 {
        seq![]
    } else {
        hunks_lines(hunks.drop_last()) + hunk_lines(hunks.last())
    }
}

/// How many of some lines are part of a block that moved.
pub open spec fn moved_in(lines: Seq<Line>) -> nat
    decreases lines.len(),
{
    if lines.len() == 0 {
        0
    } else {
        moved_in(lines.drop_last()) + if lines.last().moved {
            1nat
        } else {
            0
        }
    }
}

/// How many lines of some hunks are part of a block that moved.
pub open spec fn moved_lines(hunks: Seq<Hunk>) -> nat
    decreases hunks.len(),
{
    if hunks.len() == 0 {
        0
    } else {
        moved_lines(hunks.drop_last()) + moved_in(hunks.last().lines@)
    }
}

/// How many of some rows are part of a block that moved.
pub open spec fn moved_rows(rows: Seq<Row>) -> nat
    decreases rows.len(),
{
    if rows.len() == 0 {
        0
    } else {
        moved_rows(rows.drop_last()) + match rows.last() {
            Row::Line(line) if line.moved => 1nat,
            _ => 0,
        }
    }
}

proof fn moved_rows_are_rows(rows: Seq<Row>)
    ensures
        moved_rows(rows) <= rows.len(),
    decreases rows.len(),
{
    if rows.len() > 0 {
        moved_rows_are_rows(rows.drop_last());
    }
}

/// The rows of one hunk, the first of them at row `at`.
pub open spec fn hunk_rows(at: int, path: Arc<str>, n: int, h: Hunk) -> Seq<RowModel> {
    let over = Some(
        SpanEntry {
            start: at as u32,
            rows: (h.lines@.len() + 1) as u32,
            path,
            hunk: n as u16,
        },
    );
    Seq::new(
        h.lines@.len() + 1,
        |i: int|
            if i == 0 {
                row_model(Row::Hunk(h.header), over, seq![])
            } else {
                row_model(Row::Line(h.lines@[i - 1]), over, seq![])
            },
    )
}

/// The rows of a file's hunks, the first of them at row `at`.
pub open spec fn hunks_rows(at: int, path: Arc<str>, hunks: Seq<Hunk>) -> Seq<RowModel>
    decreases hunks.len(),
{
    if hunks.len() == 0 {
        seq![]
    } else {
        let earlier = hunks_rows(at, path, hunks.drop_last());
        earlier + hunk_rows(at + earlier.len(), path, hunks.len() - 1, hunks.last())
    }
}

/// The rows of a file: its band, then hunk after hunk, each a band and its lines.
pub open spec fn file_rows(at: int, file: File) -> Seq<RowModel> {
    seq![
        row_model(
            Row::File { path: file.path, adds: file.adds, dels: file.dels },
            None,
            seq![],
        ),
    ] + hunks_rows(at + 1, file.path, file.hunks@)
}

/// How many lines some hunks have.
pub open spec fn line_count(hunks: Seq<Hunk>) -> nat
    decreases hunks.len(),
{
    if hunks.len() == 0 {
        0
    } else {
        line_count(hunks.drop_last()) + hunks.last().lines@.len()
    }
}

proof fn hunks_rows_count(at: int, path: Arc<str>, hunks: Seq<Hunk>)
    ensures
        hunks_rows(at, path, hunks).len() == hunks.len() + line_count(hunks),
    decreases hunks.len(),
{
    if hunks.len() > 0 {
        hunks_rows_count(at, path, hunks.drop_last());
    }
}

/// A file is a row per line, and a band for itself and for each of its hunks.
pub proof fn a_file_is_a_row_per_line_and_its_bands(at: int, file: File)
    ensures
        file_rows(at, file).len() == 1 + file.hunks@.len() + line_count(file.hunks@),
{
    hunks_rows_count(at + 1, file.path, file.hunks@);
}

/// Every row of a hunk names the hunk and spans exactly its rows; the band that
/// names the file is in no hunk.
pub proof fn every_row_names_its_hunk(at: int, file: File, n: int, h: Hunk, i: int)
    requires
        0 <= at,
        0 <= n <= u16::MAX,
        at + h.lines@.len() + 1 <= u32::MAX,
        0 <= i <= h.lines@.len(),
    ensures
        hunk_rows(at, file.path, n, h)[i].hunk == Some((file.path@, n as nat)),
        hunk_rows(at, file.path, n, h)[i].span == Some(
            (at as u32, (at + h.lines@.len() + 1) as u32),
        ),
        file_rows(at, file)[0].hunk is None,
{
}

/// A row of a file that is in a hunk names that file, and a hunk that it has.
pub proof fn rows_name_hunks_of_their_file(at: int, file: File, k: int)
    requires
        file.hunks@.len() <= u16::MAX,
        0 <= k < file_rows(at, file).len(),
    ensures
        file_rows(at, file)[k].hunk matches Some((path, n)) ==> path == file.path@ && n
            < file.hunks@.len(),
{
    if k > 0 {
        hunks_rows_name_hunks(at + 1, file.path, file.hunks@, k - 1);
    }
}

proof fn hunks_rows_name_hunks(at: int, path: Arc<str>, hunks: Seq<Hunk>, k: int)
    requires
        hunks.len() <= u16::MAX,
        0 <= k < hunks_rows(at, path, hunks).len(),
    ensures
        hunks_rows(at, path, hunks)[k].hunk matches Some((p, n)) && p == path@ && n < hunks.len(),
    decreases hunks.len(),
{
    let earlier = hunks_rows(at, path, hunks.drop_last());
    if k < earlier.len() {
        hunks_rows_name_hunks(at, path, hunks.drop_last(), k);
    }
}

/// The default presentation.
#[derive(Debug)]
pub struct TextRows {
    pub rows: Vec<Row>,
    pub hunks: HunkMap,
    /// How many rows are part of a block that moved.
    pub moved: usize,
    pub wrapped: Wrapped,
    /// The budget and the policy that `wrapped` was made for.
    pub cols: usize,
    pub wrap: &'static str,
}

impl TextRows {
    /// What every presentation of this kind keeps.
    pub open spec fn wf(&self) -> bool {
        &&& self.hunks.wf()
        &&& self.hunks.within(self.rows@.len() as int)
        &&& self.moved == moved_rows(self.rows@)
        &&& self.wrapped.fits(self.rows@)
    }

    /// No rows yet.
    pub fn new() -> (r: TextRows)
        ensures
            r.wf(),
            r.rows@.len() == 0,
            r.hunks.spans@.len() == 0,
            r.moved == 0,
            r.cols == 0,
            r.wrap@ == ""@,
            r.wrapped.pieces@.len() == 0,
            r.wrapped.rejected == 0,
    {
        TextRows {
            rows: Vec::new(),
            hunks: HunkMap::new(),
            moved: 0,
            wrapped: Wrapped::unbroken(),
            cols: 0,
            wrap: "",
        }
    }

    /// The bytes of row `index` that its segment `seg` draws.
    pub open spec fn piece_of(&self, index: int, seg: int) -> Span {
        drawn_piece(self.wrapped.of(index), seg, self.rows@[index].text())
    }

    /// The bytes of row `index` that its segment `seg` draws.
    pub fn piece(&self, index: usize, seg: usize) -> (r: Span)
        requires
            self.wf(),
            index < self.rows@.len(),
        ensures
            r == self.piece_of(index as int, seg as int),
            self.rows@[index as int] is Line ==> text::sliceable(
                self.rows@[index as int].text(),
                r.start as int,
                r.end as int,
            ),
    {
        let row = &self.rows[index];
        let whole: usize = text::byte_count(row.drawn());
        if index < self.wrapped.pieces.len() && seg < self.wrapped.pieces[index].len() {
            let r = self.wrapped.pieces[index][seg];
            assert(r == self.wrapped.pieces@[index as int]@[seg as int]);
            r
        } else {
            proof {
                vstd::utf8::encode_utf8_valid_utf8(row.text());
                vstd::utf8::is_char_boundary_start_end_of_seq(vstd::utf8::encode_utf8(row.text()));
            }
            Span { start: 0, end: whole }
        }
    }
}

/// A second handle on a line.
fn share(l: &Line) -> (r: Line)
    ensures
        r == *l,
{
    Line {
        kind: l.kind,
        moved: l.moved,
        old_no: l.old_no,
        new_no: l.new_no,
        text: Arc::clone(&l.text),
        spans: Arc::clone(&l.spans),
        tokens: Arc::clone(&l.tokens),
    }
}

impl TextRows {
    /// What the rows say of themselves.
    pub open spec fn row_models(&self) -> Seq<RowModel> {
        Seq::new(
            self.rows@.len(),
            |i: int|
                row_model(self.rows@[i], hunk_over(self.hunks.spans@, i), self.wrapped.of(i)),
        )
    }

    proof fn past_the_end(&self, index: int)
        requires
            self.wf(),
        ensures
            index >= self.rows@.len() ==> hunk_over(self.hunks.spans@, index) is None,
    {
        if index >= self.rows@.len() {
            over_none(self.hunks.spans@, index);
        }
    }

    /// Appends one hunk: its band and its lines.
    fn push_hunk(&mut self, path: &Arc<str>, n: usize, h: &Hunk)
        requires
            old(self).wf(),
            n <= u16::MAX,
            old(self).rows@.len() + h.lines@.len() + 1 <= u32::MAX,
        ensures
            final(self).wf(),
            final(self).rows@ == old(self).rows@ + hunk_lines(*h),
            final(self).moved == old(self).moved + moved_in(h.lines@),
            final(self).wrapped == old(self).wrapped,
            final(self).cols == old(self).cols,
            final(self).wrap == old(self).wrap,
            final(self).row_models() == old(self).row_models() + hunk_rows(
                old(self).rows@.len() as int,
                *path,
                n as int,
                *h,
            ),
    {
        let at: usize = self.rows.len();
        self.rows.push(Row::Hunk(Arc::clone(&h.header)));
        let ghost was = *old(self);
        proof {
            assert(self.rows@.drop_last() =~= was.rows@);
            assert(h.lines@.take(0) =~= seq![]);
        }
        let mut i: usize = 0;
        while i < h.lines.len()
            invariant
                was == *old(self),
                was.wf(),
                at == was.rows@.len(),
                i <= h.lines@.len(),
                was.rows@.len() + h.lines@.len() + 1 <= u32::MAX,
                self.hunks == was.hunks,
                self.wrapped == was.wrapped,
                self.cols == was.cols,
                self.wrap == was.wrap,
                self.rows@.len() == at + 1 + i,
                self.moved == moved_rows(self.rows@),
                self.moved == was.moved + moved_in(h.lines@.take(i as int)),
                forall|k: int| 0 <= k < at ==> #[trigger] self.rows@[k] == was.rows@[k],
                self.rows@[at as int] == Row::Hunk(h.header),
                forall|k: int|
                    at < k < at + 1 + i ==> #[trigger] self.rows@[k] == Row::Line(
                        h.lines@[k - at - 1],
                    ),
            decreases h.lines@.len() - i,
        {
            let l = &h.lines[i];
            let ghost before = self.rows@;
            proof {
                moved_rows_are_rows(before);
                assert(h.lines@.take(i + 1).drop_last() =~= h.lines@.take(i as int));
            }
            if l.moved {
                self.moved = self.moved + 1;
            }
            self.rows.push(Row::Line(share(l)));
            assert(self.rows@.drop_last() =~= before);
            i += 1;
        }
        let count: usize = self.rows.len() - at;
        self.hunks.record(at, count, path, n);
        proof {
            let spans = self.hunks.spans@;
            let e = spans.last();
            assert(spans.drop_last() =~= was.hunks.spans@);
            let out = hunk_rows(at as int, *path, n as int, *h);
            assert forall|k: int| 0 <= k < self.rows@.len() implies #[trigger] self.row_models()[k]
                == (was.row_models() + out)[k] by {
                if k < at {
                    assert(!e.covers(k));
                    assert(hunk_over(spans, k) == hunk_over(was.hunks.spans@, k));
                } else {
                    assert(e.covers(k));
                    assert(self.wrapped.of(k) =~= seq![]);
                    assert(hunk_over(spans, k) == Some(e));
                }
            }
            assert(self.row_models() =~= was.row_models() + out);
            assert(h.lines@.take(i as int) =~= h.lines@);
            assert(self.rows@ =~= was.rows@ + hunk_lines(*h));
        }
    }
}

proof fn hunks_rows_grow(at: int, path: Arc<str>, hunks: Seq<Hunk>, n: int)
    requires
        0 <= n <= hunks.len(),
    ensures
        hunks_rows(at, path, hunks.take(n)).len() <= hunks_rows(at, path, hunks).len(),
    decreases hunks.len(),
{
    if n < hunks.len() {
        hunks_rows_grow(at, path, hunks.drop_last(), n);
        assert(hunks.drop_last().take(n) =~= hunks.take(n));
    } else {
        assert(hunks.take(n) =~= hunks);
    }
}

impl Rows for TextRows {
    open spec fn model(&self) -> Seq<RowModel> {
        self.row_models()
    }

    open spec fn wants(&self, path: Seq<char>) -> bool {
        true
    }

    open spec fn rows_for(&self, before: Seq<RowModel>, file: File) -> Seq<RowModel> {
        file_rows(before.len() as int, file)
    }

    open spec fn ready(&self) -> bool {
        self.wf()
    }

    open spec fn takes(&self, before: Seq<RowModel>, file: File) -> bool {
        &&& before.len() + file_rows(before.len() as int, file).len() <= u32::MAX
        &&& file.hunks@.len() <= u16::MAX
    }

    fn claims(&self, path: &str) -> (r: bool) {
        true
    }

    fn len(&self) -> (r: usize) {
        self.rows.len()
    }

    fn build(&mut self, file: &File)
        ensures
            final(self).rows@ == old(self).rows@.push(
                (Row::File { path: file.path, adds: file.adds, dels: file.dels }),
            ) + hunks_lines(file.hunks@),
            final(self).moved == old(self).moved + moved_lines(file.hunks@),
            final(self).wrapped == old(self).wrapped,
            final(self).cols == old(self).cols,
            final(self).wrap == old(self).wrap,
    {
        let ghost was = *self;
        self.rows.push(
            Row::File { path: Arc::clone(&file.path), adds: file.adds, dels: file.dels },
        );
        let ghost opened = self.rows@;
        let ghost start = was.rows@.len() as int;
        let ghost band = row_model(
            Row::File { path: file.path, adds: file.adds, dels: file.dels },
            None,
            seq![],
        );
        proof {
            assert forall|k: int| 0 <= k < self.rows@.len() implies #[trigger] self.row_models()[k]
                == was.row_models().push(band)[k] by {
                if k == start {
                    assert forall|i: int| 0 <= i < was.hunks.spans@.len() implies !(
                    #[trigger] was.hunks.spans@[i]).covers(start) by {}
                    over_none(was.hunks.spans@, start);
                    assert(self.wrapped.of(k) =~= seq![]);
                }
            }
            assert(self.row_models() =~= was.row_models().push(band));
            assert(opened.drop_last() =~= was.rows@);
            assert(file.hunks@.take(0) =~= seq![]);
            assert(opened =~= opened + hunks_lines(file.hunks@.take(0)));
            assert(was.row_models().push(band) =~= was.row_models().push(band) + hunks_rows(
                start + 1,
                file.path,
                file.hunks@.take(0),
            ));
        }
        let mut n: usize = 0;
        while n < file.hunks.len()
            invariant
                n <= file.hunks@.len() <= u16::MAX,
                self.wf(),
                start == was.rows@.len(),
                was.rows@.len() + file_rows(start, *file).len() <= u32::MAX,
                was.row_models().len() == start,
                self.wrapped == was.wrapped,
                self.cols == was.cols,
                self.wrap == was.wrap,
                self.rows@ == opened + hunks_lines(file.hunks@.take(n as int)),
                self.moved == was.moved + moved_lines(file.hunks@.take(n as int)),
                self.row_models() == was.row_models().push(band) + hunks_rows(
                    start + 1,
                    file.path,
                    file.hunks@.take(n as int),
                ),
            decreases file.hunks@.len() - n,
        {
            let h = &file.hunks[n];
            let ghost upto = file.hunks@.take(n + 1);
            let ghost done = self.row_models();
            proof {
                assert(upto.drop_last() =~= file.hunks@.take(n as int));
                hunks_rows_grow(start + 1, file.path, file.hunks@, n + 1);
                assert(self.rows@.len() == done.len());
            }
            self.push_hunk(&file.path, n, h);
            assert(self.rows@ =~= opened + hunks_lines(upto));
            assert(self.row_models() =~= was.row_models().push(band) + hunks_rows(
                start + 1,
                file.path,
                upto,
            ));
            n += 1;
        }
        proof {
            assert(file.hunks@.take(n as int) =~= file.hunks@);
            assert(self.row_models() =~= was.row_models() + file_rows(start, *file));
        }
    }

    fn is_file_header(&self, index: usize) -> (r: bool) {
        index < self.rows.len() && matches!(&self.rows[index], Row::File { .. })
    }

    fn is_header(&self, index: usize) -> (r: bool) {
        index < self.rows.len() && matches!(&self.rows[index], Row::File { .. })
    }

    fn rows(&self, index: usize) -> (r: usize) {
        if index < self.wrapped.pieces.len() && self.wrapped.pieces[index].len() > 0 {
            self.wrapped.pieces[index].len()
        } else {
            1
        }
    }

    fn width(&self, index: usize, seg: usize) -> (r: usize) {
        let at = self.piece(index, seg);
        let row = &self.rows[index];
        match row {
            Row::Line(line) => {
                let piece = text::slice(&*line.text, at.start, at.end);
                let chars = text::chars_of(piece);
                text::trim_end_len(chars.as_slice())
            },
            _ => row.drawn().unicode_len(),
        }
    }

    fn hunk_at(&self, index: usize) -> (r: Option<(&str, usize)>) {
        proof {
            self.past_the_end(index as int);
        }
        self.hunks.at(index)
    }

    fn hunk_span(&self, index: usize) -> (r: Option<(u32, u32)>) {
        proof {
            self.past_the_end(index as int);
        }
        self.hunks.span(index)
    }

    fn selectable(&self, index: usize, part: u16) -> (r: Option<&str>) {
        if index < self.rows.len() {
            Some(self.rows[index].drawn())
        } else {
            None
        }
    }
}

/// The spans of this presentation are ranges of its rows, and every row of a
/// range answers with that range.
pub proof fn text_rows_are_coherent(rows: TextRows)
    requires
        rows.wf(),
    ensures
        coherent(rows.model()),
{
    let m = rows.model();
    let spans = rows.hunks.spans@;
    assert forall|i: int| 0 <= i < m.len() && m[i].span is Some implies (
    #[trigger] m[i]).span.unwrap().0 <= i < m[i].span.unwrap().1 <= m.len() by {
        let k = over_is_an_entry(spans, i);
        assert(spans[k].end() <= rows.rows@.len());
    }
    assert forall|i: int, j: int|
        #![trigger m[i], m[j]]
        0 <= i < m.len() && m[i].span is Some && m[i].span.unwrap().0 <= j
            < m[i].span.unwrap().1 implies m[j].span == m[i].span by {
        let k = over_is_an_entry(spans, i);
        assert(spans[k].end() <= rows.rows@.len());
        every_row_of_a_hunk_answers(rows.hunks, k, j);
    }
}

// ---------------------------------------------------------------------------
// Width
// ---------------------------------------------------------------------------

impl TextRows {
    /// Whether a budget and a policy are other than those the rows were broken
    /// for.
    pub fn reflow_needed(&self, cols: usize, wrap: &str) -> (r: bool)
        ensures
            r == !(cols == self.cols && wrap@ == self.wrap@),
    {
        !(cols == self.cols && text::same(wrap, self.wrap))
    }

    /// A new budget of columns, and the policy's breaks for it: none where the
    /// policy breaks no lines. Says whether the rows may have changed, which a
    /// budget and a policy that are the same as before never do.
    pub fn reflow(&mut self, cols: usize, wrap: &'static str, breaks: Option<Wrapped>) -> (r: bool)
        requires
            old(self).wf(),
            breaks is Some ==> breaks.unwrap().fits(old(self).rows@),
        ensures
            final(self).wf(),
            final(self).rows == old(self).rows,
            final(self).hunks == old(self).hunks,
            final(self).moved == old(self).moved,
            rebroken(final(self).model(), old(self).model()),
            cols == old(self).cols && wrap@ == old(self).wrap@ ==> !r && *final(self) == *old(self),
            !(cols == old(self).cols && wrap@ == old(self).wrap@) ==> {
                &&& final(self).cols == cols
                &&& final(self).wrap@ == wrap@
                &&& match breaks {
                    Some(w) => r && final(self).wrapped == w,
                    None => r == old(self).wrapped.broken() && final(self).wrapped.pieces@.len()
                        == 0 && final(self).wrapped.rejected == 0,
                }
            },
    {
        if !self.reflow_needed(cols, wrap) {
            return false;
        }
        self.cols = cols;
        self.wrap = wrap;
        match breaks {
            Some(w) => {
                self.wrapped = w;
                true
            },
            None => {
                let broken: bool = self.wrapped.is_broken();
                self.wrapped = Wrapped::unbroken();
                broken
            },
        }
    }

    /// What this presentation says of itself on the overlay.
    pub open spec fn report_text(&self) -> Seq<char> {
        let said = if self.moved == 0 {
            seq![]
        } else {
            text::decimal(self.moved as nat) + " moved"@
        };
        if self.wrapped.rejected > 0 {
            said + (if said.len() == 0 {
                seq![]
            } else {
                " · "@
            }) + text::decimal(self.wrapped.rejected as nat) + " invalid breaks from "@ + self.wrap@
        } else {
            said
        }
    }

    /// How many rows moved, and how many breaks were thrown away: a policy whose
    /// every break was refused looks just like one that found nothing to do.
    pub fn report(&self) -> (r: String)
        ensures
            r@ == self.report_text(),
    {
        let mut out = String::new();
        if self.moved != 0 {
            text::push_decimal(&mut out, self.moved as u64);
            out.append(" moved");
        }
        let ghost said = out@;
        proof {
            text::decimal_is_never_empty(self.moved as nat);
            assert(said =~= if self.moved == 0 {
                seq![]
            } else {
                text::decimal(self.moved as nat) + " moved"@
            });
        }
        if self.wrapped.rejected > 0 {
            if self.moved != 0 {
                out.append(" · ");
            }
            text::push_decimal(&mut out, self.wrapped.rejected as u64);
            out.append(" invalid breaks from ");
            out.append(self.wrap);
            assert(out@ =~= self.report_text());
        }
        out
    }
}

// ---------------------------------------------------------------------------
// Clicks
// ---------------------------------------------------------------------------

/// Where a row's text starts: at the page padding, or at the code column.
#[derive(Clone, Copy, Debug, PartialEq, Eq, Structural)]
pub enum TextStart {
    Page,
    Code,
}

/// Where a click landed: which of the row's texts, and which byte of it.
#[derive(Clone, Copy, Debug, PartialEq, Eq, Structural)]
pub struct Hit {
    pub part: u16,
    pub off: usize,
}

impl TextRows {
    /// Where row `index`'s text starts. A hunk's band sits over the code.
    pub fn text_start(&self, index: usize) -> (r: Option<TextStart>)
        ensures
            r == if index < self.rows@.len() {
                Some(
                    if self.rows@[index as int] is File {
                        TextStart::Page
                    } else {
                        TextStart::Code
                    },
                )
            } else {
                None
            },
    {
        if index >= self.rows.len() {
            return None;
        }
        match &self.rows[index] {
            Row::File { .. } => Some(TextStart::Page),
            _ => Some(TextStart::Code),
        }
    }

    /// The byte that column `col` of segment `seg` of a row is, in the row's
    /// own text: a caret on the third row of a wrapped line addresses the line.
    pub open spec fn byte_at(&self, index: int, seg: int, col: nat) -> nat {
        let row = self.rows@[index];
        match row {
            Row::Line(line) => {
                let at = self.piece_of(index, seg);
                at.start as nat + text::column_byte(
                    text::sliced(line.text@, at.start as int, at.end as int),
                    col,
                )
            },
            _ => text::column_byte(row.text(), col),
        }
    }

    /// Where a click on column `col` of segment `seg` of row `index` landed.
    pub fn hit(&self, index: usize, seg: usize, col: usize) -> (r: Option<Hit>)
        requires
            self.wf(),
        ensures
            match r {
                Some(h) => index < self.rows@.len() && h.part == 0 && h.off == self.byte_at(
                    index as int,
                    seg as int,
                    col as nat,
                ) && h.off <= text::byte_len(self.rows@[index as int].text()),
                None => index >= self.rows@.len(),
            },
    {
        if index >= self.rows.len() {
            return None;
        }
        let row = &self.rows[index];
        match row {
            Row::Line(line) => {
                let at = self.piece(index, seg);
                let piece = text::slice(&*line.text, at.start, at.end);
                proof {
                    text::sliced_bytes(line.text@, at.start as int, at.end as int);
                }
                let off: usize = text::offset_of_column(piece, col);
                Some(Hit { part: 0, off: at.start + off })
            },
            _ => Some(Hit { part: 0, off: text::offset_of_column(row.drawn(), col) }),
        }
    }
}

// ---------------------------------------------------------------------------
// Drawing
// ---------------------------------------------------------------------------

/// A row as it is drawn.
#[derive(Debug)]
pub enum Drawn {
    File(FileBand),
    Hunk(HunkBand),
    Line(LineRow),
}

/// The background of a line's row.
pub open spec fn line_bg(kind: LineKind, moved: bool, inks: Inks) -> u32 {
    match (kind, moved) {
        (LineKind::Added, false) => inks.added_bg,
        (LineKind::Added, true) => inks.moved_added_bg,
        (LineKind::Removed, false) => inks.removed_bg,
        (LineKind::Removed, true) => inks.moved_removed_bg,
        (LineKind::Context, _) => inks.context_bg,
    }
}

/// The foreground of a line's row.
pub open spec fn line_fg(kind: LineKind, inks: Inks) -> u32 {
    match kind {
        LineKind::Added => inks.added_fg,
        LineKind::Removed => inks.removed_fg,
        LineKind::Context => inks.context_fg,
    }
}

/// The sign of a line.
pub open spec fn line_sign(kind: LineKind) -> Seq<char> {
    match kind {
        LineKind::Added => "+"@,
        LineKind::Removed => "-"@,
        LineKind::Context => " "@,
    }
}

/// Segment `seg` of a line, drawing `piece` of it. A continuation carries no
/// number and no sign.
pub open spec fn draws_line(
    row: LineRow,
    line: Line,
    seg: int,
    piece: Span,
    inks: Inks,
    sel: Span,
    state: RowState,
) -> bool {
    let bg = background_of(state.current, line_bg(line.kind, line.moved, inks), inks);
    let fg = line_fg(line.kind, inks);
    &&& row.edge == (Edge {
        bg,
        bar: bar_of(state, bg, inks),
        extent: extent_of_row(state, bg, inks),
    })
    &&& row.gutter == gutter_of(line.kind, line.moved, state, inks)
    &&& row.old@ == number_text(line.old_no, seg > 0)
    &&& row.new@ == number_text(line.new_no, seg > 0)
    &&& row.sign@ == if seg > 0 {
        " "@
    } else {
        line_sign(line.kind)
    }
    &&& row.sign_fg == if state.armed {
        inks.error
    } else {
        fg
    }
    &&& row.fg == fg
    &&& row.piece == piece
    &&& row.lit == sel
}

impl TextRows {
    /// Segment `seg` of row `index` as it is drawn. `marker` is how many bytes
    /// the coordinates of a hunk's band take.
    pub fn render(
        &self,
        index: usize,
        seg: usize,
        inks: &Inks,
        sel: Option<Selected>,
        state: RowState,
        marker: usize,
    ) -> (r: Drawn)
        requires
            self.wf(),
            index < self.rows@.len(),
        ensures
            match self.rows@[index as int] {
                Row::File { path, adds, dels } => r is File && r->File_0.names(
                    path@,
                    adds,
                    dels,
                    *inks,
                    selected_bytes(sel, 0),
                    state,
                ),
                Row::Hunk(_) => r is Hunk && r->Hunk_0.heads(
                    marker,
                    *inks,
                    selected_bytes(sel, 0),
                    state,
                ),
                Row::Line(line) => r is Line && draws_line(
                    r->Line_0,
                    line,
                    seg as int,
                    self.piece_of(index as int, seg as int),
                    *inks,
                    selected_bytes(sel, 0),
                    state,
                ),
            },
    {
        let piece = self.piece(index, seg);
        match &self.rows[index] {
            Row::File { path, adds, dels } => Drawn::File(
                file_header(&**path, *adds, *dels, inks, sel, state),
            ),
            Row::Hunk(_) => Drawn::Hunk(hunk_header(marker, inks, sel, state)),
            Row::Line(line) => {
                let (base, fg, sign) = line_colors(line.kind, line.moved, inks);
                let bg: u32 = row_background(state.current, base, inks);
                let blank: bool = seg > 0;
                Drawn::Line(
                    LineRow {
                        edge: Edge {
                            bg,
                            bar: row_bar(state, bg, inks),
                            extent: extent_ink(state, bg, inks),
                        },
                        gutter: gutter_ink(line.kind, line.moved, state, inks),
                        old: number(line.old_no, blank),
                        new: number(line.new_no, blank),
                        sign: if blank {
                            " "
                        } else {
                            sign
                        },
                        sign_fg: if state.armed {
                            inks.error
                        } else {
                            fg
                        },
                        fg,
                        piece,
                        lit: selected(sel, 0),
                    },
                )
            },
        }
    }
}

} // verus!
