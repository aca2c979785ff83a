//! The order table of a diff: which presentation draws which row, and on how
//! many rows of the screen.
//!
//! A presentation counts *logical* rows: a file header, a hunk header, a line.
//! A line too wide for the window is drawn on several *visual* rows. The order
//! table has one entry per visual row, and each entry says which logical row it
//! belongs to and which of that row's segments it is.
use std::sync::Arc;
use vstd::prelude::*;

verus! {

/// What a line of a hunk is.
#[derive(Clone, Copy, Debug, PartialEq, Eq, Structural)]
pub enum LineKind {
    Context,
    Added,
    Removed,
}

/// One syntax token of a line: bytes `start..end` are of kind `kind`.
#[derive(Clone, Copy, Debug, PartialEq, Eq, Structural)]
pub struct Token {
    pub start: usize,
    pub end: usize,
    pub kind: u16,
}

/// Bytes `start..end` of a line: what changed in it.
#[derive(Clone, Copy, Debug, PartialEq, Eq, Structural)]
pub struct Span {
    pub start: usize,
    pub end: usize,
}

/// One line of a hunk.
#[derive(Debug)]
pub struct Line {
    pub kind: LineKind,
    /// Part of a block that was moved rather than written or deleted.
    pub moved: bool,
    pub old_no: Option<u32>,
    pub new_no: Option<u32>,
    pub text: Arc<str>,
    pub spans: Arc<Vec<Span>>,
    pub tokens: Arc<Vec<Token>>,
}

/// One hunk of a file.
#[derive(Debug)]
pub struct Hunk {
    pub header: Arc<str>,
    pub lines: Vec<Line>,
}

/// One file of a diff, ready to be turned into rows.
#[derive(Debug)]
pub struct File {
    pub path: Arc<str>,
    pub adds: usize,
    pub dels: usize,
    pub hunks: Vec<Hunk>,
}

/// One visual row: segment `seg` of logical row `index` of presentation `owner`.
#[derive(Clone, Copy, Debug, PartialEq, Eq, Structural)]
pub struct RowRef {
    pub owner: u16,
    pub seg: u16,
    pub index: u32,
}

impl RowRef {
    /// The logical row this entry belongs to: what survives a change of width.
    pub open spec fn id(self) -> (u16, u32) {
        (self.owner, self.index)
    }

    /// The logical row this entry belongs to.
    pub fn logical(&self) -> (r: (u16, u32))
        ensures
            r == self.id(),
    {
        (self.owner, self.index)
    }
}

/// Whether two references name the same logical row.
pub fn same_id(a: (u16, u32), b: (u16, u32)) -> (r: bool)
    ensures
        r == (a == b),
{
    a.0 == b.0 && a.1 == b.1
}

/// An order table, the position of its widest row, and where the anchor landed.
pub struct Ordered {
    pub order: Vec<RowRef>,
    pub widest: usize,
    pub anchor: usize,
}

/// What a presentation says of one of its logical rows.
pub ghost struct RowModel {
    /// It is the band that names a file, which a one-file diff leaves out.
    pub file_header: bool,
    /// A jump from file to file stops here.
    pub header: bool,
    /// How many visual rows it says it takes.
    pub rows: nat,
    /// How wide each of those is, in characters.
    pub widths: Seq<nat>,
    /// The hunk it belongs to: its file's path, and which hunk of that file.
    pub hunk: Option<(Seq<char>, nat)>,
    /// The logical rows that hunk spans.
    pub span: Option<(u32, u32)>,
    /// The text of each of its parts.
    pub texts: Map<u16, Seq<char>>,
    /// The line of the diff it shows: its kind, its numbers, what changed in it.
    pub line: Option<Line>,
    /// The lines added and removed that the band of a file counts.
    pub totals: Option<(usize, usize)>,
}

/// The rows of a presentation, as its contracts speak of them.
pub type Models = Seq<RowModel>;

/// A path, as the contracts speak of it.
pub type PathText = Seq<char>;

/// Turns one file's diff into rows.
///
/// A presentation decides which files it wants, how many rows each becomes, and
/// how they address the hunks of the diff underneath.
pub trait Rows: Sized {
    /// The rows held so far.
    spec fn model(&self) -> Models;

    /// The files this presentation wants.
    spec fn wants(&self, path: PathText) -> bool;

    /// The rows that `file` adds behind the rows `before` it.
    spec fn rows_for(&self, before: Models, file: File) -> Models;

    /// What must hold of a presentation for its rows to be read or added to.
    spec fn ready(&self) -> bool;

    /// What must hold of a file for it to be added behind `before`.
    spec fn takes(&self, before: Models, file: File) -> bool;

    /// Whether this presentation wants the file. The last registered claimant
    /// wins, so a specialist can take a file from a generalist.
    fn claims(&self, path: &str) -> (r: bool)
        ensures
            r == self.wants(path@),
    ;

    /// How many rows this presentation holds.
    fn len(&self) -> (r: usize)
        requires
            self.ready(),
        ensures
            r == self.model().len(),
    ;

    /// Appends the rows for `file`. The rows already there stay as they are.
    fn build(&mut self, file: &File)
        requires
            old(self).ready(),
            old(self).takes(old(self).model(), *file),
        ensures
            final(self).ready(),
            final(self).model() == old(self).model() + old(self).rows_for(
                old(self).model(),
                *file,
            ),
            forall|p: Seq<char>| #[trigger] final(self).wants(p) == old(self).wants(p),
            forall|b: Seq<RowModel>, f: File| #[trigger]
                final(self).rows_for(b, f) == old(self).rows_for(b, f),
            forall|b: Seq<RowModel>, f: File| #[trigger]
                final(self).takes(b, f) == old(self).takes(b, f),
    ;

    /// Whether a row is the band that names a file. The list leaves it out of a
    /// diff of one file.
    fn is_file_header(&self, index: usize) -> (r: bool)
        requires
            self.ready(),
        ensures
            r == (index < self.model().len() && self.model()[index as int].file_header),
    ;

    /// Whether a jump from file to file stops on this row.
    fn is_header(&self, index: usize) -> (r: bool)
        requires
            self.ready(),
        ensures
            r == (index < self.model().len() && self.model()[index as int].header),
    ;

    /// How many visual rows a row takes. More than one only when its text wraps.
    fn rows(&self, index: usize) -> (r: usize)
        requires
            self.ready(),
        ensures
            r == if index < self.model().len() {
                self.model()[index as int].rows
            } else {
                1
            },
    ;

    /// The width of a visual row, in characters.
    fn width(&self, index: usize, seg: usize) -> (r: usize)
        requires
            self.ready(),
            index < self.model().len(),
            seg < shown_rows(self.model()[index as int]),
        ensures
            r == self.model()[index as int].widths[seg as int],
    ;

    /// Which hunk a row belongs to: its file's path, and which hunk of it.
    fn hunk_at(&self, index: usize) -> (r: Option<(&str, usize)>)
        requires
            self.ready(),
        ensures
            match r {
                Some((path, n)) => n < usize::MAX && index < self.model().len()
                    && self.model()[index as int].hunk == Some((path@, n as nat)),
                None => index < self.model().len() ==> self.model()[index as int].hunk is None,
            },
    ;

    /// The logical rows that the hunk under a row spans, first through one past
    /// the last.
    fn hunk_span(&self, index: usize) -> (r: Option<(u32, u32)>)
        requires
            self.ready(),
        ensures
            r == if index < self.model().len() {
                self.model()[index as int].span
            } else {
                None
            },
    ;

    /// The text of one of a row's parts: what a selection over it copies.
    fn selectable(&self, index: usize, part: u16) -> (r: Option<&str>)
        requires
            self.ready(),
        ensures
            match r {
                Some(text) => index < self.model().len()
                    && self.model()[index as int].texts.contains_key(part)
                    && self.model()[index as int].texts[part] == text@,
                None => index < self.model().len()
                    ==> !self.model()[index as int].texts.contains_key(part),
            },
    ;
}

/// Two presentations that claim the same files, and that add the same rows for
/// the same file behind the same rows.
pub open spec fn same_rules<R: Rows>(a: R, b: R) -> bool {
    &&& forall|p: Seq<char>| #[trigger] a.wants(p) == b.wants(p)
    &&& forall|before: Seq<RowModel>, f: File| #[trigger]
        a.rows_for(before, f) == b.rows_for(before, f)
    &&& forall|before: Seq<RowModel>, f: File| #[trigger]
        a.takes(before, f) == b.takes(before, f)
}

/// How many entries a row gets in the order table: what it asks for, but at
/// least one, and no more than a segment number can count.
pub open spec fn shown_rows(row: RowModel) -> nat {
    if row.rows < 1 {
        1
    } else if row.rows > 0xffff {
        0xffff
    } else {
        row.rows
    }
}

/// The same rows, broken for another width: all that a row says but how many rows
/// it takes and how wide those are.
pub open spec fn rebroken(a: Seq<RowModel>, b: Seq<RowModel>) -> bool {
    &&& a.len() == b.len()
    &&& forall|i: int|
        #![trigger a[i]]
        #![trigger b[i]]
        0 <= i < a.len() ==> a[i] == (RowModel { rows: a[i].rows, widths: a[i].widths, ..b[i] })
}

/// Every presentation has the same rows, broken for another width.
pub open spec fn all_rebroken(a: Seq<Seq<RowModel>>, b: Seq<Seq<RowModel>>) -> bool {
    &&& a.len() == b.len()
    &&& forall|o: int|
        #![trigger a[o]]
        #![trigger b[o]]
        0 <= o < a.len() ==> rebroken(a[o], b[o])
}

/// The rows of every presentation.
pub open spec fn models<R: Rows>(rs: Seq<R>) -> Seq<Seq<RowModel>> {
    rs.map_values(|r: R| r.model())
}

/// Every presentation may be read.
pub open spec fn all_ready<R: Rows>(rs: Seq<R>) -> bool {
    forall|i: int| 0 <= i < rs.len() ==> (#[trigger] rs[i]).ready()
}

/// A logical row that some presentation has.
pub open spec fn known(m: Seq<Seq<RowModel>>, id: (u16, u32)) -> bool {
    id.0 < m.len() && id.1 < m[id.0 as int].len()
}

/// The row a reference names.
pub open spec fn row_of(m: Seq<Seq<RowModel>>, id: (u16, u32)) -> RowModel {
    m[id.0 as int][id.1 as int]
}

/// Every reference to a presentation that exists names a row it has.
pub open spec fn addresses(m: Seq<Seq<RowModel>>, refs: Seq<RowRef>) -> bool {
    forall|i: int|
        0 <= i < refs.len() && refs[i].owner < m.len() ==> (#[trigger] refs[i]).index
            < m[refs[i].owner as int].len()
}

/// The logical rows of a table, in order: entries in a row that name the same
/// logical row are one.
pub open spec fn collapsed(refs: Seq<RowRef>) -> Seq<(u16, u32)>
    decreases refs.len(),
{
    if refs.len() == 0 {
        seq![]
    } else if refs.len() >= 2 && refs[refs.len() - 2].id() == refs.last().id() {
        collapsed(refs.drop_last())
    } else {
        collapsed(refs.drop_last()).push(refs.last().id())
    }
}

/// Those of `ids` whose presentation exists, in order.
pub open spec fn drawable(n: nat, ids: Seq<(u16, u32)>) -> Seq<(u16, u32)>
    decreases ids.len(),
{
    if ids.len() == 0 {
        seq![]
    } else if ids.last().0 < n {
        drawable(n, ids.drop_last()).push(ids.last())
    } else {
        drawable(n, ids.drop_last())
    }
}

/// The entries of one logical row.
pub open spec fn segments(m: Seq<Seq<RowModel>>, id: (u16, u32)) -> Seq<RowRef> {
    Seq::new(
        shown_rows(row_of(m, id)),
        |seg: int| RowRef { owner: id.0, seg: seg as u16, index: id.1 },
    )
}

/// The order table of a list of logical rows: each row's entries, row after row.
pub open spec fn laid_out(m: Seq<Seq<RowModel>>, ids: Seq<(u16, u32)>) -> Seq<RowRef>
    decreases ids.len(),
{
    if ids.len() == 0 {
        seq![]
    } else {
        laid_out(m, ids.drop_last()) + segments(m, ids.last())
    }
}

/// Where the rows that a file jump stops on start in the order table.
pub open spec fn header_rows(m: Seq<Seq<RowModel>>, ids: Seq<(u16, u32)>) -> Seq<int>
    decreases ids.len(),
{
    if ids.len() == 0 {
        seq![]
    } else if row_of(m, ids.last()).header {
        header_rows(m, ids.drop_last()).push(laid_out(m, ids.drop_last()).len() as int)
    } else {
        header_rows(m, ids.drop_last())
    }
}

/// Where `anchor` starts in the order table, or the top where it is not in it.
pub open spec fn anchor_row(
    m: Seq<Seq<RowModel>>,
    ids: Seq<(u16, u32)>,
    anchor: Option<(u16, u32)>,
) -> int
    decreases ids.len(),
{
    if ids.len() == 0 {
        0
    } else if anchor == Some(ids.last()) {
        laid_out(m, ids.drop_last()).len() as int
    } else {
        anchor_row(m, ids.drop_last(), anchor)
    }
}

/// How wide a visual row is.
pub open spec fn width_at(m: Seq<Seq<RowModel>>, r: RowRef) -> nat {
    row_of(m, r.id()).widths[r.seg as int]
}

/// `at` is the first of the widest rows. An empty table says 0.
pub open spec fn widest_at(m: Seq<Seq<RowModel>>, order: Seq<RowRef>, at: int) -> bool {
    if order.len() == 0 {
        at == 0
    } else {
        &&& 0 <= at < order.len()
        &&& forall|i: int|
            0 <= i < order.len() ==> width_at(m, #[trigger] order[i]) <= width_at(m, order[at])
        &&& forall|i: int| 0 <= i < at ==> width_at(m, #[trigger] order[i]) < width_at(m, order[at])
    }
}

/// The indices of a list of positions.
pub open spec fn positions(v: Seq<usize>) -> Seq<int> {
    v.map_values(|i: usize| i as int)
}

proof fn collapsed_step(refs: Seq<RowRef>, i: int)
    requires
        0 <= i < refs.len(),
    ensures
        collapsed(refs.take(i + 1)) == if i > 0 && refs[i - 1].id() == refs[i].id() {
            collapsed(refs.take(i))
        } else {
            collapsed(refs.take(i)).push(refs[i].id())
        },
{
    let s = refs.take(i + 1);
    assert(s.drop_last() =~= refs.take(i));
}

proof fn drawable_step(n: nat, ids: Seq<(u16, u32)>, id: (u16, u32))
    ensures
        drawable(n, ids.push(id)) == if id.0 < n {
            drawable(n, ids).push(id)
        } else {
            drawable(n, ids)
        },
{
    assert(ids.push(id).drop_last() =~= ids);
}

/// Expands one entry per logical row into one per visual row.
///
/// `logical` may already be expanded: entries in a row that name the same
/// logical row are one, so a table is its own source of truth and a change of
/// width needs no second one. Entries of a presentation that does not exist are
/// dropped. Besides the table comes where the file headers landed in it.
pub fn expand<R: Rows>(
    logical: &[RowRef],
    renderers: &[R],
    anchor: Option<RowRef>,
) -> (r: (Ordered, Vec<usize>))
    requires
        all_ready(renderers@),
        addresses(models(renderers@), logical@),
    ensures
        ({
            let m = models(renderers@);
            let ids = drawable(m.len(), collapsed(logical@));
            let at = match anchor {
                Some(a) => Some(a.id()),
                None => None,
            };
            &&& r.0.order@ == laid_out(m, ids)
            &&& widest_at(m, r.0.order@, r.0.widest as int)
            &&& r.0.anchor == anchor_row(m, ids, at)
            &&& positions(r.1@) == header_rows(m, ids)
        }),
{
    let ghost m = models(renderers@);
    let ghost n = m.len();
    let at: Option<(u16, u32)> = match anchor {
        Some(a) => Some(a.logical()),
        None => None,
    };
    let mut order: Vec<RowRef> = Vec::new();
    let mut headers: Vec<usize> = Vec::new();
    let mut widest: usize = 0;
    let mut widest_row: usize = 0;
    let mut found: usize = 0;
    let mut i: usize = 0;
    let ghost mut ids: Seq<(u16, u32)> = seq![];
    proof {
        assert(collapsed(logical@.take(0)) =~= seq![]);
        assert(positions(headers@) =~= header_rows(m, ids));
    }
    while i < logical.len()
        invariant
            m == models(renderers@),
            n == m.len() == renderers@.len(),
            all_ready(renderers@),
            addresses(m, logical@),
            i <= logical@.len(),
            0 < i < logical@.len() ==> logical@[i - 1].id() != logical@[i as int].id(),
            ids == drawable(n, collapsed(logical@.take(i as int))),
            order@ == laid_out(m, ids),
            positions(headers@) == header_rows(m, ids),
            found == anchor_row(m, ids, at),
            widest_at(m, order@, widest_row as int),
            order@.len() > 0 ==> widest == width_at(m, order@[widest_row as int]),
            order@.len() == 0 ==> widest == 0,
            forall|k: int| 0 <= k < order@.len() ==> known(m, (#[trigger] order@[k]).id()),
        decreases logical@.len() - i,
    {
        let r = logical[i];
        let ghost before = collapsed(logical@.take(i as int));
        let ghost id = r.id();
        let ghost from = i;
        proof {
            collapsed_step(logical@, i as int);
        }
        i += 1;
        while i < logical.len() && same_id(logical[i].logical(), r.logical())
            invariant
                from < i <= logical@.len(),
                id == r.id(),
                logical@[i - 1].id() == id,
                collapsed(logical@.take(i as int)) == before.push(id),
            decreases logical@.len() - i,
        {
            proof {
                collapsed_step(logical@, i as int);
            }
            i += 1;
        }
        proof {
            drawable_step(n, before, id);
        }
        if (r.owner as usize) < renderers.len() {
            let rows = &renderers[r.owner as usize];
            let index: usize = r.index as usize;
            let ghost done = ids;
            proof {
                assert(m[r.owner as int] == rows.model());
                assert(rows.ready());
                ids = ids.push(id);
                assert(ids.drop_last() =~= done);
            }
            let start: usize = order.len();
            if let Some(a) = at {
                if same_id(a, r.logical()) {
                    found = start;
                }
            }
            if rows.is_header(index) {
                headers.push(start);
            }
            assert(positions(headers@) =~= header_rows(m, ids));
            let asked: usize = rows.rows(index);
            let count: usize = if asked < 1 {
                1
            } else if asked > 0xffff {
                0xffff
            } else {
                asked
            };
            let ghost segs = segments(m, id);
            assert(segs.len() == count);
            let mut seg: usize = 0;
            assert(order@ =~= laid_out(m, done) + segs.take(0));
            while seg < count
                invariant
                    seg <= count <= 0xffff,
                    rows.ready(),
                    rows.model() == m[r.owner as int],
                    index < rows.model().len(),
                    id == r.id(),
                    known(m, id),
                    index == r.index,
                    count == shown_rows(rows.model()[index as int]),
                    segs == segments(m, id),
                    segs.len() == count,
                    order@ == laid_out(m, done) + segs.take(seg as int),
                    widest_at(m, order@, widest_row as int),
                    order@.len() > 0 ==> widest == width_at(m, order@[widest_row as int]),
                    order@.len() == 0 ==> widest == 0,
                    forall|k: int| 0 <= k < order@.len() ==> known(m, (#[trigger] order@[k]).id()),
                decreases count - seg,
            {
                let w: usize = rows.width(index, seg);
                let entry = RowRef { owner: r.owner, seg: seg as u16, index: r.index };
                let ghost earlier = order@;
                assert(width_at(m, entry) == w);
                if w > widest {
                    widest = w;
                    widest_row = order.len();
                }
                order.push(entry);
                proof {
                    assert(segs.take(seg + 1) =~= segs.take(seg as int).push(segs[seg as int]));
                    assert(segs[seg as int] == entry);
                    assert(order@ =~= laid_out(m, done) + segs.take(seg + 1));
                    assert forall|k: int| 0 <= k < earlier.len() implies order@[k] == earlier[k] by {}
                }
                seg += 1;
            }
            assert(segs.take(seg as int) =~= segs);
        }
    }
    assert(logical@.take(i as int) =~= logical@);
    (Ordered { order, widest: widest_row, anchor: found }, headers)
}

// ---------------------------------------------------------------------------
// Hunks
// ---------------------------------------------------------------------------

/// The hunk a row of the table belongs to, as its presentation spans it.
pub open spec fn span_at(m: Seq<Seq<RowModel>>, r: RowRef) -> Option<(u32, u32)> {
    if known(m, r.id()) {
        row_of(m, r.id()).span
    } else {
        None
    }
}

/// A hunk that the walk over the table is inside of: `(owner, first, end)`.
pub open spec fn inside(open: Option<(u16, u32, u32)>, r: RowRef) -> bool {
    open is Some && open.unwrap().0 == r.owner && r.index < open.unwrap().2
}

/// One walk over the table, and the hunk it ends inside of. A row asks its
/// presentation only where the hunk the walk is in does not reach it.
pub open spec fn walked(m: Seq<Seq<RowModel>>, order: Seq<RowRef>) -> (
    Seq<int>,
    Option<(u16, u32, u32)>,
)
    decreases order.len(),
{
    if order.len() == 0 {
        (seq![], None)
    } else {
        let (marks, open) = walked(m, order.drop_last());
        let r = order.last();
        let span = if inside(open, r) {
            Some((open.unwrap().1, open.unwrap().2))
        } else {
            span_at(m, r)
        };
        let open = match span {
            Some(s) => Some((r.owner, s.0, s.1)),
            None => None,
        };
        if r.seg == 0 && span is Some && span.unwrap().0 == r.index {
            (marks.push(order.len() - 1), open)
        } else {
            (marks, open)
        }
    }
}

/// The visual rows that hunks start on: the first segment of a hunk's first row.
pub open spec fn hunk_starts(m: Seq<Seq<RowModel>>, order: Seq<RowRef>) -> Seq<int>
    decreases order.len(),
{
    if order.len() == 0 {
        seq![]
    } else {
        let r = order.last();
        let earlier = hunk_starts(m, order.drop_last());
        if r.seg == 0 && span_at(m, r) is Some && span_at(m, r).unwrap().0 == r.index {
            earlier.push(order.len() - 1)
        } else {
            earlier
        }
    }
}

/// The spans of a presentation are ranges of its rows, and every row of a range
/// answers with that range.
pub open spec fn coherent(rows: Seq<RowModel>) -> bool {
    &&& forall|i: int|
        0 <= i < rows.len() && rows[i].span is Some ==> (#[trigger] rows[i]).span.unwrap().0 <= i
            < rows[i].span.unwrap().1 <= rows.len()
    &&& forall|i: int, j: int|
        #![trigger rows[i], rows[j]]
        0 <= i < rows.len() && rows[i].span is Some && rows[i].span.unwrap().0 <= j
            < rows[i].span.unwrap().1 ==> rows[j].span == rows[i].span
}

/// Rows of one presentation come in its own order.
pub open spec fn rising(order: Seq<RowRef>) -> bool {
    forall|i: int, j: int|
        #![trigger order[i], order[j]]
        0 <= i < j < order.len() && order[i].owner == order[j].owner ==> order[i].index
            <= order[j].index
}

/// Where each hunk starts in the table, found in one walk: a presentation is
/// asked once per hunk, not once per row.
pub fn hunk_marks<R: Rows>(order: &[RowRef], renderers: &[R]) -> (marks: Vec<usize>)
    requires
        all_ready(renderers@),
    ensures
        positions(marks@) == walked(models(renderers@), order@).0,
{
    let ghost m = models(renderers@);
    let mut marks: Vec<usize> = Vec::new();
    let mut open: Option<(u16, u32, u32)> = None;
    let mut i: usize = 0;
    assert(positions(marks@) =~= walked(m, order@.take(0)).0);
    while i < order.len()
        invariant
            m == models(renderers@),
            m.len() == renderers@.len(),
            all_ready(renderers@),
            i <= order@.len(),
            walked(m, order@.take(i as int)) == (positions(marks@), open),
        decreases order@.len() - i,
    {
        let r = order[i];
        assert(order@.take(i + 1).drop_last() =~= order@.take(i as int));
        let cached: Option<(u32, u32)> = match open {
            Some((owner, start, end)) => if owner == r.owner && r.index < end {
                Some((start, end))
            } else {
                None
            },
            None => None,
        };
        let span: Option<(u32, u32)> = match cached {
            Some(s) => Some(s),
            None => if (r.owner as usize) < renderers.len() {
                let rows = &renderers[r.owner as usize];
                assert(m[r.owner as int] == rows.model());
                rows.hunk_span(r.index as usize)
            } else {
                None
            },
        };
        let ghost earlier = marks@;
        match span {
            Some(s) => {
                open = Some((r.owner, s.0, s.1));
                if r.seg == 0 && s.0 == r.index {
                    marks.push(i);
                    assert(positions(marks@) =~= positions(earlier).push(i as int));
                }
            },
            None => {
                open = None;
            },
        }
        i += 1;
    }
    assert(order@.take(i as int) =~= order@);
    marks
}

/// The walk finds every hunk's first row and nothing else, wherever spans are
/// ranges and rows come in order.
pub proof fn marks_are_hunk_starts(m: Seq<Seq<RowModel>>, order: Seq<RowRef>)
    requires
        addresses(m, order),
        rising(order),
        forall|o: int| 0 <= o < m.len() ==> coherent(#[trigger] m[o]),
    ensures
        walked(m, order).0 == hunk_starts(m, order),
{
    walk_is_exact(m, order);
}

proof fn walk_is_exact(m: Seq<Seq<RowModel>>, order: Seq<RowRef>)
    requires
        addresses(m, order),
        rising(order),
        forall|o: int| 0 <= o < m.len() ==> coherent(#[trigger] m[o]),
    ensures
        walked(m, order).0 == hunk_starts(m, order),
        walked(m, order).1 is Some ==> order.len() > 0 && ({
            let open = walked(m, order).1->0;
            let r = order.last();
            &&& open.0 == r.owner < m.len()
            &&& span_at(m, r) == Some((open.1, open.2))
        }),
    decreases order.len(),
{
    if order.len() > 0 {
        let rest = order.drop_last();
        assert forall|i: int| 0 <= i < rest.len() && rest[i].owner < m.len() implies (
        #[trigger] rest[i]).index < m[rest[i].owner as int].len() by {
            assert(rest[i] == order[i]);
        }
        assert forall|i: int, j: int|
            #![trigger rest[i], rest[j]]
            0 <= i < j < rest.len() && rest[i].owner == rest[j].owner implies rest[i].index
            <= rest[j].index by {
            assert(rest[i] == order[i] && rest[j] == order[j]);
        }
        walk_is_exact(m, rest);
        let open = walked(m, rest).1;
        let r = order.last();
        if inside(open, r) {
            let last = rest.last();
            assert(order[order.len() - 2] == last && order[order.len() - 1] == r);
            assert(last.index <= r.index);
            let rows = m[r.owner as int];
            assert(coherent(rows));
            assert(rows[last.index as int].span == span_at(m, last));
            assert(r.index < rows.len());
            assert(rows[r.index as int].span == rows[last.index as int].span);
        }
    }
}

/// A hunk as the rows address it: which presentation owns it, and the logical
/// rows it spans there.
#[derive(Clone, Copy, Debug, PartialEq, Eq)]
pub struct HunkExtent {
    pub owner: u16,
    /// First logical row of the hunk, and one past its last.
    pub span: (u32, u32),
}

impl HunkExtent {
    /// Whether a row of the table is inside this hunk.
    pub fn contains(&self, owner: u16, index: u32) -> (r: bool)
        ensures
            r == (self.owner == owner && self.span.0 <= index < self.span.1),
    {
        self.owner == owner && self.span.0 <= index && index < self.span.1
    }
}

/// The hunk standing over one row of the table, as its presentation holds it.
pub fn extent_of<R: Rows>(renderers: &[R], owner: u16, index: u32) -> (r: Option<HunkExtent>)
    requires
        all_ready(renderers@),
    ensures
        match span_at(models(renderers@), (RowRef { owner, seg: 0, index })) {
            Some(span) => r == Some((HunkExtent { owner, span })),
            None => r is None,
        },
{
    if owner as usize >= renderers.len() {
        return None;
    }
    let rows = &renderers[owner as usize];
    assert(models(renderers@)[owner as int] == rows.model());
    match rows.hunk_span(index as usize) {
        Some(span) => Some(HunkExtent { owner, span }),
        None => None,
    }
}

/// A row is inside the extent of the row it was taken from exactly where both
/// rows answer with the same hunk.
pub proof fn extent_is_the_hunk(m: Seq<Seq<RowModel>>, at: RowRef, r: RowRef)
    requires
        forall|o: int| 0 <= o < m.len() ==> coherent(#[trigger] m[o]),
        at.owner < m.len() && at.index < m[at.owner as int].len(),
        r.owner < m.len() && r.index < m[r.owner as int].len(),
        span_at(m, at) is Some,
    ensures
        (at.owner == r.owner && span_at(m, at).unwrap().0 <= r.index < span_at(m, at).unwrap().1) <==> (
        at.owner == r.owner && span_at(m, r) == span_at(m, at)),
{
    let rows = m[at.owner as int];
    assert(coherent(rows));
    if at.owner == r.owner {
        if span_at(m, r) == span_at(m, at) {
            assert(rows[r.index as int].span == rows[at.index as int].span);
        }
        if span_at(m, at).unwrap().0 <= r.index < span_at(m, at).unwrap().1 {
            assert(rows[r.index as int].span == rows[at.index as int].span);
        }
    }
}

// ---------------------------------------------------------------------------
// Arranging a whole diff
// ---------------------------------------------------------------------------

/// The last of the first `n` presentations that wants a path, or the first.
pub open spec fn claimant_among<R: Rows>(rs: Seq<R>, path: Seq<char>, n: nat) -> nat
    decreases n,
{
    if n == 0 {
        0
    } else if rs[n - 1].wants(path) {
        (n - 1) as nat
    } else {
        claimant_among(rs, path, (n - 1) as nat)
    }
}

/// Which presentation a file goes to: the last one that wants it, or the first
/// where none does.
pub open spec fn claimant<R: Rows>(rs: Seq<R>, path: Seq<char>) -> int {
    claimant_among(rs, path, rs.len()) as int
}

/// Every presentation's rows once it has been handed its files.
pub open spec fn grown<R: Rows>(rs: Seq<R>, files: Seq<File>) -> Seq<Seq<RowModel>>
    decreases files.len(),
{
    if files.len() == 0 {
        models(rs)
    } else {
        let m = grown(rs, files.drop_last());
        let o = claimant(rs, files.last().path@);
        m.update(o, m[o] + rs[o].rows_for(m[o], files.last()))
    }
}

/// Rows `first..` of a presentation as entries of the table, without the bands
/// that name a file where `bare` asks for that.
pub open spec fn entries(rows: Seq<RowModel>, owner: int, first: int, bare: bool) -> Seq<RowRef>
    decreases rows.len(),
{
    if rows.len() <= first || rows.len() == 0 {
        seq![]
    } else {
        let earlier = entries(rows.drop_last(), owner, first, bare);
        if bare && rows.last().file_header {
            earlier
        } else {
            earlier.push(RowRef { owner: owner as u16, seg: 0, index: (rows.len() - 1) as u32 })
        }
    }
}

/// The logical rows of a diff, file after file. The only file of a diff does
/// without the band that names it, unless it has nothing else to show.
pub open spec fn arranged<R: Rows>(rs: Seq<R>, files: Seq<File>, only: bool) -> Seq<RowRef>
    decreases files.len(),
{
    if files.len() == 0 {
        seq![]
    } else {
        let f = files.last();
        let o = claimant(rs, f.path@);
        arranged(rs, files.drop_last(), only) + entries(
            grown(rs, files)[o],
            o,
            grown(rs, files.drop_last())[o].len() as int,
            only && f.hunks@.len() > 0,
        )
    }
}

/// Each file can be taken by the presentation it goes to, and the rows stay
/// within what a row number can count.
pub open spec fn arrangeable<R: Rows>(rs: Seq<R>, files: Seq<File>) -> bool
    decreases files.len(),
{
    files.len() == 0 || {
        let m = grown(rs, files.drop_last());
        let o = claimant(rs, files.last().path@);
        &&& arrangeable(rs, files.drop_last())
        &&& rs[o].takes(m[o], files.last())
        &&& m[o].len() + rs[o].rows_for(m[o], files.last()).len() <= u32::MAX
    }
}

/// The logical rows that a table of unwrapped rows lists.
pub open spec fn ids_of(refs: Seq<RowRef>) -> Seq<(u16, u32)> {
    refs.map_values(|r: RowRef| r.id())
}

/// No two entries in a row name the same logical row.
pub open spec fn distinct(refs: Seq<RowRef>) -> bool {
    forall|i: int| 0 < i < refs.len() ==> refs[i - 1].id() != (#[trigger] refs[i]).id()
}

proof fn collapsed_of_distinct(refs: Seq<RowRef>)
    requires
        distinct(refs),
    ensures
        collapsed(refs) == ids_of(refs),
    decreases refs.len(),
{
    if refs.len() > 0 {
        let rest = refs.drop_last();
        assert forall|i: int| 0 < i < rest.len() implies rest[i - 1].id() != (
        #[trigger] rest[i]).id() by {
            assert(rest[i] == refs[i] && rest[i - 1] == refs[i - 1]);
        }
        collapsed_of_distinct(rest);
        assert(refs[refs.len() - 1].id() == refs.last().id());
        assert(ids_of(refs) =~= ids_of(rest).push(refs.last().id()));
    } else {
        assert(ids_of(refs) =~= seq![]);
    }
}

proof fn drawable_of_known(n: nat, ids: Seq<(u16, u32)>)
    requires
        forall|i: int| 0 <= i < ids.len() ==> (#[trigger] ids[i]).0 < n,
    ensures
        drawable(n, ids) == ids,
    decreases ids.len(),
{
    if ids.len() > 0 {
        let rest = ids.drop_last();
        assert forall|i: int| 0 <= i < rest.len() implies (#[trigger] rest[i]).0 < n by {
            assert(rest[i] == ids[i]);
        }
        drawable_of_known(n, rest);
        assert(ids[ids.len() - 1].0 < n);
        assert(rest.push(ids.last()) =~= ids);
    } else {
        assert(ids =~= seq![]);
    }
}

/// Which presentation a file goes to.
fn owner_of<R: Rows>(renderers: &Vec<R>, path: &str) -> (o: usize)
    requires
        renderers@.len() > 0,
    ensures
        o == claimant(renderers@, path@),
        o < renderers@.len(),
{
    let mut n: usize = renderers.len();
    while n > 0
        invariant
            n <= renderers@.len(),
            renderers@.len() > 0,
            claimant(renderers@, path@) == claimant_among(renderers@, path@, n as nat),
        decreases n,
    {
        if renderers[n - 1].claims(path) {
            return n - 1;
        }
        n -= 1;
    }
    0
}

/// A diff arranged: the presentations with their rows, the order table, and
/// what goes with it.
pub struct Built<R> {
    pub renderers: Vec<R>,
    pub order: Vec<RowRef>,
    pub widest: usize,
    /// Where each file header landed in the table.
    pub headers: Vec<usize>,
    /// Where each hunk starts in the table.
    pub marks: Vec<usize>,
}

/// The presentations a diff is arranged with: those given, or the fallback alone.
pub open spec fn chosen<R>(renderers: Seq<R>, fallback: R) -> Seq<R> {
    if renderers.len() == 0 {
        seq![fallback]
    } else {
        renderers
    }
}

impl<R: Rows> Built<R> {
    /// `self` is `files` arranged with `rs`.
    pub open spec fn arranges(&self, rs: Seq<R>, files: Seq<File>) -> bool {
        let m = grown(rs, files);
        let ids = ids_of(arranged(rs, files, files.len() == 1));
        &&& self.renderers@.len() == rs.len()
        &&& models(self.renderers@) == m
        &&& all_ready(self.renderers@)
        &&& self.order@ == laid_out(m, ids)
        &&& collapsed(self.order@) == ids
        &&& widest_at(m, self.order@, self.widest as int)
        &&& positions(self.headers@) == header_rows(m, ids)
        &&& positions(self.marks@) == walked(m, self.order@).0
    }
}

proof fn claimant_by_rules<R: Rows>(a: Seq<R>, b: Seq<R>, path: Seq<char>, n: nat)
    requires
        a.len() == b.len(),
        n <= a.len(),
        forall|i: int| 0 <= i < a.len() ==> same_rules(#[trigger] a[i], b[i]),
    ensures
        claimant_among(a, path, n) == claimant_among(b, path, n),
        n > 0 ==> claimant_among(a, path, n) < n,
        n == 0 ==> claimant_among(a, path, n) == 0,
    decreases n,
{
    if n > 0 {
        assert(same_rules(a[n - 1], b[n - 1]));
        assert(a[n - 1].wants(path) == b[n - 1].wants(path));
        claimant_by_rules(a, b, path, (n - 1) as nat);
    }
}

proof fn laid_out_known(m: Seq<Seq<RowModel>>, ids: Seq<(u16, u32)>)
    requires
        forall|i: int| 0 <= i < ids.len() ==> known(m, #[trigger] ids[i]),
    ensures
        forall|k: int|
            0 <= k < laid_out(m, ids).len() ==> known(m, (#[trigger] laid_out(m, ids)[k]).id()),
    decreases ids.len(),
{
    if ids.len() > 0 {
        let rest = ids.drop_last();
        assert forall|i: int| 0 <= i < rest.len() implies known(m, #[trigger] rest[i]) by {
            assert(rest[i] == ids[i]);
        }
        laid_out_known(m, rest);
        assert(known(m, ids[ids.len() - 1]));
        assert forall|k: int| 0 <= k < laid_out(m, ids).len() implies known(
            m,
            (#[trigger] laid_out(m, ids)[k]).id(),
        ) by {
            let cut = laid_out(m, rest).len() as int;
            if k < cut {
                assert(laid_out(m, ids)[k] == laid_out(m, rest)[k]);
            } else {
                assert(laid_out(m, ids)[k] == segments(m, ids.last())[k - cut]);
            }
        }
    }
}

/// Hands every file to the presentation that claims it, and lays the rows out.
/// With no presentation at all the fallback draws everything.
pub fn arrange<R: Rows>(files: &Vec<File>, renderers: Vec<R>, fallback: R) -> (built: Built<R>)
    requires
        all_ready(chosen(renderers@, fallback)),
        renderers@.len() <= u16::MAX,
        arrangeable(chosen(renderers@, fallback), files@),
    ensures
        built.arranges(chosen(renderers@, fallback), files@),
        is_table(models(built.renderers@), built.order@),
        rising(built.order@),
{
    let mut renderers = renderers;
    let ghost rs = chosen(renderers@, fallback);
    if renderers.len() == 0 {
        renderers.push(fallback);
        assert(renderers@ =~= rs);
    }
    let only: bool = files.len() == 1;
    let mut order: Vec<RowRef> = Vec::new();
    let mut k: usize = 0;
    assert(files@.take(0) =~= seq![]);
    assert(files@.take(files@.len() as int) =~= files@);
    while k < files.len()
        invariant
            k <= files@.len(),
            only == (files@.len() == 1),
            0 < rs.len() <= u16::MAX,
            renderers@.len() == rs.len(),
            all_ready(renderers@),
            models(renderers@) == grown(rs, files@.take(k as int)),
            forall|i: int| 0 <= i < rs.len() ==> same_rules(#[trigger] renderers@[i], rs[i]),
            arrangeable(rs, files@),
            order@ == arranged(rs, files@.take(k as int), only),
            distinct(order@),
            rising(order@),
            forall|i: int|
                0 <= i < order@.len() ==> known(models(renderers@), (#[trigger] order@[i]).id()),
        decreases files@.len() - k,
    {
        let f = &files[k];
        let ghost before = models(renderers@);
        let ghost m = grown(rs, files@.take(k + 1));
        let owner: usize = owner_of(&renderers, &*f.path);
        proof {
            claimant_by_rules(renderers@, rs, f.path@, rs.len());
            assert(files@.take(k + 1).drop_last() =~= files@.take(k as int));
            arrangeable_prefix(rs, files@, k + 1);
            assert(before[owner as int] == renderers@[owner as int].model());
            assert(same_rules(renderers@[owner as int], rs[owner as int]));
        }
        let ghost old_rs = renderers@;
        let first: usize = renderers[owner].len();
        renderers[owner].build(f);
        proof {
            assert(models(renderers@) =~= m);
            assert forall|i: int| 0 <= i < rs.len() implies same_rules(
                #[trigger] renderers@[i],
                rs[i],
            ) by {
                assert(same_rules(old_rs[i], rs[i]));
                if i == owner {
                    let now = renderers@[i];
                    let was = old_rs[i];
                    assert(same_rules(now, was));
                    assert forall|p: Seq<char>| #[trigger] now.wants(p) == rs[i].wants(p) by {
                        assert(was.wants(p) == rs[i].wants(p));
                    }
                    assert forall|b: Seq<RowModel>, g: File| #[trigger]
                        now.rows_for(b, g) == rs[i].rows_for(b, g) by {
                        assert(was.rows_for(b, g) == rs[i].rows_for(b, g));
                    }
                    assert forall|b: Seq<RowModel>, g: File| #[trigger]
                        now.takes(b, g) == rs[i].takes(b, g) by {
                        assert(was.takes(b, g) == rs[i].takes(b, g));
                    }
                } else {
                    assert(renderers@[i] == old_rs[i]);
                }
            }
        }
        let bare: bool = only && f.hunks.len() > 0;
        let end: usize = renderers[owner].len();
        let mut index: usize = first;
        let ghost done = order@;
        let ghost rows = m[owner as int];
        assert(entries(rows.take(first as int), owner as int, first as int, bare) =~= seq![]);
        assert(order@ =~= done + entries(rows.take(first as int), owner as int, first as int, bare));
        assert forall|i: int| 0 <= i < order@.len() implies known(m, (#[trigger] order@[i]).id()) by {
            assert(known(before, order@[i].id()));
        }
        assert forall|i: int| 0 <= i < done.len() && done[i].owner == owner implies (
        #[trigger] done[i]).index < first by {
            assert(known(before, done[i].id()));
        }
        while index < end
            invariant
                first <= index <= end <= u32::MAX,
                end == rows.len(),
                owner < renderers@.len() <= u16::MAX,
                renderers@[owner as int].ready(),
                renderers@[owner as int].model() == rows,
                models(renderers@) == m,
                rows == m[owner as int],
                renderers@.len() == m.len(),
                order@ == done + entries(
                    rows.take(index as int),
                    owner as int,
                    first as int,
                    bare,
                ),
                distinct(order@),
                rising(order@),
                forall|i: int| 0 <= i < order@.len() ==> known(m, (#[trigger] order@[i]).id()),
                forall|i: int|
                    0 <= i < order@.len() && order@[i].owner == owner ==> (#[trigger] order@[i]).index
                        < index,
            decreases end - index,
        {
            assert(rows.take(index + 1).drop_last() =~= rows.take(index as int));
            let ghost earlier = order@;
            if !(bare && renderers[owner].is_file_header(index)) {
                order.push(RowRef { owner: owner as u16, seg: 0, index: index as u32 });
                assert(order@ =~= done + entries(
                    rows.take(index + 1),
                    owner as int,
                    first as int,
                    bare,
                ));
                assert forall|i: int| 0 < i < order@.len() implies order@[i - 1].id() != (
                #[trigger] order@[i]).id() by {
                    assert(order@[i - 1] == earlier[i - 1]);
                }
                assert forall|i: int, j: int|
                    #![trigger order@[i], order@[j]]
                    0 <= i < j < order@.len() && order@[i].owner == order@[j].owner implies order@[i].index
                    <= order@[j].index by {
                    assert(order@[i] == earlier[i]);
                    if j < earlier.len() {
                        assert(order@[j] == earlier[j]);
                    }
                }
            }
            index += 1;
        }
        assert(rows.take(end as int) =~= rows);
        k += 1;
    }
    let ghost m = grown(rs, files@);
    let ghost ids = ids_of(order@);
    proof {
        collapsed_of_distinct(order@);
        assert forall|i: int| 0 <= i < ids.len() implies known(m, #[trigger] ids[i]) by {
            assert(known(m, order@[i].id()));
        }
        drawable_of_known(m.len(), ids);
        laid_out_known(m, ids);
        laying_out_makes_a_table(m, order@);
        laying_out_keeps_order(m, order@);
        assert forall|i: int| 0 <= i < order@.len() && order@[i].owner < m.len() implies (
        #[trigger] order@[i]).index < m[order@[i].owner as int].len() by {
            assert(known(m, order@[i].id()));
        }
    }
    let (ordered, headers) = expand(order.as_slice(), renderers.as_slice(), None);
    let order = ordered.order;
    let marks = hunk_marks(order.as_slice(), renderers.as_slice());
    Built { renderers, order, widest: ordered.widest, headers, marks }
}

proof fn arrangeable_prefix<R: Rows>(rs: Seq<R>, files: Seq<File>, n: int)
    requires
        arrangeable(rs, files),
        0 <= n <= files.len(),
    ensures
        arrangeable(rs, files.take(n)),
    decreases files.len(),
{
    if n < files.len() {
        arrangeable_prefix(rs, files.drop_last(), n);
        assert(files.drop_last().take(n) =~= files.take(n));
    } else {
        assert(files.take(n) =~= files);
    }
}

// ---------------------------------------------------------------------------
// What holds of every order table
// ---------------------------------------------------------------------------

proof fn collapsed_append(refs: Seq<RowRef>, tail: Seq<RowRef>, id: (u16, u32))
    requires
        tail.len() > 0,
        forall|k: int| 0 <= k < tail.len() ==> (#[trigger] tail[k]).id() == id,
        refs.len() > 0 ==> refs.last().id() != id,
    ensures
        collapsed(refs + tail) == collapsed(refs).push(id),
    decreases tail.len(),
{
    let all = refs + tail;
    assert(all.last() == tail.last());
    if tail.len() == 1 {
        assert(all.drop_last() =~= refs);
        if refs.len() > 0 {
            assert(all[all.len() - 2] == refs.last());
        }
    } else {
        let shorter = tail.drop_last();
        assert(all.drop_last() =~= refs + shorter);
        assert forall|k: int| 0 <= k < shorter.len() implies (#[trigger] shorter[k]).id() == id by {
            assert(shorter[k] == tail[k]);
        }
        collapsed_append(refs, shorter, id);
        assert(all[all.len() - 2] == tail[tail.len() - 2]);
    }
}

/// A table is its own source of truth: collapsing it gives back the logical rows
/// it was laid out from, at whatever width that was. Laying it out again for a
/// new width is therefore laying out the unwrapped rows for it.
pub proof fn collapsing_undoes_laying_out(m: Seq<Seq<RowModel>>, ids: Seq<(u16, u32)>)
    requires
        forall|i: int| 0 < i < ids.len() ==> ids[i - 1] != #[trigger] ids[i],
    ensures
        collapsed(laid_out(m, ids)) == ids,
    decreases ids.len(),
{
    if ids.len() == 0 {
        assert(ids =~= seq![]);
    } else {
        let rest = ids.drop_last();
        assert forall|i: int| 0 < i < rest.len() implies rest[i - 1] != #[trigger] rest[i] by {
            assert(rest[i] == ids[i]);
        }
        collapsing_undoes_laying_out(m, rest);
        let before = laid_out(m, rest);
        let tail = segments(m, ids.last());
        if before.len() > 0 {
            assert(rest.len() > 0);
            assert(before.last() == segments(m, rest.last()).last());
            assert(ids[ids.len() - 1] != rest.last());
        }
        collapsed_append(before, tail, ids.last());
        assert(rest.push(ids.last()) =~= ids);
    }
}

/// The segments of a row stand one after the other, from its first: counting
/// back by its segment number from any entry finds the row's first entry, and
/// counting on from there finds all of them.
pub proof fn segments_stand_together(m: Seq<Seq<RowModel>>, ids: Seq<(u16, u32)>, k: int)
    requires
        0 <= k < laid_out(m, ids).len(),
    ensures
        ({
            let order = laid_out(m, ids);
            let r = order[k];
            let first = k - r.seg;
            &&& r.seg < shown_rows(row_of(m, r.id()))
            &&& 0 <= first
            &&& first + shown_rows(row_of(m, r.id())) <= order.len()
            &&& forall|j: int|
                0 <= j < shown_rows(row_of(m, r.id())) ==> #[trigger] order[first + j] == (RowRef {
                    owner: r.owner,
                    seg: j as u16,
                    index: r.index,
                })
        }),
    decreases ids.len(),
{
    let rest = ids.drop_last();
    let cut = laid_out(m, rest).len() as int;
    let order = laid_out(m, ids);
    if k < cut {
        segments_stand_together(m, rest, k);
        let r = order[k];
        assert(r == laid_out(m, rest)[k]);
        let first = k - r.seg;
        assert forall|j: int| 0 <= j < shown_rows(row_of(m, r.id())) implies #[trigger] order[first
            + j] == (RowRef { owner: r.owner, seg: j as u16, index: r.index }) by {
            assert(order[first + j] == laid_out(m, rest)[first + j]);
        }
    } else {
        let segs = segments(m, ids.last());
        assert(order[k] == segs[k - cut]);
        let r = order[k];
        assert(r.seg == k - cut);
        assert forall|j: int| 0 <= j < shown_rows(row_of(m, r.id())) implies #[trigger] order[cut
            + j] == (RowRef { owner: r.owner, seg: j as u16, index: r.index }) by {
            assert(order[cut + j] == segs[j]);
        }
    }
}

/// A row that is in the table is found by its anchor: the anchor is the row's
/// first entry.
pub proof fn anchor_is_found(m: Seq<Seq<RowModel>>, ids: Seq<(u16, u32)>, id: (u16, u32))
    requires
        ids.contains(id),
    ensures
        0 <= anchor_row(m, ids, Some(id)) < laid_out(m, ids).len(),
        laid_out(m, ids)[anchor_row(m, ids, Some(id))] == (RowRef {
            owner: id.0,
            seg: 0,
            index: id.1,
        }),
    decreases ids.len(),
{
    let rest = ids.drop_last();
    let cut = laid_out(m, rest).len() as int;
    if ids.last() == id {
        assert(laid_out(m, ids)[cut] == segments(m, id)[0]);
    } else {
        let i = choose|i: int| 0 <= i < ids.len() && ids[i] == id;
        assert(rest[i] == id);
        anchor_is_found(m, rest, id);
        let at = anchor_row(m, rest, Some(id));
        assert(laid_out(m, ids)[at] == laid_out(m, rest)[at]);
    }
}

/// The anchor of a row is the last entry that starts it. A row that is not in the
/// table starts nowhere in it, and its anchor is the top.
pub proof fn anchor_is_the_last_start(
    m: Seq<Seq<RowModel>>,
    ids: Seq<(u16, u32)>,
    id: (u16, u32),
)
    ensures
        ({
            let order = laid_out(m, ids);
            let at = anchor_row(m, ids, Some(id));
            &&& 0 <= at
            &&& ids.contains(id) ==> forall|k: int|
                at < k < order.len() && (#[trigger] order[k]).seg == 0 ==> order[k].id() != id
            &&& !ids.contains(id) ==> at == 0 && forall|k: int|
                0 <= k < order.len() ==> (#[trigger] order[k]).id() != id
        }),
    decreases ids.len(),
{
    if ids.len() > 0 {
        let rest = ids.drop_last();
        let cut = laid_out(m, rest).len() as int;
        let order = laid_out(m, ids);
        let segs = segments(m, ids.last());
        anchor_is_the_last_start(m, rest, id);
        assert forall|k: int| cut <= k < order.len() implies (#[trigger] order[k]).id()
            == ids.last() && order[k].seg == k - cut by {
            assert(order[k] == segs[k - cut]);
        }
        assert forall|k: int| 0 <= k < cut implies #[trigger] order[k] == laid_out(m, rest)[k] by {}
        if ids.last() == id {
            assert(ids[ids.len() - 1] == id);
        } else if ids.contains(id) {
            let i = choose|i: int| 0 <= i < ids.len() && ids[i] == id;
            assert(rest[i] == id);
        } else if rest.contains(id) {
            let i = choose|i: int| 0 <= i < rest.len() && rest[i] == id;
            assert(ids[i] == id);
        } else {
            assert(ids[ids.len() - 1] != id);
        }
    }
}

/// The jump list rises, and lists exactly the first entries of header rows.
pub proof fn headers_are_listed(m: Seq<Seq<RowModel>>, ids: Seq<(u16, u32)>)
    ensures
        forall|a: int, b: int|
            0 <= a < b < header_rows(m, ids).len() ==> #[trigger] header_rows(m, ids)[a]
                < #[trigger] header_rows(m, ids)[b],
        forall|a: int|
            0 <= a < header_rows(m, ids).len() ==> 0 <= #[trigger] header_rows(m, ids)[a]
                < laid_out(m, ids).len(),
        forall|k: int|
            0 <= k < laid_out(m, ids).len() ==> (header_rows(m, ids).contains(k) <==> (
            #[trigger] laid_out(m, ids)[k]).seg == 0 && row_of(m, laid_out(m, ids)[k].id()).header),
    decreases ids.len(),
{
    if ids.len() > 0 {
        let rest = ids.drop_last();
        headers_are_listed(m, rest);
        let cut = laid_out(m, rest).len() as int;
        let order = laid_out(m, ids);
        let old_h = header_rows(m, rest);
        let h = header_rows(m, ids);
        let segs = segments(m, ids.last());
        assert forall|k: int| 0 <= k < order.len() implies (h.contains(k) <==> (
        #[trigger] order[k]).seg == 0 && row_of(m, order[k].id()).header) by {
            if k < cut {
                assert(order[k] == laid_out(m, rest)[k]);
                if h.contains(k) {
                    let a = choose|a: int| 0 <= a < h.len() && h[a] == k;
                    assert(a < old_h.len());
                    assert(old_h[a] == k);
                }
                if old_h.contains(k) {
                    let a = choose|a: int| 0 <= a < old_h.len() && old_h[a] == k;
                    assert(h[a] == k);
                }
            } else {
                assert(order[k] == segs[k - cut]);
                if h.contains(k) {
                    let a = choose|a: int| 0 <= a < h.len() && h[a] == k;
                    if a < old_h.len() {
                        assert(old_h[a] < cut);
                    }
                }
                if k == cut && row_of(m, ids.last()).header {
                    assert(h[h.len() - 1] == k);
                }
            }
        }
    }
}

// ---------------------------------------------------------------------------
// Jumping from file to file
// ---------------------------------------------------------------------------

/// `v` rises.
pub open spec fn ascending(v: Seq<usize>) -> bool {
    forall|i: int, j: int| 0 <= i < j < v.len() ==> v[i] < v[j]
}

/// How many of `v` are below `limit`.
fn count_below(v: &Vec<usize>, limit: usize) -> (n: usize)
    requires
        ascending(v@),
    ensures
        n <= v@.len(),
        forall|i: int| 0 <= i < n ==> #[trigger] v@[i] < limit,
        forall|i: int| n <= i < v@.len() ==> #[trigger] v@[i] >= limit,
{
    let mut lo: usize = 0;
    let mut hi: usize = v.len();
    while lo < hi
        invariant
            lo <= hi <= v@.len(),
            ascending(v@),
            forall|i: int| 0 <= i < lo ==> #[trigger] v@[i] < limit,
            forall|i: int| hi <= i < v@.len() ==> #[trigger] v@[i] >= limit,
        decreases hi - lo,
    {
        let mid: usize = lo + (hi - lo) / 2;
        if v[mid] < limit {
            lo = mid + 1;
        } else {
            hi = mid;
        }
    }
    lo
}

/// The header a jump lands on: the nearest one below the cursor, or above it
/// for a negative `by`. None where there is no further file that way.
pub fn jump_target(headers: &Vec<usize>, cursor: usize, by: isize) -> (r: Option<usize>)
    requires
        ascending(headers@),
    ensures
        match r {
            Some(h) => headers@.contains(h) && if by < 0 {
                h < cursor && forall|i: int|
                    0 <= i < headers@.len() && #[trigger] headers@[i] < cursor ==> headers@[i] <= h
            } else {
                h > cursor && forall|i: int|
                    0 <= i < headers@.len() && #[trigger] headers@[i] > cursor ==> headers@[i] >= h
            },
            None => if by < 0 {
                forall|i: int| 0 <= i < headers@.len() ==> #[trigger] headers@[i] >= cursor
            } else {
                forall|i: int| 0 <= i < headers@.len() ==> #[trigger] headers@[i] <= cursor
            },
        },
{
    if by < 0 {
        let n: usize = count_below(headers, cursor);
        if n == 0 {
            return None;
        }
        let h: usize = headers[n - 1];
        assert forall|i: int| 0 <= i < headers@.len() && #[trigger] headers@[i] < cursor implies headers@[i]
            <= h by {
            if i < n - 1 {
                assert(headers@[i] < headers@[n - 1]);
            }
        }
        Some(h)
    } else {
        let n: usize = count_below(headers, cursor);
        let mut k: usize = n;
        if k < headers.len() && headers[k] == cursor {
            k += 1;
        }
        if k == headers.len() {
            return None;
        }
        let h: usize = headers[k];
        assert(h > cursor) by {
            if k > n {
                assert(headers@[n as int] < headers@[k as int]);
            }
        }
        assert forall|i: int| 0 <= i < headers@.len() && #[trigger] headers@[i] > cursor implies headers@[i]
            >= h by {
            if i > k {
                assert(headers@[k as int] < headers@[i]);
            }
        }
        Some(h)
    }
}

// ---------------------------------------------------------------------------
// Tables
// ---------------------------------------------------------------------------

/// Every entry names a row that some presentation has.
pub open spec fn all_known(m: Seq<Seq<RowModel>>, order: Seq<RowRef>) -> bool {
    forall|k: int| 0 <= k < order.len() ==> known(m, (#[trigger] order[k]).id())
}

/// `order` is a table over the rows `m`: every segment of each of its logical
/// rows is there, in order.
pub open spec fn is_table(m: Seq<Seq<RowModel>>, order: Seq<RowRef>) -> bool {
    all_known(m, order) && order == laid_out(m, collapsed(order))
}

proof fn collapsed_facts(m: Seq<Seq<RowModel>>, refs: Seq<RowRef>)
    requires
        all_known(m, refs),
    ensures
        forall|i: int| 0 <= i < collapsed(refs).len() ==> known(m, #[trigger] collapsed(refs)[i]),
        forall|i: int|
            0 < i < collapsed(refs).len() ==> collapsed(refs)[i - 1] != #[trigger] collapsed(
                refs,
            )[i],
        refs.len() > 0 ==> collapsed(refs).len() > 0 && collapsed(refs).last() == refs.last().id(),
        refs.len() == 0 ==> collapsed(refs).len() == 0,
        forall|k: int|
            0 <= k < refs.len() ==> collapsed(refs).contains((#[trigger] refs[k]).id()),
    decreases refs.len(),
{
    if refs.len() > 0 {
        let rest = refs.drop_last();
        assert forall|k: int| 0 <= k < rest.len() implies known(m, (#[trigger] rest[k]).id()) by {
            assert(rest[k] == refs[k]);
        }
        collapsed_facts(m, rest);
        assert(known(m, refs[refs.len() - 1].id()));
        let ids = collapsed(refs);
        let old_ids = collapsed(rest);
        if refs.len() >= 2 {
            assert(rest.last() == refs[refs.len() - 2]);
        }
        assert forall|k: int| 0 <= k < refs.len() implies ids.contains((#[trigger] refs[k]).id()) by {
            if k < rest.len() {
                assert(rest[k] == refs[k]);
                let j = choose|j: int| 0 <= j < old_ids.len() && old_ids[j] == refs[k].id();
                assert(ids[j] == refs[k].id());
            } else {
                assert(ids[ids.len() - 1] == refs[k].id());
            }
        }
    }
}

/// Laying out a table's rows anew makes a table again, whatever the rows now
/// say of their widths, over the same logical rows.
pub proof fn laying_out_makes_a_table(m: Seq<Seq<RowModel>>, refs: Seq<RowRef>)
    requires
        all_known(m, refs),
    ensures
        drawable(m.len(), collapsed(refs)) == collapsed(refs),
        is_table(m, laid_out(m, collapsed(refs))),
        collapsed(laid_out(m, collapsed(refs))) == collapsed(refs),
{
    collapsed_facts(m, refs);
    let ids = collapsed(refs);
    drawable_of_known(m.len(), ids);
    laid_out_known(m, ids);
    collapsing_undoes_laying_out(m, ids);
}

/// Each entry's row is one of the table's logical rows.
pub proof fn entries_are_listed(m: Seq<Seq<RowModel>>, refs: Seq<RowRef>, k: int)
    requires
        all_known(m, refs),
        0 <= k < refs.len(),
    ensures
        collapsed(refs).contains(refs[k].id()),
{
    collapsed_facts(m, refs);
}

/// Logical rows of one presentation come in its own order.
pub open spec fn rising_ids(ids: Seq<(u16, u32)>) -> bool {
    forall|i: int, j: int|
        #![trigger ids[i], ids[j]]
        0 <= i < j < ids.len() && ids[i].0 == ids[j].0 ==> ids[i].1 <= ids[j].1
}

proof fn laid_out_names(m: Seq<Seq<RowModel>>, ids: Seq<(u16, u32)>, k: int) -> (i: int)
    requires
        0 <= k < laid_out(m, ids).len(),
    ensures
        0 <= i < ids.len(),
        ids[i] == laid_out(m, ids)[k].id(),
    decreases ids.len(),
{
    let rest = ids.drop_last();
    let cut = laid_out(m, rest).len() as int;
    if k < cut {
        let i = laid_out_names(m, rest, k);
        assert(laid_out(m, ids)[k] == laid_out(m, rest)[k]);
        i
    } else {
        assert(laid_out(m, ids)[k] == segments(m, ids.last())[k - cut]);
        ids.len() - 1
    }
}

/// A table of rows in order is in order.
pub proof fn tables_rise(m: Seq<Seq<RowModel>>, ids: Seq<(u16, u32)>)
    requires
        rising_ids(ids),
    ensures
        rising(laid_out(m, ids)),
    decreases ids.len(),
{
    if ids.len() > 0 {
        let rest = ids.drop_last();
        assert forall|i: int, j: int|
            #![trigger rest[i], rest[j]]
            0 <= i < j < rest.len() && rest[i].0 == rest[j].0 implies rest[i].1 <= rest[j].1 by {
            assert(rest[i] == ids[i] && rest[j] == ids[j]);
        }
        tables_rise(m, rest);
        let order = laid_out(m, ids);
        let before = laid_out(m, rest);
        let cut = before.len() as int;
        assert forall|i: int, j: int|
            #![trigger order[i], order[j]]
            0 <= i < j < order.len() && order[i].owner == order[j].owner implies order[i].index
            <= order[j].index by {
            if j < cut {
                assert(order[i] == before[i] && order[j] == before[j]);
            } else {
                assert(order[j] == segments(m, ids.last())[j - cut]);
                let k = laid_out_names(m, ids, i);
                if k < ids.len() - 1 {
                    assert(ids[k].1 <= ids[ids.len() - 1].1);
                }
            }
        }
    }
}

proof fn collapsed_names(refs: Seq<RowRef>, i: int) -> (k: int)
    requires
        0 <= i < collapsed(refs).len(),
    ensures
        0 <= k < refs.len(),
        refs[k].id() == collapsed(refs)[i],
    decreases refs.len(),
{
    let rest = refs.drop_last();
    if i < collapsed(rest).len() {
        let k = collapsed_names(rest, i);
        assert(rest[k] == refs[k]);
        k
    } else {
        refs.len() - 1
    }
}

proof fn collapsing_keeps_order(refs: Seq<RowRef>)
    requires
        rising(refs),
    ensures
        rising_ids(collapsed(refs)),
    decreases refs.len(),
{
    if refs.len() > 0 {
        let rest = refs.drop_last();
        assert forall|i: int, j: int|
            #![trigger rest[i], rest[j]]
            0 <= i < j < rest.len() && rest[i].owner == rest[j].owner implies rest[i].index
            <= rest[j].index by {
            assert(rest[i] == refs[i] && rest[j] == refs[j]);
        }
        collapsing_keeps_order(rest);
        let ids = collapsed(refs);
        let old_ids = collapsed(rest);
        assert forall|i: int, j: int|
            #![trigger ids[i], ids[j]]
            0 <= i < j < ids.len() && ids[i].0 == ids[j].0 implies ids[i].1 <= ids[j].1 by {
            if j < old_ids.len() {
                assert(ids[i] == old_ids[i] && ids[j] == old_ids[j]);
            } else {
                let k = collapsed_names(rest, i);
                assert(rest[k] == refs[k]);
                assert(refs[k].index <= refs[refs.len() - 1].index);
            }
        }
    }
}

/// Laying a table's rows out anew keeps them in order.
pub proof fn laying_out_keeps_order(m: Seq<Seq<RowModel>>, refs: Seq<RowRef>)
    requires
        rising(refs),
    ensures
        rising(laid_out(m, collapsed(refs))),
{
    collapsing_keeps_order(refs);
    tables_rise(m, collapsed(refs));
}

proof fn entries_facts(rows: Seq<RowModel>, owner: int, first: int, bare: bool)
    requires
        0 <= first <= rows.len() <= u32::MAX,
    ensures
        forall|k: int|
            0 <= k < entries(rows, owner, first, bare).len() ==> {
                let e = #[trigger] entries(rows, owner, first, bare)[k];
                &&& first <= e.index < rows.len()
                &&& e.owner == owner as u16
                &&& e.seg == 0
                &&& !(bare && rows[e.index as int].file_header)
            },
        !bare ==> entries(rows, owner, first, bare).len() == rows.len() - first,
    decreases rows.len(),
{
    if rows.len() > first {
        let rest = rows.drop_last();
        entries_facts(rest, owner, first, bare);
        let all = entries(rows, owner, first, bare);
        let earlier = entries(rest, owner, first, bare);
        assert forall|k: int| 0 <= k < all.len() implies {
            let e = #[trigger] all[k];
            &&& first <= e.index < rows.len()
            &&& e.owner == owner as u16
            &&& e.seg == 0
            &&& !(bare && rows[e.index as int].file_header)
        } by {
            if k < earlier.len() {
                assert(all[k] == earlier[k]);
                assert(rest[earlier[k].index as int] == rows[earlier[k].index as int]);
            }
        }
    }
}

/// The only file of a diff is not named by a band of its own: every row of it
/// that is listed is a row below the band.
pub proof fn a_single_file_hides_its_band<R: Rows>(rs: Seq<R>, f: File)
    requires
        0 < rs.len() <= u16::MAX,
        arrangeable(rs, seq![f]),
        f.hunks@.len() > 0,
        models(rs)[claimant(rs, f.path@)].len() == 0,
    ensures
        forall|k: int|
            0 <= k < arranged(rs, seq![f], true).len() ==> !row_of(
                grown(rs, seq![f]),
                (#[trigger] arranged(rs, seq![f], true)[k]).id(),
            ).file_header,
{
    let files = seq![f];
    let o = claimant(rs, f.path@);
    assert forall|i: int| 0 <= i < rs.len() implies same_rules(#[trigger] rs[i], rs[i]) by {}
    claimant_by_rules(rs, rs, f.path@, rs.len());
    assert(files.drop_last() =~= seq![]);
    reveal_with_fuel(grown, 2);
    reveal_with_fuel(arranged, 2);
    reveal_with_fuel(arrangeable, 2);
    let rows = grown(rs, files)[o];
    entries_facts(rows, o, 0, true);
    assert(arranged(rs, files, true) =~= entries(rows, o, 0, true));
}

/// With several files every row of each is listed, its band too.
pub proof fn several_files_list_every_row<R: Rows>(rs: Seq<R>, files: Seq<File>)
    requires
        0 < rs.len() <= u16::MAX,
        arrangeable(rs, files),
        files.len() > 0,
    ensures
        ({
            let o = claimant(rs, files.last().path@);
            let before = grown(rs, files.drop_last());
            arranged(rs, files, false).len() == arranged(rs, files.drop_last(), false).len()
                + rs[o].rows_for(before[o], files.last()).len()
        }),
{
    let o = claimant(rs, files.last().path@);
    assert forall|i: int| 0 <= i < rs.len() implies same_rules(#[trigger] rs[i], rs[i]) by {}
    claimant_by_rules(rs, rs, files.last().path@, rs.len());
    grown_len(rs, files.drop_last());
    let before = grown(rs, files.drop_last());
    let rows = grown(rs, files)[o];
    entries_facts(rows, o, before[o].len() as int, false);
}

/// Arranging files adds no presentation and loses none.
pub proof fn grown_len<R: Rows>(rs: Seq<R>, files: Seq<File>)
    requires
        rs.len() > 0,
    ensures
        grown(rs, files).len() == rs.len(),
    decreases files.len(),
{
    if files.len() > 0 {
        grown_len(rs, files.drop_last());
        assert forall|i: int| 0 <= i < rs.len() implies same_rules(#[trigger] rs[i], rs[i]) by {}
        claimant_by_rules(rs, rs, files.last().path@, rs.len());
    }
}

/// The last presentation that wants a file takes it, whatever was registered
/// before it; a file that nobody wants goes to the first.
pub proof fn the_last_claimant_wins<R: Rows>(rs: Seq<R>, path: Seq<char>, i: int)
    requires
        0 <= i < rs.len(),
        rs[i].wants(path) || i == 0,
        forall|k: int| i < k < rs.len() ==> !(#[trigger] rs[k]).wants(path),
    ensures
        claimant(rs, path) == i,
{
    claimant_up_to(rs, path, i, rs.len());
}

proof fn claimant_up_to<R: Rows>(rs: Seq<R>, path: Seq<char>, i: int, n: nat)
    requires
        0 <= i < n <= rs.len(),
        rs[i].wants(path) || i == 0,
        forall|k: int| i < k < rs.len() ==> !(#[trigger] rs[k]).wants(path),
    ensures
        claimant_among(rs, path, n) == i,
    decreases n,
{
    if n - 1 > i {
        assert(!rs[n - 1].wants(path));
        claimant_up_to(rs, path, i, (n - 1) as nat);
    } else {
        reveal_with_fuel(claimant_among, 2);
    }
}

/// Presentations that hold the same rows and go by the same rules.
pub open spec fn alike<R: Rows>(a: Seq<R>, b: Seq<R>) -> bool {
    &&& a.len() == b.len()
    &&& models(a) == models(b)
    &&& forall|i: int| 0 <= i < a.len() ==> same_rules(#[trigger] a[i], b[i])
}

/// Presentations that are alike arrange a diff alike.
pub proof fn alike_presentations_arrange_alike<R: Rows>(
    a: Seq<R>,
    b: Seq<R>,
    files: Seq<File>,
    only: bool,
)
    requires
        a.len() > 0,
        alike(a, b),
    ensures
        grown(a, files) == grown(b, files),
        arranged(a, files, only) == arranged(b, files, only),
    decreases files.len(),
{
    if files.len() > 0 {
        alike_presentations_arrange_alike(a, b, files.drop_last(), only);
        claimant_by_rules(a, b, files.last().path@, a.len());
        let o = claimant(a, files.last().path@);
        assert(same_rules(a[o], b[o]));
    }
}

} // verus!
