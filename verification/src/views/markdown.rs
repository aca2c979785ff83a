//! A markdown file's diff, drawn as the document rather than as the source: the
//! markers are gone from the text, and furniture stands where they stood.
use super::draw::{
    band_edge, dir_len, file_header, gutter_ink, gutter_of, header_gutter, hunk_header,
    line_colors, number, number_text, selected, selected_bytes, split_path, Edge, FileBand,
    HunkBand, Inks, Rgb, RowState, Selected,
};
use super::rows::{Line, Span};
use super::text_rows::{drawn_piece, drawn_rows, line_bg, line_fg, line_sign, Hit, TextStart};
use crate::text;
use std::sync::Arc;
use vstd::prelude::*;

verus! {

// ---------------------------------------------------------------------------
// The document
// ---------------------------------------------------------------------------

/// What a bar beside a row groups.
#[derive(Clone, Copy, Debug, PartialEq, Eq, Structural)]
pub enum Bar {
    Quote,
    Code,
}

/// What a row draws in place of the markers that were taken off its text.
#[derive(Clone, Copy, Debug, PartialEq, Eq, Structural)]
pub struct Furniture {
    pub bar: Option<Bar>,
    /// How many steps the text is indented.
    pub depth: u8,
    pub bullet: bool,
    /// A row of a table: its grid is in its text.
    pub table: bool,
    /// The row between a table's head and its body, which is nothing but grid.
    pub table_rule: bool,
    /// A break between two parts of the document.
    pub rule: bool,
    pub blank: bool,
    pub heading: Option<u8>,
    /// The language that a fenced block opens with.
    pub fence_label: bool,
}

impl Furniture {
    /// How many steps of indent stand between the sign and the text.
    pub open spec fn width(self) -> nat {
        (if self.bar is Some {
            1nat
        } else {
            0
        }) + self.depth as nat + (if self.bullet {
            1nat
        } else {
            0
        })
    }

    /// How many steps of indent stand between the sign and the text.
    pub fn steps(&self) -> (r: u32)
        ensures
            r == self.width(),
    {
        let bar: u32 = if self.bar.is_some() {
            1
        } else {
            0
        };
        let bullet: u32 = if self.bullet {
            1
        } else {
            0
        };
        bar + self.depth as u32 + bullet
    }
}

/// One line of the document: the line of the diff, the text that is drawn of it,
/// and where that text breaks.
#[derive(Debug)]
pub struct PageLine {
    pub line: Line,
    pub furniture: Furniture,
    /// How deep the line's block is nested.
    pub depth: u8,
    pub text: Arc<str>,
    /// The bytes each of its rows draws. None for a line that is not broken.
    pub pieces: Vec<Span>,
    /// For each of its rows, whether a hairline is drawn under it.
    pub ruled: Vec<bool>,
}

/// One row of the document.
#[derive(Debug)]
pub enum PageRow {
    File { path: Arc<str>, adds: usize, dels: usize },
    Hunk(Arc<str>),
    Line(PageLine),
}

impl PageRow {
    /// The row's text.
    pub open spec fn text(self) -> Seq<char> {
        match self {
            PageRow::File { path, .. } => path@,
            PageRow::Hunk(header) => header@,
            PageRow::Line(l) => l.text@,
        }
    }

    /// The bytes its rows draw.
    pub open spec fn pieces(self) -> Seq<Span> {
        match self {
            PageRow::Line(l) => l.pieces@,
            _ => seq![],
        }
    }

    /// Every one of them can be cut out of the text.
    pub open spec fn fits(self) -> bool {
        forall|k: int|
            0 <= k < self.pieces().len() ==> text::sliceable(
                self.text(),
                (#[trigger] self.pieces()[k]).start as int,
                self.pieces()[k].end as int,
            )
    }

    /// The text that segment `seg` draws.
    pub open spec fn shown(self, seg: int) -> Seq<char> {
        let at = drawn_piece(self.pieces(), seg, self.text());
        text::sliced(self.text(), at.start as int, at.end as int)
    }

    fn drawn(&self) -> (r: &str)
        ensures
            r@ == self.text(),
    {
        match self {
            PageRow::File { path, .. } => &**path,
            PageRow::Hunk(header) => &**header,
            PageRow::Line(l) => &*l.text,
        }
    }

    /// The bytes that segment `seg` draws.
    fn piece(&self, seg: usize) -> (r: Span)
        requires
            self.fits(),
        ensures
            r == drawn_piece(self.pieces(), seg as int, self.text()),
            text::sliceable(self.text(), r.start as int, r.end as int),
    {
        let whole: usize = text::byte_count(self.drawn());
        proof {
            vstd::utf8::encode_utf8_valid_utf8(self.text());
            vstd::utf8::is_char_boundary_start_end_of_seq(vstd::utf8::encode_utf8(self.text()));
        }
        match self {
            PageRow::Line(l) => {
                if seg < l.pieces.len() {
                    let r = l.pieces[seg];
                    assert(r == self.pieces()[seg as int]);
                    r
                } else {
                    Span { start: 0, end: whole }
                }
            },
            _ => Span { start: 0, end: whole },
        }
    }
}

/// What follows the last `c` of a text.
pub open spec fn after_last(s: Seq<char>, c: char) -> Option<Seq<char>>
    decreases s.len(),
{
    if s.len() == 0 {
        None
    } else if s.last() == c {
        Some(seq![])
    } else {
        match after_last(s.drop_last(), c) {
            Some(rest) => Some(rest.push(s.last())),
            None => None,
        }
    }
}

proof fn after_last_at(s: Seq<char>, c: char, n: int)
    requires
        0 <= n <= s.len(),
        forall|k: int| n <= k < s.len() ==> s[k] != c,
        n == 0 || s[n - 1] == c,
    ensures
        after_last(s, c) == if n == 0 {
            None
        } else {
            Some(s.skip(n))
        },
    decreases s.len(),
{
    if s.len() > 0 {
        if s.last() == c {
            assert(s.skip(n) =~= seq![]);
        } else {
            after_last_at(s.drop_last(), c, n);
            if n > 0 {
                assert(s.drop_last().skip(n).push(s.last()) =~= s.skip(n));
            }
        }
    }
}

fn extension(name: &str) -> (r: Option<&str>)
    ensures
        match r {
            Some(ext) => after_last(name@, '.') == Some(ext@),
            None => after_last(name@, '.') is None,
        },
{
    let v = text::chars_of(name);
    let len: usize = v.len();
    let mut n: usize = len;
    while n > 0 && v[n - 1] != '.'
        invariant
            n <= v@.len(),
            forall|k: int| n <= k < v@.len() ==> v@[k] != '.',
        decreases n,
    {
        n -= 1;
    }
    proof {
        after_last_at(v@, '.', n as int);
    }
    if n == 0 {
        None
    } else {
        let ext = name.substring_char(n, len);
        assert(ext@ =~= name@.skip(n as int));
        Some(ext)
    }
}

/// The rendered-markdown presentation.
#[derive(Debug)]
pub struct MarkdownRows {
    pub rows: Vec<PageRow>,
    /// Which extensions to claim.
    pub extensions: Vec<String>,
}

impl Default for MarkdownRows {
    /// No rows yet, and markdown under each of its three names to claim: those that
    /// its highlighter is routed for, so that a file with markdown's tokens gets
    /// markdown's rows.
    fn default() -> (r: MarkdownRows)
        ensures
            r.wf(),
            r.rows@.len() == 0,
            text::texts(r.extensions@) == seq!["md"@, "markdown"@, "mdx"@],
    {
        let mut extensions: Vec<String> = Vec::new();
        extensions.push("md".to_owned());
        extensions.push("markdown".to_owned());
        extensions.push("mdx".to_owned());
        assert(text::texts(extensions@) =~= seq!["md"@, "markdown"@, "mdx"@]);
        MarkdownRows::new(extensions)
    }
}

impl MarkdownRows {
    /// What every presentation of this kind keeps.
    pub open spec fn wf(&self) -> bool {
        forall|i: int| 0 <= i < self.rows@.len() ==> (#[trigger] self.rows@[i]).fits()
    }

    /// No rows yet.
    pub fn new(extensions: Vec<String>) -> (r: MarkdownRows)
        ensures
            r.wf(),
            r.rows@.len() == 0,
            r.extensions == extensions,
    {
        MarkdownRows { rows: Vec::new(), extensions }
    }

    /// The files this presentation wants: those whose name, and not whose
    /// directory, has one of its extensions.
    pub open spec fn wants(&self, path: Seq<char>) -> bool {
        match after_last(path.skip(dir_len(path) as int), '.') {
            Some(ext) => text::texts(self.extensions@).contains(ext),
            None => false,
        }
    }

    /// Whether this presentation wants the file.
    pub fn claims(&self, path: &str) -> (r: bool)
        ensures
            r == self.wants(path@),
    {
        let (_, name) = split_path(path);
        match extension(name) {
            Some(ext) => {
                proof {
                    text::place_is_first(text::texts(self.extensions@), ext@);
                }
                text::find(&self.extensions, ext).is_some()
            },
            None => false,
        }
    }

    /// How many rows this presentation holds.
    pub fn len(&self) -> (r: usize)
        ensures
            r == self.rows@.len(),
    {
        self.rows.len()
    }

    /// Appends the rows that a file was laid out as.
    pub fn build(&mut self, mut laid_out: Vec<PageRow>)
        requires
            old(self).wf(),
            forall|i: int| 0 <= i < laid_out@.len() ==> (#[trigger] laid_out@[i]).fits(),
        ensures
            final(self).wf(),
            final(self).rows@ == old(self).rows@ + laid_out@,
            final(self).extensions == old(self).extensions,
    {
        self.rows.append(&mut laid_out);
    }

    /// Whether a row is the band that names a file.
    pub fn is_file_header(&self, index: usize) -> (r: bool)
        ensures
            r == (index < self.rows@.len() && self.rows@[index as int] is File),
    {
        index < self.rows.len() && matches!(&self.rows[index], PageRow::File { .. })
    }

    /// Whether a jump from file to file stops on this row.
    pub fn is_header(&self, index: usize) -> (r: bool)
        ensures
            r == (index < self.rows@.len() && self.rows@[index as int] is File),
    {
        self.is_file_header(index)
    }

    /// How many visual rows a row takes.
    pub fn rows(&self, index: usize) -> (r: usize)
        ensures
            r == if index < self.rows@.len() {
                drawn_rows(self.rows@[index as int].pieces())
            } else {
                1
            },
    {
        if index < self.rows.len() {
            if let PageRow::Line(l) = &self.rows[index] {
                if l.pieces.len() > 0 {
                    return l.pieces.len();
                }
            }
        }
        1
    }

    /// How many characters a visual row draws. Blanks at its end are not ink.
    pub fn chars(&self, index: usize, seg: usize) -> (r: usize)
        requires
            self.wf(),
        ensures
            r == if index < self.rows@.len() {
                text::trimmed_end(self.rows@[index as int].shown(seg as int))
            } else {
                0
            },
    {
        if index >= self.rows.len() {
            return 0;
        }
        let row = &self.rows[index];
        let at = row.piece(seg);
        let v = text::chars_of(text::slice(row.drawn(), at.start, at.end));
        text::trim_end_len(v.as_slice())
    }

    /// The width of a row, in characters. `inked` is how many characters of the
    /// body's size the row's own take: a heading's are larger. A step of indent
    /// costs about a character.
    pub fn width(&self, index: usize, inked: usize) -> (r: usize)
        requires
            inked <= usize::MAX - 257,
        ensures
            r == if index < self.rows@.len() {
                match self.rows@[index as int] {
                    PageRow::Line(l) => inked + l.depth + 2,
                    row => row.text().len() as int,
                }
            } else {
                0
            },
    {
        if index >= self.rows.len() {
            return 0;
        }
        let row = &self.rows[index];
        match row {
            PageRow::Line(l) => inked + l.depth as usize + 2,
            _ => row.drawn().unicode_len(),
        }
    }

    /// The text of a row: what a selection over it copies.
    pub fn selectable(&self, index: usize) -> (r: Option<&str>)
        ensures
            match r {
                Some(text) => index < self.rows@.len() && text@ == self.rows@[index as int].text(),
                None => index >= self.rows@.len(),
            },
    {
        if index < self.rows.len() {
            Some(self.rows[index].drawn())
        } else {
            None
        }
    }

    /// Where a row's text starts, and how many steps of indent its furniture
    /// takes beyond that.
    pub fn text_start(&self, index: usize) -> (r: Option<(TextStart, u32)>)
        ensures
            match r {
                Some((from, steps)) => index < self.rows@.len()
                    && match self.rows@[index as int] {
                    PageRow::File { .. } => from == TextStart::Page && steps == 0,
                    PageRow::Hunk(_) => from == TextStart::Code && steps == 0,
                    PageRow::Line(l) => from == TextStart::Code && steps == l.furniture.width(),
                },
                None => index >= self.rows@.len(),
            },
    {
        if index >= self.rows.len() {
            return None;
        }
        match &self.rows[index] {
            PageRow::File { .. } => Some((TextStart::Page, 0)),
            PageRow::Hunk(_) => Some((TextStart::Code, 0)),
            PageRow::Line(l) => Some((TextStart::Code, l.furniture.steps())),
        }
    }

    /// The byte that column `col` of segment `seg` of a row is, in the row's own
    /// text.
    pub open spec fn byte_at(&self, index: int, seg: int, col: nat) -> nat {
        let row = self.rows@[index];
        match row {
            PageRow::Line(l) => drawn_piece(l.pieces@, seg, l.text@).start as nat
                + text::column_byte(row.shown(seg), col),
            _ => text::column_byte(row.text(), col),
        }
    }

    /// Where a click on column `col` of segment `seg` of row `index` landed.
    pub fn hit(&self, index: usize, seg: usize, col: usize) -> (r: Option<Hit>)
        requires
            self.wf(),
        ensures
            match r {
                Some(h) => index < self.rows@.len() && h.part == 0 && h.off == self.byte_at(
                    index as int,
                    seg as int,
                    col as nat,
                ) && h.off <= text::byte_len(self.rows@[index as int].text()),
                None => index >= self.rows@.len(),
            },
    {
        if index >= self.rows.len() {
            return None;
        }
        let row = &self.rows[index];
        match row {
            PageRow::Line(_) => {
                let at = row.piece(seg);
                let piece = text::slice(row.drawn(), at.start, at.end);
                proof {
                    text::sliced_bytes(row.text(), at.start as int, at.end as int);
                }
                let off: usize = text::offset_of_column(piece, col);
                Some(Hit { part: 0, off: at.start + off })
            },
            _ => Some(Hit { part: 0, off: text::offset_of_column(row.drawn(), col) }),
        }
    }
}

// ---------------------------------------------------------------------------
// Drawing
// ---------------------------------------------------------------------------

/// Which of the six heading sizes a level is drawn at: a level past either end
/// of the scale takes the end.
pub fn heading_slot(level: u8) -> (r: usize)
    ensures
        r == if level < 1 {
            0
        } else if level > 6 {
            5
        } else {
            level - 1
        },
{
    if level < 1 {
        0
    } else if level > 6 {
        5
    } else {
        level as usize - 1
    }
}

/// The colours of the furniture, and the glyph of a bullet at each depth.
#[derive(Debug)]
pub struct PageInks {
    pub marker: Rgb,
    pub rule: Rgb,
    pub quote_bar: Rgb,
    pub code_bar: Rgb,
    pub bullets: Vec<&'static str>,
}

impl PageInks {
    /// The glyph at `depth`; the last one repeats.
    pub open spec fn glyph(&self, depth: u8) -> Seq<char> {
        if depth < self.bullets@.len() {
            self.bullets@[depth as int]@
        } else {
            self.bullets@.last()@
        }
    }

    /// The glyph at `depth`; the last one repeats.
    pub fn bullet(&self, depth: u8) -> (r: &'static str)
        requires
            self.bullets@.len() > 0,
        ensures
            r@ == self.glyph(depth),
    {
        if (depth as usize) < self.bullets.len() {
            self.bullets[depth as usize]
        } else {
            self.bullets[self.bullets.len() - 1]
        }
    }
}

/// What a row draws behind its furniture.
#[derive(Debug)]
pub enum Body {
    Nothing,
    /// A rule as wide as the text it stands in for.
    Rule(Rgb),
    /// A row of a table, with a hairline so many characters wide under it.
    Grid { piece: Span, fg: Rgb, lit: Span, hairline: Option<(usize, Rgb)> },
    /// Prose or code, at a heading's size and weight where it is one.
    Text { piece: Span, fg: Rgb, lit: Span, heading: Option<u8> },
}

/// A line of the document as it is drawn.
#[derive(Debug)]
pub struct PageLineView {
    pub edge: Edge,
    pub gutter: Rgb,
    pub old: String,
    pub new: String,
    pub sign: &'static str,
    pub sign_fg: Rgb,
    pub bar: Option<Rgb>,
    /// Steps of indent.
    pub indent: u8,
    pub bullet: Option<&'static str>,
    pub body: Body,
}

/// A line with its gutter alone: no bar, no indent, no bullet.
pub open spec fn unfurnished(v: PageLineView) -> bool {
    v.bar is None && v.indent == 0 && v.bullet is None
}

impl PageLine {
    /// Whether a hairline is drawn under segment `seg`.
    pub open spec fn rule_after(self, seg: int) -> bool {
        0 <= seg < self.ruled@.len() && self.ruled@[seg]
    }

    /// The edge and the gutter of segment `seg`, which are those of a line of code:
    /// the keyboard's bar is on every row alike, the numbers and the sign stand where
    /// they stand on every other row, and a continuation has neither.
    pub open spec fn gutters(self, v: PageLineView, seg: int, inks: Inks, state: RowState) -> bool {
        let line = self.line;
        &&& v.edge == band_edge(state, line_bg(line.kind, line.moved, inks), inks)
        &&& v.gutter == gutter_of(line.kind, line.moved, state, inks)
        &&& v.old@ == number_text(line.old_no, seg > 0)
        &&& v.new@ == number_text(line.new_no, seg > 0)
        &&& v.sign@ == if seg > 0 {
            " "@
        } else {
            line_sign(line.kind)
        }
        &&& v.sign_fg == if state.armed {
            inks.error
        } else {
            line_fg(line.kind, inks)
        }
    }

    /// What segment `seg` draws behind its furniture.
    pub open spec fn bodies(
        self,
        body: Body,
        seg: int,
        inks: Inks,
        page: PageInks,
        lit: Span,
    ) -> bool {
        let f = self.furniture;
        let fg = line_fg(self.line.kind, inks);
        let piece = drawn_piece(self.pieces@, seg, self.text@);
        if f.table {
            body == (Body::Grid {
                piece,
                fg: if f.table_rule {
                    page.rule
                } else {
                    fg
                },
                lit,
                hairline: if self.rule_after(seg) {
                    Some(
                        (
                            text::sliced(
                                self.text@,
                                piece.start as int,
                                piece.end as int,
                            ).len() as usize,
                            page.rule,
                        ),
                    )
                } else {
                    None
                },
            })
        } else if f.rule {
            body == Body::Rule(page.rule)
        } else if f.blank || self.text@.len() == 0 {
            body is Nothing
        } else {
            body == (Body::Text {
                piece,
                fg: if f.heading is None && f.fence_label {
                    page.marker
                } else {
                    fg
                },
                lit,
                heading: f.heading,
            })
        }
    }

    /// Segment `seg` as it is drawn. A table, a rule and a blank line get the
    /// gutter and no furniture; the rest repeat theirs on every segment, but for
    /// the bullet's glyph.
    pub open spec fn draws(
        self,
        v: PageLineView,
        seg: int,
        inks: Inks,
        page: PageInks,
        lit: Span,
        state: RowState,
    ) -> bool {
        let f = self.furniture;
        &&& self.gutters(v, seg, inks, state)
        &&& self.bodies(v.body, seg, inks, page, lit)
        &&& if f.table || f.rule || f.blank {
            unfurnished(v)
        } else {
            &&& v.bar == match f.bar {
                Some(Bar::Quote) => Some(page.quote_bar),
                Some(Bar::Code) => Some(page.code_bar),
                None => None,
            }
            &&& v.indent == f.depth
            &&& match v.bullet {
                Some(glyph) => f.bullet && glyph@ == if seg > 0 {
                    " "@
                } else {
                    page.glyph(f.depth)
                },
                None => !f.bullet,
            }
        }
    }
}

/// A row of the document as it is drawn.
#[derive(Debug)]
pub enum PageDrawn {
    File(FileBand),
    Hunk(HunkBand),
    Line(PageLineView),
}

impl PageDrawn {
    /// The edge of the row, whatever it draws.
    pub open spec fn edge(self) -> Edge {
        match self {
            PageDrawn::File(b) => b.edge,
            PageDrawn::Hunk(b) => b.edge,
            PageDrawn::Line(v) => v.edge,
        }
    }
}

impl PageRow {
    /// The row as it is drawn on segment `seg`.
    pub open spec fn draws(
        self,
        d: PageDrawn,
        seg: int,
        inks: Inks,
        page: PageInks,
        lit: Span,
        state: RowState,
        marker: usize,
    ) -> bool {
        match self {
            PageRow::File { path, adds, dels } => d is File && d->File_0.names(
                path@,
                adds,
                dels,
                inks,
                lit,
                state,
            ),
            PageRow::Hunk(_) => d is Hunk && d->Hunk_0.heads(marker, inks, lit, state),
            PageRow::Line(l) => d is Line && l.draws(d->Line_0, seg, inks, page, lit, state),
        }
    }
}

impl MarkdownRows {
    /// The body of a line's segment, behind the furniture.
    fn body(
        &self,
        index: usize,
        l: &PageLine,
        seg: usize,
        inks: &Inks,
        page: &PageInks,
        lit: Span,
    ) -> (r: Body)
        requires
            self.wf(),
            index < self.rows@.len(),
            self.rows@[index as int] == PageRow::Line(*l),
        ensures
            l.bodies(r, seg as int, *inks, *page, lit),
    {
        let f = l.furniture;
        let (_, fg, _) = line_colors(l.line.kind, l.line.moved, inks);
        let piece = self.rows[index].piece(seg);
        if f.table {
            let ruled: bool = seg < l.ruled.len() && l.ruled[seg];
            let hairline = if ruled {
                Some((text::slice(&*l.text, piece.start, piece.end).unicode_len(), page.rule))
            } else {
                None
            };
            let fg: u32 = if f.table_rule {
                page.rule
            } else {
                fg
            };
            return Body::Grid { piece, fg, lit, hairline };
        }
        if f.rule {
            return Body::Rule(page.rule);
        }
        if f.blank || (*l.text).unicode_len() == 0 {
            return Body::Nothing;
        }
        let fg: u32 = if f.heading.is_none() && f.fence_label {
            page.marker
        } else {
            fg
        };
        Body::Text { piece, fg, lit, heading: f.heading }
    }

    /// A line's segment.
    fn line(
        &self,
        index: usize,
        l: &PageLine,
        seg: usize,
        inks: &Inks,
        page: &PageInks,
        lit: Span,
        state: RowState,
    ) -> (r: PageLineView)
        requires
            self.wf(),
            index < self.rows@.len(),
            self.rows@[index as int] == PageRow::Line(*l),
            page.bullets@.len() > 0,
        ensures
            l.draws(r, seg as int, *inks, *page, lit, state),
    {
        let f = l.furniture;
        let (base, fg, sign) = line_colors(l.line.kind, l.line.moved, inks);
        let blank: bool = seg > 0;
        let furnished: bool = !(f.table || f.rule || f.blank);
        let bar = match f.bar {
            Some(Bar::Quote) => Some(page.quote_bar),
            Some(Bar::Code) => Some(page.code_bar),
            None => None,
        };
        let bullet = if f.bullet {
            Some(
                if blank {
                    " "
                } else {
                    page.bullet(f.depth)
                },
            )
        } else {
            None
        };
        PageLineView {
            edge: header_gutter(state, base, inks),
            gutter: gutter_ink(l.line.kind, l.line.moved, state, inks),
            old: number(l.line.old_no, blank),
            new: number(l.line.new_no, blank),
            sign: if blank {
                " "
            } else {
                sign
            },
            sign_fg: if state.armed {
                inks.error
            } else {
                fg
            },
            bar: if furnished {
                bar
            } else {
                None
            },
            indent: if furnished {
                f.depth
            } else {
                0
            },
            bullet: if furnished {
                bullet
            } else {
                None
            },
            body: self.body(index, l, seg, inks, page, lit),
        }
    }

    /// Segment `seg` of row `index` as it is drawn: none for a row that is not
    /// there. `state` is how the row stands to the keyboard, and `marker` how many
    /// bytes the coordinates of a hunk's band take.
    pub fn render(
        &self,
        index: usize,
        seg: usize,
        inks: &Inks,
        page: &PageInks,
        sel: Option<Selected>,
        state: RowState,
        marker: usize,
    ) -> (r: Option<PageDrawn>)
        requires
            self.wf(),
            page.bullets@.len() > 0,
        ensures
            r is Some <==> index < self.rows@.len(),
            r matches Some(d) ==> self.rows@[index as int].draws(
                d,
                seg as int,
                *inks,
                *page,
                selected_bytes(sel, 0),
                state,
                marker,
            ),
    {
        if index >= self.rows.len() {
            return None;
        }
        Some(
            match &self.rows[index] {
                PageRow::File { path, adds, dels } => PageDrawn::File(
                    file_header(&**path, *adds, *dels, inks, sel, state),
                ),
                PageRow::Hunk(_) => PageDrawn::Hunk(hunk_header(marker, inks, sel, state)),
                PageRow::Line(l) => PageDrawn::Line(
                    self.line(index, l, seg, inks, page, selected(sel, 0), state),
                ),
            },
        )
    }
}

/// The keyboard's row is marked on every row of a document: a band, a heading, a
/// table, a rule and a blank line alike carry its bar, in the accent while the pane
/// holds the keyboard and faint while another does, over the selection's background.
pub proof fn the_bar_is_on_every_row(
    row: PageRow,
    d: PageDrawn,
    seg: int,
    inks: Inks,
    page: PageInks,
    lit: Span,
    state: RowState,
    marker: usize,
)
    requires
        row.draws(d, seg, inks, page, lit, state, marker),
        state.current,
    ensures
        d.edge().bg == inks.selection_bg,
        d.edge().bar == if state.focused {
            inks.accent
        } else {
            inks.faint
        },
        d.edge().extent == d.edge().bar,
{
}

/// A name's extension is what follows its last dot, and a file is claimed exactly
/// where that is one of the extensions to claim.
pub proof fn an_extension_claims(rows: MarkdownRows, stem: Seq<char>, ext: Seq<char>)
    requires
        !ext.contains('.'),
        !ext.contains('/'),
    ensures
        rows.wants(stem.push('.') + ext) == text::texts(rows.extensions@).contains(ext),
{
    let path = stem.push('.') + ext;
    let cut = dir_len(path) as int;
    let dot = stem.len() as int;
    dir_of_dotted(stem, ext);
    let name = path.skip(cut);
    assert forall|k: int| dot + 1 - cut <= k < name.len() implies name[k] != '.' by {
        assert(ext.contains(ext[k + cut - dot - 1]));
    }
    assert(name[dot - cut] == '.');
    after_last_at(name, '.', dot + 1 - cut);
    assert(name.skip(dot + 1 - cut) =~= ext);
}

proof fn dir_of_dotted(stem: Seq<char>, ext: Seq<char>)
    requires
        !ext.contains('/'),
    ensures
        dir_len(stem.push('.') + ext) <= stem.len(),
    decreases ext.len(),
{
    let path = stem.push('.') + ext;
    if ext.len() == 0 {
        assert(path.drop_last() =~= stem);
        dir_within(stem);
    } else {
        assert(ext.contains(ext.last()));
        assert(path.last() == ext.last());
        assert(path.drop_last() =~= stem.push('.') + ext.drop_last());
        assert forall|c: char| ext.drop_last().contains(c) implies ext.contains(c) by {
            let k = choose|k: int| 0 <= k < ext.drop_last().len() && ext.drop_last()[k] == c;
            assert(ext[k] == c);
        }
        dir_of_dotted(stem, ext.drop_last());
    }
}

proof fn dir_within(path: Seq<char>)
    ensures
        dir_len(path) <= path.len(),
    decreases path.len(),
{
    if path.len() > 0 {
        dir_within(path.drop_last());
    }
}

/// Markdown is claimed without anything being said, under each of its three names,
/// and nothing else with an extension is.
pub proof fn markdown_is_claimed_by_default(rows: MarkdownRows, stem: Seq<char>, ext: Seq<char>)
    requires
        text::texts(rows.extensions@) == seq!["md"@, "markdown"@, "mdx"@],
        !ext.contains('.'),
        !ext.contains('/'),
    ensures
        rows.wants(stem.push('.') + ext) <==> ext == "md"@ || ext == "markdown"@ || ext == "mdx"@,
{
    an_extension_claims(rows, stem, ext);
    let claimed = seq!["md"@, "markdown"@, "mdx"@];
    assert(claimed[0] == "md"@ && claimed[1] == "markdown"@ && claimed[2] == "mdx"@);
    if claimed.contains(ext) {
        let k = choose|k: int| 0 <= k < claimed.len() && claimed[k] == ext;
        assert(k == 0 || k == 1 || k == 2);
    }
}

/// A file is claimed by its name alone: a dot in a directory is no extension.
pub proof fn a_directory_claims_nothing(rows: MarkdownRows, dir: Seq<char>, name: Seq<char>)
    requires
        dir.len() > 0,
        dir.last() == '/',
        !name.contains('/'),
    ensures
        rows.wants(dir + name) == rows.wants(name),
    decreases name.len(),
{
    dir_of(dir, name);
    dir_of(seq![], name);
    assert((dir + name).skip(dir.len() as int) =~= name);
    assert(seq![] + name =~= name);
    assert(name.skip(0) =~= name);
}

proof fn dir_of(dir: Seq<char>, name: Seq<char>)
    requires
        dir.len() == 0 || dir.last() == '/',
        !name.contains('/'),
    ensures
        dir_len(dir + name) == dir.len(),
    decreases name.len(),
{
    let path = dir + name;
    if name.len() == 0 {
        assert(path =~= dir);
    } else {
        assert(name.contains(name.last()));
        assert(path.last() == name.last());
        assert(path.drop_last() =~= dir + name.drop_last());
        assert forall|c: char| name.drop_last().contains(c) implies name.contains(c) by {
            let k = choose|k: int| 0 <= k < name.drop_last().len() && name.drop_last()[k] == c;
            assert(name[k] == c);
        }
        dir_of(dir, name.drop_last());
    }
}

} // verus!
