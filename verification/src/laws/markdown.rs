//! The document presentation: a line keeps its numbers and its sign, and furniture
//! stands where its markers stood.
use super::drawing::{runs_say, under_a_run};
use super::text_rows::same_band;
use super::texts::{blanks_are_cut_off_the_end, numbers_are_told_apart};
use crate::text;
use crate::views::draw::{
    a_split_path_is_the_path, dir_len, file_header, gutter_ink, header_gutter, hunk_header,
    line_colors, selected, Edge, FileBand, HunkBand, Inks, Rgb, RowState, Selected,
};
use crate::views::markdown::{
    an_extension_claims, heading_slot, markdown_is_claimed_by_default, Bar, Body, Furniture,
    MarkdownRows, PageDrawn, PageInks, PageLine, PageRow,
};
use crate::views::rows::Span;
use crate::views::text_rows::{Hit, TextStart};
use vstd::prelude::*;
use vstd::utf8::encode_utf8;

verus! {

// ---------------------------------------------------------------------------
// Drawing
// ---------------------------------------------------------------------------

/// On its first row a line of the document shows its old number in the old column
/// and its new number in the new one, whatever it is drawn as, and nothing where that
/// side does not have it. On the rows below it shows neither, and no sign.
pub proof fn a_line_shows_its_number_on_either_side(
    t: MarkdownRows,
    index: usize,
    seg: usize,
    inks: Inks,
    page: PageInks,
    sel: Option<Selected>,
    state: RowState,
    marker: usize,
    r: Option<PageDrawn>,
    l: PageLine,
    look: (Rgb, Rgb, &'static str),
)
    requires
        t.wf(),
        page.bullets@.len() > 0,
        index < t.rows@.len(),
        t.rows@[index as int] == PageRow::Line(l),
        call_ensures(MarkdownRows::render, (&t, index, seg, &inks, &page, sel, state, marker), r),
        call_ensures(line_colors, (l.line.kind, l.line.moved, &inks), look),
    ensures
        r matches Some(PageDrawn::Line(v)) && {
            &&& seg == 0 && l.line.old_no is Some ==> v.old@ == text::decimal(
                l.line.old_no.unwrap() as nat,
            )
            &&& seg == 0 && l.line.new_no is Some ==> v.new@ == text::decimal(
                l.line.new_no.unwrap() as nat,
            )
            &&& l.line.old_no is None ==> v.old@.len() == 0
            &&& l.line.new_no is None ==> v.new@.len() == 0
            &&& seg > 0 ==> v.old@.len() == 0 && v.new@.len() == 0 && v.sign@ == " "@
            &&& seg == 0 ==> v.sign@ == look.2@
            &&& state.armed ==> v.sign_fg == inks.error
            &&& !state.armed ==> v.sign_fg == look.1
        },
{
}

/// A line that stands at different places on the two sides shows different numbers.
pub proof fn different_numbers_are_shown_differently(
    t: MarkdownRows,
    index: usize,
    inks: Inks,
    page: PageInks,
    sel: Option<Selected>,
    state: RowState,
    marker: usize,
    r: Option<PageDrawn>,
    l: PageLine,
    a: u32,
    b: u32,
)
    requires
        t.wf(),
        page.bullets@.len() > 0,
        index < t.rows@.len(),
        t.rows@[index as int] == PageRow::Line(l),
        l.line.old_no == Some(a),
        l.line.new_no == Some(b),
        call_ensures(
            MarkdownRows::render,
            (&t, index, 0usize, &inks, &page, sel, state, marker),
            r,
        ),
    ensures
        r matches Some(PageDrawn::Line(v)) && (v.old@ == v.new@ <==> a == b),
{
    numbers_are_told_apart(a as nat, b as nat);
}

/// A line's edge and its gutter are those of its kind and of the keyboard.
pub proof fn a_line_has_the_edge_of_its_kind(
    t: MarkdownRows,
    index: usize,
    seg: usize,
    inks: Inks,
    page: PageInks,
    sel: Option<Selected>,
    state: RowState,
    marker: usize,
    r: Option<PageDrawn>,
    l: PageLine,
    look: (Rgb, Rgb, &'static str),
    edge: Edge,
    gutter: Rgb,
)
    requires
        t.wf(),
        page.bullets@.len() > 0,
        index < t.rows@.len(),
        t.rows@[index as int] == PageRow::Line(l),
        call_ensures(MarkdownRows::render, (&t, index, seg, &inks, &page, sel, state, marker), r),
        call_ensures(line_colors, (l.line.kind, l.line.moved, &inks), look),
        call_ensures(header_gutter, (state, look.0, &inks), edge),
        call_ensures(gutter_ink, (l.line.kind, l.line.moved, state, &inks), gutter),
    ensures
        r matches Some(PageDrawn::Line(v)) && v.edge == edge && v.gutter == gutter,
{
}

/// A quote's bar and a code block's bar stand beside their own lines, a list's lines
/// are indented by their depth behind a bullet, whose glyph is drawn once, and a
/// table, a rule and a blank line have none of these.
pub proof fn furniture_stands_where_markers_stood(
    t: MarkdownRows,
    index: usize,
    seg: usize,
    inks: Inks,
    page: PageInks,
    sel: Option<Selected>,
    state: RowState,
    marker: usize,
    r: Option<PageDrawn>,
    l: PageLine,
    glyph: &'static str,
)
    requires
        t.wf(),
        page.bullets@.len() > 0,
        index < t.rows@.len(),
        t.rows@[index as int] == PageRow::Line(l),
        call_ensures(MarkdownRows::render, (&t, index, seg, &inks, &page, sel, state, marker), r),
        call_ensures(PageInks::bullet, (&page, l.furniture.depth), glyph),
    ensures
        r matches Some(PageDrawn::Line(v)) && {
            let f = l.furniture;
            let bare = f.table || f.rule || f.blank;
            &&& bare ==> v.bar is None && v.indent == 0 && v.bullet is None
            &&& !bare ==> {
                &&& f.bar is None ==> v.bar is None
                &&& f.bar == Some(Bar::Quote) ==> v.bar == Some(page.quote_bar)
                &&& f.bar == Some(Bar::Code) ==> v.bar == Some(page.code_bar)
                &&& v.indent == f.depth
                &&& v.bullet is Some <==> f.bullet
                &&& f.bullet && seg == 0 ==> v.bullet.unwrap()@ == glyph@
                &&& f.bullet && seg > 0 ==> v.bullet.unwrap()@ == " "@
            }
        },
{
}

/// A line of prose is drawn as its text at its heading's size, a fence's label in the
/// marker's ink, a rule as a rule, a blank line as nothing, and a row of a table as
/// its grid, with a hairline as long as it is where one is drawn under it.
pub proof fn a_line_is_drawn_as_what_it_is(
    t: MarkdownRows,
    index: usize,
    seg: usize,
    inks: Inks,
    page: PageInks,
    sel: Option<Selected>,
    state: RowState,
    marker: usize,
    r: Option<PageDrawn>,
    l: PageLine,
    look: (Rgb, Rgb, &'static str),
    lit: Span,
)
    requires
        t.wf(),
        page.bullets@.len() > 0,
        index < t.rows@.len(),
        t.rows@[index as int] == PageRow::Line(l),
        call_ensures(MarkdownRows::render, (&t, index, seg, &inks, &page, sel, state, marker), r),
        call_ensures(line_colors, (l.line.kind, l.line.moved, &inks), look),
        call_ensures(selected, (sel, 0u16), lit),
    ensures
        r matches Some(PageDrawn::Line(v)) && {
            let f = l.furniture;
            let at = if seg < l.pieces@.len() {
                l.pieces@[seg as int]
            } else {
                Span { start: 0, end: encode_utf8(l.text@).len() as usize }
            };
            let plain = !f.table && !f.rule && !f.blank && l.text@.len() > 0;
            &&& f.table ==> (v.body matches Body::Grid { piece, fg, lit: over, hairline } && {
                &&& piece == at
                &&& over == lit
                &&& f.table_rule ==> fg == page.rule
                &&& !f.table_rule ==> fg == look.1
                &&& hairline is Some <==> seg < l.ruled@.len() && l.ruled@[seg as int]
                &&& hairline is Some ==> hairline.unwrap().1 == page.rule
                &&& hairline is Some && l.pieces@.len() == 0 && encode_utf8(l.text@).len()
                    <= usize::MAX && l.text@.len() <= usize::MAX ==> hairline.unwrap().0
                    == l.text@.len()
            })
            &&& !f.table && f.rule ==> v.body == Body::Rule(page.rule)
            &&& !f.table && !f.rule && (f.blank || l.text@.len() == 0) ==> v.body is Nothing
            &&& plain ==> (v.body matches Body::Text { piece, fg, lit: over, heading } && {
                &&& piece == at
                &&& over == lit
                &&& heading == f.heading
                &&& f.fence_label && f.heading is None ==> fg == page.marker
                &&& !(f.fence_label && f.heading is None) ==> fg == look.1
            })
        },
{
    let bytes = encode_utf8(l.text@);
    assert(bytes.subrange(0, bytes.len() as int) =~= bytes);
    vstd::utf8::encode_utf8_decode_utf8(l.text@);
}

/// The band of a file spells its own path and its own totals, and a row past the end
/// is not drawn.
pub proof fn a_files_band_spells_its_totals(
    t: MarkdownRows,
    index: usize,
    seg: usize,
    inks: Inks,
    page: PageInks,
    sel: Option<Selected>,
    state: RowState,
    marker: usize,
    r: Option<PageDrawn>,
)
    requires
        t.wf(),
        page.bullets@.len() > 0,
        call_ensures(MarkdownRows::render, (&t, index, seg, &inks, &page, sel, state, marker), r),
    ensures
        r is None <==> index >= t.rows@.len(),
        index < t.rows@.len() ==> (t.rows@[index as int] matches PageRow::File { path, adds, dels }
            ==> (r matches Some(PageDrawn::File(band)) && {
            &&& band.adds@ == "+"@ + text::decimal(adds as nat)
            &&& band.dels@ == "−"@ + text::decimal(dels as nat)
            &&& band.adds_fg == inks.adds_fg
            &&& band.dels_fg == inks.dels_fg
            &&& band.dir is Some ==> band.dir.unwrap().text@ + band.name.text@ == path@
            &&& band.dir is None ==> band.name.text@ == path@
        })),
        index < t.rows@.len() && t.rows@[index as int] is Hunk ==> r is Some && r.unwrap() is Hunk,
{
    if index < t.rows@.len() {
        if let PageRow::File { path, .. } = t.rows@[index as int] {
            a_split_path_is_the_path(path@);
            if dir_len(path@) == 0 {
                assert(path@.skip(0) =~= path@);
            }
        }
    }
}

/// The band that is drawn for a file is the one that its path and its totals make, and
/// the band of a hunk the one that its coordinates make, under the same selection and
/// with the same keyboard.
pub proof fn a_band_is_the_one_its_row_makes(
    t: MarkdownRows,
    index: usize,
    seg: usize,
    inks: Inks,
    page: PageInks,
    sel: Option<Selected>,
    state: RowState,
    marker: usize,
    r: Option<PageDrawn>,
    path: &str,
    adds: usize,
    dels: usize,
    file: FileBand,
    hunk: HunkBand,
    lit: Span,
    b: int,
)
    requires
        t.wf(),
        page.bullets@.len() > 0,
        index < t.rows@.len(),
        call_ensures(MarkdownRows::render, (&t, index, seg, &inks, &page, sel, state, marker), r),
        t.rows@[index as int] matches PageRow::File { path: p, adds: a, dels: d } ==> p@ == path@
            && a == adds && d == dels,
        call_ensures(file_header, (path, adds, dels, &inks, sel, state), file),
        call_ensures(hunk_header, (marker, &inks, sel, state), hunk),
        call_ensures(selected, (sel, 0u16), lit),
        0 <= b <= usize::MAX,
    ensures
        t.rows@[index as int] is File ==> (r matches Some(PageDrawn::File(band)) && same_band(
            band,
            file,
        )),
        t.rows@[index as int] is Hunk ==> (r matches Some(PageDrawn::Hunk(band)) && band.edge
            == hunk.edge && band.fg == hunk.fg && (under_a_run(band.runs@, b) <==> b < marker
            || lit.start <= b < lit.end)),
{
    if let Some(PageDrawn::Hunk(band)) = r {
        if b < marker || lit.start <= b < lit.end {
            assert(crate::views::draw::covered(band.runs@, b as usize));
        }
        runs_say(marker, lit, band.runs@, b as usize);
    }
}

// ---------------------------------------------------------------------------
// What a row says of itself
// ---------------------------------------------------------------------------

/// The text starts behind the bar, the indent and the bullet: a step for each that
/// there is, and one for each step of depth.
pub proof fn the_text_starts_behind_its_furniture(
    t: MarkdownRows,
    index: usize,
    r: Option<(TextStart, u32)>,
    l: PageLine,
    steps: u32,
)
    requires
        index < t.rows@.len(),
        t.rows@[index as int] == PageRow::Line(l),
        call_ensures(MarkdownRows::text_start, (&t, index), r),
        call_ensures(Furniture::steps, (&l.furniture,), steps),
    ensures
        r == Some((TextStart::Code, steps)),
        steps == l.furniture.depth + (if l.furniture.bar is Some {
            1int
        } else {
            0
        }) + (if l.furniture.bullet {
            1int
        } else {
            0
        }),
{
}

/// A band starts at the page or over the code, without furniture, and is a header
/// where it names a file.
pub proof fn a_band_has_no_furniture(
    t: MarkdownRows,
    index: usize,
    r: Option<(TextStart, u32)>,
    header: bool,
    band: bool,
)
    requires
        call_ensures(MarkdownRows::text_start, (&t, index), r),
        call_ensures(MarkdownRows::is_header, (&t, index), header),
        call_ensures(MarkdownRows::is_file_header, (&t, index), band),
    ensures
        r is None <==> index >= t.rows@.len(),
        index < t.rows@.len() && t.rows@[index as int] is File ==> r == Some((TextStart::Page, 0u32)),
        index < t.rows@.len() && t.rows@[index as int] is Hunk ==> r == Some((TextStart::Code, 0u32)),
        header <==> index < t.rows@.len() && t.rows@[index as int] is File,
        band <==> header,
{
}

/// A row takes as many rows of the screen as it has breaks, and one without any, and
/// what is copied of it is the text that is drawn.
pub proof fn a_row_takes_a_row_per_break(
    t: MarkdownRows,
    index: usize,
    n: usize,
    words: Option<&str>,
)
    requires
        call_ensures(MarkdownRows::rows, (&t, index), n),
        call_ensures(MarkdownRows::selectable, (&t, index), words),
    ensures
        words is Some <==> index < t.rows@.len(),
        index < t.rows@.len() ==> match t.rows@[index as int] {
            PageRow::File { path, .. } => n == 1 && words.unwrap()@ == path@,
            PageRow::Hunk(header) => n == 1 && words.unwrap()@ == header@,
            PageRow::Line(l) => words.unwrap()@ == l.text@ && n == if l.pieces@.len() == 0 {
                1
            } else {
                l.pieces@.len()
            },
        },
        index >= t.rows@.len() ==> n == 1,
{
}

/// The characters of an unbroken row are those of its text without the blanks at its
/// end, and its width counts a step for each level it is nested at, and two more.
pub proof fn a_row_is_as_wide_as_its_ink(
    t: MarkdownRows,
    index: usize,
    chars: usize,
    inked: usize,
    width: usize,
    l: PageLine,
)
    requires
        t.wf(),
        index < t.rows@.len(),
        t.rows@[index as int] == PageRow::Line(l),
        l.pieces@.len() == 0,
        encode_utf8(l.text@).len() <= usize::MAX,
        inked <= usize::MAX - 257,
        call_ensures(MarkdownRows::chars, (&t, index, 0usize), chars),
        call_ensures(MarkdownRows::width, (&t, index, inked), width),
    ensures
        chars <= l.text@.len(),
        forall|i: int| chars <= i < l.text@.len() ==> text::white_space(l.text@[i]),
        chars > 0 ==> !text::white_space(l.text@[chars - 1]),
        width == inked + l.depth + 2,
{
    let bytes = encode_utf8(l.text@);
    assert(bytes.subrange(0, bytes.len() as int) =~= bytes);
    vstd::utf8::encode_utf8_decode_utf8(l.text@);
    blanks_are_cut_off_the_end(l.text@);
}

/// A segment of a broken line has the characters of what it draws, without the blanks
/// at its end, a band is as wide as its text, and a row that is not there has none.
pub proof fn a_segment_has_the_characters_of_its_ink(
    t: MarkdownRows,
    index: usize,
    seg: usize,
    inked: usize,
    chars: usize,
    width: usize,
    piece: Span,
    shown: Seq<char>,
)
    requires
        t.wf(),
        inked <= usize::MAX - 257,
        call_ensures(MarkdownRows::chars, (&t, index, seg), chars),
        call_ensures(MarkdownRows::width, (&t, index, inked), width),
    ensures
        index >= t.rows@.len() ==> chars == 0 && width == 0,
        index < t.rows@.len() ==> match t.rows@[index as int] {
            PageRow::File { path, .. } => width == path@.len(),
            PageRow::Hunk(header) => width == header@.len(),
            PageRow::Line(l) => seg < l.pieces@.len() && piece == l.pieces@[seg as int]
                && encode_utf8(shown) == encode_utf8(l.text@).subrange(
                piece.start as int,
                piece.end as int,
            ) ==> {
                &&& chars <= shown.len()
                &&& forall|i: int| chars <= i < shown.len() ==> text::white_space(shown[i])
                &&& chars > 0 ==> !text::white_space(shown[chars - 1])
            },
        },
{
    vstd::utf8::encode_utf8_decode_utf8(shown);
    blanks_are_cut_off_the_end(shown);
}

/// A click on a segment lands behind that many characters of it, in the row's own
/// bytes.
pub proof fn a_click_lands_behind_its_column(
    t: MarkdownRows,
    index: usize,
    seg: usize,
    col: usize,
    r: Option<Hit>,
    l: PageLine,
    piece: Span,
    shown: Seq<char>,
)
    requires
        t.wf(),
        index < t.rows@.len(),
        t.rows@[index as int] == PageRow::Line(l),
        seg < l.pieces@.len(),
        piece == l.pieces@[seg as int],
        encode_utf8(shown) == encode_utf8(l.text@).subrange(piece.start as int, piece.end as int),
        call_ensures(MarkdownRows::hit, (&t, index, seg, col), r),
    ensures
        r matches Some(h) && h.part == 0 && h.off == piece.start + if col < shown.len() {
            encode_utf8(shown.take(col as int)).len()
        } else {
            encode_utf8(shown).len()
        },
{
    vstd::utf8::encode_utf8_decode_utf8(shown);
}

/// A click on a band, or on a line that is not broken, lands behind that many
/// characters of its text, or behind all of them past its end.
pub proof fn a_click_on_a_whole_row_lands_behind_its_column(
    t: MarkdownRows,
    index: usize,
    col: usize,
    r: Option<Hit>,
    shown: Seq<char>,
)
    requires
        t.wf(),
        index < t.rows@.len(),
        encode_utf8(shown).len() <= usize::MAX,
        match t.rows@[index as int] {
            PageRow::File { path, .. } => shown == path@,
            PageRow::Hunk(header) => shown == header@,
            PageRow::Line(l) => l.pieces@.len() == 0 && shown == l.text@,
        },
        call_ensures(MarkdownRows::hit, (&t, index, 0usize, col), r),
    ensures
        r matches Some(h) && h.part == 0 && h.off == if col < shown.len() {
            encode_utf8(shown.take(col as int)).len()
        } else {
            encode_utf8(shown).len()
        },
{
    let bytes = encode_utf8(shown);
    assert(bytes.subrange(0, bytes.len() as int) =~= bytes);
    vstd::utf8::encode_utf8_decode_utf8(shown);
}

/// The six sizes are the levels', in order, and a level past either end takes the
/// end's.
pub proof fn a_heading_has_its_levels_size(level: u8, r: usize)
    requires
        call_ensures(heading_slot, (level,), r),
    ensures
        1 <= level <= 6 ==> r + 1 == level,
        level == 0 ==> r == 0,
        level > 6 ==> r == 5,
{
}

/// The glyphs of the bullets go by depth, and the last one is every deeper one's.
pub proof fn a_bullet_has_its_depths_glyph(page: PageInks, depth: u8, r: &'static str)
    requires
        page.bullets@.len() > 0,
        call_ensures(PageInks::bullet, (&page, depth), r),
    ensures
        depth < page.bullets@.len() ==> r@ == page.bullets@[depth as int]@,
        depth >= page.bullets@.len() ==> r@ == page.bullets@.last()@,
{
}

/// A file is claimed by what follows the last dot of its name: any of the extensions
/// that are claimed, and markdown's three to begin with.
pub proof fn a_file_is_claimed_by_its_extension(
    t: MarkdownRows,
    fresh: MarkdownRows,
    path: &str,
    stem: Seq<char>,
    ext: Seq<char>,
    r: bool,
    s: bool,
)
    requires
        path@ == stem.push('.') + ext,
        !ext.contains('.'),
        !ext.contains('/'),
        call_ensures(MarkdownRows::claims, (&t, path), r),
        call_ensures(<MarkdownRows as Default>::default, (), fresh),
        call_ensures(MarkdownRows::claims, (&fresh, path), s),
    ensures
        r <==> exists|i: int| 0 <= i < t.extensions@.len() && (#[trigger] t.extensions@[i])@ == ext,
        s <==> ext == "md"@ || ext == "markdown"@ || ext == "mdx"@,
{
    an_extension_claims(t, stem, ext);
    markdown_is_claimed_by_default(fresh, stem, ext);
    let texts = text::texts(t.extensions@);
    assert(texts.len() == t.extensions@.len());
    if texts.contains(ext) {
        let i = choose|i: int| 0 <= i < texts.len() && texts[i] == ext;
        assert(t.extensions@[i]@ == ext);
    }
    if exists|i: int| 0 <= i < t.extensions@.len() && (#[trigger] t.extensions@[i])@ == ext {
        let i = choose|i: int| 0 <= i < t.extensions@.len() && (#[trigger] t.extensions@[i])@ == ext;
        assert(texts[i] == ext);
    }
}

} // verus!
