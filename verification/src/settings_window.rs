//! The settings window: the panel filtered by a query, a selection over it, and
//! what a key does there.
use crate::settings::{
    addressed, at, len, row_count, row_views, rows_before, section_views, Row, RowView, Section,
    SectionView, Setting,
};
use crate::text;
use crate::views::draw::Rgb;
use vstd::prelude::*;

verus! {

// ---------------------------------------------------------------------------
// Addresses
// ---------------------------------------------------------------------------

/// What the selection names: a row of the panel, or the file behind it.
#[derive(Clone, Copy, Debug, PartialEq, Eq, Structural)]
pub enum Item {
    Row { s: usize, r: usize },
    File,
}

/// How many things the selection moves over: every row, then the file.
pub fn flat_len(sections: &Vec<Section>) -> (r: usize)
    requires
        row_count(sections@) < usize::MAX,
    ensures
        r == row_count(sections@) + 1,
{
    len(sections) + 1
}

/// What an index names. The file is past every row, and nothing is past it.
pub fn flat_at(sections: &Vec<Section>, index: usize) -> (r: Option<Item>)
    requires
        row_count(sections@) < usize::MAX,
    ensures
        match r {
            Some(Item::Row { s, r }) => addressed(sections@, s as int, r as int, index as int),
            Some(Item::File) => index == row_count(sections@),
            None => index > row_count(sections@),
        },
{
    match at(sections, index) {
        Some((s, r)) => Some(Item::Row { s, r }),
        None => if index == len(sections) {
            Some(Item::File)
        } else {
            None
        },
    }
}

// ---------------------------------------------------------------------------
// The filter
// ---------------------------------------------------------------------------

/// Every word of a query stands in a row's label or in its value, in any case.
pub open spec fn row_matches(query: Seq<char>, label: Seq<char>, value: Seq<char>) -> bool {
    text::words_held(
        text::lowercase(query),
        seq![text::lowercase(label), text::lowercase(value)],
    )
}

/// Whether every word of a lowercase query stands in a lowercase label or value.
pub fn matches_lowered(query: &str, label: &str, value: &str) -> (r: bool)
    ensures
        r == text::words_held(query@, seq![label@, value@]),
{
    let mut fields: Vec<Vec<char>> = Vec::new();
    fields.push(text::chars_of(label));
    fields.push(text::chars_of(value));
    assert(text::field_chars(fields@) =~= seq![label@, value@]);
    text::all_words_held(text::chars_of(query).as_slice(), &fields)
}

/// Whether a row survives a query: every word of it is in the label or the
/// value. Case never tells two knobs apart.
pub fn matches(query: &str, label: &str, value: &str) -> (r: bool)
    ensures
        r == row_matches(query@, label@, value@),
{
    let query = text::lower(query);
    let label = text::lower(label);
    let value = text::lower(value);
    matches_lowered(query.as_str(), label.as_str(), value.as_str())
}

/// A row in lowercase: what a query is held against.
#[derive(Debug)]
pub struct FoldedRow {
    pub label: String,
    pub value: String,
}

/// A group in lowercase.
#[derive(Debug)]
pub struct Folded {
    pub title: String,
    pub rows: Vec<FoldedRow>,
}

/// A group in lowercase, text by text.
#[verifier::ext_equal]
pub ghost struct FoldedView {
    pub title: Seq<char>,
    /// Label and value of each row.
    pub rows: Seq<(Seq<char>, Seq<char>)>,
}

impl View for Folded {
    type V = FoldedView;

    open spec fn view(&self) -> FoldedView {
        FoldedView {
            title: self.title@,
            rows: self.rows@.map_values(|r: FoldedRow| (r.label@, r.value@)),
        }
    }
}

/// Some groups in lowercase, text by text.
pub open spec fn folded_views(folds: Seq<Folded>) -> Seq<FoldedView> {
    folds.map_values(|f: Folded| f@)
}

/// What a group is in lowercase.
pub open spec fn folded(section: SectionView) -> FoldedView {
    FoldedView {
        title: text::lowercase(section.title),
        rows: section.rows.map_values(
            |r: RowView| (text::lowercase(r.label), text::lowercase(r.value)),
        ),
    }
}

/// The rows whose lowercase labels and values hold every word, in order.
pub open spec fn kept_rows(
    words: Seq<char>,
    rows: Seq<RowView>,
    folds: Seq<(Seq<char>, Seq<char>)>,
) -> Seq<RowView>
    decreases rows.len(),
{
    if rows.len() == 0 {
        seq![]
    } else {
        let earlier = kept_rows(words, rows.drop_last(), folds.drop_last());
        if text::words_held(words, seq![folds.last().0, folds.last().1]) {
            earlier.push(rows.last())
        } else {
            earlier
        }
    }
}

/// What a query leaves of a group: all of it where the group's title holds the
/// query, the rows that hold its words otherwise, and nothing where there are
/// none.
pub open spec fn kept_section(
    query: Seq<char>,
    words: Seq<char>,
    section: SectionView,
    fold: FoldedView,
) -> Option<SectionView> {
    let rows = kept_rows(words, section.rows, fold.rows);
    if text::holds(fold.title, query) {
        Some(section)
    } else if rows.len() > 0 {
        Some(SectionView { title: section.title, rows })
    } else {
        None
    }
}

/// What a query leaves of some groups, in order.
pub open spec fn kept_sections(
    query: Seq<char>,
    words: Seq<char>,
    sections: Seq<SectionView>,
    folds: Seq<FoldedView>,
) -> Seq<SectionView>
    decreases sections.len(),
{
    if sections.len() == 0 {
        seq![]
    } else {
        let earlier = kept_sections(query, words, sections.drop_last(), folds.drop_last());
        match kept_section(query, words, sections.last(), folds.last()) {
            Some(s) => earlier.push(s),
            None => earlier,
        }
    }
}

/// What a query leaves of the panel. An empty query leaves all of it.
pub open spec fn filtered_with(
    query: Seq<char>,
    words: Seq<char>,
    sections: Seq<SectionView>,
    folds: Seq<FoldedView>,
) -> Seq<SectionView> {
    if query.len() == 0 {
        sections
    } else {
        kept_sections(query, words, sections, folds)
    }
}

/// The panel under what a field holds.
pub open spec fn filtered_by(typed: Seq<char>, sections: Seq<SectionView>) -> Seq<SectionView> {
    let query = text::asked(typed);
    filtered_with(
        query,
        text::lowercase(query),
        sections,
        sections.map_values(|s: SectionView| folded(s)),
    )
}

/// Each row has its lowercase beside it.
pub open spec fn folds_match(sections: Seq<Section>, folds: Seq<Folded>) -> bool {
    &&& sections.len() == folds.len()
    &&& forall|i: int|
        0 <= i < sections.len() ==> (#[trigger] sections[i]).rows@.len() == folds[i].rows@.len()
}

fn copy_row(row: &Row) -> (r: Row)
    ensures
        r@ == row@,
{
    Row {
        setting: row.setting,
        label: row.label,
        value: row.value.clone(),
        desc: row.desc,
        enabled: row.enabled,
    }
}

fn copy_rows(rows: &Vec<Row>) -> (r: Vec<Row>)
    ensures
        row_views(r@) == row_views(rows@),
{
    let mut out: Vec<Row> = Vec::new();
    let mut i: usize = 0;
    assert(row_views(out@) =~= row_views(rows@).take(0));
    while i < rows.len()
        invariant
            i <= rows@.len(),
            row_views(out@) == row_views(rows@).take(i as int),
        decreases rows@.len() - i,
    {
        let row = copy_row(&rows[i]);
        let ghost was = out@;
        out.push(row);
        assert(row_views(out@) =~= row_views(was).push(row@));
        assert(row_views(out@) =~= row_views(rows@).take(i + 1));
        i += 1;
    }
    assert(row_views(out@) =~= row_views(rows@));
    out
}

fn keep_rows(words: &str, rows: &Vec<Row>, folds: &Vec<FoldedRow>) -> (r: Vec<Row>)
    requires
        rows@.len() == folds@.len(),
    ensures
        row_views(r@) == kept_rows(
            words@,
            row_views(rows@),
            folds@.map_values(|f: FoldedRow| (f.label@, f.value@)),
        ),
{
    let mut out: Vec<Row> = Vec::new();
    let mut i: usize = 0;
    let ghost views = row_views(rows@);
    let ghost lower = folds@.map_values(|f: FoldedRow| (f.label@, f.value@));
    assert(row_views(out@) =~= kept_rows(words@, views.take(0), lower.take(0)));
    while i < rows.len()
        invariant
            i <= rows@.len() == folds@.len(),
            views == row_views(rows@),
            lower == folds@.map_values(|f: FoldedRow| (f.label@, f.value@)),
            row_views(out@) == kept_rows(words@, views.take(i as int), lower.take(i as int)),
        decreases rows@.len() - i,
    {
        assert(views.take(i + 1).drop_last() =~= views.take(i as int));
        assert(lower.take(i + 1).drop_last() =~= lower.take(i as int));
        let fold = &folds[i];
        if matches_lowered(words, fold.label.as_str(), fold.value.as_str()) {
            let copy = copy_row(&rows[i]);
            let ghost was = out@;
            out.push(copy);
            assert(row_views(out@) =~= row_views(was).push(copy@));
        }
        i += 1;
    }
    assert(views.take(i as int) =~= views);
    assert(lower.take(i as int) =~= lower);
    out
}

/// The panel under a query, given everything in lowercase: `words` is what the
/// rows are held against, word by word.
pub fn filtered_lowered(
    query: &str,
    words: &str,
    sections: &Vec<Section>,
    folds: &Vec<Folded>,
) -> (r: Vec<Section>)
    requires
        folds_match(sections@, folds@),
    ensures
        section_views(r@) == filtered_with(
            query@,
            words@,
            section_views(sections@),
            folded_views(folds@),
        ),
{
    let part = text::chars_of(query);
    let whole: bool = part.len() == 0;
    let mut out: Vec<Section> = Vec::new();
    let mut i: usize = 0;
    let ghost views = section_views(sections@);
    let ghost lower = folded_views(folds@);
    assert(section_views(out@) =~= views.take(0));
    assert(section_views(out@) =~= kept_sections(query@, words@, views.take(0), lower.take(0)));
    while i < sections.len()
        invariant
            i <= sections@.len(),
            folds_match(sections@, folds@),
            views == section_views(sections@),
            lower == folded_views(folds@),
            part@ == query@,
            whole == (query@.len() == 0),
            section_views(out@) == if whole {
                views.take(i as int)
            } else {
                kept_sections(query@, words@, views.take(i as int), lower.take(i as int))
            },
        decreases sections@.len() - i,
    {
        assert(views.take(i + 1).drop_last() =~= views.take(i as int));
        assert(lower.take(i + 1).drop_last() =~= lower.take(i as int));
        let section = &sections[i];
        let fold = &folds[i];
        let ghost was = out@;
        let title = text::chars_of(fold.title.as_str());
        if whole || text::contains(title.as_slice(), part.as_slice()) {
            let copy = Section { title: section.title, rows: copy_rows(&section.rows) };
            assert(copy@ == section@);
            out.push(copy);
            assert(section_views(out@) =~= section_views(was).push(section@));
            assert(whole ==> section_views(out@) =~= views.take(i + 1));
        } else {
            let rows = keep_rows(words, &section.rows, &fold.rows);
            if rows.len() > 0 {
                let kept = Section { title: section.title, rows };
                out.push(kept);
                assert(section_views(out@) =~= section_views(was).push(kept@));
            } else {
                assert(row_views(rows@) =~= seq![]);
            }
        }
        i += 1;
    }
    assert(views.take(i as int) =~= views);
    assert(lower.take(i as int) =~= lower);
    out
}

fn fold_rows(rows: &Vec<Row>) -> (r: Vec<FoldedRow>)
    ensures
        r@.len() == rows@.len(),
        r@.map_values(|f: FoldedRow| (f.label@, f.value@)) == row_views(rows@).map_values(
            |r: RowView| (text::lowercase(r.label), text::lowercase(r.value)),
        ),
{
    let mut out: Vec<FoldedRow> = Vec::new();
    let mut i: usize = 0;
    while i < rows.len()
        invariant
            i <= rows@.len(),
            out@.len() == i,
            forall|k: int|
                0 <= k < i ==> (#[trigger] out@[k]).label@ == text::lowercase(rows@[k].label@)
                    && out@[k].value@ == text::lowercase(rows@[k].value@),
        decreases rows@.len() - i,
    {
        let row = &rows[i];
        out.push(
            FoldedRow { label: text::lower(row.label), value: text::lower(row.value.as_str()) },
        );
        i += 1;
    }
    assert(out@.map_values(|f: FoldedRow| (f.label@, f.value@)) =~= row_views(rows@).map_values(
        |r: RowView| (text::lowercase(r.label), text::lowercase(r.value)),
    ));
    out
}

/// The panel in lowercase.
pub fn fold(sections: &Vec<Section>) -> (r: Vec<Folded>)
    ensures
        folds_match(sections@, r@),
        folded_views(r@) == section_views(sections@).map_values(|s: SectionView| folded(s)),
{
    let mut out: Vec<Folded> = Vec::new();
    let mut i: usize = 0;
    while i < sections.len()
        invariant
            i <= sections@.len(),
            out@.len() == i,
            forall|k: int|
                0 <= k < i ==> (#[trigger] out@[k])@ == folded(sections@[k]@)
                    && out@[k].rows@.len() == sections@[k].rows@.len(),
        decreases sections@.len() - i,
    {
        let section = &sections[i];
        let f = Folded { title: text::lower(section.title), rows: fold_rows(&section.rows) };
        assert(f@ == folded(section@));
        out.push(f);
        i += 1;
    }
    assert(folded_views(out@) =~= section_views(sections@).map_values(
        |s: SectionView| folded(s),
    ));
    out
}

/// The panel under what the field holds: whole groups whose title holds it, the
/// matching rows of the others, and nothing else, in order.
pub fn filtered(typed: &str, sections: &Vec<Section>) -> (r: Vec<Section>)
    ensures
        section_views(r@) == filtered_by(typed@, section_views(sections@)),
{
    let query = text::ask(typed);
    let words = text::lower(query.as_str());
    let folds = fold(sections);
    filtered_lowered(query.as_str(), words.as_str(), sections, &folds)
}

proof fn kept_rows_come_from(
    words: Seq<char>,
    rows: Seq<RowView>,
    folds: Seq<(Seq<char>, Seq<char>)>,
)
    ensures
        forall|i: int|
            0 <= i < kept_rows(words, rows, folds).len() ==> rows.contains(
                #[trigger] kept_rows(words, rows, folds)[i],
            ),
    decreases rows.len(),
{
    if rows.len() > 0 {
        let rest = rows.drop_last();
        kept_rows_come_from(words, rest, folds.drop_last());
        let kept = kept_rows(words, rows, folds);
        let earlier = kept_rows(words, rest, folds.drop_last());
        assert forall|i: int| 0 <= i < kept.len() implies rows.contains(#[trigger] kept[i]) by {
            if i < earlier.len() {
                assert(kept[i] == earlier[i]);
                let k = choose|k: int| 0 <= k < rest.len() && rest[k] == earlier[i];
                assert(rows[k] == kept[i]);
            } else {
                assert(rows[rows.len() - 1] == kept[i]);
            }
        }
    }
}

/// Group `kept` is group `section` with some of its rows, and with one at least
/// unless the group was empty to begin with.
pub open spec fn part_of(kept: SectionView, section: SectionView) -> bool {
    &&& kept.title == section.title
    &&& forall|r: int| 0 <= r < kept.rows.len() ==> section.rows.contains(#[trigger] kept.rows[r])
    &&& kept.rows.len() > 0 || section.rows.len() == 0
}

proof fn kept_come_from(
    query: Seq<char>,
    words: Seq<char>,
    sections: Seq<SectionView>,
    folds: Seq<FoldedView>,
) -> (from: Seq<int>)
    ensures
        from.len() == kept_sections(query, words, sections, folds).len(),
        forall|i: int, j: int| 0 <= i < j < from.len() ==> from[i] < from[j],
        forall|i: int|
            0 <= i < from.len() ==> 0 <= #[trigger] from[i] < sections.len() && part_of(
                kept_sections(query, words, sections, folds)[i],
                sections[from[i]],
            ),
    decreases sections.len(),
{
    if sections.len() == 0 {
        seq![]
    } else {
        let rest = sections.drop_last();
        let earlier = kept_come_from(query, words, rest, folds.drop_last());
        let last = sections.last();
        let kept = kept_sections(query, words, sections, folds);
        kept_rows_come_from(words, last.rows, folds.last().rows);
        match kept_section(query, words, last, folds.last()) {
            Some(s) => {
                let from = earlier.push(sections.len() - 1);
                assert(part_of(s, last)) by {
                    if text::holds(folds.last().title, query) {
                        assert forall|r: int| 0 <= r < s.rows.len() implies last.rows.contains(
                            #[trigger] s.rows[r],
                        ) by {
                            assert(last.rows[r] == s.rows[r]);
                        }
                    }
                }
                assert forall|i: int| 0 <= i < from.len() implies 0 <= #[trigger] from[i]
                    < sections.len() && part_of(kept[i], sections[from[i]]) by {
                    if i < earlier.len() {
                        assert(from[i] == earlier[i]);
                        assert(rest[earlier[i]] == sections[earlier[i]]);
                    }
                }
                from
            },
            None => {
                assert forall|i: int| 0 <= i < earlier.len() implies 0 <= #[trigger] earlier[i]
                    < sections.len() && part_of(kept[i], sections[earlier[i]]) by {
                    assert(rest[earlier[i]] == sections[earlier[i]]);
                }
                earlier
            },
        }
    }
}
/// A query only takes away: what it leaves of the panel are groups of the panel,
/// in their order, each with rows of its own. The places they came from rise.
pub proof fn a_query_only_takes_away(typed: Seq<char>, sections: Seq<SectionView>) -> (from: Seq<
    int,
>)
    ensures
        from.len() == filtered_by(typed, sections).len(),
        forall|i: int, j: int| 0 <= i < j < from.len() ==> from[i] < from[j],
        forall|i: int|
            0 <= i < from.len() ==> 0 <= #[trigger] from[i] < sections.len() && part_of(
                filtered_by(typed, sections)[i],
                sections[from[i]],
            ),
{
    let query = text::asked(typed);
    if query.len() == 0 {
        let from = Seq::new(sections.len(), |i: int| i);
        assert forall|i: int| 0 <= i < from.len() implies 0 <= #[trigger] from[i] < sections.len()
            && part_of(filtered_by(typed, sections)[i], sections[from[i]]) by {
            let s = sections[i];
            assert forall|r: int| 0 <= r < s.rows.len() implies s.rows.contains(
                #[trigger] s.rows[r],
            ) by {}
        }
        from
    } else {
        kept_come_from(
            query,
            text::lowercase(query),
            sections,
            sections.map_values(|s: SectionView| folded(s)),
        )
    }
}

/// A field that holds nothing but blanks shows the panel as it is.
pub proof fn no_query_shows_the_whole_panel(typed: Seq<char>, sections: Seq<SectionView>)
    requires
        text::trimmed(typed).len() == 0,
    ensures
        filtered_by(typed, sections) == sections,
{
}

// ---------------------------------------------------------------------------
// The window
// ---------------------------------------------------------------------------

/// The settings window: what its field holds, which row is selected, the presses
/// of a chord so far, and what its last line says. A press is the list of keys
/// that it may stand for.
#[derive(Debug)]
pub struct SettingsWindow<K> {
    pub query: String,
    pub sel: usize,
    pub pending: Vec<Vec<K>>,
    pub footer: Option<String>,
}

/// What the window asks of whoever holds it.
#[derive(Clone, Copy, Debug, PartialEq, Eq, Structural)]
pub enum Act {
    Nothing,
    Close,
    /// The keyboard goes from the field to the rows.
    FocusRows,
    /// Turn a knob by `dir`.
    Apply { setting: Setting, dir: i32 },
    /// Open the file behind the panel in an editor.
    OpenFile,
}

/// What a key map makes of the presses so far.
#[derive(Clone, Copy, Debug, PartialEq, Eq, Structural)]
pub enum Resolved {
    /// More presses may follow.
    Pending,
    /// A command.
    Run,
    /// Nothing.
    Unbound,
}

/// What becomes of a press.
#[derive(Clone, Copy, Debug, PartialEq, Eq, Structural)]
pub enum Pressed {
    /// It goes no further.
    Consumed,
    /// It goes no further, and its command runs.
    Run,
    /// It is text for the field.
    PassOn,
}

/// `sel` held inside what the filter leaves.
pub open spec fn clamped(sel: usize, count: nat) -> int {
    if sel >= count {
        count - 1
    } else {
        sel as int
    }
}

/// `sel` moved by `by`, held inside what the filter leaves.
pub open spec fn stepped(sel: usize, by: isize, count: nat) -> int {
    if sel + by < 0 {
        0
    } else if sel + by > count - 1 {
        count - 1
    } else {
        sel + by
    }
}

impl<K> SettingsWindow<K> {
    /// A window just opened.
    pub fn new() -> (r: SettingsWindow<K>)
        ensures
            r.query@ == ""@,
            r.sel == 0,
            r.pending@.len() == 0,
            r.footer is None,
    {
        proof {
            reveal_strlit("");
        }
        SettingsWindow { query: String::new(), sel: 0, pending: Vec::new(), footer: None }
    }

    /// The field was edited. The rows are another set now, so the selection goes
    /// back to the top.
    pub fn edited(&mut self, typed: String)
        ensures
            *final(self) == (SettingsWindow { query: typed, sel: 0, ..*old(self) }),
    {
        self.query = typed;
        self.sel = 0;
    }

    /// The panel under what the field holds.
    pub fn filtered(&self, sections: &Vec<Section>) -> (r: Vec<Section>)
        ensures
            section_views(r@) == filtered_by(self.query@, section_views(sections@)),
    {
        filtered(self.query.as_str(), sections)
    }

    /// Holds the selection inside what the filter leaves.
    pub fn clamp(&mut self, shown: &Vec<Section>)
        requires
            row_count(shown@) < usize::MAX,
        ensures
            *final(self) == (SettingsWindow {
                sel: clamped(old(self).sel, row_count(shown@) + 1) as usize,
                ..*old(self)
            }),
            final(self).sel <= row_count(shown@),
    {
        let count: usize = flat_len(shown);
        if self.sel >= count {
            self.sel = count - 1;
        }
    }

    /// Moves the selection by `by`. A move that goes somewhere clears the last
    /// line.
    pub fn step(&mut self, shown: &Vec<Section>, by: isize)
        requires
            row_count(shown@) < usize::MAX,
        ensures
            ({
                let next = stepped(old(self).sel, by, row_count(shown@) + 1);
                *final(self) == if next == old(self).sel {
                    *old(self)
                } else {
                    (SettingsWindow { sel: next as usize, footer: None, ..*old(self) })
                }
            }),
    {
        let count: usize = flat_len(shown);
        let to: i128 = self.sel as i128 + by as i128;
        let next: usize = if to < 0 {
            0
        } else if to > (count - 1) as i128 {
            count - 1
        } else {
            to as usize
        };
        if next != self.sel {
            self.sel = next;
            self.footer = None;
        }
    }

    /// Moves the selection to either end, and clears the last line.
    pub fn jump(&mut self, shown: &Vec<Section>, bottom: bool)
        requires
            row_count(shown@) < usize::MAX,
        ensures
            *final(self) == (SettingsWindow {
                sel: if bottom {
                    row_count(shown@) as usize
                } else {
                    0
                },
                footer: None,
                ..*old(self)
            }),
    {
        let count: usize = flat_len(shown);
        self.sel = if bottom {
            count - 1
        } else {
            0
        };
        self.footer = None;
    }

    /// A click on row `index`.
    pub fn select(&mut self, index: usize)
        ensures
            *final(self) == (SettingsWindow { sel: index, footer: None, ..*old(self) }),
    {
        self.sel = index;
        self.footer = None;
    }

    /// Turns the selected knob by `dir`. One that only a repository sets says so
    /// and does nothing. The file opens instead of turning.
    pub fn adjust(&mut self, shown: &Vec<Section>, dir: i32) -> (r: Act)
        requires
            row_count(shown@) < usize::MAX,
        ensures
            turns(*old(self), shown@, dir, *final(self), r),
    {
        match flat_at(shown, self.sel) {
            Some(Item::Row { s, r: i }) => {
                proof {
                    crate::settings::addresses_are_unique(
                        shown@,
                        s as int,
                        i as int,
                        self.sel as int,
                        s as int,
                        i as int,
                        self.sel as int,
                    );
                }
                let row = &shown[s].rows[i];
                assert(addressed(shown@, s as int, i as int, old(self).sel as int));
                if !row.enabled {
                    self.footer = Some("set by the repository — not here".to_owned());
                    return Act::Nothing;
                }
                self.footer = None;
                Act::Apply { setting: row.setting, dir }
            },
            Some(Item::File) => Act::OpenFile,
            None => Act::Nothing,
        }
    }

    /// A click on the value of row `index`: selects the row and turns it.
    pub fn turn(&mut self, shown: &Vec<Section>, index: usize) -> (r: Act)
        requires
            row_count(shown@) < usize::MAX,
        ensures
            turns((SettingsWindow { sel: index, ..*old(self) }), shown@, 1, *final(self), r),
    {
        self.sel = index;
        self.adjust(shown, 1)
    }

    /// The editor was started, or would not start: the last line says why.
    pub fn opened(&mut self, error: Option<String>)
        ensures
            *final(self) == (SettingsWindow { footer: error, ..*old(self) }),
    {
        self.footer = error;
    }

    /// Runs a command of the window. Moves and knobs act on the rows that the
    /// filter leaves; a command that is none of the window's does nothing.
    pub fn dispatch(&mut self, name: &str, shown: &Vec<Section>) -> (r: Act)
        requires
            row_count(shown@) < usize::MAX,
        ensures
            runs(*old(self), name@, shown@, *final(self), r),
    {
        self.clamp(shown);
        if text::same(name, "view.down") {
            self.step(shown, 1);
            return Act::Nothing;
        }
        if text::same(name, "view.up") {
            self.step(shown, -1);
            return Act::Nothing;
        }
        if text::same(name, "view.top") {
            self.jump(shown, false);
            return Act::Nothing;
        }
        if text::same(name, "view.bottom") {
            self.jump(shown, true);
            return Act::Nothing;
        }
        if text::same(name, "view.left") {
            return self.adjust(shown, -1);
        }
        if text::same(name, "view.right") || text::same(name, "settings.apply") {
            return self.adjust(shown, 1);
        }
        if text::same(name, "back") || text::same(name, "settings") || text::same(
            name,
            "input.cancel",
        ) {
            return Act::Close;
        }
        if text::same(name, "input.accept") {
            return Act::FocusRows;
        }
        if text::same(name, "help") {
            self.footer = Some("the keymap lives in the main window".to_owned());
        }
        Act::Nothing
    }
}

/// What a window becomes by turning its selected knob by `dir`, and what it asks
/// for. A knob that only a repository sets says so and does nothing.
pub open spec fn turns<K>(
    was: SettingsWindow<K>,
    shown: Seq<Section>,
    dir: i32,
    now: SettingsWindow<K>,
    act: Act,
) -> bool {
    if was.sel < row_count(shown) {
        exists|s: int, i: int| #[trigger] addressed(shown, s, i, was.sel as int) && ({
            let row = shown[s].rows@[i];
            if row.enabled {
                &&& act == (Act::Apply { setting: row.setting, dir })
                &&& now == (SettingsWindow { footer: None, ..was })
            } else {
                &&& act == Act::Nothing
                &&& now.footer is Some
                &&& now.footer.unwrap()@ == "set by the repository — not here"@
                &&& now == (SettingsWindow { footer: now.footer, ..was })
            }
        })
    } else if was.sel == row_count(shown) {
        act == Act::OpenFile && now == was
    } else {
        act == Act::Nothing && now == was
    }
}

/// What a window becomes by a command, and what it asks for.
pub open spec fn runs<K>(
    before: SettingsWindow<K>,
    name: Seq<char>,
    shown: Seq<Section>,
    now: SettingsWindow<K>,
    act: Act,
) -> bool {
    let count = row_count(shown) + 1;
    let was = SettingsWindow { sel: clamped(before.sel, count) as usize, ..before };
    let moved = |by: isize|
        if stepped(was.sel, by, count) == was.sel {
            was
        } else {
            (SettingsWindow { sel: stepped(was.sel, by, count) as usize, footer: None, ..was })
        };
    if name == "view.down"@ {
        act == Act::Nothing && now == moved(1)
    } else if name == "view.up"@ {
        act == Act::Nothing && now == moved((-1) as isize)
    } else if name == "view.top"@ {
        act == Act::Nothing && now == (SettingsWindow { sel: 0, footer: None, ..was })
    } else if name == "view.bottom"@ {
        act == Act::Nothing && now == (SettingsWindow {
            sel: row_count(shown) as usize,
            footer: None,
            ..was
        })
    } else if name == "view.left"@ {
        turns(was, shown, (-1) as i32, now, act)
    } else if name == "view.right"@ || name == "settings.apply"@ {
        turns(was, shown, 1, now, act)
    } else if name == "back"@ || name == "settings"@ || name == "input.cancel"@ {
        act == Act::Close && now == was
    } else if name == "input.accept"@ {
        act == Act::FocusRows && now == was
    } else if name == "help"@ {
        &&& act == Act::Nothing
        &&& now.footer is Some
        &&& now.footer.unwrap()@ == "the keymap lives in the main window"@
        &&& now == (SettingsWindow { footer: now.footer, ..was })
    } else {
        act == Act::Nothing && now == was
    }
}

// ---------------------------------------------------------------------------
// Keys
// ---------------------------------------------------------------------------

impl<K: Copy> SettingsWindow<K> {
    /// Every press stands for a key at least.
    pub open spec fn wf(&self) -> bool {
        forall|i: int| 0 <= i < self.pending@.len() ==> (#[trigger] self.pending@[i])@.len() > 0
    }

    /// A press. A chord begun where the keyboard no longer is is forgotten. A
    /// press that stands for no key is none. Says whether there is anything to
    /// look up.
    pub fn on_key(&mut self, focus_moved: bool, candidates: Vec<K>) -> (r: bool)
        requires
            old(self).wf(),
        ensures
            final(self).wf(),
            r == (candidates@.len() > 0),
            final(self).query == old(self).query,
            final(self).sel == old(self).sel,
            final(self).footer == old(self).footer,
            final(self).pending@ == ({
                let kept = if focus_moved {
                    seq![]
                } else {
                    old(self).pending@
                };
                if candidates@.len() > 0 {
                    kept.push(candidates)
                } else {
                    kept
                }
            }),
    {
        if focus_moved {
            self.pending.clear();
        }
        if candidates.len() == 0 {
            return false;
        }
        self.pending.push(candidates);
        true
    }

    /// The chord as it was typed: the first spelling of each press.
    pub fn typed(&self) -> (r: Vec<K>)
        requires
            self.wf(),
        ensures
            r@ == self.pending@.map_values(|p: Vec<K>| p@[0]),
    {
        let mut out: Vec<K> = Vec::new();
        let mut i: usize = 0;
        let ghost firsts = self.pending@.map_values(|p: Vec<K>| p@[0]);
        while i < self.pending.len()
            invariant
                self.wf(),
                i <= self.pending@.len(),
                firsts == self.pending@.map_values(|p: Vec<K>| p@[0]),
                out@ == firsts.take(i as int),
            decreases self.pending@.len() - i,
        {
            let press = &self.pending[i];
            assert(self.pending@[i as int]@.len() > 0);
            out.push(press[0]);
            assert(out@ =~= firsts.take(i + 1));
            i += 1;
        }
        assert(firsts.take(i as int) =~= firsts);
        out
    }

    /// What the key map made of the chord, spelled `chord`. In the field an
    /// unbound press is text; elsewhere it is said, and not swallowed.
    pub fn resolved(&mut self, outcome: Resolved, in_field: bool, chord: &str) -> (r: Pressed)
        requires
            old(self).wf(),
        ensures
            final(self).wf(),
            final(self).query == old(self).query,
            final(self).sel == old(self).sel,
            match outcome {
                Resolved::Pending => r == Pressed::Consumed && *final(self) == *old(self),
                Resolved::Run => r == Pressed::Run && final(self).pending@.len() == 0
                    && final(self).footer is None,
                Resolved::Unbound => {
                    &&& final(self).pending@.len() == 0
                    &&& if in_field {
                        r == Pressed::PassOn && final(self).footer == old(self).footer
                    } else {
                        &&& r == Pressed::Consumed
                        &&& final(self).footer is Some
                        &&& final(self).footer.unwrap()@ == chord@ + " is not bound"@
                    }
                },
            },
    {
        match outcome {
            Resolved::Pending => Pressed::Consumed,
            Resolved::Run => {
                self.pending.clear();
                self.footer = None;
                Pressed::Run
            },
            Resolved::Unbound => {
                self.pending.clear();
                if in_field {
                    return Pressed::PassOn;
                }
                let mut said = chord.to_owned();
                said.append(" is not bound");
                self.footer = Some(said);
                Pressed::Consumed
            },
        }
    }
}

// ---------------------------------------------------------------------------
// Drawing
// ---------------------------------------------------------------------------

/// A group in the window's list of groups.
#[derive(Debug)]
pub struct SideEntry {
    pub title: &'static str,
    /// The row a click selects: the group's first.
    pub start: usize,
    /// How many rows are shown, and of how many where the filter hides some.
    pub count: String,
    /// The selection is in it.
    pub active: bool,
}

/// The first group with a title.
pub open spec fn titled(sections: Seq<Section>, title: Seq<char>) -> Option<Section>
    decreases sections.len(),
{
    if sections.len() == 0 {
        None
    } else {
        match titled(sections.drop_last(), title) {
            Some(s) => Some(s),
            None => if sections.last().title@ == title {
                Some(sections.last())
            } else {
                None
            },
        }
    }
}

/// How many rows the whole group has that `section` is what is left of.
pub open spec fn full_count(sections: Seq<Section>, section: Section) -> nat {
    match titled(sections, section.title@) {
        Some(full) => full.rows@.len(),
        None => section.rows@.len(),
    }
}

/// How many rows are shown, and of how many.
pub open spec fn count_text(shown: nat, full: nat) -> Seq<char> {
    if shown == full {
        text::decimal(shown)
    } else {
        text::decimal(shown) + "/"@ + text::decimal(full)
    }
}

impl SideEntry {
    /// The entry of group `s` of `shown`, what is left of `sections`.
    pub open spec fn lists(
        &self,
        sections: Seq<Section>,
        shown: Seq<Section>,
        s: int,
        sel: usize,
    ) -> bool {
        &&& self.title@ == shown[s].title@
        &&& self.start == rows_before(shown, s)
        &&& self.count@ == count_text(
            shown[s].rows@.len(),
            full_count(sections, shown[s]),
        )
        &&& self.active <==> rows_before(shown, s) <= sel < rows_before(shown, s)
            + shown[s].rows@.len()
    }
}

proof fn titled_stays(sections: Seq<Section>, title: Seq<char>, n: int)
    requires
        0 <= n <= sections.len(),
        titled(sections.take(n), title) is Some,
    ensures
        titled(sections, title) == titled(sections.take(n), title),
    decreases sections.len(),
{
    if n < sections.len() {
        assert(sections.drop_last().take(n) =~= sections.take(n));
        titled_stays(sections.drop_last(), title, n);
    } else {
        assert(sections.take(n) =~= sections);
    }
}

fn full_rows(sections: &Vec<Section>, section: &Section) -> (r: usize)
    ensures
        r == full_count(sections@, *section),
{
    let mut i: usize = 0;
    assert(sections@.take(0) =~= seq![]);
    while i < sections.len()
        invariant
            i <= sections@.len(),
            titled(sections@.take(i as int), section.title@) is None,
        decreases sections@.len() - i,
    {
        assert(sections@.take(i + 1).drop_last() =~= sections@.take(i as int));
        if text::same(sections[i].title, section.title) {
            proof {
                titled_stays(sections@, section.title@, i + 1);
            }
            return sections[i].rows.len();
        }
        i += 1;
    }
    assert(sections@.take(i as int) =~= sections@);
    section.rows.len()
}

/// One line of the window's body.
#[derive(Clone, Copy, Debug, PartialEq, Eq, Structural)]
pub enum BodyLine {
    /// The heading of group `s`.
    Heading { s: usize },
    /// Row `r` of group `s`, which is row `index` of what is shown.
    Row { s: usize, r: usize, index: usize, selected: bool },
    /// The file behind the panel.
    File { index: usize, selected: bool },
}

/// The inks of the window.
#[derive(Clone, Copy, Debug, PartialEq, Eq, Structural)]
pub struct PanelInks {
    pub title_bg: Rgb,
    pub selection_bg: Rgb,
    pub accent: Rgb,
    pub fg: Rgb,
    pub dim: Rgb,
    /// What a row's label is drawn in that only a repository sets.
    pub inert: Rgb,
}

/// How a row is drawn: its background, the bar at its edge, its label and its
/// value.
#[derive(Clone, Copy, Debug, PartialEq, Eq, Structural)]
pub struct RowLook {
    pub bg: Rgb,
    pub bar: Rgb,
    pub label: Rgb,
    pub value: Rgb,
}

/// The look of a row: the selected one stands out, and one that cannot be turned
/// is dim.
pub fn row_look(selected: bool, enabled: bool, inks: &PanelInks) -> (r: RowLook)
    ensures
        selected ==> r.bg == inks.selection_bg && r.bar == inks.accent && r.value == inks.accent,
        !selected ==> r.bg == inks.title_bg && r.bar == inks.title_bg && r.value == inks.fg,
        enabled ==> r.label == inks.fg,
        !enabled ==> r.label == inks.inert,
{
    let label: u32 = if enabled {
        inks.fg
    } else {
        inks.inert
    };
    if selected {
        RowLook { bg: inks.selection_bg, bar: inks.accent, label, value: inks.accent }
    } else {
        RowLook { bg: inks.title_bg, bar: inks.title_bg, label, value: inks.fg }
    }
}

/// The background and the text of a group's entry: the one that the selection is
/// in stands out.
pub fn side_look(active: bool, inks: &PanelInks) -> (r: (Rgb, Rgb))
    ensures
        r == if active {
            (inks.selection_bg, inks.fg)
        } else {
            (inks.title_bg, inks.dim)
        },
{
    if active {
        (inks.selection_bg, inks.fg)
    } else {
        (inks.title_bg, inks.dim)
    }
}

/// The lines of the first `n` groups: each group's heading, then its rows.
pub open spec fn body_lines(shown: Seq<Section>, sel: usize, n: int) -> Seq<BodyLine>
    decreases n,
{
    if n <= 0 {
        seq![]
    } else {
        let first = rows_before(shown, n - 1);
        body_lines(shown, sel, n - 1).push(BodyLine::Heading { s: (n - 1) as usize }) + Seq::new(
            shown[n - 1].rows@.len(),
            |r: int|
                BodyLine::Row {
                    s: (n - 1) as usize,
                    r: r as usize,
                    index: (first + r) as usize,
                    selected: first + r == sel,
                },
        )
    }
}

impl<K> SettingsWindow<K> {
    /// The list of groups: those the filter leaves, and where each starts.
    pub fn side(&self, sections: &Vec<Section>, shown: &Vec<Section>) -> (r: Vec<SideEntry>)
        requires
            row_count(shown@) < usize::MAX,
        ensures
            r@.len() == shown@.len(),
            forall|s: int|
                0 <= s < shown@.len() ==> (#[trigger] r@[s]).lists(
                    sections@,
                    shown@,
                    s,
                    self.sel,
                ),
    {
        let mut out: Vec<SideEntry> = Vec::new();
        let mut flat: usize = 0;
        let mut s: usize = 0;
        while s < shown.len()
            invariant
                s <= shown@.len(),
                out@.len() == s,
                flat == rows_before(shown@, s as int),
                row_count(shown@) < usize::MAX,
                forall|k: int|
                    0 <= k < s ==> (#[trigger] out@[k]).lists(sections@, shown@, k, self.sel),
            decreases shown@.len() - s,
        {
            proof {
                crate::settings::rows_before_grow(shown@, s as int, shown@.len() as int);
            }
            let section = &shown[s];
            let count: usize = section.rows.len();
            let full: usize = full_rows(sections, section);
            let mut label = text::decimal_text(count);
            if count != full {
                label.append("/");
                text::push_decimal(&mut label, full as u64);
            }
            let entry = SideEntry {
                title: section.title,
                start: flat,
                count: label,
                active: flat <= self.sel && self.sel < flat + count,
            };
            out.push(entry);
            flat += count;
            s += 1;
        }
        out
    }

    /// The body: each group the filter leaves under its heading, then the file.
    pub fn body(&self, shown: &Vec<Section>) -> (r: Vec<BodyLine>)
        requires
            row_count(shown@) < usize::MAX,
        ensures
            r@ == body_lines(shown@, self.sel, shown@.len() as int).push(
                (BodyLine::File {
                    index: row_count(shown@) as usize,
                    selected: row_count(shown@) == self.sel,
                }),
            ),
    {
        let mut out: Vec<BodyLine> = Vec::new();
        let mut index: usize = 0;
        let mut s: usize = 0;
        while s < shown.len()
            invariant
                s <= shown@.len(),
                index == rows_before(shown@, s as int),
                row_count(shown@) < usize::MAX,
                out@ == body_lines(shown@, self.sel, s as int),
            decreases shown@.len() - s,
        {
            proof {
                crate::settings::rows_before_grow(shown@, s as int, shown@.len() as int);
            }
            out.push(BodyLine::Heading { s });
            let count: usize = shown[s].rows.len();
            let ghost start = out@;
            let ghost first = index;
            let ghost rows = Seq::new(
                count as nat,
                |r: int|
                    BodyLine::Row {
                        s,
                        r: r as usize,
                        index: (first + r) as usize,
                        selected: first + r == self.sel,
                    },
            );
            let mut r: usize = 0;
            assert(out@ =~= start + rows.take(0));
            while r < count
                invariant
                    r <= count,
                    index == first + r,
                    first + count < usize::MAX,
                    rows == Seq::new(
                        count as nat,
                        |r: int|
                            BodyLine::Row {
                                s,
                                r: r as usize,
                                index: (first + r) as usize,
                                selected: first + r == self.sel,
                            },
                    ),
                    out@ == start + rows.take(r as int),
                decreases count - r,
            {
                out.push(BodyLine::Row { s, r, index, selected: index == self.sel });
                assert(out@ =~= start + rows.take(r + 1));
                index += 1;
                r += 1;
            }
            assert(rows.take(r as int) =~= rows);
            s += 1;
            assert(out@ =~= body_lines(shown@, self.sel, s as int));
        }
        out.push(BodyLine::File { index, selected: index == self.sel });
        out
    }

    /// The last line: what there is to say, or else how much the panel holds.
    pub fn footer_text(&self, sections: &Vec<Section>) -> (r: String)
        requires
            row_count(sections@) <= usize::MAX,
        ensures
            r@ == match self.footer {
                Some(said) => said@,
                None => text::decimal(row_count(sections@)) + " rows · "@ + text::decimal(
                    sections@.len(),
                ) + " sections"@,
            },
    {
        match &self.footer {
            Some(said) => said.clone(),
            None => {
                let mut out = text::decimal_text(len(sections));
                out.append(" rows · ");
                text::push_decimal(&mut out, sections.len() as u64);
                out.append(" sections");
                out
            },
        }
    }
}

} // verus!
