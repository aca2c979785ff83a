//! The working tree as a list: what is staged, unstaged, untracked and in
//! conflict, each group under a heading that is there only when the group is.
use super::draw::Rgb;
use super::list::{
    anchored, drift_of, first_key_stays, held_row, hold, key_is_found, motion_of, pressed,
    reconcile, row_of_key, run_view, wheel_route, Drift, Landing, Motion, PendingScroll, Wheel,
};
use crate::text;
use vstd::prelude::*;

verus! {

// ---------------------------------------------------------------------------
// What the repository says
// ---------------------------------------------------------------------------

/// What happened to a file on one side of the index.
#[derive(Clone, Copy, Debug, PartialEq, Eq, Structural)]
pub enum Change {
    Added,
    Modified,
    Deleted,
    Renamed,
    Copied,
    TypeChanged,
}

/// Who did what to a file in conflict.
#[derive(Clone, Copy, Debug, PartialEq, Eq, Structural)]
pub enum ConflictKind {
    BothDeleted,
    AddedByUs,
    DeletedByThem,
    AddedByThem,
    DeletedByUs,
    BothAdded,
    BothModified,
}

#[derive(Debug)]
pub struct StagedEntry {
    pub path: Vec<u8>,
    pub change: Change,
    /// What a rename moved it from.
    pub old_path: Option<Vec<u8>>,
}

#[derive(Debug)]
pub struct UnstagedEntry {
    pub path: Vec<u8>,
    pub change: Change,
}

#[derive(Debug)]
pub struct UntrackedEntry {
    pub path: Vec<u8>,
}

#[derive(Debug)]
pub struct ConflictEntry {
    pub path: Vec<u8>,
    pub state: ConflictKind,
}

/// The state of the working tree.
#[derive(Debug)]
pub struct Status {
    pub staged: Vec<StagedEntry>,
    pub unstaged: Vec<UnstagedEntry>,
    pub untracked: Vec<UntrackedEntry>,
    pub conflicts: Vec<ConflictEntry>,
}

// ---------------------------------------------------------------------------
// Rows
// ---------------------------------------------------------------------------

/// The four groups, in the order they are drawn.
#[derive(Clone, Copy, Debug, PartialEq, Eq, Structural)]
pub enum Section {
    Staged,
    Unstaged,
    Untracked,
    Conflicts,
}

/// A group's name.
pub open spec fn section_name(s: Section) -> Seq<char> {
    match s {
        Section::Staged => "staged"@,
        Section::Unstaged => "unstaged"@,
        Section::Untracked => "untracked"@,
        Section::Conflicts => "conflicts"@,
    }
}

impl Section {
    /// The group's name.
    pub fn name(self) -> (r: &'static str)
        ensures
            r@ == section_name(self),
    {
        match self {
            Section::Staged => "staged",
            Section::Unstaged => "unstaged",
            Section::Untracked => "untracked",
            Section::Conflicts => "conflicts",
        }
    }

    /// The groups in the order they are drawn.
    pub fn all() -> (r: [Section; 4])
        ensures
            r@ == seq![
                Section::Staged,
                Section::Unstaged,
                Section::Untracked,
                Section::Conflicts,
            ],
    {
        [Section::Staged, Section::Unstaged, Section::Untracked, Section::Conflicts]
    }
}

/// What a status letter means, whichever side of the index it is about.
#[derive(Clone, Copy, Debug, PartialEq, Eq, Structural)]
pub enum Mark {
    Add,
    Modify,
    Delete,
    Rename,
    TypeChange,
    Untracked,
    Conflict,
}

/// The mark of a change: a rename and a copy are alike.
pub open spec fn mark_of(change: Change) -> Mark {
    match change {
        Change::Added => Mark::Add,
        Change::Modified => Mark::Modify,
        Change::Deleted => Mark::Delete,
        Change::Renamed => Mark::Rename,
        Change::Copied => Mark::Rename,
        Change::TypeChanged => Mark::TypeChange,
    }
}

/// The letter of a mark. A conflict's letters say who did what, and are not
/// one of these.
pub open spec fn letter_of(mark: Mark) -> Seq<char> {
    match mark {
        Mark::Add => "A"@,
        Mark::Modify => "M"@,
        Mark::Delete => "D"@,
        Mark::Rename => "R"@,
        Mark::TypeChange => "T"@,
        Mark::Untracked => "?"@,
        Mark::Conflict => ""@,
    }
}

/// The letters of a conflict.
pub open spec fn conflict_text(state: ConflictKind) -> Seq<char> {
    match state {
        ConflictKind::BothDeleted => "DD"@,
        ConflictKind::AddedByUs => "AU"@,
        ConflictKind::DeletedByThem => "UD"@,
        ConflictKind::AddedByThem => "UA"@,
        ConflictKind::DeletedByUs => "DU"@,
        ConflictKind::BothAdded => "AA"@,
        ConflictKind::BothModified => "UU"@,
    }
}

/// The colours of the rows.
#[derive(Clone, Copy, Debug, PartialEq, Eq, Structural)]
pub struct FileInks {
    pub bg: Rgb,
    pub fg: Rgb,
    pub dim: Rgb,
    pub faint: Rgb,
    pub accent: Rgb,
    pub error: Rgb,
    pub selection_bg: Rgb,
    pub adds_fg: Rgb,
    pub dels_fg: Rgb,
}

/// The colour of a mark.
pub open spec fn mark_color(mark: Mark, inks: FileInks) -> Rgb {
    match mark {
        Mark::Add => inks.adds_fg,
        Mark::Delete => inks.dels_fg,
        Mark::Conflict => inks.error,
        Mark::Rename => inks.accent,
        Mark::Modify => inks.fg,
        Mark::TypeChange => inks.dim,
        Mark::Untracked => inks.faint,
    }
}

impl Mark {
    /// The mark of a change.
    pub fn of(change: Change) -> (r: Mark)
        ensures
            r == mark_of(change),
    {
        match change {
            Change::Added => Mark::Add,
            Change::Modified => Mark::Modify,
            Change::Deleted => Mark::Delete,
            Change::Renamed | Change::Copied => Mark::Rename,
            Change::TypeChanged => Mark::TypeChange,
        }
    }

    /// The letter git prints for it.
    pub fn letter(self) -> (r: &'static str)
        ensures
            r@ == letter_of(self),
    {
        match self {
            Mark::Add => "A",
            Mark::Modify => "M",
            Mark::Delete => "D",
            Mark::Rename => "R",
            Mark::TypeChange => "T",
            Mark::Untracked => "?",
            Mark::Conflict => "",
        }
    }

    /// The colour it is drawn in.
    pub fn color(self, inks: &FileInks) -> (r: Rgb)
        ensures
            r == mark_color(self, *inks),
    {
        match self {
            Mark::Add => inks.adds_fg,
            Mark::Delete => inks.dels_fg,
            Mark::Conflict => inks.error,
            Mark::Rename => inks.accent,
            Mark::Modify => inks.fg,
            Mark::TypeChange => inks.dim,
            Mark::Untracked => inks.faint,
        }
    }
}

/// The letters of a conflict, as git's porcelain spells them.
pub fn conflict_letters(state: ConflictKind) -> (r: &'static str)
    ensures
        r@ == conflict_text(state),
{
    match state {
        ConflictKind::BothDeleted => "DD",
        ConflictKind::AddedByUs => "AU",
        ConflictKind::DeletedByThem => "UD",
        ConflictKind::AddedByThem => "UA",
        ConflictKind::DeletedByUs => "DU",
        ConflictKind::BothAdded => "AA",
        ConflictKind::BothModified => "UU",
    }
}

/// One file of the working tree.
#[derive(Debug)]
pub struct FileEntry {
    pub section: Section,
    pub path: Vec<u8>,
    pub path_text: String,
    /// What a rename moved it from, with the arrow in front.
    pub renamed_from: Option<String>,
    pub mark: Mark,
    pub letters: &'static str,
}

/// One row of the pane.
#[derive(Debug)]
pub enum Entry {
    Heading { count: String, section: Section },
    File(FileEntry),
}

/// What a row is, text by text.
#[verifier::ext_equal]
pub ghost enum EntryView {
    Heading { count: Seq<char>, section: Section },
    File {
        section: Section,
        path: Seq<u8>,
        text: Seq<char>,
        renamed_from: Option<Seq<char>>,
        mark: Mark,
        letters: Seq<char>,
    },
}

impl View for Entry {
    type V = EntryView;

    open spec fn view(&self) -> EntryView {
        match *self {
            Entry::Heading { count, section } => EntryView::Heading { count: count@, section },
            Entry::File(f) => EntryView::File {
                section: f.section,
                path: f.path@,
                text: f.path_text@,
                renamed_from: text::maybe_text(f.renamed_from),
                mark: f.mark,
                letters: f.letters@,
            },
        }
    }
}

/// The rows of a list, each as what it is.
pub open spec fn entry_views(rows: Seq<Entry>) -> Seq<EntryView> {
    rows.map_values(|e: Entry| e@)
}

/// What a verb aims at on a row: a file, by its group and its path. The same
/// path may stand in two groups.
pub open spec fn aim_of(row: EntryView) -> Option<(Section, Seq<u8>)> {
    match row {
        EntryView::Heading { .. } => None,
        EntryView::File { section, path, .. } => Some((section, path)),
    }
}

/// What a verb aims at, row by row.
pub open spec fn aims(rows: Seq<Entry>) -> Seq<Option<(Section, Seq<u8>)>> {
    rows.map_values(|e: Entry| aim_of(e@))
}

// ---------------------------------------------------------------------------
// Flattening
// ---------------------------------------------------------------------------

/// The row of a file.
pub open spec fn file_row(
    section: Section,
    path: Seq<u8>,
    old_path: Option<Seq<u8>>,
    mark: Mark,
    letters: Seq<char>,
) -> EntryView {
    EntryView::File {
        section,
        path,
        text: text::lossy(path),
        renamed_from: match old_path {
            Some(p) => Some("← "@ + text::lossy(p)),
            None => None,
        },
        mark,
        letters,
    }
}

/// The row of a staged file.
pub open spec fn staged_row(e: StagedEntry) -> EntryView {
    file_row(
        Section::Staged,
        e.path@,
        match e.old_path {
            Some(p) => Some(p@),
            None => None,
        },
        mark_of(e.change),
        letter_of(mark_of(e.change)),
    )
}

/// The row of an unstaged file.
pub open spec fn unstaged_row(e: UnstagedEntry) -> EntryView {
    file_row(
        Section::Unstaged,
        e.path@,
        None,
        mark_of(e.change),
        letter_of(mark_of(e.change)),
    )
}

/// The row of an untracked file.
pub open spec fn untracked_row(e: UntrackedEntry) -> EntryView {
    file_row(Section::Untracked, e.path@, None, Mark::Untracked, "?"@)
}

/// The row of a file in conflict.
pub open spec fn conflict_row(e: ConflictEntry) -> EntryView {
    file_row(Section::Conflicts, e.path@, None, Mark::Conflict, conflict_text(e.state))
}

/// A group: its heading and its files, or nothing.
pub open spec fn group(section: Section, files: Seq<EntryView>) -> Seq<EntryView> {
    if files.len() == 0 {
        seq![]
    } else {
        seq![EntryView::Heading { count: text::decimal(files.len()), section }] + files
    }
}

/// The rows of the pane.
pub open spec fn flattened(status: Status) -> Seq<EntryView> {
    group(Section::Staged, status.staged@.map_values(|e: StagedEntry| staged_row(e))) + group(
        Section::Unstaged,
        status.unstaged@.map_values(|e: UnstagedEntry| unstaged_row(e)),
    ) + group(
        Section::Untracked,
        status.untracked@.map_values(|e: UntrackedEntry| untracked_row(e)),
    ) + group(Section::Conflicts, status.conflicts@.map_values(|e: ConflictEntry| conflict_row(e)))
}

fn file(
    section: Section,
    path: &Vec<u8>,
    old_path: Option<&Vec<u8>>,
    mark: Mark,
    letters: &'static str,
) -> (r: FileEntry)
    ensures
        Entry::File(r)@ == file_row(
            section,
            path@,
            match old_path {
                Some(p) => Some(p@),
                None => None,
            },
            mark,
            letters@,
        ),
{
    let renamed_from = match old_path {
        Some(p) => {
            let mut out = "← ".to_owned();
            out.append(text::lossy_text(p.as_slice()).as_str());
            Some(out)
        },
        None => None,
    };
    FileEntry {
        section,
        path: text::copy_bytes(path),
        path_text: text::lossy_text(path.as_slice()),
        renamed_from,
        mark,
        letters,
    }
}

fn staged_entries(entries: &Vec<StagedEntry>) -> (r: Vec<Entry>)
    ensures
        entry_views(r@) == entries@.map_values(|e: StagedEntry| staged_row(e)),
{
    let mut out: Vec<Entry> = Vec::new();
    let mut i: usize = 0;
    let ghost all = entries@.map_values(|e: StagedEntry| staged_row(e));
    assert(entry_views(out@) =~= all.take(0));
    while i < entries.len()
        invariant
            i <= entries@.len(),
            all == entries@.map_values(|e: StagedEntry| staged_row(e)),
            entry_views(out@) == all.take(i as int),
        decreases entries@.len() - i,
    {
        let e = &entries[i];
        let mark = Mark::of(e.change);
        let old_path: Option<&Vec<u8>> = match &e.old_path {
            Some(p) => Some(p),
            None => None,
        };
        let row = Entry::File(file(Section::Staged, &e.path, old_path, mark, mark.letter()));
        assert(row@ == all[i as int]);
        let ghost was = out@;
        out.push(row);
        assert(entry_views(out@) =~= entry_views(was).push(row@));
        assert(entry_views(out@) =~= all.take(i + 1));
        i += 1;
    }
    assert(all.take(i as int) =~= all);
    out
}

fn unstaged_entries(entries: &Vec<UnstagedEntry>) -> (r: Vec<Entry>)
    ensures
        entry_views(r@) == entries@.map_values(|e: UnstagedEntry| unstaged_row(e)),
{
    let mut out: Vec<Entry> = Vec::new();
    let mut i: usize = 0;
    let ghost all = entries@.map_values(|e: UnstagedEntry| unstaged_row(e));
    assert(entry_views(out@) =~= all.take(0));
    while i < entries.len()
        invariant
            i <= entries@.len(),
            all == entries@.map_values(|e: UnstagedEntry| unstaged_row(e)),
            entry_views(out@) == all.take(i as int),
        decreases entries@.len() - i,
    {
        let e = &entries[i];
        let mark = Mark::of(e.change);
        let row = Entry::File(file(Section::Unstaged, &e.path, None, mark, mark.letter()));
        assert(row@ == all[i as int]);
        let ghost was = out@;
        out.push(row);
        assert(entry_views(out@) =~= entry_views(was).push(row@));
        assert(entry_views(out@) =~= all.take(i + 1));
        i += 1;
    }
    assert(all.take(i as int) =~= all);
    out
}

fn untracked_entries(entries: &Vec<UntrackedEntry>) -> (r: Vec<Entry>)
    ensures
        entry_views(r@) == entries@.map_values(|e: UntrackedEntry| untracked_row(e)),
{
    let mut out: Vec<Entry> = Vec::new();
    let mut i: usize = 0;
    let ghost all = entries@.map_values(|e: UntrackedEntry| untracked_row(e));
    assert(entry_views(out@) =~= all.take(0));
    while i < entries.len()
        invariant
            i <= entries@.len(),
            all == entries@.map_values(|e: UntrackedEntry| untracked_row(e)),
            entry_views(out@) == all.take(i as int),
        decreases entries@.len() - i,
    {
        let e = &entries[i];
        let row = Entry::File(file(Section::Untracked, &e.path, None, Mark::Untracked, "?"));
        assert(row@ == all[i as int]);
        let ghost was = out@;
        out.push(row);
        assert(entry_views(out@) =~= entry_views(was).push(row@));
        assert(entry_views(out@) =~= all.take(i + 1));
        i += 1;
    }
    assert(all.take(i as int) =~= all);
    out
}

fn conflict_entries(entries: &Vec<ConflictEntry>) -> (r: Vec<Entry>)
    ensures
        entry_views(r@) == entries@.map_values(|e: ConflictEntry| conflict_row(e)),
{
    let mut out: Vec<Entry> = Vec::new();
    let mut i: usize = 0;
    let ghost all = entries@.map_values(|e: ConflictEntry| conflict_row(e));
    assert(entry_views(out@) =~= all.take(0));
    while i < entries.len()
        invariant
            i <= entries@.len(),
            all == entries@.map_values(|e: ConflictEntry| conflict_row(e)),
            entry_views(out@) == all.take(i as int),
        decreases entries@.len() - i,
    {
        let e = &entries[i];
        let letters = conflict_letters(e.state);
        let row = Entry::File(file(Section::Conflicts, &e.path, None, Mark::Conflict, letters));
        assert(row@ == all[i as int]);
        let ghost was = out@;
        out.push(row);
        assert(entry_views(out@) =~= entry_views(was).push(row@));
        assert(entry_views(out@) =~= all.take(i + 1));
        i += 1;
    }
    assert(all.take(i as int) =~= all);
    out
}

/// Appends a group: its heading and its files, or nothing.
fn push_group(rows: &mut Vec<Entry>, section: Section, files: Vec<Entry>)
    ensures
        entry_views(final(rows)@) == entry_views(old(rows)@) + group(section, entry_views(files@)),
{
    let ghost before = rows@;
    let mut files = files;
    let ghost all = files@;
    if files.len() > 0 {
        rows.push(Entry::Heading { count: text::decimal_text(files.len()), section });
        rows.append(&mut files);
    }
    assert(entry_views(rows@) =~= entry_views(before) + group(section, entry_views(all)));
}

/// The rows of the pane: each group that has anything in it, under its heading.
pub fn flatten(status: &Status) -> (rows: Vec<Entry>)
    ensures
        entry_views(rows@) == flattened(*status),
{
    let mut rows: Vec<Entry> = Vec::new();
    assert(entry_views(rows@) =~= seq![]);
    push_group(&mut rows, Section::Staged, staged_entries(&status.staged));
    push_group(&mut rows, Section::Unstaged, unstaged_entries(&status.unstaged));
    push_group(&mut rows, Section::Untracked, untracked_entries(&status.untracked));
    push_group(&mut rows, Section::Conflicts, conflict_entries(&status.conflicts));
    assert(entry_views(rows@) =~= flattened(*status));
    rows
}

/// The paths of the files among some rows, in order.
pub open spec fn paths(rows: Seq<EntryView>) -> Seq<Seq<u8>>
    decreases rows.len(),
{
    if rows.len() == 0 {
        seq![]
    } else {
        match rows.last() {
            EntryView::File { path, .. } => paths(rows.drop_last()).push(path),
            EntryView::Heading { .. } => paths(rows.drop_last()),
        }
    }
}

/// How many different paths there are among some rows. A file that is staged
/// and was edited again stands in two groups, and is one change.
pub open spec fn changed(rows: Seq<EntryView>) -> nat {
    paths(rows).to_set().len()
}

/// Whether one of the first `n` rows is a file at `path`.
fn seen_before(rows: &Vec<Entry>, n: usize, path: &Vec<u8>) -> (r: bool)
    requires
        n <= rows@.len(),
    ensures
        r == paths(entry_views(rows@).take(n as int)).contains(path@),
{
    let mut i: usize = 0;
    let ghost views = entry_views(rows@);
    assert(views.take(0) =~= seq![]);
    while i < n
        invariant
            i <= n <= rows@.len(),
            views == entry_views(rows@),
            !paths(views.take(i as int)).contains(path@),
        decreases n - i,
    {
        assert(views.take(i + 1).drop_last() =~= views.take(i as int));
        let ghost upto = paths(views.take(i as int));
        match &rows[i] {
            Entry::File(f) => {
                if text::same_bytes(f.path.as_slice(), path.as_slice()) {
                    proof {
                        let now = paths(views.take(i + 1));
                        assert(now[now.len() - 1] == path@);
                        assert(now.contains(path@));
                        paths_grow(views, i + 1, n as int);
                    }
                    return true;
                }
                proof {
                    let now = paths(views.take(i + 1));
                    assert forall|k: int| 0 <= k < now.len() implies now[k] != path@ by {
                        if k < upto.len() {
                            assert(now[k] == upto[k]);
                        }
                    }
                }
            },
            Entry::Heading { .. } => {},
        }
        i += 1;
    }
    false
}

proof fn paths_grow(views: Seq<EntryView>, m: int, n: int)
    requires
        0 <= m <= n <= views.len(),
    ensures
        forall|p: Seq<u8>| #[trigger]
            paths(views.take(m)).contains(p) ==> paths(views.take(n)).contains(p),
    decreases n - m,
{
    if m < n {
        paths_grow(views, m, n - 1);
        assert(views.take(n).drop_last() =~= views.take(n - 1));
        let old_paths = paths(views.take(n - 1));
        let new_paths = paths(views.take(n));
        assert forall|p: Seq<u8>| #[trigger] old_paths.contains(p) implies new_paths.contains(p) by {
            let k = choose|k: int| 0 <= k < old_paths.len() && old_paths[k] == p;
            assert(new_paths[k] == p);
        }
    }
}

/// How many different paths there are among some rows.
fn count_changed(rows: &Vec<Entry>) -> (n: usize)
    ensures
        n == changed(entry_views(rows@)),
{
    let ghost views = entry_views(rows@);
    let mut n: usize = 0;
    let mut i: usize = 0;
    assert(views.take(0) =~= seq![]);
    assert(paths(views.take(0)).to_set() =~= Set::empty());
    while i < rows.len()
        invariant
            i <= rows@.len(),
            n <= i,
            views == entry_views(rows@),
            n == paths(views.take(i as int)).to_set().len(),
        decreases rows@.len() - i,
    {
        assert(views.take(i + 1).drop_last() =~= views.take(i as int));
        let ghost upto = paths(views.take(i as int));
        let ghost now = paths(views.take(i + 1));
        match &rows[i] {
            Entry::File(f) => {
                let again: bool = seen_before(rows, i, &f.path);
                proof {
                    assert(now =~= upto.push(f.path@));
                    assert(now.to_set() =~= upto.to_set().insert(f.path@)) by {
                        assert forall|p: Seq<u8>| now.to_set().contains(p) <==> upto.to_set().insert(
                            f.path@,
                        ).contains(p) by {
                            if upto.contains(p) {
                                let k = choose|k: int| 0 <= k < upto.len() && upto[k] == p;
                                assert(now[k] == p);
                            }
                            if now.contains(p) {
                                let k = choose|k: int| 0 <= k < now.len() && now[k] == p;
                                if k < upto.len() {
                                    assert(upto[k] == p);
                                }
                            }
                            assert(now[now.len() - 1] == f.path@);
                        }
                    }
                    vstd::seq_lib::seq_to_set_is_finite(upto);
                    assert(upto.to_set().contains(f.path@) == again);
                }
                if !again {
                    n += 1;
                }
            },
            Entry::Heading { .. } => {},
        }
        i += 1;
    }
    assert(views.take(i as int) =~= views);
    n
}

/// The rows of the pane and its title line.
#[derive(Debug)]
pub struct Prepared {
    pub rows: Vec<Entry>,
    pub label: String,
}

/// Everything a refresh brings.
pub fn prepare(status: &Status, describe: &str) -> (r: Prepared)
    ensures
        entry_views(r.rows@) == flattened(*status),
        r.label@ == describe@ + " · "@ + text::decimal(changed(flattened(*status)))
            + " changed"@,
{
    let rows = flatten(status);
    let n: usize = count_changed(&rows);
    let mut label = describe.to_owned();
    label.append(" · ");
    text::push_decimal(&mut label, n as u64);
    label.append(" changed");
    Prepared { rows, label }
}

/// What a discard asks before it acts. There is no earlier version of an
/// untracked file to go back to, and the question says so.
pub fn discard_question(section: Section, shown: &str) -> (r: String)
    ensures
        r@ == (if section == Section::Untracked {
            "delete "@
        } else {
            "discard "@
        }) + shown@ + "? press again to confirm"@,
{
    let mut out = if section == Section::Untracked {
        "delete ".to_owned()
    } else {
        "discard ".to_owned()
    };
    out.append(shown);
    out.append("? press again to confirm");
    out
}

// ---------------------------------------------------------------------------
// The pane
// ---------------------------------------------------------------------------

/// The working-tree pane.
#[derive(Debug)]
pub struct Files {
    pub rows: Vec<Entry>,
    /// The keyboard's row, as the viewport last had it.
    pub cursor: usize,
    /// What a discard waits for its second press on.
    pub armed: Option<(Section, Vec<u8>)>,
    pub pending: PendingScroll,
}

/// The file a question is about.
pub open spec fn question(armed: Option<(Section, Vec<u8>)>) -> Option<(Section, Seq<u8>)> {
    match armed {
        Some((s, p)) => Some((s, p@)),
        None => None,
    }
}

/// The first row that is the file at `path` in group `section`.
fn row_of(rows: &Vec<Entry>, section: Section, path: &Vec<u8>) -> (r: Option<usize>)
    ensures
        match r {
            Some(i) => row_of_key(aims(rows@), (section, path@)) == Some(i as int),
            None => row_of_key(aims(rows@), (section, path@)) is None,
        },
{
    let mut i: usize = 0;
    let ghost keys = aims(rows@);
    assert(keys.take(0) =~= seq![]);
    while i < rows.len()
        invariant
            i <= rows@.len(),
            keys == aims(rows@),
            row_of_key(keys.take(i as int), (section, path@)) is None,
        decreases rows@.len() - i,
    {
        assert(keys.take(i + 1).drop_last() =~= keys.take(i as int));
        assert(keys[i as int] == aim_of(rows@[i as int]@));
        if let Entry::File(f) = &rows[i] {
            if f.section == section && text::same_bytes(f.path.as_slice(), path.as_slice()) {
                proof {
                    first_key_stays(keys, (section, path@), i + 1);
                }
                return Some(i);
            }
        }
        i += 1;
    }
    assert(keys.take(i as int) =~= keys);
    None
}

impl Files {
    /// The file the keyboard is on.
    pub open spec fn aim(&self) -> Option<(Section, Seq<u8>)> {
        if self.cursor < self.rows@.len() {
            aim_of(self.rows@[self.cursor as int]@)
        } else {
            None
        }
    }

    /// A pane on its first rows.
    pub fn from_prepared(prepared: Prepared) -> (r: Files)
        ensures
            r.rows == prepared.rows,
            r.cursor == 0,
            r.armed is None,
            !r.pending.awaiting,
    {
        Files { rows: prepared.rows, cursor: 0, armed: None, pending: PendingScroll::new() }
    }

    /// Whether nothing changed.
    pub fn is_clean(&self) -> (r: bool)
        ensures
            r == (self.rows@.len() == 0),
    {
        self.rows.len() == 0
    }

    /// New rows. A question about the old ones is dropped. The keyboard stays on
    /// its file, in its group, where that is still there.
    pub fn replace_prepared(&mut self, prepared: Prepared) -> (r: Landing)
        ensures
            final(self).rows == prepared.rows,
            final(self).armed is None,
            final(self).cursor == anchored(
                aims(prepared.rows@),
                old(self).aim(),
                old(self).cursor as int,
            ),
            final(self).pending.awaiting == (prepared.rows@.len() > 0),
            r == (Landing { cursor: final(self).cursor, park: prepared.rows@.len() > 0 }),
    {
        self.armed = None;
        let was: Option<(Section, Vec<u8>)> = match self.current_file() {
            Some(f) => Some((f.section, text::copy_bytes(&f.path))),
            None => None,
        };
        self.rows = prepared.rows;
        let kept: usize = match &was {
            Some((section, path)) => match row_of(&self.rows, *section, path) {
                Some(i) => i,
                None => self.cursor,
            },
            None => self.cursor,
        };
        proof {
            if was is Some {
                key_is_found(aims(self.rows@), question(was).unwrap());
            }
        }
        let len: usize = self.rows.len();
        self.cursor = hold(kept, len);
        if len == 0 {
            self.pending.cancel();
        } else {
            self.pending.begin();
        }
        Landing { cursor: self.cursor, park: len > 0 }
    }

    /// The move that a command is.
    pub fn run_view(&self, command: &str) -> (r: Motion)
        ensures
            r == motion_of(command@),
    {
        run_view(command)
    }

    /// The pane after a command that is `motion`, where the viewport took the
    /// keyboard to row `cursor`. What a question was asked about is where the
    /// keyboard used to be, so a move drops it. A command that moves nothing changes
    /// nothing.
    pub open spec fn moved(self, motion: Motion, cursor: usize) -> Files {
        if motion.moves() {
            Files {
                cursor: held_row(cursor as int, self.rows@.len()) as usize,
                armed: None,
                ..self
            }
        } else {
            self
        }
    }

    /// A command landed the keyboard on row `cursor`.
    pub fn landed(&mut self, motion: Motion, cursor: usize)
        ensures
            *final(self) == old(self).moved(motion, cursor),
    {
        if motion.is_move() {
            self.cursor = hold(cursor, self.rows.len());
            self.armed = None;
        }
    }

    /// The wheel turned, and the viewport took the keyboard to `cursor` where the
    /// list `moved`. It is a move of attention then: the question goes. A list that
    /// could not move is left as it was. Says whether it moved.
    pub fn wheeled(&mut self, moved: bool, cursor: usize) -> (r: bool)
        ensures
            r == moved,
            *final(self) == if moved {
                Files {
                    cursor: held_row(cursor as int, old(self).rows@.len()) as usize,
                    armed: None,
                    ..*old(self)
                }
            } else {
                *old(self)
            },
    {
        if moved {
            self.cursor = hold(cursor, self.rows.len());
            self.armed = None;
        }
        moved
    }

    /// A scrollbar moved the list, and the viewport took the keyboard to `cursor`.
    pub fn followed(&mut self, cursor: usize)
        ensures
            *final(self) == (Files {
                cursor: held_row(cursor as int, old(self).rows@.len()) as usize,
                ..*old(self)
            }),
    {
        self.cursor = hold(cursor, self.rows.len());
    }

    /// The file the keyboard is on: none on a heading, or in a clean tree.
    pub fn current_file(&self) -> (r: Option<&FileEntry>)
        ensures
            match r {
                Some(f) => self.cursor < self.rows@.len() && self.rows@[self.cursor as int]
                    == Entry::File(*f),
                None => self.aim() is None,
            },
    {
        if self.cursor < self.rows.len() {
            match &self.rows[self.cursor] {
                Entry::File(f) => Some(f),
                Entry::Heading { .. } => None,
            }
        } else {
            None
        }
    }

    /// The group the keyboard is in. A heading is in its own group.
    pub fn cursor_section(&self) -> (r: Option<Section>)
        ensures
            r == if self.cursor < self.rows@.len() {
                Some(
                    match self.rows@[self.cursor as int]@ {
                        EntryView::Heading { section, .. } => section,
                        EntryView::File { section, .. } => section,
                    },
                )
            } else {
                None
            },
    {
        if self.cursor < self.rows.len() {
            match &self.rows[self.cursor] {
                Entry::File(f) => Some(f.section),
                Entry::Heading { section, .. } => Some(*section),
            }
        } else {
            None
        }
    }

    /// The paths in one group, in the order they are drawn: what a verb on the
    /// whole group acts on.
    pub fn paths_in(&self, section: Section) -> (r: Vec<Vec<u8>>)
        ensures
            r@.map_values(|p: Vec<u8>| p@) == paths_of(entry_views(self.rows@), section),
    {
        let mut out: Vec<Vec<u8>> = Vec::new();
        let ghost views = entry_views(self.rows@);
        let ghost bytes = |p: Vec<u8>| p@;
        let mut i: usize = 0;
        assert(views.take(0) =~= seq![]);
        assert(out@.map_values(bytes) =~= paths_of(views.take(0), section));
        while i < self.rows.len()
            invariant
                i <= self.rows@.len(),
                views == entry_views(self.rows@),
                bytes == (|p: Vec<u8>| p@),
                out@.map_values(bytes) == paths_of(views.take(i as int), section),
            decreases self.rows@.len() - i,
        {
            assert(views.take(i + 1).drop_last() =~= views.take(i as int));
            if let Entry::File(f) = &self.rows[i] {
                if f.section == section {
                    let ghost was = out@;
                    out.push(text::copy_bytes(&f.path));
                    assert(out@.map_values(bytes) =~= was.map_values(bytes).push(f.path@));
                }
            }
            i += 1;
        }
        assert(views.take(i as int) =~= views);
        out
    }

    /// Asks about a discard of one file, or says that it may happen now.
    pub fn confirm_or_arm_discard(&mut self, section: Section, path: &Vec<u8>) -> (r: bool)
        ensures
            (question(final(self).armed), r) == pressed(
                question(old(self).armed),
                (section, path@),
            ),
            *final(self) == (Files { armed: final(self).armed, ..*old(self) }),
    {
        let already: bool = match &self.armed {
            Some((s, p)) => *s == section && text::same_bytes(p.as_slice(), path.as_slice()),
            None => false,
        };
        if already {
            self.armed = None;
        } else {
            self.armed = Some((section, text::copy_bytes(path)));
        }
        already
    }

    /// What the question is about, while one is asked.
    pub fn armed_row(&self) -> (r: &Option<(Section, Vec<u8>)>)
        ensures
            *r == self.armed,
    {
        &self.armed
    }

    /// The row that the question is about.
    pub fn tinted_row(&self) -> (r: Option<usize>)
        ensures
            match r {
                Some(i) => self.armed is Some && row_of_key(
                    aims(self.rows@),
                    question(self.armed).unwrap(),
                ) == Some(i as int),
                None => self.armed is Some ==> row_of_key(
                    aims(self.rows@),
                    question(self.armed).unwrap(),
                ) is None,
            },
    {
        match &self.armed {
            Some((section, path)) => row_of(&self.rows, *section, path),
            None => None,
        }
    }

    /// What copying copies: the letters and the path of the file the keyboard is
    /// on. Nothing on a heading.
    pub fn cursor_text(&self) -> (r: String)
        ensures
            r@ == if self.cursor < self.rows@.len() {
                match self.rows@[self.cursor as int]@ {
                    EntryView::File { letters, path, .. } => letters + " "@ + text::lossy(path),
                    EntryView::Heading { .. } => seq![],
                }
            } else {
                seq![]
            },
    {
        match self.current_file() {
            Some(f) => {
                let mut out = f.letters.to_owned();
                out.append(" ");
                out.append(text::lossy_text(f.path.as_slice()).as_str());
                out
            },
            None => String::new(),
        }
    }

    /// A list has nothing off its left edge to reach.
    pub fn pan_pixels(&self) -> (r: bool)
        ensures
            !r,
    {
        false
    }

    /// What to do with a turn of the wheel, where `parked` says that a request
    /// for a row stands.
    pub fn scroll_pixels(&self, parked: bool) -> (r: Wheel)
        ensures
            r == wheel_route(self.pending.awaiting, parked),
    {
        self.pending.wheel(parked)
    }

    /// What to do about a list that a scrollbar may have moved: `moved` says that
    /// its offset is not the one last written, `shown` is the row it shows at the
    /// top and `top` the viewport's.
    pub fn reconcile(&self, parked: bool, moved: bool, shown: usize, top: usize) -> (r: Drift)
        ensures
            r == drift_of(parked, moved, shown, top),
    {
        reconcile(parked, moved, shown, top)
    }

    /// There is no selection over a list of files.
    pub fn select_all(&mut self) -> (r: bool)
        ensures
            !r,
            *final(self) == *old(self),
    {
        false
    }

    /// There is no selection over a list of files.
    pub fn select_none(&mut self) -> (r: bool)
        ensures
            !r,
            *final(self) == *old(self),
    {
        false
    }
}

/// The paths in one group, in the order they are drawn.
pub open spec fn paths_of(rows: Seq<EntryView>, section: Section) -> Seq<Seq<u8>>
    decreases rows.len(),
{
    if rows.len() == 0 {
        seq![]
    } else {
        match rows.last() {
            EntryView::File { section: s, path, .. } => if s == section {
                paths_of(rows.drop_last(), section).push(path)
            } else {
                paths_of(rows.drop_last(), section)
            },
            EntryView::Heading { .. } => paths_of(rows.drop_last(), section),
        }
    }
}

/// The colours of a row. None is the pane's own colour.
#[derive(Clone, Copy, Debug, PartialEq, Eq, Structural)]
pub struct Look {
    pub bg: Rgb,
    /// A heading's name, or a file's letters.
    pub lead: Rgb,
    /// A file's path.
    pub path: Option<Rgb>,
    /// A heading's count, or where a file was renamed from.
    pub tail: Rgb,
}

/// The colours of a row. What a second press would destroy is named in its own
/// colour.
pub fn row(e: &Entry, inks: &FileInks, current: bool, armed: bool) -> (r: Look)
    ensures
        r == (Look {
            bg: if current {
                inks.selection_bg
            } else {
                inks.bg
            },
            lead: match e@ {
                EntryView::Heading { .. } => inks.dim,
                EntryView::File { mark, .. } => if armed {
                    inks.error
                } else {
                    mark_color(mark, *inks)
                },
            },
            path: if e@ is File && armed {
                Some(inks.error)
            } else {
                None
            },
            tail: inks.faint,
        }),
{
    let bg: Rgb = if current {
        inks.selection_bg
    } else {
        inks.bg
    };
    match e {
        Entry::Heading { .. } => Look { bg, lead: inks.dim, path: None, tail: inks.faint },
        Entry::File(f) => Look {
            bg,
            lead: if armed {
                inks.error
            } else {
                f.mark.color(inks)
            },
            path: if armed {
                Some(inks.error)
            } else {
                None
            },
            tail: inks.faint,
        },
    }
}

// ---------------------------------------------------------------------------
// What the groups hold
// ---------------------------------------------------------------------------

proof fn paths_of_append(a: Seq<EntryView>, b: Seq<EntryView>, section: Section)
    ensures
        paths_of(a + b, section) == paths_of(a, section) + paths_of(b, section),
    decreases b.len(),
{
    if b.len() == 0 {
        assert(a + b =~= a);
        assert(paths_of(a, section) + paths_of(b, section) =~= paths_of(a, section));
    } else {
        assert((a + b).drop_last() =~= a + b.drop_last());
        paths_of_append(a, b.drop_last(), section);
        assert(paths_of(a + b, section) =~= paths_of(a, section) + paths_of(b, section));
    }
}

/// A file's path, or nothing to speak of.
pub open spec fn path_of(row: EntryView) -> Seq<u8> {
    match row {
        EntryView::File { path, .. } => path,
        EntryView::Heading { .. } => seq![],
    }
}

proof fn paths_of_files(files: Seq<EntryView>, of: Section, section: Section)
    requires
        forall|i: int|
            0 <= i < files.len() ==> (#[trigger] files[i]) is File && files[i]->File_section == of,
    ensures
        paths_of(files, section) == if of == section {
            files.map_values(|f: EntryView| path_of(f))
        } else {
            seq![]
        },
    decreases files.len(),
{
    let all = files.map_values(|f: EntryView| path_of(f));
    if files.len() > 0 {
        let rest = files.drop_last();
        assert forall|i: int| 0 <= i < rest.len() implies (#[trigger] rest[i]) is File
            && rest[i]->File_section == of by {
            assert(rest[i] == files[i]);
        }
        paths_of_files(rest, of, section);
        assert(files[files.len() - 1] is File);
        assert(all =~= rest.map_values(|f: EntryView| path_of(f)).push(path_of(files.last())));
    } else {
        assert(all =~= seq![]);
    }
}

proof fn paths_of_group(of: Section, files: Seq<EntryView>, section: Section)
    requires
        forall|i: int|
            0 <= i < files.len() ==> (#[trigger] files[i]) is File && files[i]->File_section == of,
    ensures
        paths_of(group(of, files), section) == if of == section {
            files.map_values(|f: EntryView| path_of(f))
        } else {
            seq![]
        },
{
    paths_of_files(files, of, section);
    if files.len() > 0 {
        let heading = seq![EntryView::Heading { count: text::decimal(files.len()), section: of }];
        paths_of_append(heading, files, section);
        reveal_with_fuel(paths_of, 2);
        assert(heading.drop_last() =~= seq![]);
        assert(paths_of(heading, section) =~= seq![]);
        assert(seq![] + paths_of(files, section) =~= paths_of(files, section));
    } else {
        assert(files.map_values(|f: EntryView| path_of(f)) =~= seq![]);
    }
}

/// A verb on a whole group acts on exactly the files that the repository lists
/// there, in that order.
pub proof fn a_group_is_the_status_list(status: Status)
    ensures
        paths_of(flattened(status), Section::Staged) == status.staged@.map_values(
            |e: StagedEntry| e.path@,
        ),
        paths_of(flattened(status), Section::Unstaged) == status.unstaged@.map_values(
            |e: UnstagedEntry| e.path@,
        ),
        paths_of(flattened(status), Section::Untracked) == status.untracked@.map_values(
            |e: UntrackedEntry| e.path@,
        ),
        paths_of(flattened(status), Section::Conflicts) == status.conflicts@.map_values(
            |e: ConflictEntry| e.path@,
        ),
{
    let a = status.staged@.map_values(|e: StagedEntry| staged_row(e));
    let b = status.unstaged@.map_values(|e: UnstagedEntry| unstaged_row(e));
    let c = status.untracked@.map_values(|e: UntrackedEntry| untracked_row(e));
    let d = status.conflicts@.map_values(|e: ConflictEntry| conflict_row(e));
    let ga = group(Section::Staged, a);
    let gb = group(Section::Unstaged, b);
    let gc = group(Section::Untracked, c);
    let gd = group(Section::Conflicts, d);
    assert forall|section: Section| #[trigger]
        paths_of(flattened(status), section) == paths_of(ga, section) + paths_of(gb, section)
            + paths_of(gc, section) + paths_of(gd, section) by {
        paths_of_append(ga + gb + gc, gd, section);
        paths_of_append(ga + gb, gc, section);
        paths_of_append(ga, gb, section);
    }
    assert forall|section: Section| #![trigger paths_of(ga, section)] true implies paths_of(
        ga,
        section,
    ) == (if section == Section::Staged {
        a.map_values(|f: EntryView| path_of(f))
    } else {
        seq![]
    }) && paths_of(gb, section) == (if section == Section::Unstaged {
        b.map_values(|f: EntryView| path_of(f))
    } else {
        seq![]
    }) && paths_of(gc, section) == (if section == Section::Untracked {
        c.map_values(|f: EntryView| path_of(f))
    } else {
        seq![]
    }) && paths_of(gd, section) == (if section == Section::Conflicts {
        d.map_values(|f: EntryView| path_of(f))
    } else {
        seq![]
    }) by {
        paths_of_group(Section::Staged, a, section);
        paths_of_group(Section::Unstaged, b, section);
        paths_of_group(Section::Untracked, c, section);
        paths_of_group(Section::Conflicts, d, section);
    }
    assert(paths_of(flattened(status), Section::Staged) =~= status.staged@.map_values(
        |e: StagedEntry| e.path@,
    ));
    assert(paths_of(flattened(status), Section::Unstaged) =~= status.unstaged@.map_values(
        |e: UnstagedEntry| e.path@,
    ));
    assert(paths_of(flattened(status), Section::Untracked) =~= status.untracked@.map_values(
        |e: UntrackedEntry| e.path@,
    ));
    assert(paths_of(flattened(status), Section::Conflicts) =~= status.conflicts@.map_values(
        |e: ConflictEntry| e.path@,
    ));
}

} // verus!
