//! The sidebar, the commit inspector and the overlay.
use crate::settings::MODE;
use crate::stats::{enabled, in_order, FrameTimes, Stats};
use crate::text;
use crate::views::files::Section;
use crate::views::history::{TITLE, UNCOMMITTED};
use crate::views::inspector::{
    hunks, render_inspector, ButtonInks, Inspector, Staged, StagedFile, COMMIT,
};
use crate::views::sidebar::{
    filter_label, nav, row_click, side_row, stage_click, utility_click, utility_label, Destination,
    GroupedRow, Nav, SideEntry, SideInks, SideRow, Step, Utility, FILTER_COMMAND, STAGE_ALL,
    STAGE_ALL_COMMAND,
};
use vstd::prelude::*;

verus! {

// ---------------------------------------------------------------------------
// The sidebar
// ---------------------------------------------------------------------------

/// A click on a file moves the keyboard to that file before anything else, and aims
/// the preview last. Only a click on its box stages, and it stages between the two.
pub proof fn a_click_moves_the_keyboard_first(row: usize, r: Vec<Step>, s: Vec<Step>)
    requires
        call_ensures(stage_click, (row,), r),
        call_ensures(row_click, (row,), s),
    ensures
        r@.len() == 3 && s@.len() == 2,
        r@[0] == Step::Select(row) && s@[0] == Step::Select(row),
        r@[1] matches Step::Run(name) && name@ == "files.stage"@,
        r@[2] matches Step::Run(name) && name@ == "workspace.preview"@,
        s@[1] matches Step::Run(name) && name@ == "workspace.preview"@,
{
}

/// A button says where it leads and leads there, and the one of where the workspace
/// is stands out.
pub proof fn a_button_leads_where_it_says(
    to: Destination,
    at: Destination,
    inks: SideInks,
    r: Nav,
)
    requires
        call_ensures(nav, (to, at, &inks), r),
    ensures
        to == Destination::Changes ==> r.label@ == "Changes"@ && r.command@ == "workspace.changes"@,
        to == Destination::History ==> r.label@ == "History"@ && r.command@ == "workspace.history"@,
        to == at ==> r.bg == inks.raised && r.fg == inks.fg,
        to != at ==> r.bg == inks.bg && r.fg == inks.dim,
{
}

/// A link says its own pane, and goes to the history and then to that pane.
pub proof fn a_link_leads_to_its_own_pane(u: Utility, label: &'static str, r: Vec<Step>)
    requires
        call_ensures(utility_label, (u,), label),
        call_ensures(utility_click, (u,), r),
    ensures
        r@.len() == 2,
        r@[0] matches Step::Run(name) && name@ == "workspace.history"@,
        u == Utility::Branches ==> label@ == "Branches"@ && (r@[1] matches Step::Run(name) && name@
            == "branches.focus"@),
        u == Utility::Stashes ==> label@ == "Stashes"@ && (r@[1] matches Step::Run(name) && name@
            == "stashes.focus"@),
{
}

/// What the buttons and the headings say, and what they run.
pub proof fn what_the_buttons_say_and_run()
    ensures
        STAGE_ALL@ == "Stage all"@,
        STAGE_ALL_COMMAND@ == "files.stage-all"@,
        FILTER_COMMAND@ == "files.search"@,
        COMMIT@ == "workspace.commit"@,
        TITLE@ == "Branch history"@,
        UNCOMMITTED@ == "Uncommitted changes"@,
        MODE@ == "settings"@,
{
}

/// The filter says what is asked, and what it is for where nothing is.
pub proof fn the_filter_says_what_is_asked(query: Option<String>, r: String)
    requires
        call_ensures(filter_label, (&query,), r),
    ensures
        query is Some && query.unwrap()@.len() > 0 ==> r@ == query.unwrap()@,
        query is None || query.unwrap()@.len() == 0 ==> r@ == "Filter files…"@,
{
}

/// A heading says its directory and its count, and the root is called by name.
pub proof fn a_directory_is_called_by_name(
    dir: String,
    count: String,
    data: Vec<SideEntry>,
    visible: Vec<usize>,
    cursor: usize,
    inks: SideInks,
    r: SideRow,
)
    requires
        call_ensures(
            side_row,
            (&(GroupedRow::Heading { dir, count }), &data, &visible, cursor, &inks),
            r,
        ),
    ensures
        r matches SideRow::Label { text, count: said } && said@ == count@ && (dir@.len() > 0
            ==> text@ == dir@) && (dir@.len() == 0 ==> text@ == "repository root"@),
{
}

/// A file's row shows its own directory, name and letters, in its group's ink, is the
/// current one where the keyboard is on it, and has a filled box where it is staged
/// and an empty one where it is not.
pub proof fn a_files_row_shows_the_file(
    at: usize,
    data: Vec<SideEntry>,
    visible: Vec<usize>,
    cursor: usize,
    inks: SideInks,
    r: SideRow,
)
    requires
        at < visible@.len(),
        visible@[at as int] < data@.len(),
        call_ensures(
            side_row,
            (&(GroupedRow::File { visible: at }), &data, &visible, cursor, &inks),
            r,
        ),
    ensures
        match data@[visible@[at as int] as int] {
            SideEntry::Heading => r is Blank,
            SideEntry::File { section, dir, name, letters } => r matches SideRow::File(f) && {
                &&& f.dir@ == dir@
                &&& f.name@ == name@
                &&& f.letters@ == letters@
                &&& f.current <==> at == cursor
                &&& section == Section::Staged ==> f.box_fill == Some(inks.accent) && f.box_border
                    == inks.accent && f.letters_fg == inks.staged
                &&& section != Section::Staged ==> f.box_fill is None && f.box_border == inks.faint
                &&& section == Section::Unstaged ==> f.letters_fg == inks.unstaged
                &&& section == Section::Untracked ==> f.letters_fg == inks.untracked
                &&& section == Section::Conflicts ==> f.letters_fg == inks.conflicts
            },
        },
{
}

// ---------------------------------------------------------------------------
// The inspector
// ---------------------------------------------------------------------------

/// A file says how many of its hunks are staged and of how many, in that order, and
/// is staged whole where it counts none.
pub proof fn a_file_says_how_much_of_it_is_staged(f: StagedFile, r: String)
    requires
        call_ensures(hunks, (&f,), r),
    ensures
        f.hunks.0 == 0 && f.hunks.1 == 0 ==> r@ == "staged"@,
        f.hunks.0 > 0 || f.hunks.1 > 0 ==> r@ == text::decimal(f.hunks.0 as nat) + "/"@
            + text::decimal(f.hunks.1 as nat) + " hunks"@,
{
}

/// The inspector counts the files over everything and beside the list, counts the
/// hunks, and lists each file by how much of it is staged. What stands in for a field
/// names that field, and the button is lit only where it may commit.
pub proof fn the_inspector_counts_what_is_staged(
    staged: Vec<StagedFile>,
    staged_hunks: u32,
    can_commit: bool,
    has_summary: bool,
    has_description: bool,
    inks: ButtonInks,
    r: Inspector,
    i: int,
    said: String,
)
    requires
        call_ensures(
            render_inspector,
            (&staged, staged_hunks, can_commit, has_summary, has_description, &inks),
            r,
        ),
        0 <= i < staged@.len(),
        call_ensures(hunks, (&staged@[i],), said),
    ensures
        r.headline@ == text::decimal(staged@.len()) + " files staged"@,
        r.count@ == text::decimal(staged@.len()),
        r.hunks@ == text::decimal(staged_hunks as nat) + " hunks staged"@,
        r.staged matches Staged::Files(v) && v@.len() == staged@.len() && v@[i]@ == said@,
        r.summary is Some <==> !has_summary,
        r.description is Some <==> !has_description,
        !has_summary ==> r.summary.unwrap()@ == "Summary arrives with the workspace."@,
        !has_description ==> r.description.unwrap()@ == "Description arrives with the workspace."@,
        can_commit ==> r.button_bg == inks.accent && r.button_fg == inks.status_bg,
        !can_commit ==> r.button_bg == inks.raised && r.button_fg == inks.dim,
{
}

/// Where nothing is staged the list says so.
pub proof fn an_empty_list_says_so(
    staged: Vec<StagedFile>,
    staged_hunks: u32,
    can_commit: bool,
    has_summary: bool,
    has_description: bool,
    inks: ButtonInks,
    r: Inspector,
)
    requires
        staged@.len() == 0,
        call_ensures(
            render_inspector,
            (&staged, staged_hunks, can_commit, has_summary, has_description, &inks),
            r,
        ),
    ensures
        r.staged matches Staged::Nothing(note) && note@ == "No staged changes"@,
{
}

// ---------------------------------------------------------------------------
// The overlay
// ---------------------------------------------------------------------------

/// The overlay is on where its variable is set to anything but zero.
pub proof fn the_overlay_is_on_where_it_is_asked_for(value: &str, r: bool, none: bool)
    requires
        call_ensures(enabled, (Some(value),), r),
        call_ensures(enabled, (None::<&str>,), none),
    ensures
        r <==> value@ != "0"@,
        !none,
{
}

/// The last hundred and twenty times are remembered, and with fewer than eight there
/// is nothing to say. Of those in order the middle one, the one that ninety-nine in a
/// hundred stay within and the first are said.
pub proof fn the_frames_are_said_in_order(s: Stats, r: Option<FrameTimes>) -> (v: Seq<u64>)
    requires
        s.wf(),
        call_ensures(Stats::frames, (&s,), r),
    ensures
        ({
            let n = if s.n < 120 {
                s.n as int
            } else {
                120
            };
            &&& s.ring@.len() == 120
            &&& r is Some <==> n >= 8
            &&& v.to_multiset() == s.ring@.take(n).to_multiset()
            &&& v.len() == n
            &&& forall|i: int, j: int| 0 <= i < j < v.len() ==> v[i] <= v[j]
            &&& r matches Some(t) ==> t.p50 == v[n / 2] && t.p99 == v[n * 99 / 100] && t.best == v[0]
        }),
{
    let leq = |a: u64, b: u64| a <= b;
    let times = s.window();
    let v = in_order(times);
    times.lemma_sort_by_ensures(leq);
    times.to_multiset_ensures();
    v.to_multiset_ensures();
    assert(v.len() == v.to_multiset().len());
    assert forall|i: int, j: int| 0 <= i < j < v.len() implies v[i] <= v[j] by {
        assert(leq(v[i], v[j]));
    }
    v
}

/// A frame takes the place of the oldest time and of no other, and the first frame,
/// which has none before it, takes none. What a load brought stays.
pub proof fn a_frame_takes_the_oldest_place(a: Ghost<&mut Stats>, b: Ghost<&mut Stats>, t: u64)
    requires
        a@.wf(),
        a@.n < usize::MAX,
        b@.wf(),
        b@.n < usize::MAX,
        call_ensures(Stats::tick, (a@, Some(t)), ()),
        call_ensures(Stats::tick, (b@, None::<u64>), ()),
    ensures
        final(a@).n == a@.n + 1,
        final(a@).ring@[(a@.n % 120) as int] == t,
        forall|i: int|
            0 <= i < 120 && i != a@.n % 120 ==> #[trigger] final(a@).ring@[i] == a@.ring@[i],
        final(a@).total_rows == a@.total_rows,
        final(a@).load == a@.load,
        *final(b@) == *b@,
{
}

/// A load brings its rows and its line and forgets no frame.
pub proof fn a_load_forgets_no_frame(
    fresh: Stats,
    a: Ghost<&mut Stats>,
    total_rows: usize,
    load: String,
)
    requires
        call_ensures(Stats::new, (total_rows, load), fresh),
        call_ensures(Stats::reloaded, (a@, total_rows, load), ()),
    ensures
        fresh.n == 0,
        fresh.total_rows == total_rows,
        fresh.load == load,
        final(a@).total_rows == total_rows,
        final(a@).load == load,
        final(a@).ring == a@.ring,
        final(a@).n == a@.n,
{
}

/// The line of rows says how many were drawn and then how many there are, each set to
/// the right of its own column.
pub proof fn the_rows_are_counted(s: Stats, drawn: usize, r: String)
    requires
        call_ensures(Stats::rows, (&s, drawn), r),
    ensures
        r@ == "rows "@ + text::right_aligned(text::decimal(drawn as nat), 4) + " drawn / "@
            + text::right_aligned(text::decimal(s.total_rows as nat), 9) + " total"@,
{
}

} // verus!
