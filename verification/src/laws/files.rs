//! The working tree: every file under its group, drawn as what happened to it.
use super::list::a_lost_row_leaves_its_number;
use crate::text;
use crate::views::draw::Rgb;
use crate::views::files::{
    a_group_is_the_status_list, aim_of, aims, changed, conflict_letters, conflict_row,
    discard_question, entry_views, flatten, flattened, paths, prepare, row, staged_row,
    unstaged_row, untracked_row, Change, ConflictEntry, ConflictKind, Entry, EntryView, FileEntry,
    FileInks, Files, Look, Mark, Prepared, Section, StagedEntry, Status, UnstagedEntry,
    UntrackedEntry,
};
use crate::views::list::{a_refresh_keeps_the_row, anchored, key_is_found, Landing, Motion};
use vstd::prelude::*;

verus! {

// ---------------------------------------------------------------------------
// Marks and letters
// ---------------------------------------------------------------------------

/// Each change has its own mark, but that a copy is marked as a rename, and each mark
/// the letter that git prints for it.
pub proof fn a_change_has_its_letter(change: Change, mark: Mark, letter: &'static str)
    requires
        call_ensures(Mark::of, (change,), mark),
        call_ensures(Mark::letter, (mark,), letter),
    ensures
        change == Change::Added ==> mark == Mark::Add && letter@ == "A"@,
        change == Change::Modified ==> mark == Mark::Modify && letter@ == "M"@,
        change == Change::Deleted ==> mark == Mark::Delete && letter@ == "D"@,
        change == Change::Renamed ==> mark == Mark::Rename && letter@ == "R"@,
        change == Change::Copied ==> mark == Mark::Rename && letter@ == "R"@,
        change == Change::TypeChanged ==> mark == Mark::TypeChange && letter@ == "T"@,
{
}

/// Different marks have different letters.
pub proof fn letters_tell_marks_apart(a: Mark, b: Mark, r: &'static str, s: &'static str)
    requires
        call_ensures(Mark::letter, (a,), r),
        call_ensures(Mark::letter, (b,), s),
    ensures
        r@ == s@ <==> a == b,
        a == Mark::Untracked ==> r@ == "?"@,
        a == Mark::Conflict ==> r@.len() == 0,
        a != Mark::Conflict ==> r@.len() == 1,
{
    reveal_strlit("A");
    reveal_strlit("M");
    reveal_strlit("D");
    reveal_strlit("R");
    reveal_strlit("T");
    reveal_strlit("?");
    reveal_strlit("");
    assert("A"@[0] == 'A' && "M"@[0] == 'M' && "D"@[0] == 'D' && "R"@[0] == 'R' && "T"@[0] == 'T'
        && "?"@[0] == '?');
    if r@ == s@ {
        assert(r@.len() == s@.len());
        assert(r@.len() == 1 ==> r@[0] == s@[0]);
    }
}

/// A mark is drawn in its own ink: what is added and what is deleted in theirs, a
/// conflict as an error.
pub proof fn a_mark_has_its_ink(mark: Mark, inks: FileInks, r: Rgb)
    requires
        call_ensures(Mark::color, (mark, &inks), r),
    ensures
        mark == Mark::Add ==> r == inks.adds_fg,
        mark == Mark::Delete ==> r == inks.dels_fg,
        mark == Mark::Conflict ==> r == inks.error,
        mark == Mark::Rename ==> r == inks.accent,
        mark == Mark::Modify ==> r == inks.fg,
        mark == Mark::TypeChange ==> r == inks.dim,
        mark == Mark::Untracked ==> r == inks.faint,
{
}

/// A conflict's two letters say what our side did and then what theirs did: added,
/// deleted, or left as it was.
pub proof fn a_conflicts_letters_say_who_did_what(state: ConflictKind, r: &'static str)
    requires
        call_ensures(conflict_letters, (state,), r),
    ensures
        r@.len() == 2,
        r@[0] == 'A' <==> state == ConflictKind::AddedByUs || state == ConflictKind::BothAdded,
        r@[1] == 'A' <==> state == ConflictKind::AddedByThem || state == ConflictKind::BothAdded,
        r@[0] == 'D' <==> state == ConflictKind::DeletedByUs || state == ConflictKind::BothDeleted,
        r@[1] == 'D' <==> state == ConflictKind::DeletedByThem || state
            == ConflictKind::BothDeleted,
        r@[0] == 'U' <==> state == ConflictKind::AddedByThem || state
            == ConflictKind::DeletedByThem || state == ConflictKind::BothModified,
        r@[1] == 'U' <==> state == ConflictKind::AddedByUs || state == ConflictKind::DeletedByUs
            || state == ConflictKind::BothModified,
{
    reveal_strlit("DD");
    reveal_strlit("AU");
    reveal_strlit("UD");
    reveal_strlit("UA");
    reveal_strlit("DU");
    reveal_strlit("AA");
    reveal_strlit("UU");
}

/// A group is called what it is.
pub proof fn a_group_is_called_what_it_is(section: Section, r: &'static str)
    requires
        call_ensures(Section::name, (section,), r),
    ensures
        section == Section::Staged ==> r@ == "staged"@,
        section == Section::Unstaged ==> r@ == "unstaged"@,
        section == Section::Untracked ==> r@ == "untracked"@,
        section == Section::Conflicts ==> r@ == "conflicts"@,
{
}

/// Every group is among the groups, once.
pub proof fn every_group_is_among_the_groups(r: [Section; 4], section: Section)
    requires
        call_ensures(Section::all, (), r),
    ensures
        r@.contains(section),
        r@.no_duplicates(),
        r@[0] == Section::Staged,
        r@[1] == Section::Unstaged,
        r@[2] == Section::Untracked,
        r@[3] == Section::Conflicts,
{
    assert(r@[0] == Section::Staged && r@[1] == Section::Unstaged && r@[2] == Section::Untracked
        && r@[3] == Section::Conflicts);
}

// ---------------------------------------------------------------------------
// Rows
// ---------------------------------------------------------------------------

/// How many rows a group of `n` files takes: none without a file, and otherwise one
/// more, for the heading.
pub open spec fn room(n: nat) -> nat {
    if n == 0 {
        0
    } else {
        n + 1
    }
}

/// The row is the heading of `n` files in this group.
pub open spec fn heads(e: Entry, section: Section, n: nat) -> bool {
    e matches Entry::Heading { count, section: s } && count@ == text::decimal(n) && s == section
}

proof fn view_of(rows: Vec<Entry>, status: Status, i: int)
    requires
        call_ensures(flatten, (&status,), rows),
    ensures
        rows@.len() == flattened(status).len(),
        0 <= i < rows@.len() ==> rows@[i]@ == flattened(status)[i],
{
    assert(entry_views(rows@).len() == rows@.len());
    if 0 <= i < rows@.len() {
        assert(entry_views(rows@)[i] == rows@[i]@);
    }
}

/// The groups stand one after the other, each under a heading that says how many
/// files are in it, and a group without files takes no row.
pub proof fn every_group_stands_under_its_heading(status: Status, rows: Vec<Entry>)
    requires
        call_ensures(flatten, (&status,), rows),
    ensures
        ({
            let (s, u) = (status.staged@.len(), status.unstaged@.len());
            let (n, c) = (status.untracked@.len(), status.conflicts@.len());
            &&& rows@.len() == room(s) + room(u) + room(n) + room(c)
            &&& s > 0 ==> heads(rows@[0], Section::Staged, s)
            &&& u > 0 ==> heads(rows@[room(s) as int], Section::Unstaged, u)
            &&& n > 0 ==> heads(rows@[(room(s) + room(u)) as int], Section::Untracked, n)
            &&& c > 0 ==> heads(rows@[(room(s) + room(u) + room(n)) as int], Section::Conflicts, c)
        }),
{
    let (s, u) = (status.staged@.len(), status.unstaged@.len());
    let (n, c) = (status.untracked@.len(), status.conflicts@.len());
    view_of(rows, status, 0);
    view_of(rows, status, room(s) as int);
    view_of(rows, status, (room(s) + room(u)) as int);
    view_of(rows, status, (room(s) + room(u) + room(n)) as int);
}

/// A staged file stands in the order of the status, under the path it has, with
/// where it was renamed from, the mark of what happened to it, and that mark's
/// letter.
pub proof fn a_staged_file_is_drawn_as_it_changed(
    status: Status,
    rows: Vec<Entry>,
    i: int,
    mark: Mark,
    letter: &'static str,
)
    requires
        call_ensures(flatten, (&status,), rows),
        0 <= i < status.staged@.len(),
        call_ensures(Mark::of, (status.staged@[i].change,), mark),
        call_ensures(Mark::letter, (mark,), letter),
    ensures
        rows@[1 + i] matches Entry::File(f) && {
            let e = status.staged@[i];
            &&& f.section == Section::Staged
            &&& f.path@ == e.path@
            &&& f.path_text@ == text::lossy(e.path@)
            &&& f.renamed_from is Some <==> e.old_path is Some
            &&& e.old_path is Some ==> f.renamed_from.unwrap()@ == "← "@ + text::lossy(
                e.old_path.unwrap()@,
            )
            &&& f.mark == mark
            &&& f.letters@ == letter@
            &&& e.change == Change::Added ==> f.mark == Mark::Add && f.letters@ == "A"@
            &&& e.change == Change::Modified ==> f.mark == Mark::Modify && f.letters@ == "M"@
            &&& e.change == Change::Deleted ==> f.mark == Mark::Delete && f.letters@ == "D"@
            &&& e.change == Change::Renamed ==> f.mark == Mark::Rename && f.letters@ == "R"@
            &&& e.change == Change::Copied ==> f.mark == Mark::Rename && f.letters@ == "R"@
            &&& e.change == Change::TypeChanged ==> f.mark == Mark::TypeChange && f.letters@
                == "T"@
        },
{
    view_of(rows, status, 1 + i);
    let files = status.staged@.map_values(|e: StagedEntry| staged_row(e));
    assert(flattened(status)[1 + i] == files[i]);
}

/// An unstaged file stands in the order of the status, with the mark of what happened
/// to it and that mark's letter.
pub proof fn an_unstaged_file_is_drawn_as_it_changed(
    status: Status,
    rows: Vec<Entry>,
    i: int,
    mark: Mark,
    letter: &'static str,
)
    requires
        call_ensures(flatten, (&status,), rows),
        0 <= i < status.unstaged@.len(),
        call_ensures(Mark::of, (status.unstaged@[i].change,), mark),
        call_ensures(Mark::letter, (mark,), letter),
    ensures
        rows@[room(status.staged@.len()) + 1 + i] matches Entry::File(f) && {
            let e = status.unstaged@[i];
            &&& f.section == Section::Unstaged
            &&& f.path@ == e.path@
            &&& f.path_text@ == text::lossy(e.path@)
            &&& f.renamed_from is None
            &&& f.mark == mark
            &&& f.letters@ == letter@
            &&& e.change == Change::Added ==> f.mark == Mark::Add && f.letters@ == "A"@
            &&& e.change == Change::Modified ==> f.mark == Mark::Modify && f.letters@ == "M"@
            &&& e.change == Change::Deleted ==> f.mark == Mark::Delete && f.letters@ == "D"@
            &&& e.change == Change::Renamed ==> f.mark == Mark::Rename && f.letters@ == "R"@
            &&& e.change == Change::Copied ==> f.mark == Mark::Rename && f.letters@ == "R"@
            &&& e.change == Change::TypeChanged ==> f.mark == Mark::TypeChange && f.letters@
                == "T"@
        },
{
    let at = room(status.staged@.len()) + 1 + i;
    view_of(rows, status, at);
    let files = status.unstaged@.map_values(|e: UnstagedEntry| unstaged_row(e));
    assert(flattened(status)[at] == files[i]);
}

/// An untracked file stands in the order of the status, marked as one.
pub proof fn an_untracked_file_is_drawn_as_one(status: Status, rows: Vec<Entry>, i: int)
    requires
        call_ensures(flatten, (&status,), rows),
        0 <= i < status.untracked@.len(),
    ensures
        rows@[room(status.staged@.len()) + room(status.unstaged@.len()) + 1 + i] matches Entry::File(
            f,
        ) && {
            let e = status.untracked@[i];
            &&& f.section == Section::Untracked
            &&& f.path@ == e.path@
            &&& f.path_text@ == text::lossy(e.path@)
            &&& f.renamed_from is None
            &&& f.mark == Mark::Untracked
            &&& f.letters@ == "?"@
        },
{
    let at = room(status.staged@.len()) + room(status.unstaged@.len()) + 1 + i;
    view_of(rows, status, at);
    let files = status.untracked@.map_values(|e: UntrackedEntry| untracked_row(e));
    assert(flattened(status)[at] == files[i]);
}

/// A file in conflict stands in the order of the status, marked as one, with the
/// letters of who did what to it.
pub proof fn a_file_in_conflict_says_who_did_what(
    status: Status,
    rows: Vec<Entry>,
    i: int,
    letters: &'static str,
)
    requires
        call_ensures(flatten, (&status,), rows),
        0 <= i < status.conflicts@.len(),
        call_ensures(conflict_letters, (status.conflicts@[i].state,), letters),
    ensures
        rows@[room(status.staged@.len()) + room(status.unstaged@.len()) + room(
            status.untracked@.len(),
        ) + 1 + i] matches Entry::File(f) && {
            let e = status.conflicts@[i];
            &&& f.section == Section::Conflicts
            &&& f.path@ == e.path@
            &&& f.path_text@ == text::lossy(e.path@)
            &&& f.renamed_from is None
            &&& f.mark == Mark::Conflict
            &&& f.letters@ == letters@
        },
{
    let at = room(status.staged@.len()) + room(status.unstaged@.len()) + room(
        status.untracked@.len(),
    ) + 1 + i;
    view_of(rows, status, at);
    let files = status.conflicts@.map_values(|e: ConflictEntry| conflict_row(e));
    assert(flattened(status)[at] == files[i]);
}

/// The rows are those of the status, and the title line counts each path once, in
/// however many groups it stands.
pub proof fn the_title_counts_each_path_once(status: Status, describe: &str, r: Prepared)
    requires
        call_ensures(prepare, (&status, describe), r),
    ensures
        ({
            let named = Set::new(
                |p: Seq<u8>|
                    {
                        ||| exists|i: int|
                            0 <= i < status.staged@.len() && (#[trigger] status.staged@[i]).path@ == p
                        ||| exists|i: int|
                            0 <= i < status.unstaged@.len() && (#[trigger] status.unstaged@[i]).path@
                                == p
                        ||| exists|i: int|
                            0 <= i < status.untracked@.len() && (
                            #[trigger] status.untracked@[i]).path@ == p
                        ||| exists|i: int|
                            0 <= i < status.conflicts@.len() && (
                            #[trigger] status.conflicts@[i]).path@ == p
                    },
            );
            r.label@ == describe@ + " · "@ + text::decimal(named.len()) + " changed"@
        }),
{
    let named = Set::new(
        |p: Seq<u8>|
            {
                ||| exists|i: int|
                    0 <= i < status.staged@.len() && (#[trigger] status.staged@[i]).path@ == p
                ||| exists|i: int|
                    0 <= i < status.unstaged@.len() && (#[trigger] status.unstaged@[i]).path@ == p
                ||| exists|i: int|
                    0 <= i < status.untracked@.len() && (#[trigger] status.untracked@[i]).path@ == p
                ||| exists|i: int|
                    0 <= i < status.conflicts@.len() && (#[trigger] status.conflicts@[i]).path@ == p
            },
    );
    let rows = flattened(status);
    let a = status.staged@.map_values(|e: StagedEntry| staged_row(e));
    let b = status.unstaged@.map_values(|e: UnstagedEntry| unstaged_row(e));
    let c = status.untracked@.map_values(|e: UntrackedEntry| untracked_row(e));
    let d = status.conflicts@.map_values(|e: ConflictEntry| conflict_row(e));
    let (ra, rb, rc) = (room(a.len()) as int, room(b.len()) as int, room(c.len()) as int);
    assert forall|p: Seq<u8>| paths(rows).to_set().contains(p) <==> named.contains(p) by {
        a_path_is_a_files(rows, p);
        if paths(rows).contains(p) {
            let i = choose|i: int|
                0 <= i < rows.len() && rows[i] is File && (#[trigger] rows[i])->File_path == p;
            if i < ra {
                assert(rows[i] == a[i - 1]);
                assert(status.staged@[i - 1].path@ == p);
            } else if i < ra + rb {
                assert(rows[i] == b[i - ra - 1]);
                assert(status.unstaged@[i - ra - 1].path@ == p);
            } else if i < ra + rb + rc {
                assert(rows[i] == c[i - ra - rb - 1]);
                assert(status.untracked@[i - ra - rb - 1].path@ == p);
            } else {
                assert(rows[i] == d[i - ra - rb - rc - 1]);
                assert(status.conflicts@[i - ra - rb - rc - 1].path@ == p);
            }
        }
        if exists|i: int| 0 <= i < status.staged@.len() && (#[trigger] status.staged@[i]).path@ == p {
            let i = choose|i: int|
                0 <= i < status.staged@.len() && (#[trigger] status.staged@[i]).path@ == p;
            assert(rows[1 + i] == a[i]);
        }
        if exists|i: int|
            0 <= i < status.unstaged@.len() && (#[trigger] status.unstaged@[i]).path@ == p {
            let i = choose|i: int|
                0 <= i < status.unstaged@.len() && (#[trigger] status.unstaged@[i]).path@ == p;
            assert(rows[ra + 1 + i] == b[i]);
        }
        if exists|i: int|
            0 <= i < status.untracked@.len() && (#[trigger] status.untracked@[i]).path@ == p {
            let i = choose|i: int|
                0 <= i < status.untracked@.len() && (#[trigger] status.untracked@[i]).path@ == p;
            assert(rows[ra + rb + 1 + i] == c[i]);
        }
        if exists|i: int|
            0 <= i < status.conflicts@.len() && (#[trigger] status.conflicts@[i]).path@ == p {
            let i = choose|i: int|
                0 <= i < status.conflicts@.len() && (#[trigger] status.conflicts@[i]).path@ == p;
            assert(rows[ra + rb + rc + 1 + i] == d[i]);
        }
    }
    assert(paths(rows).to_set() =~= named);
}

proof fn a_path_is_a_files(rows: Seq<EntryView>, p: Seq<u8>)
    ensures
        paths(rows).contains(p) <==> exists|i: int|
            0 <= i < rows.len() && rows[i] is File && (#[trigger] rows[i])->File_path == p,
    decreases rows.len(),
{
    if rows.len() > 0 {
        let rest = rows.drop_last();
        a_path_is_a_files(rest, p);
        let (all, some) = (paths(rows), paths(rest));
        if some.contains(p) {
            let i = choose|i: int|
                0 <= i < rest.len() && rest[i] is File && (#[trigger] rest[i])->File_path == p;
            assert(rows[i] == rest[i]);
            let k = choose|k: int| 0 <= k < some.len() && some[k] == p;
            assert(all[k] == p);
        }
        if rows.last() is File && rows.last()->File_path == p {
            assert(all[all.len() - 1] == p);
            assert(rows[rows.len() - 1] is File);
        }
        if all.contains(p) {
            let k = choose|k: int| 0 <= k < all.len() && all[k] == p;
            if k < some.len() {
                assert(some[k] == p);
            }
        }
        if exists|i: int|
            0 <= i < rows.len() && rows[i] is File && (#[trigger] rows[i])->File_path == p {
            let i = choose|i: int|
                0 <= i < rows.len() && rows[i] is File && (#[trigger] rows[i])->File_path == p;
            if i < rest.len() {
                assert(rest[i] == rows[i]);
            }
        }
    }
}

/// A refresh draws the rows of its status.
pub proof fn a_refresh_draws_the_status(
    status: Status,
    describe: &str,
    r: Prepared,
    rows: Vec<Entry>,
)
    requires
        call_ensures(prepare, (&status, describe), r),
        call_ensures(flatten, (&status,), rows),
    ensures
        r.rows@.len() == rows@.len(),
        forall|i: int| 0 <= i < rows@.len() ==> (#[trigger] r.rows@[i])@ == rows@[i]@,
{
    assert(entry_views(r.rows@).len() == r.rows@.len());
    assert(entry_views(rows@).len() == rows@.len());
    assert forall|i: int| 0 <= i < rows@.len() implies (#[trigger] r.rows@[i])@ == rows@[i]@ by {
        assert(entry_views(r.rows@)[i] == r.rows@[i]@);
        assert(entry_views(rows@)[i] == rows@[i]@);
    }
}

/// A discard says first that it deletes where there is nothing to go back to, and
/// names what is shown.
pub proof fn a_discard_names_what_it_takes(section: Section, shown: &str, r: String)
    requires
        call_ensures(discard_question, (section, shown), r),
    ensures
        section == Section::Untracked ==> r@ == "delete "@ + shown@ + "? press again to confirm"@,
        section != Section::Untracked ==> r@ == "discard "@ + shown@ + "? press again to confirm"@,
{
}

// ---------------------------------------------------------------------------
// The pane
// ---------------------------------------------------------------------------

/// A verb on a whole group gets exactly the paths that the status lists there, in
/// that order.
pub proof fn a_group_verb_gets_the_groups_paths(
    status: Status,
    describe: &str,
    prepared: Prepared,
    pane: Files,
    staged: Vec<Vec<u8>>,
    unstaged: Vec<Vec<u8>>,
    untracked: Vec<Vec<u8>>,
    conflicts: Vec<Vec<u8>>,
)
    requires
        call_ensures(prepare, (&status, describe), prepared),
        pane.rows == prepared.rows,
        call_ensures(Files::paths_in, (&pane, Section::Staged), staged),
        call_ensures(Files::paths_in, (&pane, Section::Unstaged), unstaged),
        call_ensures(Files::paths_in, (&pane, Section::Untracked), untracked),
        call_ensures(Files::paths_in, (&pane, Section::Conflicts), conflicts),
    ensures
        staged@.len() == status.staged@.len(),
        forall|i: int| 0 <= i < staged@.len() ==> (#[trigger] staged@[i])@ == status.staged@[i].path@,
        unstaged@.len() == status.unstaged@.len(),
        forall|i: int|
            0 <= i < unstaged@.len() ==> (#[trigger] unstaged@[i])@ == status.unstaged@[i].path@,
        untracked@.len() == status.untracked@.len(),
        forall|i: int|
            0 <= i < untracked@.len() ==> (#[trigger] untracked@[i])@ == status.untracked@[i].path@,
        conflicts@.len() == status.conflicts@.len(),
        forall|i: int|
            0 <= i < conflicts@.len() ==> (#[trigger] conflicts@[i])@ == status.conflicts@[i].path@,
{
    a_group_is_the_status_list(status);
    let bytes = |p: Vec<u8>| p@;
    let a = status.staged@.map_values(|e: StagedEntry| e.path@);
    let b = status.unstaged@.map_values(|e: UnstagedEntry| e.path@);
    let c = status.untracked@.map_values(|e: UntrackedEntry| e.path@);
    let d = status.conflicts@.map_values(|e: ConflictEntry| e.path@);
    assert(staged@.map_values(bytes) == a);
    assert(unstaged@.map_values(bytes) == b);
    assert(untracked@.map_values(bytes) == c);
    assert(conflicts@.map_values(bytes) == d);
    assert(staged@.map_values(bytes).len() == a.len());
    assert(unstaged@.map_values(bytes).len() == b.len());
    assert(untracked@.map_values(bytes).len() == c.len());
    assert(conflicts@.map_values(bytes).len() == d.len());
    assert forall|i: int| 0 <= i < staged@.len() implies (#[trigger] staged@[i])@
        == status.staged@[i].path@ by {
        assert(staged@.map_values(bytes)[i] == a[i]);
    }
    assert forall|i: int| 0 <= i < unstaged@.len() implies (#[trigger] unstaged@[i])@
        == status.unstaged@[i].path@ by {
        assert(unstaged@.map_values(bytes)[i] == b[i]);
    }
    assert forall|i: int| 0 <= i < untracked@.len() implies (#[trigger] untracked@[i])@
        == status.untracked@[i].path@ by {
        assert(untracked@.map_values(bytes)[i] == c[i]);
    }
    assert forall|i: int| 0 <= i < conflicts@.len() implies (#[trigger] conflicts@[i])@
        == status.conflicts@[i].path@ by {
        assert(conflicts@.map_values(bytes)[i] == d[i]);
    }
}

/// The keyboard's file is the file of its row, its group the row's, and copying it
/// copies its letters and its path. A heading is no file, and is in its own group.
pub proof fn the_keyboards_file_is_its_rows(
    pane: Files,
    file: Option<&FileEntry>,
    section: Option<Section>,
    copied: String,
)
    requires
        call_ensures(Files::current_file, (&pane,), file),
        call_ensures(Files::cursor_section, (&pane,), section),
        call_ensures(Files::cursor_text, (&pane,), copied),
    ensures
        pane.cursor >= pane.rows@.len() ==> file is None && section is None && copied@.len() == 0,
        pane.cursor < pane.rows@.len() ==> match pane.rows@[pane.cursor as int] {
            Entry::Heading { section: s, .. } => file is None && section == Some(s) && copied@.len()
                == 0,
            Entry::File(f) => {
                &&& file is Some
                &&& *file.unwrap() == f
                &&& section == Some(f.section)
                &&& copied@ == f.letters@ + " "@ + text::lossy(f.path@)
            },
        },
{
}

/// A first press asks, and only a second press on the same file in the same group
/// acts. The same path in another group is another file.
pub proof fn only_a_second_press_discards(
    a: Ghost<&mut Files>,
    b: Ghost<&mut Files>,
    section: Section,
    other: Section,
    path: Vec<u8>,
    next: Vec<u8>,
    r: bool,
    s: bool,
)
    requires
        a@.armed is None,
        call_ensures(Files::confirm_or_arm_discard, (a@, section, &path), r),
        *b@ == *final(a@),
        call_ensures(Files::confirm_or_arm_discard, (b@, other, &next), s),
    ensures
        !r,
        final(a@).armed matches Some((g, p)) && g == section && p@ == path@,
        s <==> section == other && path@ == next@,
        s ==> final(b@).armed is None,
        !s ==> (final(b@).armed matches Some((g, p)) && g == other && p@ == next@),
        final(b@).rows == a@.rows,
        final(b@).cursor == a@.cursor,
        final(b@).pending == a@.pending,
{
}

/// The row that the question tints is the first of the file it is about.
pub proof fn the_tinted_row_is_the_questions(pane: Files, r: Option<usize>)
    requires
        call_ensures(Files::tinted_row, (&pane,), r),
    ensures
        pane.armed is None ==> r is None,
        r matches Some(i) ==> {
            &&& pane.armed matches Some((g, p))
            &&& i < pane.rows@.len()
            &&& pane.rows@[i as int] matches Entry::File(f)
            &&& f.section == g
            &&& f.path@ == p@
        },
        pane.armed matches Some((g, p)) ==> (r is None ==> forall|i: int|
            0 <= i < pane.rows@.len() ==> (#[trigger] pane.rows@[i] matches Entry::File(f)
                ==> f.section != g || f.path@ != p@)),
{
    if pane.armed is Some {
        let (g, p) = pane.armed.unwrap();
        let keys = aims(pane.rows@);
        key_is_found(keys, (g, p@));
        assert forall|i: int| 0 <= i < pane.rows@.len() implies keys[i] == aim_of(
            (#[trigger] pane.rows@[i])@,
        ) by {}
    }
}

/// New rows drop the question, and the keyboard stays on its file in its group while
/// that is still listed, and inside the list in any case.
pub proof fn a_refresh_keeps_the_file(
    c: Ghost<&mut Files>,
    prepared: Prepared,
    r: Landing,
    f: FileEntry,
    k: int,
    g: FileEntry,
)
    requires
        call_ensures(Files::replace_prepared, (c@, prepared), r),
        c@.cursor < c@.rows@.len(),
        c@.rows@[c@.cursor as int] == Entry::File(f),
        0 <= k < prepared.rows@.len(),
        prepared.rows@[k] == Entry::File(g),
        g.section == f.section,
        g.path@ == f.path@,
    ensures
        final(c@).rows == prepared.rows,
        final(c@).armed is None,
        final(c@).cursor < prepared.rows@.len(),
        prepared.rows@[final(c@).cursor as int] matches Entry::File(h) && h.section == f.section
            && h.path@ == f.path@,
        r.cursor == final(c@).cursor,
        r.park,
        final(c@).pending.awaiting,
{
    let keys = aims(prepared.rows@);
    let key = (f.section, f.path@);
    assert(keys[k] == aim_of(prepared.rows@[k]@));
    assert(keys.contains(Some(key)));
    a_refresh_keeps_the_row(keys, Some(key), c@.cursor as int);
    let to = anchored(keys, Some(key), c@.cursor as int);
    assert(keys[to] == aim_of(prepared.rows@[to]@));
}

/// A file that is listed no more leaves the keyboard on its row number, or on the last
/// row.
pub proof fn a_lost_file_leaves_its_row_number(c: Ghost<&mut Files>, prepared: Prepared, r: Landing)
    requires
        call_ensures(Files::replace_prepared, (c@, prepared), r),
        c@.cursor < c@.rows@.len() ==> (c@.rows@[c@.cursor as int] matches Entry::File(f)
            ==> forall|k: int|
            0 <= k < prepared.rows@.len() ==> (#[trigger] prepared.rows@[k] matches Entry::File(g)
                ==> g.section != f.section || g.path@ != f.path@)),
    ensures
        c@.cursor < prepared.rows@.len() ==> final(c@).cursor == c@.cursor,
        0 < prepared.rows@.len() <= c@.cursor ==> final(c@).cursor + 1 == prepared.rows@.len(),
        r.cursor == final(c@).cursor,
        r.park <==> prepared.rows@.len() > 0,
        final(c@).pending.awaiting <==> prepared.rows@.len() > 0,
{
    let keys = aims(prepared.rows@);
    let key = c@.aim();
    if key is Some && keys.contains(key) {
        let k = choose|k: int| 0 <= k < keys.len() && keys[k] == key;
        assert(keys[k] == aim_of(prepared.rows@[k]@));
    }
    a_lost_row_leaves_its_number(keys, key, c@.cursor as int);
}

/// A move lands the keyboard on the row it is told and drops the question, and what
/// is no move changes nothing.
pub proof fn a_move_lands_where_it_is_told(c: Ghost<&mut Files>, motion: Motion, cursor: usize)
    requires
        call_ensures(Files::landed, (c@, motion, cursor), ()),
    ensures
        motion == Motion::Inert || motion == Motion::Unknown ==> *final(c@) == *c@,
        !(motion == Motion::Inert || motion == Motion::Unknown) ==> {
            &&& final(c@).armed is None
            &&& cursor < c@.rows@.len() ==> final(c@).cursor == cursor
            &&& 0 < c@.rows@.len() <= cursor ==> final(c@).cursor + 1 == c@.rows@.len()
        },
        final(c@).rows == c@.rows,
        final(c@).pending == c@.pending,
{
}

/// A wheel that moved the list drops the question, one that did not changes nothing,
/// and a scrollbar moves the keyboard and keeps the question.
pub proof fn a_scroll_carries_the_keyboard(
    c: Ghost<&mut Files>,
    d: Ghost<&mut Files>,
    moved: bool,
    cursor: usize,
    r: bool,
)
    requires
        call_ensures(Files::wheeled, (c@, moved, cursor), r),
        call_ensures(Files::followed, (d@, cursor), ()),
    ensures
        r == moved,
        !moved ==> *final(c@) == *c@,
        moved ==> final(c@).armed is None && final(c@).rows == c@.rows,
        moved && cursor < c@.rows@.len() ==> final(c@).cursor == cursor,
        moved && 0 < c@.rows@.len() <= cursor ==> final(c@).cursor + 1 == c@.rows@.len(),
        0 < d@.rows@.len() <= cursor ==> final(d@).cursor + 1 == d@.rows@.len(),
        final(d@).armed == d@.armed,
        final(d@).rows == d@.rows,
        cursor < d@.rows@.len() ==> final(d@).cursor == cursor,
{
}

/// The keyboard's row alone has the selection's ground. A file that a second press
/// would destroy has its letters and its path in the error's ink, and any other its
/// letters in its mark's. A heading asks nothing.
pub proof fn an_armed_file_is_named_in_the_errors_ink(
    e: Entry,
    inks: FileInks,
    current: bool,
    armed: bool,
    r: Look,
    mark: Mark,
    ink: Rgb,
)
    requires
        call_ensures(row, (&e, &inks, current, armed), r),
        e matches Entry::File(f) ==> mark == f.mark,
        call_ensures(Mark::color, (mark, &inks), ink),
    ensures
        current ==> r.bg == inks.selection_bg,
        !current ==> r.bg == inks.bg,
        r.tail == inks.faint,
        e is Heading ==> r.lead == inks.dim && r.path is None,
        e is File && armed ==> r.lead == inks.error && r.path == Some(inks.error),
        e is File && !armed ==> r.lead == ink && r.path is None,
{
}

/// A pane starts on its first row and asks nothing, and is clean where there is no
/// row.
pub proof fn a_pane_starts_on_its_first_row(prepared: Prepared, r: Files, clean: bool)
    requires
        call_ensures(Files::from_prepared, (prepared,), r),
        call_ensures(Files::is_clean, (&r,), clean),
    ensures
        r.rows == prepared.rows,
        r.cursor == 0,
        r.armed is None,
        clean <==> prepared.rows@.len() == 0,
{
}

} // verus!
