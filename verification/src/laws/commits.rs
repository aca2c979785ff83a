//! The commit list and the history: ages, rows, queries and questions.
use super::list::a_lost_row_leaves_its_number;
use super::texts::{
    a_number_reads_back, blank, numbers_are_told_apart, tight, trimming_takes_the_blanks_around,
    what_stands_between_blanks_is_left,
};
use crate::text;
use crate::views::commits::{
    load_line, prepare, query_text, rel_time, row, selects, Commit, Commits, Data, Look, Restore,
};
use crate::views::draw::Rgb;
use crate::views::history::{
    detail, detail_with, initial, timeline, working_tree, Detail, TimelineInks, TimelineRow,
};
use crate::views::list::{a_refresh_keeps_the_row, key_is_found, Landing, Motion};
use vstd::prelude::*;

verus! {

// ---------------------------------------------------------------------------
// Ages
// ---------------------------------------------------------------------------

/// An age is counted in the largest unit that fits in it once, in whole units, and
/// an age of less than a minute, or in the future, is now.
pub proof fn an_age_is_counted_in_whole_units(timestamp: i64, now: i64, r: String)
    requires
        call_ensures(rel_time, (timestamp, now), r),
    ensures
        ({
            let secs = now - timestamp;
            let minute = 60int;
            let hour = 60 * minute;
            let day = 24 * hour;
            let week = 7 * day;
            let month = 30 * day;
            let year = 365 * day;
            &&& secs < minute <==> r@ == "now"@
            &&& minute <= secs < hour ==> r@ == text::decimal((secs / minute) as nat) + "m"@
            &&& hour <= secs < day ==> r@ == text::decimal((secs / hour) as nat) + "h"@
            &&& day <= secs < week ==> r@ == text::decimal((secs / day) as nat) + "d"@
            &&& week <= secs < month ==> r@ == text::decimal((secs / week) as nat) + "w"@
            &&& month <= secs < year ==> r@ == text::decimal((secs / month) as nat) + "mo"@
            &&& year <= secs ==> r@ == text::decimal((secs / year) as nat) + "y"@
        }),
{
    let secs = now - timestamp;
    reveal_strlit("now");
    if secs >= 60 {
        let days = secs / 86400;
        let n = if secs < 3600 {
            secs / 60
        } else if secs < 86400 {
            secs / 3600
        } else if secs < 604800 {
            days
        } else if secs < 2592000 {
            secs / 604800
        } else if secs < 31536000 {
            secs / 2592000
        } else {
            secs / 31536000
        };
        a_number_reads_back(n as nat);
        assert(r@[0] == text::decimal(n as nat)[0]);
    }
}

/// What is counted of an age fits in it, one more would not, and there is one at
/// least.
pub proof fn the_count_of_an_age_fits(timestamp: i64, now: i64, r: String) -> (found: (nat, nat))
    requires
        call_ensures(rel_time, (timestamp, now), r),
        now - timestamp >= 60,
    ensures
        found.0 >= 1,
        found.0 * found.1 <= now - timestamp < (found.0 + 1) * found.1,
        text::decimal(found.0).is_prefix_of(r@),
        found.1 == 60 || found.1 == 3600 || found.1 == 86400 || found.1 == 604800 || found.1
            == 2592000 || found.1 == 31536000,
{
    an_age_is_counted_in_whole_units(timestamp, now, r);
    let secs = now - timestamp;
    if secs < 3600 {
        ((secs / 60) as nat, 60)
    } else if secs < 86400 {
        ((secs / 3600) as nat, 3600)
    } else if secs < 604800 {
        ((secs / 86400) as nat, 86400)
    } else if secs < 2592000 {
        ((secs / 604800) as nat, 604800)
    } else if secs < 31536000 {
        ((secs / 2592000) as nat, 2592000)
    } else {
        ((secs / 31536000) as nat, 31536000)
    }
}

/// A load spells beside each commit how long ago that commit was, against the one
/// clock, and what copying it copies.
pub proof fn a_load_spells_each_commit(
    commits: Vec<Commit>,
    now: i64,
    d: Data,
    i: int,
    age: String,
)
    requires
        call_ensures(prepare, (commits, now), d),
        0 <= i < commits@.len(),
        call_ensures(rel_time, (commits@[i].timestamp, now), age),
    ensures
        d.commits == commits,
        d.times@.len() == commits@.len(),
        d.lines@.len() == commits@.len(),
        d.times@[i]@ == age@,
        d.lines@[i]@ == commits@[i].short@ + " "@ + commits@[i].subject@,
{
    assert(d.times@[i]@ == d.times@[i]@);
    assert(d.lines@[i]@ == d.lines@[i]@);
}

/// The overlay's line names the commits and then the lanes, each under its own word.
pub proof fn the_load_line_counts_commits_and_lanes(
    commits: usize,
    lanes: usize,
    laid: &str,
    drawn: &str,
    r: String,
)
    requires
        call_ensures(load_line, (commits, lanes, laid, drawn), r),
    ensures
        (text::decimal(commits as nat) + " commits · "@).is_prefix_of(r@),
        r@ == text::decimal(commits as nat) + " commits · "@ + (text::decimal(lanes as nat)
            + " lanes · lanes "@) + (laid@ + (" draws "@ + drawn@)),
{
    assert(r@ =~= text::decimal(commits as nat) + " commits · "@ + (text::decimal(lanes as nat)
        + " lanes · lanes "@) + (laid@ + (" draws "@ + drawn@)));
}

// ---------------------------------------------------------------------------
// Queries
// ---------------------------------------------------------------------------

/// A prompt's text is a query where something stands in it between blanks, and that
/// is the query.
pub proof fn a_query_is_what_stands_between_blanks(
    typed: &str,
    before: Seq<char>,
    core: Seq<char>,
    after: Seq<char>,
    r: Option<String>,
)
    requires
        call_ensures(query_text, (typed,), r),
        typed@ == before + core + after,
        blank(before),
        blank(after),
        tight(core),
    ensures
        core.len() == 0 ==> r is None,
        core.len() > 0 ==> r is Some && r.unwrap()@ == core,
{
    query_is(typed@, before, core, after);
}

proof fn query_is(typed: Seq<char>, before: Seq<char>, core: Seq<char>, after: Seq<char>)
    requires
        typed == before + core + after,
        blank(before),
        blank(after),
        tight(core),
    ensures
        core.len() == 0 ==> text::trimmed(typed).len() == 0,
        core.len() > 0 ==> text::trimmed(typed) == core,
{
    if core.len() > 0 {
        what_stands_between_blanks_is_left(before, core, after);
    } else {
        let at = trimming_takes_the_blanks_around(typed);
        assert forall|i: int| 0 <= i < typed.len() implies text::white_space(
            #[trigger] typed[i],
        ) by {
            if i < before.len() {
                assert(before[i] == typed[i]);
            } else {
                assert(after[i - before.len()] == typed[i]);
            }
        }
    }
}

/// A new query shows exactly the commits that it finds, drops the question, keeps
/// the keyboard on its commit where that is found, and asks for its row. The query
/// that stands changes nothing, and a blank one shows every commit.
pub proof fn a_query_shows_what_it_finds(
    c: Ghost<&mut Commits>,
    typed: &str,
    hits: Vec<usize>,
    before: Seq<char>,
    core: Seq<char>,
    after: Seq<char>,
    r: Option<Landing>,
)
    requires
        c@.wf(),
        selects(hits@, c@.data.commits@.len()),
        call_ensures(Commits::apply_query, (c@, typed, hits), r),
        typed@ == before + core + after,
        blank(before),
        blank(after),
        tight(core),
    ensures
        ({
            let now = *final(c@);
            let was = *c@;
            let all = was.data.commits@;
            let stands = if core.len() == 0 {
                was.query is None
            } else {
                was.query is Some && was.query.unwrap()@ == core
            };
            &&& now.data == was.data
            &&& stands ==> r is None && now == was
            &&& !stands ==> {
                &&& r is Some
                &&& r.unwrap().cursor == now.cursor
                &&& r.unwrap().park <==> now.visible@.len() > 0
                &&& now.armed is None
                &&& now.focused == was.focused
                &&& now.pending.awaiting <==> now.visible@.len() > 0
                &&& was.top < now.visible@.len() ==> now.top == was.top
                &&& 0 < now.visible@.len() <= was.top ==> now.top + 1 == now.visible@.len()
                &&& core.len() > 0 ==> now.query is Some && now.query.unwrap()@ == core
                    && now.visible@ == hits@
                &&& core.len() == 0 ==> now.query is None && now.visible@.len() == all.len()
                    && forall|i: int| 0 <= i < all.len() ==> now.visible@[i] == i
                &&& was.cursor < was.visible@.len() && now.visible@.contains(
                    was.visible@[was.cursor as int],
                ) ==> now.cursor < now.visible@.len()
                    && all[now.visible@[now.cursor as int] as int].sha@
                    == all[was.visible@[was.cursor as int] as int].sha@
                &&& (forall|k: int|
                    0 <= k < now.visible@.len() && was.cursor < was.visible@.len()
                        ==> all[#[trigger] now.visible@[k] as int].sha@
                        != all[was.visible@[was.cursor as int] as int].sha@) ==> {
                    &&& was.cursor < now.visible@.len() ==> now.cursor == was.cursor
                    &&& 0 < now.visible@.len() <= was.cursor ==> now.cursor + 1
                        == now.visible@.len()
                }
            }
        }),
{
    let now = *final(c@);
    let was = *c@;
    let all = was.data.commits@;
    query_is(typed@, before, core, after);
    assert(was.data.commits.len() == all.len());
    if was.cursor < was.visible@.len() && now.visible@.contains(was.visible@[was.cursor as int]) {
        let at = was.visible@[was.cursor as int];
        let keys = crate::views::commits::shas(all, now.visible@);
        let k = choose|k: int| 0 <= k < now.visible@.len() && now.visible@[k] == at;
        assert(keys[k] == Some(all[at as int].sha@));
        assert(keys.contains(Some(all[at as int].sha@)));
        a_refresh_keeps_the_row(keys, Some(all[at as int].sha@), was.cursor as int);
    }
    let keys = crate::views::commits::shas(all, now.visible@);
    let key = if was.cursor < was.visible@.len() {
        Some(all[was.visible@[was.cursor as int] as int].sha@)
    } else {
        None
    };
    if forall|k: int|
        0 <= k < now.visible@.len() && was.cursor < was.visible@.len()
            ==> all[#[trigger] now.visible@[k] as int].sha@
            != all[was.visible@[was.cursor as int] as int].sha@ {
        if key is Some && keys.contains(key) {
            let k = choose|k: int| 0 <= k < keys.len() && keys[k] == key;
            assert(all[now.visible@[k] as int].sha@ == key.unwrap());
        }
        a_lost_row_leaves_its_number(keys, key, was.cursor as int);
    }
}

/// New commits under the same query: the question goes, what the query finds of them
/// is shown, or all of them without one, and the keyboard and the top row stay on
/// the commits they were on where those are still shown.
pub proof fn a_refresh_keeps_the_commits(
    c: Ghost<&mut Commits>,
    data: Data,
    hits: Vec<usize>,
    r: Restore,
)
    requires
        c@.wf(),
        data.wf(),
        selects(hits@, data.commits@.len()),
        call_ensures(Commits::replace_prepared, (c@, data, hits), r),
    ensures
        ({
            let now = *final(c@);
            let was = *c@;
            let stays = |from: usize, to: usize, sha: Seq<char>|
                from < was.visible@.len() && was.data.commits@[was.visible@[from as int] as int].sha@
                    == sha && (exists|k: int|
                    0 <= k < now.visible@.len() && data.commits@[#[trigger] now.visible@[k] as int].sha@
                        == sha) ==> to < now.visible@.len()
                    && data.commits@[now.visible@[to as int] as int].sha@ == sha;
            &&& now.data == data
            &&& now.armed is None
            &&& now.query == was.query
            &&& now.focused == was.focused
            &&& was.query is Some ==> now.visible@ == hits@
            &&& was.query is None ==> now.visible@.len() == data.commits@.len() && forall|i: int|
                0 <= i < data.commits@.len() ==> now.visible@[i] == i
            &&& forall|sha: Seq<char>| #[trigger] stays(was.cursor, now.cursor, sha)
            &&& forall|sha: Seq<char>| #[trigger] stays(was.top, now.top, sha)
            &&& r.top == now.top && r.landing.cursor == now.cursor
            &&& r.landing.park <==> now.visible@.len() > 0
            &&& (forall|k: int|
                0 <= k < now.visible@.len() && was.cursor < was.visible@.len()
                    ==> data.commits@[#[trigger] now.visible@[k] as int].sha@
                    != was.data.commits@[was.visible@[was.cursor as int] as int].sha@) ==> {
                &&& was.cursor < now.visible@.len() ==> now.cursor == was.cursor
                &&& 0 < now.visible@.len() <= was.cursor ==> now.cursor + 1 == now.visible@.len()
            }
            &&& (forall|k: int|
                0 <= k < now.visible@.len() && was.top < was.visible@.len()
                    ==> data.commits@[#[trigger] now.visible@[k] as int].sha@
                    != was.data.commits@[was.visible@[was.top as int] as int].sha@) ==> {
                &&& was.top < now.visible@.len() ==> now.top == was.top
                &&& 0 < now.visible@.len() <= was.top ==> now.top + 1 == now.visible@.len()
            }
            &&& now.pending.awaiting <==> now.visible@.len() > 0
        }),
{
    let now = *final(c@);
    let was = *c@;
    let keys = crate::views::commits::shas(data.commits@, now.visible@);
    assert(data.commits.len() == data.commits@.len());
    assert forall|from: usize, sha: Seq<char>|
        from < was.visible@.len() && was.data.commits@[was.visible@[from as int] as int].sha@ == sha
            && (exists|k: int|
            0 <= k < now.visible@.len() && data.commits@[#[trigger] now.visible@[k] as int].sha@
                == sha) implies ({
        let to = #[trigger] crate::views::list::anchored(keys, Some(sha), from as int);
        0 <= to < now.visible@.len() && data.commits@[now.visible@[to] as int].sha@ == sha
    }) by {
        let k = choose|k: int|
            0 <= k < now.visible@.len() && data.commits@[#[trigger] now.visible@[k] as int].sha@
                == sha;
        assert(keys[k] == Some(sha));
        assert(keys.contains(Some(sha)));
        a_refresh_keeps_the_row(keys, Some(sha), from as int);
        let to = crate::views::list::anchored(keys, Some(sha), from as int);
        assert(keys[to] == Some(sha));
    }
    let key = if was.cursor < was.visible@.len() {
        Some(was.data.commits@[was.visible@[was.cursor as int] as int].sha@)
    } else {
        None
    };
    if forall|k: int|
        0 <= k < now.visible@.len() && was.cursor < was.visible@.len()
            ==> data.commits@[#[trigger] now.visible@[k] as int].sha@
            != was.data.commits@[was.visible@[was.cursor as int] as int].sha@ {
        if key is Some && keys.contains(key) {
            let k = choose|k: int| 0 <= k < keys.len() && keys[k] == key;
            assert(data.commits@[now.visible@[k] as int].sha@ == key.unwrap());
        }
        a_lost_row_leaves_its_number(keys, key, was.cursor as int);
    }
    let first = if was.top < was.visible@.len() {
        Some(was.data.commits@[was.visible@[was.top as int] as int].sha@)
    } else {
        None
    };
    if forall|k: int|
        0 <= k < now.visible@.len() && was.top < was.visible@.len()
            ==> data.commits@[#[trigger] now.visible@[k] as int].sha@
            != was.data.commits@[was.visible@[was.top as int] as int].sha@ {
        if first is Some && keys.contains(first) {
            let k = choose|k: int| 0 <= k < keys.len() && keys[k] == first;
            assert(data.commits@[now.visible@[k] as int].sha@ == first.unwrap());
        }
        a_lost_row_leaves_its_number(keys, first, was.top as int);
    }
}

/// While a query stands the title says how many commits are shown of how many; there
/// is nothing to say without one.
pub proof fn the_title_counts_what_is_shown(
    c: Commits,
    r: Option<String>,
    rows: usize,
    total: usize,
)
    requires
        call_ensures(Commits::filter_note, (&c,), r),
        call_ensures(Commits::rows, (&c,), rows),
        call_ensures(Commits::total, (&c,), total),
    ensures
        r is Some <==> c.query is Some,
        r is Some ==> r.unwrap()@ == text::decimal(rows as nat) + "/"@ + text::decimal(
            total as nat,
        ),
        rows == c.visible@.len(),
        total == c.data.commits@.len(),
{
}

// ---------------------------------------------------------------------------
// Rows
// ---------------------------------------------------------------------------

/// The keyboard's commit is the commit of its row, its age stands beside it, and
/// copying it copies the short id and the subject.
pub proof fn the_keyboards_commit_is_its_rows(
    c: Commits,
    here: Option<&Commit>,
    same: Option<&Commit>,
    age: Option<&str>,
    copied: String,
)
    requires
        c.wf(),
        call_ensures(Commits::current, (&c,), here),
        call_ensures(Commits::commit_at, (&c, c.cursor), same),
        call_ensures(Commits::age_at, (&c, c.cursor), age),
        call_ensures(Commits::cursor_text, (&c,), copied),
    ensures
        here is Some <==> c.cursor < c.visible@.len(),
        same is Some <==> here is Some,
        age is Some <==> here is Some,
        here is Some ==> {
            let at = c.visible@[c.cursor as int] as int;
            &&& *here.unwrap() == c.data.commits@[at]
            &&& *same.unwrap() == c.data.commits@[at]
            &&& age.unwrap()@ == c.data.times@[at]@
            &&& copied@ == c.data.commits@[at].short@ + " "@ + c.data.commits@[at].subject@
        },
        here is None ==> copied@.len() == 0,
{
}

/// A first press asks, and only a second press on the same commit acts: in between
/// the question is about the commit that was pressed, and nothing else changes.
pub proof fn only_a_second_press_resets(
    a: Ghost<&mut Commits>,
    b: Ghost<&mut Commits>,
    first: &str,
    second: &str,
    r: bool,
    s: bool,
)
    requires
        a@.armed is None,
        call_ensures(Commits::confirm_or_arm_reset, (a@, first), r),
        *b@ == *final(a@),
        call_ensures(Commits::confirm_or_arm_rewrite, (b@, second), s),
    ensures
        !r,
        final(a@).armed is Some && final(a@).armed.unwrap()@ == first@,
        s <==> first@ == second@,
        s ==> final(b@).armed is None,
        !s ==> final(b@).armed is Some && final(b@).armed.unwrap()@ == second@,
        final(b@).cursor == a@.cursor,
        final(b@).visible == a@.visible,
        final(b@).data == a@.data,
        final(b@).query == a@.query,
{
}

/// The row that the question tints is the first that shows the commit it is about.
pub proof fn the_tinted_row_is_the_questions(c: Commits, r: Option<usize>)
    requires
        c.wf(),
        call_ensures(Commits::tinted_row, (&c,), r),
    ensures
        c.armed is None ==> r is None,
        r matches Some(i) ==> c.armed is Some && i < c.visible@.len()
            && c.data.commits@[c.visible@[i as int] as int].sha@ == c.armed.unwrap()@,
        c.armed is Some && r is None ==> forall|i: int|
            0 <= i < c.visible@.len() ==> c.data.commits@[#[trigger] c.visible@[i] as int].sha@
                != c.armed.unwrap()@,
{
    if c.armed is Some {
        let keys = crate::views::commits::shas(c.data.commits@, c.visible@);
        key_is_found(keys, c.armed.unwrap()@);
        assert forall|i: int| 0 <= i < c.visible@.len() implies keys[i] == Some(
            c.data.commits@[#[trigger] c.visible@[i] as int].sha@,
        ) by {}
    }
}

/// A saved position comes back to its own row where there is one, to the last row
/// past the end, and to none in an empty list.
pub proof fn a_saved_row_comes_back(c: Commits, row: usize, r: Option<usize>)
    requires
        call_ensures(Commits::scroll_to, (&c, row), r),
    ensures
        r is None <==> c.visible@.len() == 0,
        row < c.visible@.len() ==> r == Some(row),
        c.visible@.len() > 0 && row >= c.visible@.len() ==> r.unwrap() + 1 == c.visible@.len(),
{
}

/// A move lands the keyboard on the row it is told, drops the question, and moves no
/// commit; what is no move changes nothing.
pub proof fn a_move_lands_where_it_is_told(
    c: Ghost<&mut Commits>,
    motion: Motion,
    cursor: usize,
    top: usize,
)
    requires
        call_ensures(Commits::landed, (c@, motion, cursor, top), ()),
    ensures
        motion == Motion::Inert || motion == Motion::Unknown ==> *final(c@) == *c@,
        !(motion == Motion::Inert || motion == Motion::Unknown) ==> {
            &&& final(c@).armed is None
            &&& cursor < c@.visible@.len() ==> final(c@).cursor == cursor
            &&& top < c@.visible@.len() ==> final(c@).top == top
            &&& 0 < c@.visible@.len() <= cursor ==> final(c@).cursor + 1 == c@.visible@.len()
            &&& 0 < c@.visible@.len() <= top ==> final(c@).top + 1 == c@.visible@.len()
        },
        final(c@).data == c@.data,
        final(c@).visible == c@.visible,
        final(c@).query == c@.query,
{
}

/// A wheel that moved the list drops the question and one that did not changes
/// nothing.
pub proof fn a_wheel_that_moves_nothing_changes_nothing(
    c: Ghost<&mut Commits>,
    moved: bool,
    cursor: usize,
    top: usize,
    r: bool,
)
    requires
        call_ensures(Commits::wheeled, (c@, moved, cursor, top), r),
    ensures
        r == moved,
        !moved ==> *final(c@) == *c@,
        moved ==> final(c@).armed is None && final(c@).data == c@.data && final(c@).visible
            == c@.visible && final(c@).query == c@.query,
        moved && cursor < c@.visible@.len() ==> final(c@).cursor == cursor,
        moved && top < c@.visible@.len() ==> final(c@).top == top,
        moved && 0 < c@.visible@.len() <= cursor ==> final(c@).cursor + 1 == c@.visible@.len(),
        moved && 0 < c@.visible@.len() <= top ==> final(c@).top + 1 == c@.visible@.len(),
{
}

/// The commit that a second press would reset to is named in the error's ink
/// throughout; any other has a quiet id, a fainter age, and the pane's own ink for
/// its subject.
pub proof fn an_armed_commit_is_named_in_the_errors_ink(
    armed: bool,
    error: Rgb,
    dim: Rgb,
    faint: Rgb,
    r: Look,
)
    requires
        call_ensures(row, (armed, error, dim, faint), r),
    ensures
        armed ==> r.sha == error && r.subject == Some(error) && r.time == error,
        !armed ==> r.sha == dim && r.subject is None && r.time == faint,
{
}

// ---------------------------------------------------------------------------
// The history
// ---------------------------------------------------------------------------

/// A row of the timeline says its commit's subject, and under it who made it, how
/// long ago, and its short id. The keyboard's row alone is tinted, and the newest
/// commit's ring alone stands out.
pub proof fn the_timeline_shows_its_commit(
    c: Commits,
    row: usize,
    inks: TimelineInks,
    r: TimelineRow,
)
    requires
        c.wf(),
        call_ensures(timeline, (&c, row, &inks), r),
    ensures
        r.selected <==> row == c.cursor,
        row == c.cursor ==> r.bg == inks.selection_bg,
        row != c.cursor ==> r.bg == inks.bg,
        row == 0 ==> r.node == inks.accent,
        row > 0 ==> r.node == inks.faint,
        row < c.visible@.len() ==> {
            let at = c.visible@[row as int] as int;
            let commit = c.data.commits@[at];
            &&& r.subject@ == commit.subject@
            &&& r.meta@ == commit.author@ + " · "@ + c.data.times@[at]@ + "  "@ + commit.short@
        },
        row >= c.visible@.len() ==> r.subject@.len() == 0 && r.meta@ == " · "@ + "  "@,
{
    if row >= c.visible@.len() {
        assert(r.meta@ =~= " · "@ + "  "@);
    }
}

/// The detail is the keyboard's commit: its short id, its subject, its author with
/// the initial in capitals, its age and its first parent's first seven characters.
pub proof fn the_detail_is_the_keyboards_commit(c: Commits, branch: &str, r: Detail)
    requires
        c.wf(),
        call_ensures(detail, (&c, branch), r),
    ensures
        r.footer@ == "Authored on "@ + branch@,
        c.cursor < c.visible@.len() ==> {
            let at = c.visible@[c.cursor as int] as int;
            let commit = c.data.commits@[at];
            &&& r.label@ == "COMMIT "@ + commit.short@
            &&& r.subject@ == commit.subject@
            &&& r.author@ == commit.author@
            &&& r.committed@ == "committed "@ + c.data.times@[at]@
            &&& commit.parents@.len() == 0 ==> r.parent@ == "—"@
            &&& commit.parents@.len() > 0 ==> r.parent@.is_prefix_of(commit.parents@[0]@)
                && r.parent@.len() == if commit.parents@[0]@.len() < 7 {
                commit.parents@[0]@.len()
            } else {
                7
            }
            &&& commit.author@.len() == 0 ==> r.avatar is None
            &&& commit.author@.len() > 0 ==> r.avatar is Some && r.avatar.unwrap()@
                == text::uppercase(commit.author@[0])
        },
        c.cursor >= c.visible@.len() ==> {
            &&& r.subject@ == "No commit selected"@
            &&& r.author@.len() == 0
            &&& r.avatar is None
            &&& r.parent@ == "—"@
            &&& r.label@ == "COMMIT "@
            &&& r.committed@ == "committed "@
        },
{
}

/// The avatar is the one that is handed in; the rest is the same whichever it is.
pub proof fn the_avatar_changes_nothing_else(
    c: Commits,
    branch: &str,
    avatar: Option<String>,
    r: Detail,
    s: Detail,
)
    requires
        c.wf(),
        call_ensures(detail_with, (&c, branch, avatar), r),
        call_ensures(detail, (&c, branch), s),
    ensures
        r.avatar is Some <==> avatar is Some,
        avatar is Some ==> r.avatar.unwrap()@ == avatar.unwrap()@,
        r.label@ == s.label@,
        r.subject@ == s.subject@,
        r.author@ == s.author@,
        r.committed@ == s.committed@,
        r.parent@ == s.parent@,
        r.footer@ == s.footer@,
{
    if c.cursor >= c.visible@.len() {
        assert(r.author@ =~= s.author@);
    }
}

/// A name's initial is its first character in capitals.
pub proof fn the_initial_is_the_first_character(author: &str, r: Option<String>)
    requires
        call_ensures(initial, (author,), r),
    ensures
        r is None <==> author@.len() == 0,
        r is Some ==> r.unwrap()@ == text::uppercase(author@.first()),
{
}

/// The row of uncommitted changes counts the files that changed.
pub proof fn the_working_tree_is_counted(a: usize, b: usize, r: String, s: String)
    requires
        call_ensures(working_tree, (a,), r),
        call_ensures(working_tree, (b,), s),
    ensures
        r@ == "Working tree · "@ + text::decimal(a as nat) + " files"@,
        r@ == s@ <==> a == b,
{
    numbers_are_told_apart(a as nat, b as nat);
    if r@ == s@ {
        let head = "Working tree · "@;
        let tail = " files"@;
        let (x, y) = (text::decimal(a as nat), text::decimal(b as nat));
        assert(r@.len() == head.len() + x.len() + tail.len());
        assert(s@.len() == head.len() + y.len() + tail.len());
        assert forall|i: int| 0 <= i < x.len() implies x[i] == y[i] by {
            assert(r@[head.len() + i] == x[i]);
            assert(s@[head.len() + i] == y[i]);
        }
        assert(x =~= y);
    }
}

} // verus!
