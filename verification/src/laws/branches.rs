//! The branches: each under its heading, with its distance to what it tracks.
use super::list::a_lost_row_leaves_its_number;
use crate::text;
use crate::views::branches::{
    aim_of, aims, detached_rows, drift, flatten, flattened, given, head_branch, head_info,
    heading_rows, headings, local_row, prepare, remote_row, row, row_target, row_views, short_len,
    upstream_counts, Branch, Branches, HeadInfo, HeadState, Look, Prepared, RefInks, RemoteBranch,
    Row, Section, Target, Upstream,
};
use crate::views::list::{
    a_refresh_keeps_the_row, anchored, hold, key_is_found, settle, settled,
    settling_avoids_headings, Landing, Motion,
};
use vstd::prelude::*;
use vstd::utf8::encode_utf8;

verus! {

// ---------------------------------------------------------------------------
// Distances
// ---------------------------------------------------------------------------

/// A branch says how far it is ahead behind an arrow up and how far it is behind
/// behind an arrow down, leaves out a zero, says nothing in step, and says so where
/// either cannot be told.
pub proof fn a_branch_says_its_distance(u: Upstream, r: (Option<String>, bool))
    requires
        call_ensures(upstream_counts, (&u,), r),
    ensures
        u.ahead is None || u.behind is None <==> r.1,
        r.1 ==> r.0 is Some && r.0.unwrap()@ == "(gone)"@,
        u.ahead matches Some(a) ==> (u.behind matches Some(b) ==> {
            &&& r.0 is None <==> a == 0 && b == 0
            &&& a > 0 && b == 0 ==> r.0.unwrap()@ == "↑"@ + text::decimal(a as nat)
            &&& a == 0 && b > 0 ==> r.0.unwrap()@ == "↓"@ + text::decimal(b as nat)
            &&& a > 0 && b > 0 ==> r.0.unwrap()@ == "↑"@ + text::decimal(a as nat) + " "@ + ("↓"@
                + text::decimal(b as nat))
        }),
{
    reveal_strlit("↑");
    reveal_strlit("↓");
    if u.ahead is Some && u.behind is Some {
        let (a, b) = (u.ahead.unwrap(), u.behind.unwrap());
        let up = "↑"@ + text::decimal(a as nat);
        let down = "↓"@ + text::decimal(b as nat);
        assert(up.len() > 0 && down.len() > 0);
        assert(up + Seq::<char>::empty() =~= up);
        assert(Seq::<char>::empty() + down =~= down);
        let none: Seq<char> = seq![];
        assert(up + none =~= up);
        assert(none + down =~= down);
        assert(none + none =~= none);
    }
}

/// The title says both counts, ahead behind the arrow up, once either is not zero,
/// and a count that cannot be told is zero there.
pub proof fn the_title_says_both_counts(ahead: Option<u32>, behind: Option<u32>, r: Option<String>)
    requires
        call_ensures(drift, (ahead, behind), r),
    ensures
        ({
            let a = if ahead is Some {
                ahead.unwrap() as nat
            } else {
                0
            };
            let b = if behind is Some {
                behind.unwrap() as nat
            } else {
                0
            };
            &&& r is None <==> a == 0 && b == 0
            &&& r is Some ==> r.unwrap()@ == " · ↑"@ + text::decimal(a) + " ↓"@ + text::decimal(b)
        }),
{
}

/// HEAD is told of where it is on a branch that is listed: the first that says HEAD
/// is on it, by its own name and its own distance.
pub proof fn the_title_tells_heads_own_branch(
    head: Option<&HeadState>,
    local: Vec<Branch>,
    r: Option<HeadInfo>,
    i: int,
    d: Option<String>,
)
    requires
        call_ensures(head_info, (head, &local), r),
        0 <= i < local@.len(),
        local@[i].head,
        forall|j: int| 0 <= j < i ==> !(#[trigger] local@[j]).head,
        call_ensures(
            drift,
            (
                match local@[i].upstream {
                    Some(u) => u.ahead,
                    None => None,
                },
                match local@[i].upstream {
                    Some(u) => u.behind,
                    None => None,
                },
            ),
            d,
        ),
    ensures
        r is Some <==> head is Some && *head.unwrap() is Branch,
        r matches Some(info) ==> {
            let b = local@[i];
            &&& info.branch@ == text::lossy(b.name@)
            &&& info.chip@ == "⎇ "@ + text::lossy(b.name@)
            &&& b.upstream is None ==> info.ahead is None && info.behind is None
            &&& b.upstream matches Some(u) ==> info.ahead == u.ahead && info.behind == u.behind
            &&& info.drift is Some <==> d is Some
            &&& d is Some ==> info.drift.unwrap()@ == d.unwrap()@
        },
{
    first_head(local@, i);
}

proof fn first_head(local: Seq<Branch>, i: int)
    requires
        0 <= i < local.len(),
        local[i].head,
        forall|j: int| 0 <= j < i ==> !(#[trigger] local[j]).head,
    ensures
        head_branch(local) == Some(local[i]),
    decreases local.len(),
{
    if i == local.len() - 1 {
        no_head(local.drop_last());
    } else {
        first_head(local.drop_last(), i);
    }
}

proof fn no_head(local: Seq<Branch>)
    requires
        forall|j: int| 0 <= j < local.len() ==> !(#[trigger] local[j]).head,
    ensures
        head_branch(local) is None,
    decreases local.len(),
{
    if local.len() > 0 {
        assert(!local[local.len() - 1].head);
        no_head(local.drop_last());
    }
}

/// Where no branch says that HEAD is on it the title says nothing of HEAD.
pub proof fn no_branch_no_head(head: Option<&HeadState>, local: Vec<Branch>, r: Option<HeadInfo>)
    requires
        call_ensures(head_info, (head, &local), r),
        forall|j: int| 0 <= j < local@.len() ==> !(#[trigger] local@[j]).head,
    ensures
        r is None,
{
    no_head(local@);
}

/// The groups are called what they are.
pub proof fn a_group_is_called_what_it_is(section: Section, name: &'static str, label: &'static str)
    requires
        call_ensures(Section::name, (section,), name),
        call_ensures(Section::label, (section,), label),
    ensures
        section == Section::Local ==> name@ == "local"@ && label@ == "LOCAL"@,
        section == Section::Remote ==> name@ == "remote"@ && label@ == "REMOTE"@,
{
}

// ---------------------------------------------------------------------------
// Rows
// ---------------------------------------------------------------------------

/// How many rows stand above the first group: a detached HEAD's.
pub open spec fn above(head: Option<&HeadState>) -> int {
    if head is Some && *head.unwrap() is Detached {
        1
    } else {
        0
    }
}

/// How many rows a group of `n` branches takes.
pub open spec fn room(n: nat) -> int {
    if n == 0 {
        0
    } else {
        (n + 1) as int
    }
}

/// What the pane can be flattened from.
pub open spec fn flattens(local: Vec<Branch>, head: Option<&HeadState>, inks: RefInks) -> bool {
    &&& inks.lanes@.len() >= local@.len()
    &&& given(head) matches Some(HeadState::Detached { commit }) ==> text::boundary(
        commit@,
        short_len(commit@),
    )
}

proof fn view_of(
    local: Vec<Branch>,
    remotes: Vec<RemoteBranch>,
    head: Option<&HeadState>,
    inks: RefInks,
    rows: Vec<Row>,
    i: int,
)
    requires
        call_ensures(flatten, (&local, &remotes, head, &inks), rows),
    ensures
        rows@.len() == above(head) + room(local@.len()) + room(remotes@.len()),
        0 <= i < rows@.len() ==> rows@[i]@ == flattened(local@, remotes@, given(head), inks)[i],
{
    let all = flattened(local@, remotes@, given(head), inks);
    assert(row_views(rows@).len() == rows@.len());
    assert(detached_rows(given(head), inks).len() == above(head));
    assert(heading_rows(local@.len(), Section::Local).len() + local@.len() == room(local@.len()));
    assert(heading_rows(remotes@.len(), Section::Remote).len() + remotes@.len() == room(
        remotes@.len(),
    ));
    if 0 <= i < rows@.len() {
        assert(row_views(rows@)[i] == rows@[i]@);
    }
}

/// A detached HEAD comes first, then each group that has anything under a heading
/// that counts it.
pub proof fn every_group_stands_under_its_heading(
    local: Vec<Branch>,
    remotes: Vec<RemoteBranch>,
    head: Option<&HeadState>,
    inks: RefInks,
    rows: Vec<Row>,
)
    requires
        flattens(local, head, inks),
        call_ensures(flatten, (&local, &remotes, head, &inks), rows),
    ensures
        rows@.len() == above(head) + room(local@.len()) + room(remotes@.len()),
        local@.len() > 0 ==> (rows@[above(head)] matches Row::Heading { count, section } && count@
            == text::decimal(local@.len()) && section == Section::Local),
        remotes@.len() > 0 ==> (rows@[above(head) + room(local@.len())] matches Row::Heading {
            count,
            section,
        } && count@ == text::decimal(remotes@.len()) && section == Section::Remote),
        head matches Some(HeadState::Detached { commit }) ==> (rows@[0] matches Row::Detached {
            dot,
            text,
        } && dot.glyph@ == "●"@ && dot.color == inks.dim && text@ == "(detached at "@
            + vstd::utf8::decode_utf8(
            encode_utf8(commit@).subrange(
                0,
                if encode_utf8(commit@).len() < 8 {
                    encode_utf8(commit@).len() as int
                } else {
                    8
                },
            ),
        ) + "…)"@),
{
    let all = flattened(local@, remotes@, given(head), inks);
    let d = detached_rows(given(head), inks);
    assert(d.len() == above(head));
    view_of(local, remotes, head, inks, rows, 0);
    view_of(local, remotes, head, inks, rows, above(head));
    view_of(local, remotes, head, inks, rows, above(head) + room(local@.len()));
    if above(head) == 1 {
        assert(all[0] == d[0]);
    }
}

/// A local branch stands in its order, by its own name and its own distance, in the
/// accent where HEAD is on it and in its own lane's colour otherwise.
pub proof fn a_local_branch_is_drawn_as_it_is(
    local: Vec<Branch>,
    remotes: Vec<RemoteBranch>,
    head: Option<&HeadState>,
    inks: RefInks,
    rows: Vec<Row>,
    i: int,
)
    requires
        flattens(local, head, inks),
        call_ensures(flatten, (&local, &remotes, head, &inks), rows),
        0 <= i < local@.len(),
    ensures
        rows@[above(head) + 1 + i] matches Row::Local(l) && {
            let b = local@[i];
            &&& l.name@ == b.name@
            &&& l.name_text@ == text::lossy(b.name@)
            &&& l.dot.glyph@ == "●"@
            &&& b.head ==> l.dot.color == inks.accent
            &&& !b.head ==> l.dot.color == inks.lanes@[i]
            &&& b.upstream is None ==> l.counts is None && !l.gone
            &&& b.upstream matches Some(u) ==> {
                &&& l.gone <==> u.ahead is None || u.behind is None
                &&& l.gone ==> l.counts is Some && l.counts.unwrap()@ == "(gone)"@
                &&& u.ahead matches Some(a) ==> (u.behind matches Some(z) ==> {
                    &&& l.counts is None <==> a == 0 && z == 0
                    &&& a > 0 && z == 0 ==> l.counts.unwrap()@ == "↑"@ + text::decimal(a as nat)
                    &&& a == 0 && z > 0 ==> l.counts.unwrap()@ == "↓"@ + text::decimal(z as nat)
                    &&& a > 0 && z > 0 ==> l.counts.unwrap()@ == "↑"@ + text::decimal(a as nat)
                        + " "@ + ("↓"@ + text::decimal(z as nat))
                })
            }
        },
{
    let all = flattened(local@, remotes@, given(head), inks);
    let d = detached_rows(given(head), inks);
    assert(d.len() == above(head));
    let at = above(head) + 1 + i;
    view_of(local, remotes, head, inks, rows, at);
    assert(all[at] == local_row(local@[i], i, inks));
    reveal_strlit("↑");
    reveal_strlit("↓");
    if local@[i].upstream is Some {
        let u = local@[i].upstream.unwrap();
        if u.ahead is Some && u.behind is Some {
            let (a, z) = (u.ahead.unwrap(), u.behind.unwrap());
            let up = "↑"@ + text::decimal(a as nat);
            let down = "↓"@ + text::decimal(z as nat);
            let none: Seq<char> = seq![];
            assert(up.len() > 0 && down.len() > 0);
            assert(up + none =~= up);
            assert(none + down =~= down);
            assert(none + none =~= none);
        }
    }
}

/// A remote branch stands in its order, as its remote and its name.
pub proof fn a_remote_branch_is_drawn_as_it_is(
    local: Vec<Branch>,
    remotes: Vec<RemoteBranch>,
    head: Option<&HeadState>,
    inks: RefInks,
    rows: Vec<Row>,
    i: int,
)
    requires
        flattens(local, head, inks),
        call_ensures(flatten, (&local, &remotes, head, &inks), rows),
        0 <= i < remotes@.len(),
    ensures
        rows@[above(head) + room(local@.len()) + 1 + i] matches Row::Remote(r) && {
            let b = remotes@[i];
            &&& r.remote@ == b.remote@
            &&& r.branch@ == b.branch@
            &&& r.label@ == text::lossy(b.remote@) + "/"@ + text::lossy(b.branch@)
            &&& r.dot.glyph@ == "○"@
            &&& r.dot.color == inks.quiet
        },
{
    let all = flattened(local@, remotes@, given(head), inks);
    let d = detached_rows(given(head), inks);
    assert(d.len() == above(head));
    let at = above(head) + room(local@.len()) + 1 + i;
    view_of(local, remotes, head, inks, rows, at);
    assert(heading_rows(local@.len(), Section::Local).len() + local@.len() == room(local@.len()));
    assert(all[at] == remote_row(remotes@[i], inks));
}

/// A refresh counts the local branches and then the remote ones, draws the rows there
/// are, and tells who HEAD is.
pub proof fn a_refresh_counts_the_branches(
    local: Vec<Branch>,
    remotes: Vec<RemoteBranch>,
    head: Option<&HeadState>,
    inks: RefInks,
    describe: &str,
    r: Prepared,
    rows: Vec<Row>,
    info: Option<HeadInfo>,
)
    requires
        flattens(local, head, inks),
        call_ensures(prepare, (&local, &remotes, head, &inks, describe), r),
        call_ensures(flatten, (&local, &remotes, head, &inks), rows),
        call_ensures(head_info, (head, &local), info),
    ensures
        r.label@ == describe@ + " · "@ + text::decimal(local@.len()) + " local · "@
            + text::decimal(remotes@.len()) + " remote"@,
        r.rows@.len() == rows@.len(),
        forall|i: int| 0 <= i < rows@.len() ==> (#[trigger] r.rows@[i])@ == rows@[i]@,
        r.head is Some <==> info is Some,
        info is Some ==> r.head.unwrap().branch@ == info.unwrap().branch@ && r.head.unwrap().chip@
            == info.unwrap().chip@ && r.head.unwrap().ahead == info.unwrap().ahead
            && r.head.unwrap().behind == info.unwrap().behind,
{
    assert(row_views(r.rows@).len() == r.rows@.len());
    assert(row_views(rows@).len() == rows@.len());
    assert forall|i: int| 0 <= i < rows@.len() implies (#[trigger] r.rows@[i])@ == rows@[i]@ by {
        assert(row_views(r.rows@)[i] == r.rows@[i]@);
        assert(row_views(rows@)[i] == rows@[i]@);
    }
}

/// A verb aims at the branch of its row, byte for byte, and at nothing on a heading.
pub proof fn a_verb_aims_at_its_rows_branch(e: Row, r: Option<Target>)
    requires
        call_ensures(row_target, (&e,), r),
    ensures
        r is None <==> e is Heading,
        e is Detached ==> r.unwrap() is Detached,
        e matches Row::Local(l) ==> (r matches Some(Target::Local(name)) && name@ == l.name@),
        e matches Row::Remote(l) ==> (r matches Some(Target::Remote { remote, branch }) && remote@
            == l.remote@ && branch@ == l.branch@),
{
}

/// What a second press would destroy is named in the error's ink. Any other row is in
/// the pane's own, but for a place and a remote branch, which are dim; a distance is
/// dim, and quiet where it cannot be told.
pub proof fn an_armed_branch_is_named_in_the_errors_ink(e: Row, inks: RefInks, armed: bool, r: Look)
    requires
        call_ensures(row, (&e, &inks, armed), r),
    ensures
        e is Heading ==> r.name is None && r.counts is None,
        !(e is Heading) && armed ==> r.name == Some(inks.error),
        (e is Detached || e is Remote) && !armed ==> r.name == Some(inks.dim),
        e is Detached || e is Remote ==> r.counts is None,
        e matches Row::Local(l) ==> {
            &&& !armed ==> r.name is None
            &&& l.counts is None ==> r.counts is None
            &&& l.counts is Some && l.gone ==> r.counts == Some(inks.quiet)
            &&& l.counts is Some && !l.gone ==> r.counts == Some(inks.dim)
        },
{
}

// ---------------------------------------------------------------------------
// The pane
// ---------------------------------------------------------------------------

/// What a verb aims at under the keyboard is what it aims at on the keyboard's row,
/// and copying copies the branch's name, behind its remote where it has one.
pub proof fn the_keyboards_branch_is_its_rows(pane: Branches, r: Option<Target>, copied: String)
    requires
        call_ensures(Branches::current, (&pane,), r),
        call_ensures(Branches::cursor_text, (&pane,), copied),
    ensures
        pane.cursor >= pane.rows@.len() ==> r is None && copied@.len() == 0,
        pane.cursor < pane.rows@.len() ==> match pane.rows@[pane.cursor as int] {
            Row::Heading { .. } => r is None && copied@.len() == 0,
            Row::Detached { .. } => r is Some && r.unwrap() is Detached && copied@.len() == 0,
            Row::Local(l) => (r matches Some(Target::Local(name)) && name@ == l.name@) && copied@
                == text::lossy(l.name@),
            Row::Remote(l) => (r matches Some(Target::Remote { remote, branch }) && remote@
                == l.remote@ && branch@ == l.branch@) && copied@ == text::lossy(l.remote@) + "/"@
                + text::lossy(l.branch@),
        },
{
}

/// A first press asks, and only a second press at the same branch acts, whichever of
/// the two verbs asked.
pub proof fn only_a_second_press_acts(
    a: Ghost<&mut Branches>,
    b: Ghost<&mut Branches>,
    target: Target,
    next: Target,
    r: bool,
    s: bool,
)
    requires
        a@.armed is None,
        call_ensures(Branches::confirm_or_arm_delete, (a@, &target), r),
        *b@ == *final(a@),
        call_ensures(Branches::confirm_or_arm_rebase, (b@, &next), s),
    ensures
        !r,
        final(a@).armed is Some && final(a@).armed.unwrap()@ == target@,
        s <==> target@ == next@,
        s ==> final(b@).armed is None,
        !s ==> final(b@).armed is Some && final(b@).armed.unwrap()@ == next@,
        final(b@).rows == a@.rows,
        final(b@).cursor == a@.cursor,
{
}

/// Two aims are the same exactly where they are of one kind and byte for byte alike: a
/// local branch is never a remote one of the same name.
pub proof fn a_target_is_its_bytes(a: Target, b: Target)
    ensures
        a@ == b@ <==> match (a, b) {
            (Target::Local(x), Target::Local(y)) => x@ == y@,
            (
                Target::Remote { remote: r, branch: x },
                Target::Remote { remote: s, branch: y },
            ) => r@ == s@ && x@ == y@,
            (Target::Detached, Target::Detached) => true,
            _ => false,
        },
{
}

/// The row that the question tints is the first at which a verb aims as the question
/// does.
pub proof fn the_tinted_row_is_the_questions(
    pane: Branches,
    r: Option<usize>,
    i: usize,
    t: Option<Target>,
)
    requires
        call_ensures(Branches::tinted_row, (&pane,), r),
        i < pane.rows@.len(),
        call_ensures(row_target, (&pane.rows@[i as int],), t),
    ensures
        pane.armed is None ==> r is None,
        r == Some(i) ==> t is Some && pane.armed is Some && t.unwrap()@ == pane.armed.unwrap()@,
        pane.armed is Some && t is Some && t.unwrap()@ == pane.armed.unwrap()@ ==> r is Some
            && r.unwrap() <= i,
        r is Some ==> r.unwrap() < pane.rows@.len(),
{
    if pane.armed is Some {
        let keys = aims(pane.rows@);
        key_is_found(keys, pane.armed.unwrap()@);
        assert(keys[i as int] == aim_of(pane.rows@[i as int]@));
    }
}

/// A move comes to rest on the row it is told, unless that is a heading, and drops the
/// question; what is no move changes nothing. A scroll by hand moves the keyboard
/// where the viewport took it.
pub proof fn a_move_rests_on_a_branch(
    c: Ghost<&mut Branches>,
    d: Ghost<&mut Branches>,
    e: Ghost<&mut Branches>,
    motion: Motion,
    moved: bool,
    cursor: usize,
    r: usize,
    s: bool,
)
    requires
        call_ensures(Branches::landed, (c@, motion, cursor), r),
        call_ensures(Branches::wheeled, (d@, moved, cursor), s),
        call_ensures(Branches::followed, (e@, cursor), ()),
    ensures
        r == final(c@).cursor,
        motion == Motion::Inert || motion == Motion::Unknown ==> *final(c@) == *c@,
        !(motion == Motion::Inert || motion == Motion::Unknown) ==> {
            &&& final(c@).armed is None
            &&& cursor < c@.rows@.len() && !(c@.rows@[cursor as int] is Heading) ==> final(
                c@).cursor == cursor
        },
        final(c@).rows == c@.rows,
        final(c@).head == c@.head,
        s == moved,
        !moved ==> *final(d@) == *d@,
        moved ==> final(d@).armed is None,
        moved && cursor < d@.rows@.len() ==> final(d@).cursor == cursor,
        moved && 0 < d@.rows@.len() <= cursor ==> final(d@).cursor + 1 == d@.rows@.len(),
        0 < e@.rows@.len() <= cursor ==> final(e@).cursor + 1 == e@.rows@.len(),
        final(e@).armed == e@.armed,
        cursor < e@.rows@.len() ==> final(e@).cursor == cursor,
{
    if cursor < c@.rows@.len() {
        assert(headings(c@.rows@)[cursor as int] == (c@.rows@[cursor as int] is Heading));
    }
}

/// New rows drop the question, and the keyboard stays on its branch while that is
/// still listed.
pub proof fn a_refresh_keeps_the_branch(
    c: Ghost<&mut Branches>,
    prepared: Prepared,
    r: Landing,
    was: Option<Target>,
    k: int,
    t: Option<Target>,
    now: Option<Target>,
)
    requires
        call_ensures(Branches::current, (c@,), was),
        was is Some,
        call_ensures(Branches::replace_prepared, (c@, prepared), r),
        0 <= k < prepared.rows@.len(),
        call_ensures(row_target, (&prepared.rows@[k],), t),
        t is Some,
        t.unwrap()@ == was.unwrap()@,
        call_ensures(Branches::current, (&*final(c@),), now),
    ensures
        now is Some,
        now.unwrap()@ == was.unwrap()@,
        final(c@).rows == prepared.rows,
        final(c@).head == prepared.head,
        final(c@).armed is None,
        final(c@).focused == c@.focused,
        r.cursor == final(c@).cursor,
        r.park,
        final(c@).pending.awaiting,
{
    let rows = prepared.rows@;
    let keys = aims(rows);
    let aim = was.unwrap()@;
    assert(keys[k] == aim_of(rows[k]@));
    assert(keys.contains(Some(aim)));
    a_refresh_keeps_the_row(keys, Some(aim), c@.cursor as int);
    let at = anchored(keys, Some(aim), c@.cursor as int);
    assert(keys[at] == aim_of(rows[at]@));
    assert(headings(rows)[at] == (rows[at] is Heading));
    settling_avoids_headings(headings(rows), at, false);
}

/// A branch that is listed no more leaves the keyboard on its row number, or on the
/// last row, and off a heading the keyboard steps on. A move steps off a heading in its
/// own direction.
pub proof fn the_keyboard_steps_off_a_heading(
    c: Ghost<&mut Branches>,
    prepared: Prepared,
    r: Landing,
    flags: Vec<bool>,
    at: usize,
    rest: usize,
    d: Ghost<&mut Branches>,
    motion: Motion,
    cursor: usize,
    held: usize,
    back: bool,
    there: Vec<bool>,
    lands: usize,
    s: usize,
)
    requires
        call_ensures(Branches::replace_prepared, (c@, prepared), r),
        c@.aim() is Some ==> forall|k: int|
            0 <= k < prepared.rows@.len() ==> aim_of((#[trigger] prepared.rows@[k])@) != c@.aim(),
        flags@.len() == prepared.rows@.len(),
        forall|i: int|
            0 <= i < flags@.len() ==> #[trigger] flags@[i] == (prepared.rows@[i] is Heading),
        call_ensures(hold, (c@.cursor, flags.len()), at),
        call_ensures(settle, (&flags, at, false), rest),
        call_ensures(Branches::landed, (d@, motion, cursor), s),
        motion != Motion::Inert && motion != Motion::Unknown,
        there@.len() == d@.rows@.len(),
        forall|i: int| 0 <= i < there@.len() ==> #[trigger] there@[i] == (d@.rows@[i] is Heading),
        call_ensures(hold, (cursor, there.len()), held),
        call_ensures(Motion::steps_back, (motion,), back),
        call_ensures(settle, (&there, held, back), lands),
    ensures
        final(c@).cursor == rest,
        final(d@).cursor == lands,
{
    let keys = aims(prepared.rows@);
    let key = c@.aim();
    if key is Some && keys.contains(key) {
        let k = choose|k: int| 0 <= k < keys.len() && keys[k] == key;
        assert(keys[k] == aim_of(prepared.rows@[k]@));
    }
    a_lost_row_leaves_its_number(keys, key, c@.cursor as int);
    assert(flags@ =~= headings(prepared.rows@));
    assert(there@ =~= headings(d@.rows@));
}

/// A pane opens on a branch, asks nothing, and says who HEAD is.
pub proof fn a_pane_opens_on_a_branch(prepared: Prepared, r: Branches, i: int)
    requires
        call_ensures(Branches::from_prepared, (prepared,), r),
        0 <= i < prepared.rows@.len(),
        !(prepared.rows@[i] is Heading),
    ensures
        r.rows == prepared.rows,
        r.head == prepared.head,
        r.armed is None,
        r.cursor < prepared.rows@.len(),
        !(prepared.rows@[r.cursor as int] is Heading),
        !(prepared.rows@[0] is Heading) ==> r.cursor == 0,
{
    let flags = headings(prepared.rows@);
    assert(flags[i] == (prepared.rows@[i] is Heading));
    assert(flags[0] == (prepared.rows@[0] is Heading));
    settling_avoids_headings(flags, 0, false);
    let to = settled(flags, 0, false);
    assert(flags[to] == (prepared.rows@[to] is Heading));
}

} // verus!
