//! The repository's branches as a list: a detached HEAD first, then the local
//! branches, then the remote-tracking ones.
//!
//! Names are bytes, and stay bytes wherever a verb aims at them. The text a row
//! shows is spelled once, when the rows are made.
use super::draw::Rgb;
use super::list::{
    anchored, drift_of, each_command_is_its_own_move, held_row, hold, motion_of, pressed, reconcile,
    row_of_key, run_view, settle, settled, settling_avoids_headings, wheel_route, Drift, Landing,
    Motion, PendingScroll, Wheel,
};
use crate::text;
use vstd::prelude::*;

verus! {

// ---------------------------------------------------------------------------
// What the repository says
// ---------------------------------------------------------------------------

/// How far a branch is from what it tracks. A side that cannot be counted is
/// not there.
#[derive(Clone, Copy, Debug, PartialEq, Eq, Structural)]
pub struct Upstream {
    pub ahead: Option<u32>,
    pub behind: Option<u32>,
}

/// A local branch.
#[derive(Debug)]
pub struct Branch {
    /// Relative to `refs/heads`, byte for byte.
    pub name: Vec<u8>,
    /// HEAD is on it.
    pub head: bool,
    pub upstream: Option<Upstream>,
}

/// A remote-tracking branch, as the last fetch left it.
#[derive(Debug)]
pub struct RemoteBranch {
    pub remote: Vec<u8>,
    pub branch: Vec<u8>,
}

/// Where HEAD is.
#[derive(Debug)]
pub enum HeadState {
    Branch,
    Detached { commit: String },
}

/// The colours of the rows.
#[derive(Debug)]
pub struct RefInks {
    pub dim: Rgb,
    pub accent: Rgb,
    pub error: Rgb,
    /// Faint, but readable on the pane.
    pub quiet: Rgb,
    /// A colour for each local branch, by its place among them.
    pub lanes: Vec<Rgb>,
}

// ---------------------------------------------------------------------------
// Rows
// ---------------------------------------------------------------------------

/// The mark that opens a row.
#[derive(Clone, Copy, Debug)]
pub struct Dot {
    pub glyph: &'static str,
    pub color: Rgb,
}

/// The two groups of branches.
#[derive(Clone, Copy, Debug, PartialEq, Eq, Structural)]
pub enum Section {
    Local,
    Remote,
}

impl Section {
    /// The group's name.
    pub fn name(self) -> (r: &'static str)
        ensures
            r@ == match self {
                Section::Local => "local"@,
                Section::Remote => "remote"@,
            },
    {
        match self {
            Section::Local => "local",
            Section::Remote => "remote",
        }
    }

    /// The heading over the group.
    pub fn label(self) -> (r: &'static str)
        ensures
            r@ == match self {
                Section::Local => "LOCAL"@,
                Section::Remote => "REMOTE"@,
            },
    {
        match self {
            Section::Local => "LOCAL",
            Section::Remote => "REMOTE",
        }
    }
}

/// The row of a local branch.
#[derive(Debug)]
pub struct LocalRow {
    pub name: Vec<u8>,
    pub name_text: String,
    /// The distance to what it tracks. None where it tracks nothing, or is in
    /// step with it.
    pub counts: Option<String>,
    /// It tracks something that cannot be compared with.
    pub gone: bool,
    pub dot: Dot,
}

/// The row of a remote-tracking branch.
#[derive(Debug)]
pub struct RemoteRow {
    pub remote: Vec<u8>,
    pub branch: Vec<u8>,
    pub label: String,
    pub dot: Dot,
}

/// One row of the pane.
#[derive(Debug)]
pub enum Row {
    Detached { dot: Dot, text: String },
    Heading { count: String, section: Section },
    Local(LocalRow),
    Remote(RemoteRow),
}

/// What a row is, text by text.
#[verifier::ext_equal]
pub ghost enum RowView {
    Detached { glyph: Seq<char>, color: Rgb, text: Seq<char> },
    Heading { count: Seq<char>, section: Section },
    Local {
        name: Seq<u8>,
        text: Seq<char>,
        counts: Option<Seq<char>>,
        gone: bool,
        glyph: Seq<char>,
        color: Rgb,
    },
    Remote { remote: Seq<u8>, branch: Seq<u8>, label: Seq<char>, glyph: Seq<char>, color: Rgb },
}

impl View for Row {
    type V = RowView;

    open spec fn view(&self) -> RowView {
        match *self {
            Row::Detached { dot, text } => RowView::Detached {
                glyph: dot.glyph@,
                color: dot.color,
                text: text@,
            },
            Row::Heading { count, section } => RowView::Heading { count: count@, section },
            Row::Local(l) => RowView::Local {
                name: l.name@,
                text: l.name_text@,
                counts: text::maybe_text(l.counts),
                gone: l.gone,
                glyph: l.dot.glyph@,
                color: l.dot.color,
            },
            Row::Remote(r) => RowView::Remote {
                remote: r.remote@,
                branch: r.branch@,
                label: r.label@,
                glyph: r.dot.glyph@,
                color: r.dot.color,
            },
        }
    }
}

/// The rows of a list, each as what it is.
pub open spec fn row_views(rows: Seq<Row>) -> Seq<RowView> {
    rows.map_values(|r: Row| r@)
}

/// What a verb aims at.
#[derive(Clone, Debug, PartialEq, Eq)]
pub enum Target {
    Local(Vec<u8>),
    Remote { remote: Vec<u8>, branch: Vec<u8> },
    /// A place, not a branch.
    Detached,
}

/// What a verb aims at, byte by byte.
#[verifier::ext_equal]
pub ghost enum Aim {
    Local(Seq<u8>),
    Remote(Seq<u8>, Seq<u8>),
    Detached,
}

impl View for Target {
    type V = Aim;

    open spec fn view(&self) -> Aim {
        match *self {
            Target::Local(name) => Aim::Local(name@),
            Target::Remote { remote, branch } => Aim::Remote(remote@, branch@),
            Target::Detached => Aim::Detached,
        }
    }
}

/// What a verb aims at on a row: nothing on a heading.
pub open spec fn aim_of(row: RowView) -> Option<Aim> {
    match row {
        RowView::Detached { .. } => Some(Aim::Detached),
        RowView::Heading { .. } => None,
        RowView::Local { name, .. } => Some(Aim::Local(name)),
        RowView::Remote { remote, branch, .. } => Some(Aim::Remote(remote, branch)),
    }
}

/// What a verb aims at, row by row.
pub open spec fn aims(rows: Seq<Row>) -> Seq<Option<Aim>> {
    rows.map_values(|r: Row| aim_of(r@))
}

/// Which rows are headings.
pub open spec fn headings(rows: Seq<Row>) -> Seq<bool> {
    rows.map_values(|r: Row| r is Heading)
}

/// The target of an optional target.
pub open spec fn maybe_aim(t: Option<Target>) -> Option<Aim> {
    match t {
        Some(t) => Some(t@),
        None => None,
    }
}

/// What a verb aims at on a row: nothing on a heading.
pub fn row_target(row: &Row) -> (r: Option<Target>)
    ensures
        maybe_aim(r) == aim_of(row@),
{
    match row {
        Row::Detached { .. } => Some(Target::Detached),
        Row::Local(l) => Some(Target::Local(text::copy_bytes(&l.name))),
        Row::Remote(r) => Some(
            Target::Remote { remote: text::copy_bytes(&r.remote), branch: text::copy_bytes(&r.branch) },
        ),
        Row::Heading { .. } => None,
    }
}

fn same_target(a: &Target, b: &Target) -> (r: bool)
    ensures
        r == (a@ == b@),
{
    match (a, b) {
        (Target::Local(x), Target::Local(y)) => text::same_bytes(x.as_slice(), y.as_slice()),
        (Target::Remote { remote: r, branch: x }, Target::Remote { remote: s, branch: y }) => {
            text::same_bytes(r.as_slice(), s.as_slice()) && text::same_bytes(
                x.as_slice(),
                y.as_slice(),
            )
        },
        (Target::Detached, Target::Detached) => true,
        _ => false,
    }
}

/// Whether a verb on this row aims at `target`.
fn aims_at(row: &Row, target: &Target) -> (r: bool)
    ensures
        r == (aim_of(row@) == Some(target@)),
{
    match (row, target) {
        (Row::Local(l), Target::Local(name)) => text::same_bytes(
            l.name.as_slice(),
            name.as_slice(),
        ),
        (Row::Remote(r), Target::Remote { remote, branch }) => {
            text::same_bytes(r.remote.as_slice(), remote.as_slice()) && text::same_bytes(
                r.branch.as_slice(),
                branch.as_slice(),
            )
        },
        (Row::Detached { .. }, Target::Detached) => true,
        _ => false,
    }
}

/// The first row that a verb aims at `target` on.
fn row_of(rows: &Vec<Row>, target: &Target) -> (r: Option<usize>)
    ensures
        match r {
            Some(i) => row_of_key(aims(rows@), target@) == Some(i as int),
            None => row_of_key(aims(rows@), target@) is None,
        },
{
    let mut i: usize = 0;
    assert(aims(rows@).take(0) =~= seq![]);
    while i < rows.len()
        invariant
            i <= rows@.len(),
            row_of_key(aims(rows@).take(i as int), target@) is None,
        decreases rows@.len() - i,
    {
        let ghost keys = aims(rows@);
        assert(keys.take(i + 1).drop_last() =~= keys.take(i as int));
        assert(keys[i as int] == aim_of(rows@[i as int]@));
        if aims_at(&rows[i], target) {
            proof {
                super::list::first_key_stays(keys, target@, i + 1);
            }
            return Some(i);
        }
        i += 1;
    }
    assert(aims(rows@).take(i as int) =~= aims(rows@));
    None
}

// ---------------------------------------------------------------------------
// Spelling
// ---------------------------------------------------------------------------

/// One side of a distance: nothing where it is zero.
pub open spec fn side(arrow: Seq<char>, n: u32) -> Seq<char> {
    if n > 0 {
        arrow + text::decimal(n as nat)
    } else {
        seq![]
    }
}

/// The distance of a branch to what it tracks, and whether it cannot be told.
pub open spec fn counts_text(u: Upstream) -> (Option<Seq<char>>, bool) {
    match (u.ahead, u.behind) {
        (Some(a), Some(b)) => {
            let up = side("↑"@, a);
            let down = side("↓"@, b);
            let both = if up.len() > 0 && down.len() > 0 {
                up + " "@ + down
            } else {
                up + down
            };
            (
                if both.len() > 0 {
                    Some(both)
                } else {
                    None
                },
                false,
            )
        },
        _ => (Some("(gone)"@), true),
    }
}

/// The distance of a branch to what it tracks. Zeros are silent, and a distance
/// that cannot be told says so instead of passing for zero.
pub fn upstream_counts(u: &Upstream) -> (r: (Option<String>, bool))
    ensures
        (text::maybe_text(r.0), r.1) == counts_text(*u),
{
    match (u.ahead, u.behind) {
        (Some(a), Some(b)) => {
            let mut out = String::new();
            if a > 0 {
                out.append("↑");
                text::push_decimal(&mut out, a as u64);
            }
            assert(out@ =~= side("↑"@, a));
            proof {
                reveal_strlit("↑");
                reveal_strlit("↓");
            }
            if b > 0 {
                if a > 0 {
                    out.append(" ");
                }
                out.append("↓");
                text::push_decimal(&mut out, b as u64);
            }
            let ghost up = side("↑"@, a);
            let ghost down = side("↓"@, b);
            proof {
                text::decimal_is_never_empty(a as nat);
                text::decimal_is_never_empty(b as nat);
                if a > 0 && b > 0 {
                    assert(out@ =~= up + " "@ + down);
                } else {
                    assert(out@ =~= up + down);
                }
            }
            if a > 0 || b > 0 {
                (Some(out), false)
            } else {
                (None, false)
            }
        },
        _ => (Some("(gone)".to_owned()), true),
    }
}

/// How far HEAD is from what it tracks, for the title.
pub open spec fn drift_text(ahead: Option<u32>, behind: Option<u32>) -> Option<Seq<char>> {
    let up = match ahead {
        Some(n) => n,
        None => 0,
    };
    let down = match behind {
        Some(n) => n,
        None => 0,
    };
    if up > 0 || down > 0 {
        Some(" · ↑"@ + text::decimal(up as nat) + " ↓"@ + text::decimal(down as nat))
    } else {
        None
    }
}

/// How far HEAD is from what it tracks: both counts once either is not zero, and
/// nothing where both are zero or cannot be told.
pub fn drift(ahead: Option<u32>, behind: Option<u32>) -> (r: Option<String>)
    ensures
        text::maybe_text(r) == drift_text(ahead, behind),
{
    let up: u32 = match ahead {
        Some(n) => n,
        None => 0,
    };
    let down: u32 = match behind {
        Some(n) => n,
        None => 0,
    };
    if up > 0 || down > 0 {
        let mut out = " · ↑".to_owned();
        text::push_decimal(&mut out, up as u64);
        out.append(" ↓");
        text::push_decimal(&mut out, down as u64);
        Some(out)
    } else {
        None
    }
}

/// What the title says about HEAD.
#[derive(Clone, Debug, PartialEq, Eq)]
pub struct HeadInfo {
    pub branch: String,
    pub ahead: Option<u32>,
    pub behind: Option<u32>,
    pub chip: String,
    pub drift: Option<String>,
}

/// The first branch that HEAD is on.
pub open spec fn head_branch(local: Seq<Branch>) -> Option<Branch>
    decreases local.len(),
{
    if local.len() == 0 {
        None
    } else {
        match head_branch(local.drop_last()) {
            Some(b) => Some(b),
            None => if local.last().head {
                Some(local.last())
            } else {
                None
            },
        }
    }
}

impl HeadInfo {
    /// What the title says of a branch.
    pub open spec fn tells(&self, b: Branch) -> bool {
        let ahead = match b.upstream {
            Some(u) => u.ahead,
            None => None,
        };
        let behind = match b.upstream {
            Some(u) => u.behind,
            None => None,
        };
        &&& self.branch@ == text::lossy(b.name@)
        &&& self.ahead == ahead
        &&& self.behind == behind
        &&& self.chip@ == "⎇ "@ + text::lossy(b.name@)
        &&& text::maybe_text(self.drift) == drift_text(ahead, behind)
    }
}

/// What the title says about HEAD: nothing while it is detached, or on a branch
/// that does not exist yet.
pub fn head_info(head: Option<&HeadState>, local: &Vec<Branch>) -> (r: Option<HeadInfo>)
    ensures
        ({
            let b = head_branch(local@);
            if head is Some && head.unwrap() is Branch && b is Some {
                r is Some && r.unwrap().tells(b.unwrap())
            } else {
                r is None
            }
        }),
{
    match head {
        Some(HeadState::Branch) => {},
        _ => {
            return None;
        },
    }
    let mut i: usize = 0;
    assert(local@.take(0) =~= seq![]);
    while i < local.len()
        invariant
            i <= local@.len(),
            head_branch(local@.take(i as int)) is None,
            head is Some && head.unwrap() is Branch,
        decreases local@.len() - i,
    {
        let b = &local[i];
        assert(local@.take(i + 1).drop_last() =~= local@.take(i as int));
        if b.head {
            proof {
                first_head_stays(local@, i + 1);
            }
            let branch = text::lossy_text(b.name.as_slice());
            let mut chip = "⎇ ".to_owned();
            chip.append(branch.as_str());
            let ahead: Option<u32> = match b.upstream {
                Some(u) => u.ahead,
                None => None,
            };
            let behind: Option<u32> = match b.upstream {
                Some(u) => u.behind,
                None => None,
            };
            return Some(HeadInfo { branch, ahead, behind, chip, drift: drift(ahead, behind) });
        }
        i += 1;
    }
    assert(local@.take(i as int) =~= local@);
    None
}

proof fn first_head_stays(local: Seq<Branch>, n: int)
    requires
        0 <= n <= local.len(),
        head_branch(local.take(n)) is Some,
    ensures
        head_branch(local) == head_branch(local.take(n)),
    decreases local.len(),
{
    if n < local.len() {
        assert(local.drop_last().take(n) =~= local.take(n));
        first_head_stays(local.drop_last(), n);
    } else {
        assert(local.take(n) =~= local);
    }
}

// ---------------------------------------------------------------------------
// Flattening
// ---------------------------------------------------------------------------

/// A commit's first eight bytes, or all of a shorter one.
pub open spec fn short_commit(commit: Seq<char>) -> Seq<char> {
    text::sliced(commit, 0, short_len(commit))
}

/// How many bytes of a commit are shown.
pub open spec fn short_len(commit: Seq<char>) -> int {
    if text::byte_len(commit) < 8 {
        text::byte_len(commit) as int
    } else {
        8
    }
}

/// The row of a detached HEAD, where HEAD is detached.
pub open spec fn detached_rows(head: Option<HeadState>, inks: RefInks) -> Seq<RowView> {
    match head {
        Some(HeadState::Detached { commit }) => seq![
            RowView::Detached {
                glyph: "●"@,
                color: inks.dim,
                text: "(detached at "@ + short_commit(commit@) + "…)"@,
            },
        ],
        _ => seq![],
    }
}

/// The row of the `i`-th local branch. HEAD's branch alone is in the accent.
pub open spec fn local_row(b: Branch, i: int, inks: RefInks) -> RowView {
    let counts = match b.upstream {
        Some(u) => counts_text(u),
        None => (None, false),
    };
    RowView::Local {
        name: b.name@,
        text: text::lossy(b.name@),
        counts: counts.0,
        gone: counts.1,
        glyph: "●"@,
        color: if b.head {
            inks.accent
        } else {
            inks.lanes@[i]
        },
    }
}

/// The row of a remote-tracking branch.
pub open spec fn remote_row(r: RemoteBranch, inks: RefInks) -> RowView {
    RowView::Remote {
        remote: r.remote@,
        branch: r.branch@,
        label: text::lossy(r.remote@) + "/"@ + text::lossy(r.branch@),
        glyph: "○"@,
        color: inks.quiet,
    }
}

/// A heading over `n` rows, where there are any.
pub open spec fn heading_rows(n: nat, section: Section) -> Seq<RowView> {
    if n == 0 {
        seq![]
    } else {
        seq![RowView::Heading { count: text::decimal(n), section }]
    }
}

/// The rows of the pane.
pub open spec fn flattened(
    local: Seq<Branch>,
    remotes: Seq<RemoteBranch>,
    head: Option<HeadState>,
    inks: RefInks,
) -> Seq<RowView> {
    detached_rows(head, inks) + heading_rows(local.len(), Section::Local) + Seq::new(
        local.len(),
        |i: int| local_row(local[i], i, inks),
    ) + heading_rows(remotes.len(), Section::Remote) + Seq::new(
        remotes.len(),
        |i: int| remote_row(remotes[i], inks),
    )
}

/// The value behind an optional reference.
pub open spec fn given(head: Option<&HeadState>) -> Option<HeadState> {
    match head {
        Some(h) => Some(*h),
        None => None,
    }
}

fn push_row(rows: &mut Vec<Row>, row: Row)
    ensures
        row_views(final(rows)@) == row_views(old(rows)@).push(row@),
{
    rows.push(row);
    assert(row_views(rows@) =~= row_views(old(rows)@).push(row@));
}

fn push_locals(rows: &mut Vec<Row>, local: &Vec<Branch>, inks: &RefInks)
    requires
        inks.lanes@.len() >= local@.len(),
    ensures
        row_views(final(rows)@) == row_views(old(rows)@) + heading_rows(
            local@.len(),
            Section::Local,
        ) + Seq::new(local@.len(), |i: int| local_row(local@[i], i, *inks)),
{
    let ghost before = row_views(rows@);
    let ghost all = Seq::new(local@.len(), |i: int| local_row(local@[i], i, *inks));
    if local.len() > 0 {
        let count = text::decimal_text(local.len());
        push_row(rows, Row::Heading { count, section: Section::Local });
    }
    let ghost start = before + heading_rows(local@.len(), Section::Local);
    assert(row_views(rows@) =~= start + all.take(0));
    let mut i: usize = 0;
    while i < local.len()
        invariant
            i <= local@.len() <= inks.lanes@.len(),
            all == Seq::new(local@.len(), |i: int| local_row(local@[i], i, *inks)),
            row_views(rows@) == start + all.take(i as int),
        decreases local@.len() - i,
    {
        let b = &local[i];
        let (counts, gone) = match &b.upstream {
            Some(u) => upstream_counts(u),
            None => (None, false),
        };
        let color: Rgb = if b.head {
            inks.accent
        } else {
            inks.lanes[i]
        };
        let row = Row::Local(
            LocalRow {
                name: text::copy_bytes(&b.name),
                name_text: text::lossy_text(b.name.as_slice()),
                counts,
                gone,
                dot: Dot { glyph: "●", color },
            },
        );
        assert(row@ == all[i as int]);
        push_row(rows, row);
        assert(all.take(i + 1) =~= all.take(i as int).push(all[i as int]));
        assert(row_views(rows@) =~= start + all.take(i + 1));
        i += 1;
    }
    assert(all.take(i as int) =~= all);
}

fn push_remotes(rows: &mut Vec<Row>, remotes: &Vec<RemoteBranch>, inks: &RefInks)
    ensures
        row_views(final(rows)@) == row_views(old(rows)@) + heading_rows(
            remotes@.len(),
            Section::Remote,
        ) + Seq::new(remotes@.len(), |i: int| remote_row(remotes@[i], *inks)),
{
    let ghost before = row_views(rows@);
    let ghost all = Seq::new(remotes@.len(), |i: int| remote_row(remotes@[i], *inks));
    if remotes.len() > 0 {
        let count = text::decimal_text(remotes.len());
        push_row(rows, Row::Heading { count, section: Section::Remote });
    }
    let ghost start = before + heading_rows(remotes@.len(), Section::Remote);
    assert(row_views(rows@) =~= start + all.take(0));
    let mut i: usize = 0;
    while i < remotes.len()
        invariant
            i <= remotes@.len(),
            all == Seq::new(remotes@.len(), |i: int| remote_row(remotes@[i], *inks)),
            row_views(rows@) == start + all.take(i as int),
        decreases remotes@.len() - i,
    {
        let r = &remotes[i];
        let mut label = text::lossy_text(r.remote.as_slice());
        label.append("/");
        label.append(text::lossy_text(r.branch.as_slice()).as_str());
        let row = Row::Remote(
            RemoteRow {
                remote: text::copy_bytes(&r.remote),
                branch: text::copy_bytes(&r.branch),
                label,
                dot: Dot { glyph: "○", color: inks.quiet },
            },
        );
        assert(row@ == all[i as int]);
        push_row(rows, row);
        assert(all.take(i + 1) =~= all.take(i as int).push(all[i as int]));
        assert(row_views(rows@) =~= start + all.take(i + 1));
        i += 1;
    }
    assert(all.take(i as int) =~= all);
}

/// The rows of the pane: a detached HEAD first, then the local branches under
/// their heading, then the remote ones under theirs. A group with nothing in it
/// has no heading.
pub fn flatten(
    local: &Vec<Branch>,
    remotes: &Vec<RemoteBranch>,
    head: Option<&HeadState>,
    inks: &RefInks,
) -> (rows: Vec<Row>)
    requires
        inks.lanes@.len() >= local@.len(),
        given(head) matches Some(HeadState::Detached { commit }) ==> text::boundary(
            commit@,
            short_len(commit@),
        ),
    ensures
        row_views(rows@) == flattened(local@, remotes@, given(head), *inks),
{
    let mut rows: Vec<Row> = Vec::new();
    assert(row_views(rows@) =~= seq![]);
    if let Some(HeadState::Detached { commit }) = head {
        let whole: usize = text::byte_count(commit.as_str());
        let n: usize = if whole < 8 {
            whole
        } else {
            8
        };
        proof {
            vstd::utf8::encode_utf8_valid_utf8(commit@);
            vstd::utf8::is_char_boundary_start_end_of_seq(vstd::utf8::encode_utf8(commit@));
        }
        let short = text::slice(commit.as_str(), 0, n);
        let mut out = "(detached at ".to_owned();
        out.append(short);
        out.append("…)");
        push_row(&mut rows, Row::Detached { dot: Dot { glyph: "●", color: inks.dim }, text: out });
    }
    assert(row_views(rows@) =~= detached_rows(given(head), *inks));
    push_locals(&mut rows, local, inks);
    push_remotes(&mut rows, remotes, inks);
    assert(row_views(rows@) =~= flattened(local@, remotes@, given(head), *inks));
    rows
}

/// The rows of the pane, its title line, and who HEAD is.
#[derive(Debug)]
pub struct Prepared {
    pub rows: Vec<Row>,
    pub label: String,
    pub head: Option<HeadInfo>,
}

/// Everything a refresh brings.
pub fn prepare(
    local: &Vec<Branch>,
    remotes: &Vec<RemoteBranch>,
    head: Option<&HeadState>,
    inks: &RefInks,
    describe: &str,
) -> (r: Prepared)
    requires
        inks.lanes@.len() >= local@.len(),
        given(head) matches Some(HeadState::Detached { commit }) ==> text::boundary(
            commit@,
            short_len(commit@),
        ),
    ensures
        row_views(r.rows@) == flattened(local@, remotes@, given(head), *inks),
        r.label@ == describe@ + " · "@ + text::decimal(local@.len()) + " local · "@ + text::decimal(
            remotes@.len(),
        ) + " remote"@,
        ({
            let b = head_branch(local@);
            if head is Some && head.unwrap() is Branch && b is Some {
                r.head is Some && r.head.unwrap().tells(b.unwrap())
            } else {
                r.head is None
            }
        }),
{
    let mut label = describe.to_owned();
    label.append(" · ");
    text::push_decimal(&mut label, local.len() as u64);
    label.append(" local · ");
    text::push_decimal(&mut label, remotes.len() as u64);
    label.append(" remote");
    let rows = flatten(local, remotes, head, inks);
    let head = head_info(head, local);
    Prepared { rows, label, head }
}

// ---------------------------------------------------------------------------
// The pane
// ---------------------------------------------------------------------------

/// The branches pane: its rows, where the keyboard is, and the question that a
/// destructive verb has asked.
#[derive(Debug)]
pub struct Branches {
    pub rows: Vec<Row>,
    /// The keyboard's row, as the viewport last had it.
    pub cursor: usize,
    /// What a delete or a rebase waits for its second press on.
    pub armed: Option<Target>,
    pub head: Option<HeadInfo>,
    /// The pane holds the keyboard.
    pub focused: bool,
    pub pending: PendingScroll,
}

fn heading_flags(rows: &Vec<Row>) -> (r: Vec<bool>)
    ensures
        r@ == headings(rows@),
{
    let mut out: Vec<bool> = Vec::new();
    let mut i: usize = 0;
    while i < rows.len()
        invariant
            i <= rows@.len(),
            out@ == headings(rows@).take(i as int),
        decreases rows@.len() - i,
    {
        out.push(matches!(&rows[i], Row::Heading { .. }));
        assert(out@ =~= headings(rows@).take(i + 1));
        i += 1;
    }
    assert(out@ =~= headings(rows@));
    out
}

impl Branches {
    /// What a verb aims at on the keyboard's row.
    pub open spec fn aim(&self) -> Option<Aim> {
        if self.cursor < self.rows@.len() {
            aim_of(self.rows@[self.cursor as int]@)
        } else {
            None
        }
    }

    /// A pane on its first rows, the keyboard on the first branch.
    pub fn from_prepared(prepared: Prepared) -> (r: Branches)
        ensures
            r.rows == prepared.rows,
            r.head == prepared.head,
            r.cursor == settled(headings(prepared.rows@), 0, false),
            r.armed is None,
            !r.focused,
            !r.pending.awaiting,
    {
        let flags = heading_flags(&prepared.rows);
        let cursor: usize = settle(&flags, 0, false);
        Branches {
            rows: prepared.rows,
            cursor,
            armed: None,
            head: prepared.head,
            focused: false,
            pending: PendingScroll::new(),
        }
    }

    /// Whether the repository has nothing to list.
    pub fn is_empty(&self) -> (r: bool)
        ensures
            r == (self.rows@.len() == 0),
    {
        self.rows.len() == 0
    }

    /// How many rows there are.
    pub fn rows(&self) -> (r: usize)
        ensures
            r == self.rows@.len(),
    {
        self.rows.len()
    }

    /// Who HEAD is.
    pub fn head_info(&self) -> (r: &Option<HeadInfo>)
        ensures
            *r == self.head,
    {
        &self.head
    }

    /// Told whenever the keyboard enters or leaves the pane.
    pub fn set_focused(&mut self, focused: bool)
        ensures
            *final(self) == (Branches { focused, ..*old(self) }),
    {
        self.focused = focused;
    }

    /// New rows. A question about the old ones is dropped. The keyboard stays on
    /// its branch where that is still there, and on its row number otherwise,
    /// and never on a heading that has a row to step to.
    pub fn replace_prepared(&mut self, prepared: Prepared) -> (r: Landing)
        ensures
            final(self).rows == prepared.rows,
            final(self).head == prepared.head,
            final(self).armed is None,
            final(self).focused == old(self).focused,
            final(self).cursor == settled(
                headings(prepared.rows@),
                anchored(aims(prepared.rows@), old(self).aim(), old(self).cursor as int),
                false,
            ),
            final(self).pending.awaiting == (prepared.rows@.len() > 0),
            r == (Landing { cursor: final(self).cursor, park: prepared.rows@.len() > 0 }),
    {
        self.armed = None;
        let was = self.current();
        self.head = prepared.head;
        self.rows = prepared.rows;
        let kept: usize = match was {
            Some(target) => match row_of(&self.rows, &target) {
                Some(i) => i,
                None => self.cursor,
            },
            None => self.cursor,
        };
        proof {
            if was is Some {
                super::list::key_is_found(aims(self.rows@), was.unwrap()@);
            }
        }
        let len: usize = self.rows.len();
        let flags = heading_flags(&self.rows);
        self.cursor = settle(&flags, hold(kept, len), false);
        if len == 0 {
            self.pending.cancel();
        } else {
            self.pending.begin();
        }
        Landing { cursor: self.cursor, park: len > 0 }
    }

    /// The move that a command is.
    pub fn run_view(&self, command: &str) -> (r: Motion)
        ensures
            r == motion_of(command@),
    {
        run_view(command)
    }

    /// The pane after a command that is `motion`, where the viewport took the
    /// keyboard to row `cursor`. Off a heading it steps on, and a move drops any
    /// question: what it was asked about is where the keyboard used to be. A
    /// command that moves nothing changes nothing.
    pub open spec fn moved(self, motion: Motion, cursor: usize) -> Branches {
        if motion.moves() {
            let at = held_row(cursor as int, self.rows@.len());
            Branches {
                cursor: settled(headings(self.rows@), at, motion.backward()) as usize,
                armed: None,
                ..self
            }
        } else {
            self
        }
    }

    /// A command landed the keyboard on row `cursor`. Says where it rests.
    pub fn landed(&mut self, motion: Motion, cursor: usize) -> (r: usize)
        ensures
            *final(self) == old(self).moved(motion, cursor),
            r == final(self).cursor,
    {
        if !motion.is_move() {
            return self.cursor;
        }
        let flags = heading_flags(&self.rows);
        let at: usize = settle(&flags, hold(cursor, self.rows.len()), motion.steps_back());
        self.cursor = at;
        self.armed = None;
        at
    }

    /// The wheel turned, and the viewport took the keyboard to `cursor` where the
    /// list `moved`. It is a move of attention then: the question goes. A list that
    /// could not move is left as it was. Says whether it moved.
    pub fn wheeled(&mut self, moved: bool, cursor: usize) -> (r: bool)
        ensures
            r == moved,
            *final(self) == if moved {
                Branches {
                    cursor: held_row(cursor as int, old(self).rows@.len()) as usize,
                    armed: None,
                    ..*old(self)
                }
            } else {
                *old(self)
            },
    {
        if moved {
            self.cursor = hold(cursor, self.rows.len());
            self.armed = None;
        }
        moved
    }

    /// A scrollbar moved the list, and the viewport took the keyboard to `cursor`.
    pub fn followed(&mut self, cursor: usize)
        ensures
            *final(self) == (Branches {
                cursor: held_row(cursor as int, old(self).rows@.len()) as usize,
                ..*old(self)
            }),
    {
        self.cursor = hold(cursor, self.rows.len());
    }

    /// What a verb aims at: nothing on a heading, or in an empty pane.
    pub fn current(&self) -> (r: Option<Target>)
        ensures
            maybe_aim(r) == self.aim(),
    {
        if self.cursor < self.rows.len() {
            row_target(&self.rows[self.cursor])
        } else {
            None
        }
    }

    /// Asks about a delete of `target`, or says that it may happen now.
    pub fn confirm_or_arm_delete(&mut self, target: &Target) -> (r: bool)
        ensures
            (maybe_aim(final(self).armed), r) == pressed(maybe_aim(old(self).armed), target@),
            *final(self) == (Branches { armed: final(self).armed, ..*old(self) }),
    {
        self.arm(target)
    }

    /// Asks about a rebase onto `target`, or says that it may happen now. There
    /// is one question at a time, whichever verb asked it.
    pub fn confirm_or_arm_rebase(&mut self, target: &Target) -> (r: bool)
        ensures
            (maybe_aim(final(self).armed), r) == pressed(maybe_aim(old(self).armed), target@),
            *final(self) == (Branches { armed: final(self).armed, ..*old(self) }),
    {
        self.arm(target)
    }

    fn arm(&mut self, target: &Target) -> (r: bool)
        ensures
            (maybe_aim(final(self).armed), r) == pressed(maybe_aim(old(self).armed), target@),
            *final(self) == (Branches { armed: final(self).armed, ..*old(self) }),
    {
        let already: bool = match &self.armed {
            Some(t) => same_target(t, target),
            None => false,
        };
        if already {
            self.armed = None;
        } else {
            self.armed = Some(
                match target {
                    Target::Local(name) => Target::Local(text::copy_bytes(name)),
                    Target::Remote { remote, branch } => Target::Remote {
                        remote: text::copy_bytes(remote),
                        branch: text::copy_bytes(branch),
                    },
                    Target::Detached => Target::Detached,
                },
            );
            assert(self.armed.unwrap()@ == target@);
        }
        already
    }

    /// What the question is about, while one is asked.
    pub fn armed_row(&self) -> (r: &Option<Target>)
        ensures
            *r == self.armed,
    {
        &self.armed
    }

    /// The row that the question is about.
    pub fn tinted_row(&self) -> (r: Option<usize>)
        ensures
            match r {
                Some(i) => self.armed is Some && row_of_key(aims(self.rows@), self.armed.unwrap()@)
                    == Some(i as int),
                None => self.armed is Some ==> row_of_key(aims(self.rows@), self.armed.unwrap()@)
                    is None,
            },
    {
        match &self.armed {
            Some(target) => row_of(&self.rows, target),
            None => None,
        }
    }

    /// What copying copies: the name of the branch the keyboard is on, as git
    /// spells it. Nothing on a heading or on a detached HEAD.
    pub fn cursor_text(&self) -> (r: String)
        ensures
            r@ == match self.aim() {
                Some(Aim::Local(name)) => text::lossy(name),
                Some(Aim::Remote(remote, branch)) => text::lossy(remote) + "/"@ + text::lossy(
                    branch,
                ),
                _ => seq![],
            },
    {
        match self.current() {
            Some(Target::Local(name)) => text::lossy_text(name.as_slice()),
            Some(Target::Remote { remote, branch }) => {
                let mut out = text::lossy_text(remote.as_slice());
                out.append("/");
                out.append(text::lossy_text(branch.as_slice()).as_str());
                out
            },
            _ => String::new(),
        }
    }

    /// Whether the pane holds the keyboard.
    pub fn focused(&self) -> (r: bool)
        ensures
            r == self.focused,
    {
        self.focused
    }

    /// A list has nothing off its left edge to reach.
    pub fn pan_pixels(&self) -> (r: bool)
        ensures
            !r,
    {
        false
    }

    /// What to do with a turn of the wheel, where `parked` says that a request
    /// for a row stands.
    pub fn scroll_pixels(&self, parked: bool) -> (r: Wheel)
        ensures
            r == wheel_route(self.pending.awaiting, parked),
    {
        self.pending.wheel(parked)
    }

    /// What to do about a list that a scrollbar may have moved: `moved` says that
    /// its offset is not the one last written, `shown` is the row it shows at the
    /// top and `top` the viewport's.
    pub fn reconcile(&self, parked: bool, moved: bool, shown: usize, top: usize) -> (r: Drift)
        ensures
            r == drift_of(parked, moved, shown, top),
    {
        reconcile(parked, moved, shown, top)
    }

    /// There is no selection over a list of branches.
    pub fn select_all(&mut self) -> (r: bool)
        ensures
            !r,
            *final(self) == *old(self),
    {
        false
    }

    /// There is no selection over a list of branches.
    pub fn select_none(&mut self) -> (r: bool)
        ensures
            !r,
            *final(self) == *old(self),
    {
        false
    }
}

/// The colours of a row's texts. None is the pane's own colour.
#[derive(Clone, Copy, Debug, PartialEq, Eq, Structural)]
pub struct Look {
    pub name: Option<Rgb>,
    pub counts: Option<Rgb>,
}

/// The colours of a row. What a second press would destroy is named in its own
/// colour.
pub fn row(e: &Row, inks: &RefInks, armed: bool) -> (r: Look)
    ensures
        r == match e@ {
            RowView::Heading { .. } => (Look { name: None, counts: None }),
            RowView::Detached { .. } => (Look {
                name: Some(
                    if armed {
                        inks.error
                    } else {
                        inks.dim
                    },
                ),
                counts: None,
            }),
            RowView::Remote { .. } => (Look {
                name: Some(
                    if armed {
                        inks.error
                    } else {
                        inks.dim
                    },
                ),
                counts: None,
            }),
            RowView::Local { counts, gone, .. } => (Look {
                name: if armed {
                    Some(inks.error)
                } else {
                    None
                },
                counts: if counts is None {
                    None
                } else if gone {
                    Some(inks.quiet)
                } else {
                    Some(inks.dim)
                },
            }),
        },
{
    match e {
        Row::Heading { .. } => Look { name: None, counts: None },
        Row::Detached { .. } => Look {
            name: Some(
                if armed {
                    inks.error
                } else {
                    inks.dim
                },
            ),
            counts: None,
        },
        Row::Remote(_) => Look {
            name: Some(
                if armed {
                    inks.error
                } else {
                    inks.dim
                },
            ),
            counts: None,
        },
        Row::Local(l) => Look {
            name: if armed {
                Some(inks.error)
            } else {
                None
            },
            counts: match &l.counts {
                None => None,
                Some(_) => if l.gone {
                    Some(inks.quiet)
                } else {
                    Some(inks.dim)
                },
            },
        },
    }
}

/// No command leaves the keyboard on a heading while there is a row to rest on:
/// a move comes to rest on a row that a verb can aim at, with no question
/// standing, wherever the viewport took it; every other command leaves the pane
/// as it was.
pub proof fn a_move_never_rests_on_a_heading(pane: Branches, command: Seq<char>, cursor: usize)
    requires
        exists|i: int| 0 <= i < pane.rows@.len() && !headings(pane.rows@)[i],
    ensures
        ({
            let motion = motion_of(command);
            let after = pane.moved(motion, cursor);
            &&& motion.moves() ==> {
                &&& after.cursor < pane.rows@.len()
                &&& after.aim() is Some
                &&& after.armed is None
            }
            &&& !motion.moves() ==> after == pane
            &&& command == "view.left"@ || command == "view.right"@ ==> motion.answers()
                && after == pane
            &&& !motion.answers() ==> after == pane
        }),
{
    let rows = pane.rows@;
    let flags = headings(rows);
    let i = choose|i: int| 0 <= i < rows.len() && !flags[i];
    let at = held_row(cursor as int, rows.len());
    let motion = motion_of(command);
    settling_avoids_headings(flags, at, motion.backward());
    assert(0 <= i < flags.len() && !flags[i]);
    let rest = settled(flags, at, motion.backward());
    assert(!flags[rest]);
    assert(pane.rows.len() == rows.len());
    each_command_is_its_own_move();
}

/// A pane opens, and comes back from a refresh, on a row that a verb can aim at,
/// while there is one.
pub proof fn a_pane_never_opens_on_a_heading(rows: Seq<Row>, at: int)
    requires
        exists|i: int| 0 <= i < rows.len() && !headings(rows)[i],
        0 <= at < rows.len(),
    ensures
        0 <= settled(headings(rows), at, false) < rows.len(),
        aim_of(rows[settled(headings(rows), at, false)]@) is Some,
{
    let flags = headings(rows);
    let i = choose|i: int| 0 <= i < rows.len() && !flags[i];
    settling_avoids_headings(flags, at, false);
    assert(0 <= i < flags.len() && !flags[i]);
    let rest = settled(flags, at, false);
    assert(!flags[rest]);
}

/// A heading stands only over a group with something in it: every heading is
/// followed by a row of its own group.
pub proof fn headings_head_something(
    local: Seq<Branch>,
    remotes: Seq<RemoteBranch>,
    head: Option<HeadState>,
    inks: RefInks,
    i: int,
)
    requires
        0 <= i < flattened(local, remotes, head, inks).len(),
        flattened(local, remotes, head, inks)[i] is Heading,
    ensures
        i + 1 < flattened(local, remotes, head, inks).len(),
        match flattened(local, remotes, head, inks)[i]->section {
            Section::Local => flattened(local, remotes, head, inks)[i + 1] is Local,
            Section::Remote => flattened(local, remotes, head, inks)[i + 1] is Remote,
        },
{
    let d = detached_rows(head, inks).len() as int;
    let rows = flattened(local, remotes, head, inks);
    let h = heading_rows(local.len(), Section::Local).len() as int;
    if i < d {
        assert(rows[i] == detached_rows(head, inks)[i]);
    } else if i < d + h {
        assert(rows[i + 1] == local_row(local[0], 0, inks));
    } else if i < d + h + local.len() {
        assert(rows[i] == local_row(local[i - d - h], i - d - h, inks));
    } else if i == d + h + local.len() && remotes.len() > 0 {
        assert(rows[i + 1] == remote_row(remotes[0], inks));
    } else {
        let k = i - d - h - local.len() - 1;
        assert(rows[i] == remote_row(remotes[k], inks));
    }
}

} // verus!
