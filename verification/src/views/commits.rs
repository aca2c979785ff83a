//! The commit list: every commit that was loaded, and the rows of it that a
//! query leaves on screen.
use super::draw::Rgb;
use super::list::{
    a_refresh_keeps_the_row, anchored, drift_of, first_key_stays, held_row, hold, inside,
    key_is_found, motion_of, pressed, reconcile, row_of_key, run_view, wheel_route, Drift, Landing,
    Motion, PendingScroll, Wheel,
};
use crate::text;
use vstd::prelude::*;

verus! {

/// One commit.
#[derive(Debug)]
pub struct Commit {
    pub sha: String,
    pub short: String,
    pub parents: Vec<String>,
    pub author: String,
    /// Seconds since the epoch.
    pub timestamp: i64,
    pub subject: String,
}

// ---------------------------------------------------------------------------
// Ages
// ---------------------------------------------------------------------------

/// How long ago something was, given the seconds in between. A clock that runs
/// ahead of ours reads as now.
pub open spec fn age_text(secs: int) -> Seq<char> {
    let mins = secs / 60;
    let hours = mins / 60;
    let days = hours / 24;
    if secs < 60 {
        "now"@
    } else if mins < 60 {
        text::decimal(mins as nat) + "m"@
    } else if hours < 24 {
        text::decimal(hours as nat) + "h"@
    } else if days < 7 {
        text::decimal(days as nat) + "d"@
    } else if days < 30 {
        text::decimal((days / 7) as nat) + "w"@
    } else if days < 365 {
        text::decimal((days / 30) as nat) + "mo"@
    } else {
        text::decimal((days / 365) as nat) + "y"@
    }
}

fn counted(n: u64, unit: &str) -> (r: String)
    ensures
        r@ == text::decimal(n as nat) + unit@,
{
    let mut out = String::new();
    text::push_decimal(&mut out, n);
    out.append(unit);
    assert(out@ =~= text::decimal(n as nat) + unit@);
    out
}

/// How long before `now` a timestamp was, as a list glances at it.
pub fn rel_time(timestamp: i64, now: i64) -> (r: String)
    ensures
        r@ == age_text(now - timestamp),
{
    if now < timestamp {
        return "now".to_owned();
    }
    let secs: u64 = (now as i128 - timestamp as i128) as u64;
    if secs < 60 {
        return "now".to_owned();
    }
    let mins: u64 = secs / 60;
    if mins < 60 {
        return counted(mins, "m");
    }
    let hours: u64 = mins / 60;
    if hours < 24 {
        return counted(hours, "h");
    }
    let days: u64 = hours / 24;
    if days < 7 {
        return counted(days, "d");
    }
    if days < 30 {
        return counted(days / 7, "w");
    }
    if days < 365 {
        return counted(days / 30, "mo");
    }
    counted(days / 365, "y")
}

// ---------------------------------------------------------------------------
// What a load derives
// ---------------------------------------------------------------------------

/// The commits, and what is spelled once per load for each of them.
#[derive(Debug)]
pub struct Data {
    pub commits: Vec<Commit>,
    /// How long ago each commit was.
    pub times: Vec<String>,
    /// What copying a commit copies.
    pub lines: Vec<String>,
}

/// What copying a commit copies: the short sha and the subject.
pub open spec fn line_of(c: Commit) -> Seq<char> {
    c.short@ + " "@ + c.subject@
}

impl Data {
    /// Everything derived stands beside the commit it was derived from.
    pub open spec fn wf(&self) -> bool {
        &&& self.times@.len() == self.commits@.len()
        &&& self.lines@.len() == self.commits@.len()
        &&& forall|i: int|
            0 <= i < self.commits@.len() ==> (#[trigger] self.lines@[i])@ == line_of(
                self.commits@[i],
            )
    }
}

/// Spells what is derived from each commit. The clock is read once, by the
/// caller: a read per row would disagree with itself down the list.
pub fn prepare(commits: Vec<Commit>, now: i64) -> (r: Data)
    ensures
        r.wf(),
        r.commits == commits,
        forall|i: int|
            0 <= i < commits@.len() ==> (#[trigger] r.times@[i])@ == age_text(
                now - commits@[i].timestamp,
            ),
{
    let mut times: Vec<String> = Vec::new();
    let mut lines: Vec<String> = Vec::new();
    let mut i: usize = 0;
    while i < commits.len()
        invariant
            i <= commits@.len(),
            times@.len() == i,
            lines@.len() == i,
            forall|k: int|
                0 <= k < i ==> (#[trigger] times@[k])@ == age_text(now - commits@[k].timestamp),
            forall|k: int| 0 <= k < i ==> (#[trigger] lines@[k])@ == line_of(commits@[k]),
        decreases commits@.len() - i,
    {
        let c = &commits[i];
        times.push(rel_time(c.timestamp, now));
        let mut line = c.short.clone();
        line.append(" ");
        line.append(c.subject.as_str());
        lines.push(line);
        i += 1;
    }
    Data { commits, times, lines }
}

/// What the overlay says of a load: how much there was, and how long the lanes
/// and their drawing took.
pub fn load_line(commits: usize, lanes: usize, laid: &str, drawn: &str) -> (r: String)
    ensures
        r@ == text::decimal(commits as nat) + " commits · "@ + text::decimal(lanes as nat)
            + " lanes · lanes "@ + laid@ + " draws "@ + drawn@,
{
    let mut out = text::decimal_text(commits);
    out.append(" commits · ");
    text::push_decimal(&mut out, lanes as u64);
    out.append(" lanes · lanes ");
    out.append(laid);
    out.append(" draws ");
    out.append(drawn);
    out
}

// ---------------------------------------------------------------------------
// What is shown
// ---------------------------------------------------------------------------

/// Rows that are commits, in the order of the log.
pub open spec fn selects(visible: Seq<usize>, n: nat) -> bool {
    &&& forall|i: int| 0 <= i < visible.len() ==> (#[trigger] visible[i]) < n
    &&& forall|i: int, j: int| 0 <= i < j < visible.len() ==> visible[i] < visible[j]
}

/// Every commit.
pub open spec fn every(n: nat) -> Seq<usize> {
    Seq::new(n, |i: int| i as usize)
}

/// What is shown under a query: its hits, or everything where there is none.
pub open spec fn shown(query: Option<Seq<char>>, hits: Seq<usize>, n: nat) -> Seq<usize> {
    if query is Some {
        hits
    } else {
        every(n)
    }
}

/// The shas of the rows.
pub open spec fn shas(commits: Seq<Commit>, visible: Seq<usize>) -> Seq<Option<Seq<char>>> {
    visible.map_values(|i: usize| Some(commits[i as int].sha@))
}

/// The query that a prompt's text is: none where there is nothing but blanks.
pub open spec fn query_of(typed: Seq<char>) -> Option<Seq<char>> {
    if text::trimmed(typed).len() == 0 {
        None
    } else {
        Some(text::trimmed(typed))
    }
}

/// The query that a prompt's text is.
pub fn query_text(typed: &str) -> (r: Option<String>)
    ensures
        text::maybe_text(r) == query_of(typed@),
{
    let q = text::trim(typed);
    if q.unicode_len() == 0 {
        None
    } else {
        Some(q.to_owned())
    }
}

fn identity(n: usize) -> (r: Vec<usize>)
    ensures
        r@ == every(n as nat),
{
    let mut out: Vec<usize> = Vec::new();
    let mut i: usize = 0;
    while i < n
        invariant
            i <= n,
            out@ == every(n as nat).take(i as int),
        decreases n - i,
    {
        out.push(i);
        assert(out@ =~= every(n as nat).take(i + 1));
        i += 1;
    }
    assert(out@ =~= every(n as nat));
    out
}

/// The first row that is the commit `sha`.
fn row_of(commits: &Vec<Commit>, visible: &Vec<usize>, sha: &str) -> (r: Option<usize>)
    requires
        selects(visible@, commits@.len()),
    ensures
        match r {
            Some(i) => row_of_key(shas(commits@, visible@), sha@) == Some(i as int),
            None => row_of_key(shas(commits@, visible@), sha@) is None,
        },
{
    let ghost keys = shas(commits@, visible@);
    let mut i: usize = 0;
    assert(keys.take(0) =~= seq![]);
    while i < visible.len()
        invariant
            i <= visible@.len(),
            selects(visible@, commits@.len()),
            keys == shas(commits@, visible@),
            row_of_key(keys.take(i as int), sha@) is None,
        decreases visible@.len() - i,
    {
        assert(keys.take(i + 1).drop_last() =~= keys.take(i as int));
        let at: usize = visible[i];
        assert(at < commits@.len());
        if text::same(commits[at].sha.as_str(), sha) {
            proof {
                first_key_stays(keys, sha@, i + 1);
            }
            return Some(i);
        }
        i += 1;
    }
    assert(keys.take(i as int) =~= keys);
    None
}

/// The row to go to: the commit's own, or the same row number held inside the
/// list.
fn rest(commits: &Vec<Commit>, visible: &Vec<usize>, sha: &Option<String>, at: usize) -> (r: usize)
    requires
        selects(visible@, commits@.len()),
    ensures
        r == anchored(shas(commits@, visible@), text::maybe_text(*sha), at as int),
{
    let kept: usize = match sha {
        Some(sha) => match row_of(commits, visible, sha.as_str()) {
            Some(i) => i,
            None => at,
        },
        None => at,
    };
    proof {
        if sha is Some {
            key_is_found(shas(commits@, visible@), sha.unwrap()@);
        }
    }
    hold(kept, visible.len())
}

// ---------------------------------------------------------------------------
// The pane
// ---------------------------------------------------------------------------

/// The commit list.
#[derive(Debug)]
pub struct Commits {
    pub data: Data,
    /// Row to commit, in the order of the log.
    pub visible: Vec<usize>,
    /// The query the rows are filtered by.
    pub query: Option<String>,
    /// The keyboard's row and the top row, as the viewport last had them.
    pub cursor: usize,
    pub top: usize,
    /// The commit that a reset or a rewrite waits for its second press on.
    pub armed: Option<String>,
    /// The pane holds the keyboard.
    pub focused: bool,
    pub pending: PendingScroll,
}

/// What the window does with its viewport after rows were replaced.
#[derive(Clone, Copy, Debug, PartialEq, Eq, Structural)]
pub struct Restore {
    /// The row for the top, before the keyboard is moved.
    pub top: usize,
    pub landing: Landing,
}

impl Commits {
    /// What every commit list keeps.
    pub open spec fn wf(&self) -> bool {
        &&& self.data.wf()
        &&& selects(self.visible@, self.data.commits@.len())
        &&& self.query is None ==> self.visible@ == every(self.data.commits@.len())
        &&& inside(self.cursor, self.visible@.len())
        &&& inside(self.top, self.visible@.len())
    }

    /// Row `row`, held inside the list.
    pub open spec fn held(&self, row: usize) -> usize {
        held_row(row as int, self.visible@.len()) as usize
    }

    /// The sha of row `at`, if there is such a row.
    pub open spec fn sha_at(&self, at: int) -> Option<Seq<char>> {
        if 0 <= at < self.visible@.len() {
            Some(self.data.commits@[self.visible@[at] as int].sha@)
        } else {
            None
        }
    }

    /// A list of every commit, the keyboard on the first.
    pub fn new(data: Data) -> (r: Commits)
        requires
            data.wf(),
        ensures
            r.wf(),
            r.data == data,
            r.visible@ == every(data.commits@.len()),
            r.query is None,
            r.cursor == 0,
            r.top == 0,
            r.armed is None,
            !r.focused,
            !r.pending.awaiting,
    {
        let visible = identity(data.commits.len());
        Commits {
            data,
            visible,
            query: None,
            cursor: 0,
            top: 0,
            armed: None,
            focused: false,
            pending: PendingScroll::new(),
        }
    }

    /// Told whenever the keyboard enters or leaves the pane.
    pub fn set_focused(&mut self, focused: bool)
        ensures
            *final(self) == (Commits { focused, ..*old(self) }),
    {
        self.focused = focused;
    }

    /// Every commit that was loaded, shown or not.
    pub fn total(&self) -> (r: usize)
        ensures
            r == self.data.commits@.len(),
    {
        self.data.commits.len()
    }

    /// The commit on row `row`, if there is such a row.
    pub fn commit_at(&self, row: usize) -> (r: Option<&Commit>)
        requires
            self.wf(),
        ensures
            match r {
                Some(c) => row < self.visible@.len() && *c
                    == self.data.commits@[self.visible@[row as int] as int],
                None => row >= self.visible@.len(),
            },
    {
        if row < self.visible.len() {
            let at: usize = self.visible[row];
            Some(&self.data.commits[at])
        } else {
            None
        }
    }

    /// How long ago the commit on row `row` was, if there is such a row.
    pub fn age_at(&self, row: usize) -> (r: Option<&str>)
        requires
            self.wf(),
        ensures
            match r {
                Some(age) => row < self.visible@.len() && age@
                    == self.data.times@[self.visible@[row as int] as int]@,
                None => row >= self.visible@.len(),
            },
    {
        if row < self.visible.len() {
            let at: usize = self.visible[row];
            Some(self.data.times[at].as_str())
        } else {
            None
        }
    }

    /// The keyboard's row.
    pub fn cursor(&self) -> (r: usize)
        ensures
            r == self.cursor,
    {
        self.cursor
    }

    /// How many rows there are.
    pub fn rows(&self) -> (r: usize)
        ensures
            r == self.visible@.len(),
    {
        self.visible.len()
    }

    /// The commit the keyboard is on. A row number counts what is shown, and
    /// every verb goes through here to the commit it stands for.
    pub fn current(&self) -> (r: Option<&Commit>)
        requires
            self.wf(),
        ensures
            match r {
                Some(c) => self.cursor < self.visible@.len() && *c
                    == self.data.commits@[self.visible@[self.cursor as int] as int],
                None => self.cursor >= self.visible@.len(),
            },
    {
        if self.cursor < self.visible.len() {
            let at: usize = self.visible[self.cursor];
            assert(at < self.data.commits@.len());
            Some(&self.data.commits[at])
        } else {
            None
        }
    }

    /// The query, to begin an edit of it with.
    pub fn query(&self) -> (r: Option<&str>)
        ensures
            match r {
                Some(q) => text::maybe_text(self.query) == Some(q@),
                None => self.query is None,
            },
    {
        match &self.query {
            Some(q) => Some(q.as_str()),
            None => None,
        }
    }

    /// What the pane's title adds while a query stands: shown over loaded.
    pub fn filter_note(&self) -> (r: Option<String>)
        ensures
            text::maybe_text(r) == if self.query is Some {
                Some(
                    text::decimal(self.visible@.len()) + "/"@ + text::decimal(
                        self.data.commits@.len(),
                    ),
                )
            } else {
                None
            },
    {
        if self.query.is_none() {
            return None;
        }
        let mut out = text::decimal_text(self.visible.len());
        out.append("/");
        text::push_decimal(&mut out, self.data.commits.len() as u64);
        Some(out)
    }

    /// The row that a saved position comes back to: none in an empty list.
    pub fn scroll_to(&self, row: usize) -> (r: Option<usize>)
        ensures
            r == if self.visible@.len() == 0 {
                None
            } else if row >= self.visible@.len() {
                Some((self.visible@.len() - 1) as usize)
            } else {
                Some(row)
            },
    {
        let len: usize = self.visible.len();
        if len == 0 {
            None
        } else if row >= len {
            Some(len - 1)
        } else {
            Some(row)
        }
    }

    /// A saved position was asked for: the list has not laid its rows out yet.
    pub fn parked(&mut self, cursor: usize, top: usize)
        ensures
            *final(self) == (Commits {
                cursor: old(self).held(cursor),
                top: old(self).held(top),
                pending: PendingScroll { awaiting: true },
                ..*old(self)
            }),
    {
        self.cursor = hold(cursor, self.visible.len());
        self.top = hold(top, self.visible.len());
        self.pending.begin();
    }

    /// The move that a command is.
    pub fn run_view(&self, command: &str) -> (r: Motion)
        ensures
            r == motion_of(command@),
    {
        run_view(command)
    }

    /// The list after a command that is `motion`, where the viewport took the
    /// keyboard to row `cursor` with `top` at the top. What a question was asked
    /// about is where the keyboard used to be, so a move drops it. A command that
    /// moves nothing changes nothing.
    pub open spec fn moved(self, motion: Motion, cursor: usize, top: usize) -> Commits {
        if motion.moves() {
            Commits { cursor: self.held(cursor), top: self.held(top), armed: None, ..self }
        } else {
            self
        }
    }

    /// A command landed the keyboard on row `cursor`, with `top` at the top.
    pub fn landed(&mut self, motion: Motion, cursor: usize, top: usize)
        ensures
            *final(self) == old(self).moved(motion, cursor, top),
    {
        if motion.is_move() {
            self.cursor = hold(cursor, self.visible.len());
            self.top = hold(top, self.visible.len());
            self.armed = None;
        }
    }

    /// The wheel turned, and the viewport took the keyboard to `cursor` with `top` at
    /// the top where the list `moved`. It is a move of attention then: the question
    /// goes. A list that could not move is left as it was. Says whether it moved.
    pub fn wheeled(&mut self, moved: bool, cursor: usize, top: usize) -> (r: bool)
        ensures
            r == moved,
            *final(self) == if moved {
                Commits {
                    cursor: old(self).held(cursor),
                    top: old(self).held(top),
                    armed: None,
                    ..*old(self)
                }
            } else {
                *old(self)
            },
    {
        if moved {
            self.cursor = hold(cursor, self.visible.len());
            self.top = hold(top, self.visible.len());
            self.armed = None;
        }
        moved
    }

    /// A scrollbar moved the list, or the viewport came to rest.
    pub fn followed(&mut self, cursor: usize, top: usize)
        ensures
            *final(self) == (Commits {
                cursor: old(self).held(cursor),
                top: old(self).held(top),
                ..*old(self)
            }),
    {
        self.cursor = hold(cursor, self.visible.len());
        self.top = hold(top, self.visible.len());
    }

    /// What copying copies: the short sha and the subject of the commit the
    /// keyboard is on.
    pub fn cursor_text(&self) -> (r: String)
        requires
            self.wf(),
        ensures
            r@ == if self.cursor < self.visible@.len() {
                line_of(self.data.commits@[self.visible@[self.cursor as int] as int])
            } else {
                seq![]
            },
    {
        if self.cursor < self.visible.len() {
            let at: usize = self.visible[self.cursor];
            assert(at < self.data.commits@.len());
            self.data.lines[at].clone()
        } else {
            String::new()
        }
    }

    /// Whether the pane holds the keyboard.
    pub fn focused(&self) -> (r: bool)
        ensures
            r == self.focused,
    {
        self.focused
    }

    /// A list has nothing off its left edge to reach.
    pub fn pan_pixels(&self) -> (r: bool)
        ensures
            !r,
    {
        false
    }

    /// What to do with a turn of the wheel, where `parked` says that a request
    /// for a row stands.
    pub fn scroll_pixels(&self, parked: bool) -> (r: Wheel)
        ensures
            r == wheel_route(self.pending.awaiting, parked),
    {
        self.pending.wheel(parked)
    }

    /// What to do about a list that a scrollbar may have moved: `moved` says that
    /// its offset is not the one last written, `shown` is the row it shows at the
    /// top and `top` the viewport's.
    pub fn reconcile(&self, parked: bool, moved: bool, shown: usize, top: usize) -> (r: Drift)
        ensures
            r == drift_of(parked, moved, shown, top),
    {
        reconcile(parked, moved, shown, top)
    }

    /// There is no selection over a list of commits.
    pub fn select_all(&mut self) -> (r: bool)
        ensures
            !r,
            *final(self) == *old(self),
    {
        false
    }

    /// There is no selection over a list of commits.
    pub fn select_none(&mut self) -> (r: bool)
        ensures
            !r,
            *final(self) == *old(self),
    {
        false
    }

    /// Asks about a hard reset to `sha`, or says that it may happen now.
    pub fn confirm_or_arm_reset(&mut self, sha: &str) -> (r: bool)
        ensures
            (text::maybe_text(final(self).armed), r) == pressed(
                text::maybe_text(old(self).armed),
                sha@,
            ),
            *final(self) == (Commits { armed: final(self).armed, ..*old(self) }),
    {
        self.arm(sha)
    }

    /// Asks about a rewrite of history at `sha`, or says that it may happen now.
    /// There is one question at a time, whichever verb asked it.
    pub fn confirm_or_arm_rewrite(&mut self, sha: &str) -> (r: bool)
        ensures
            (text::maybe_text(final(self).armed), r) == pressed(
                text::maybe_text(old(self).armed),
                sha@,
            ),
            *final(self) == (Commits { armed: final(self).armed, ..*old(self) }),
    {
        self.arm(sha)
    }

    fn arm(&mut self, sha: &str) -> (r: bool)
        ensures
            (text::maybe_text(final(self).armed), r) == pressed(
                text::maybe_text(old(self).armed),
                sha@,
            ),
            *final(self) == (Commits { armed: final(self).armed, ..*old(self) }),
    {
        let already: bool = match &self.armed {
            Some(armed) => text::same(armed.as_str(), sha),
            None => false,
        };
        if already {
            self.armed = None;
        } else {
            self.armed = Some(sha.to_owned());
        }
        already
    }

    /// What the question is about, while one is asked.
    pub fn armed_sha(&self) -> (r: &Option<String>)
        ensures
            *r == self.armed,
    {
        &self.armed
    }

    /// The row that the question is about, if it is shown.
    pub fn tinted_row(&self) -> (r: Option<usize>)
        requires
            self.wf(),
        ensures
            match r {
                Some(i) => self.armed is Some && row_of_key(
                    shas(self.data.commits@, self.visible@),
                    self.armed.unwrap()@,
                ) == Some(i as int),
                None => self.armed is Some ==> row_of_key(
                    shas(self.data.commits@, self.visible@),
                    self.armed.unwrap()@,
                ) is None,
            },
    {
        match &self.armed {
            Some(sha) => row_of(&self.data.commits, &self.visible, sha.as_str()),
            None => None,
        }
    }

    fn sha_of(&self, at: usize) -> (r: Option<String>)
        requires
            self.wf(),
        ensures
            text::maybe_text(r) == self.sha_at(at as int),
    {
        if at < self.visible.len() {
            let c: usize = self.visible[at];
            assert(c < self.data.commits@.len());
            Some(self.data.commits[c].sha.clone())
        } else {
            None
        }
    }

    /// The list is `now` after a prompt held `typed`, for which `hits` were found.
    pub open spec fn queried(self, typed: Seq<char>, hits: Seq<usize>, now: Commits) -> bool {
        if query_of(typed) == text::maybe_text(self.query) {
            now == self
        } else {
            &&& now.data == self.data
            &&& now.focused == self.focused
            &&& now.armed is None
            &&& text::maybe_text(now.query) == query_of(typed)
            &&& now.visible@ == shown(query_of(typed), hits, self.data.commits@.len())
            &&& now.cursor == anchored(
                shas(self.data.commits@, now.visible@),
                self.sha_at(self.cursor as int),
                self.cursor as int,
            )
            &&& now.top == now.held(self.top)
            &&& now.pending.awaiting == (now.visible@.len() > 0)
        }
    }

    /// Filters the rows by what a prompt holds, once per keystroke. `hits` are
    /// the commits that the trimmed text finds, in the order of the log.
    ///
    /// The keyboard stays on its commit where that survives the query, and near
    /// its row otherwise. A text of nothing but blanks is no query: every commit
    /// is shown again. The same query as before changes nothing.
    pub fn apply_query(&mut self, typed: &str, hits: Vec<usize>) -> (r: Option<Landing>)
        requires
            old(self).wf(),
            selects(hits@, old(self).data.commits@.len()),
        ensures
            final(self).wf(),
            old(self).queried(typed@, hits@, *final(self)),
            r == if query_of(typed@) == text::maybe_text(old(self).query) {
                None
            } else {
                Some(
                    (Landing { cursor: final(self).cursor, park: final(self).visible@.len() > 0 }),
                )
            },
    {
        let next = query_text(typed);
        let unchanged: bool = match (&self.query, &next) {
            (Some(a), Some(b)) => text::same(a.as_str(), b.as_str()),
            (None, None) => true,
            _ => false,
        };
        if unchanged {
            return None;
        }
        self.armed = None;
        let was = self.sha_of(self.cursor);
        self.visible = match &next {
            Some(_) => hits,
            None => identity(self.data.commits.len()),
        };
        self.query = next;
        self.cursor = rest(&self.data.commits, &self.visible, &was, self.cursor);
        let some: bool = self.visible.len() > 0;
        if some {
            self.pending.begin();
        } else {
            self.pending.cancel();
        }
        self.top = hold(self.top, self.visible.len());
        Some(Landing { cursor: self.cursor, park: some })
    }

    /// New commits, under the same query: `hits` are those of the new commits
    /// that it finds. The keyboard and the top row stay on their commits where
    /// those are still shown.
    pub fn replace_prepared(&mut self, data: Data, hits: Vec<usize>) -> (r: Restore)
        requires
            old(self).wf(),
            data.wf(),
            selects(hits@, data.commits@.len()),
        ensures
            final(self).wf(),
            final(self).data == data,
            final(self).query == old(self).query,
            final(self).focused == old(self).focused,
            final(self).armed is None,
            final(self).visible@ == shown(
                text::maybe_text(old(self).query),
                hits@,
                data.commits@.len(),
            ),
            final(self).cursor == anchored(
                shas(data.commits@, final(self).visible@),
                old(self).sha_at(old(self).cursor as int),
                old(self).cursor as int,
            ),
            final(self).top == anchored(
                shas(data.commits@, final(self).visible@),
                old(self).sha_at(old(self).top as int),
                old(self).top as int,
            ),
            final(self).pending.awaiting == (final(self).visible@.len() > 0),
            r == (Restore {
                top: final(self).top,
                landing: Landing {
                    cursor: final(self).cursor,
                    park: final(self).visible@.len() > 0,
                },
            }),
    {
        self.armed = None;
        let cursor_sha = self.sha_of(self.cursor);
        let top_sha = self.sha_of(self.top);
        let visible = match &self.query {
            Some(_) => hits,
            None => identity(data.commits.len()),
        };
        let cursor: usize = rest(&data.commits, &visible, &cursor_sha, self.cursor);
        let top: usize = rest(&data.commits, &visible, &top_sha, self.top);
        let some: bool = visible.len() > 0;
        self.data = data;
        self.visible = visible;
        self.cursor = cursor;
        self.top = top;
        if some {
            self.pending.begin();
        } else {
            self.pending.cancel();
        }
        Restore { top, landing: Landing { cursor, park: some } }
    }
}

/// Clearing a query shows every commit again, with the keyboard on the commit it
/// was on.
pub proof fn clearing_a_query_keeps_the_commit(
    commits: Seq<Commit>,
    visible: Seq<usize>,
    cursor: int,
)
    requires
        selects(visible, commits.len()),
        commits.len() <= usize::MAX,
        0 <= cursor < visible.len(),
    ensures
        ({
            let sha = commits[visible[cursor] as int].sha@;
            let all = every(commits.len());
            let at = anchored(shas(commits, all), Some(sha), cursor);
            &&& 0 <= at < commits.len()
            &&& commits[all[at] as int].sha@ == sha
        }),
{
    let sha = commits[visible[cursor] as int].sha@;
    let keys = shas(commits, every(commits.len()));
    assert(visible[cursor] < commits.len());
    assert(keys[visible[cursor] as int] == Some(sha));
    a_refresh_keeps_the_row(keys, Some(sha), cursor);
}

/// Clearing the query of a list shows every commit in the order of the log, with
/// nothing in the title about a filter, and the keyboard on the commit it was on.
pub proof fn clearing_shows_every_commit(
    list: Commits,
    blank: Seq<char>,
    hits: Seq<usize>,
    now: Commits,
)
    requires
        list.wf(),
        query_of(blank) is None,
        list.queried(blank, hits, now),
    ensures
        now.query is None,
        now.data == list.data,
        now.visible@ == every(list.data.commits@.len()),
        list.cursor < list.visible@.len() ==> now.sha_at(now.cursor as int) == list.sha_at(
            list.cursor as int,
        ),
{
    let commits = list.data.commits@;
    assert(text::maybe_text(list.query) is None <==> list.query is None);
    if list.query is Some && list.cursor < list.visible@.len() {
        assert(list.data.commits.len() == commits.len());
        clearing_a_query_keeps_the_commit(commits, list.visible@, list.cursor as int);
    }
}

/// A query that finds the keyboard's commit, and then none, leave the list as it
/// was: every commit is shown, and the keyboard is on its commit throughout.
pub proof fn a_query_and_back_keeps_the_commit(
    list: Commits,
    typed: Seq<char>,
    hits: Seq<usize>,
    narrowed: Commits,
    blank: Seq<char>,
    any: Seq<usize>,
    now: Commits,
)
    requires
        list.wf(),
        list.query is None,
        list.cursor < list.visible@.len(),
        selects(hits, list.data.commits@.len()),
        hits.contains(list.visible@[list.cursor as int]),
        list.queried(typed, hits, narrowed),
        narrowed.wf(),
        query_of(blank) is None,
        narrowed.queried(blank, any, now),
    ensures
        narrowed.sha_at(narrowed.cursor as int) == list.sha_at(list.cursor as int),
        now.query is None,
        now.visible@ == every(list.data.commits@.len()),
        now.sha_at(now.cursor as int) == list.sha_at(list.cursor as int),
{
    let commits = list.data.commits@;
    let sha = list.sha_at(list.cursor as int);
    if query_of(typed) is Some {
        let keys = shas(commits, hits);
        let k = choose|k: int|
            0 <= k < hits.len() && hits[k] == list.visible@[list.cursor as int];
        assert(keys[k] == sha);
        assert(keys.contains(sha));
        a_refresh_keeps_the_row(keys, sha, list.cursor as int);
        assert(narrowed.visible@ == hits);
    }
    clearing_shows_every_commit(narrowed, blank, any, now);
}

/// The colours of a row's texts. None is the pane's own colour.
#[derive(Clone, Copy, Debug, PartialEq, Eq, Structural)]
pub struct Look {
    pub sha: Rgb,
    pub subject: Option<Rgb>,
    pub time: Rgb,
}

/// The colours of a row. What a second press would reset to is named in its own
/// colour.
pub fn row(armed: bool, error: Rgb, dim: Rgb, faint: Rgb) -> (r: Look)
    ensures
        r == if armed {
            (Look { sha: error, subject: Some(error), time: error })
        } else {
            (Look { sha: dim, subject: None, time: faint })
        },
{
    if armed {
        Look { sha: error, subject: Some(error), time: error }
    } else {
        Look { sha: dim, subject: None, time: faint }
    }
}

} // verus!
