//! The history: the commit list as a timeline, beside the selected commit.
use super::commits::{Commit, Commits};
use super::draw::Rgb;
use crate::text;
use vstd::prelude::*;

verus! {

/// The heading over the timeline, and the row that is not a commit.
pub const TITLE: &'static str = "Branch history";

pub const UNCOMMITTED: &'static str = "Uncommitted changes";

/// The colours of the timeline.
#[derive(Clone, Copy, Debug, PartialEq, Eq, Structural)]
pub struct TimelineInks {
    pub bg: Rgb,
    pub selection_bg: Rgb,
    pub accent: Rgb,
    pub faint: Rgb,
}

/// One row of the timeline.
#[derive(Debug)]
pub struct TimelineRow {
    pub selected: bool,
    pub bg: Rgb,
    /// The colour of the ring on the line.
    pub node: Rgb,
    pub subject: String,
    /// Who, how long ago, and which.
    pub meta: String,
}

/// What a row says under its subject.
pub open spec fn meta_text(author: Seq<char>, age: Seq<char>, short: Seq<char>) -> Seq<char> {
    author + " · "@ + age + "  "@ + short
}

/// The commit on a row, and how long ago it was.
pub open spec fn entry(commits: Commits, row: int) -> Option<(Commit, Seq<char>)> {
    if 0 <= row < commits.visible@.len() {
        let at = commits.visible@[row] as int;
        Some((commits.data.commits@[at], commits.data.times@[at]@))
    } else {
        None
    }
}

impl TimelineRow {
    /// Row `row` of the timeline: the keyboard's row is tinted, and the newest
    /// commit is the one whose ring stands out.
    pub open spec fn shows(self, commits: Commits, row: int, inks: TimelineInks) -> bool {
        &&& self.selected == (row == commits.cursor)
        &&& self.bg == if row == commits.cursor {
            inks.selection_bg
        } else {
            inks.bg
        }
        &&& self.node == if row == 0 {
            inks.accent
        } else {
            inks.faint
        }
        &&& match entry(commits, row) {
            Some((c, age)) => self.subject@ == c.subject@ && self.meta@ == meta_text(
                c.author@,
                age,
                c.short@,
            ),
            None => self.subject@.len() == 0 && self.meta@ == meta_text(seq![], seq![], seq![]),
        }
    }
}

fn meta(author: &str, age: &str, short: &str) -> (r: String)
    ensures
        r@ == meta_text(author@, age@, short@),
{
    let mut out = author.to_owned();
    out.append(" · ");
    out.append(age);
    out.append("  ");
    out.append(short);
    out
}

/// Row `row` of the timeline. A row without a commit is empty.
pub fn timeline(commits: &Commits, row: usize, inks: &TimelineInks) -> (r: TimelineRow)
    requires
        commits.wf(),
    ensures
        r.shows(*commits, row as int, *inks),
{
    let selected: bool = row == commits.cursor();
    let bg: u32 = if selected {
        inks.selection_bg
    } else {
        inks.bg
    };
    let node: u32 = if row == 0 {
        inks.accent
    } else {
        inks.faint
    };
    match (commits.commit_at(row), commits.age_at(row)) {
        (Some(c), Some(age)) => TimelineRow {
            selected,
            bg,
            node,
            subject: c.subject.clone(),
            meta: meta(c.author.as_str(), age, c.short.as_str()),
        },
        _ => {
            proof {
                reveal_strlit("");
                assert(""@ =~= seq![]);
            }
            TimelineRow { selected, bg, node, subject: String::new(), meta: meta("", "", "") }
        },
    }
}

/// The selected commit, spelled out.
#[derive(Debug)]
pub struct Detail {
    pub label: String,
    pub subject: String,
    pub author: String,
    /// The author's initial, in capitals.
    pub avatar: Option<String>,
    pub committed: String,
    /// What is shown of the parent: its first few characters, or a dash.
    pub parent: String,
    pub footer: String,
}

/// What is shown of a commit's first parent.
pub open spec fn parent_text(c: Commit) -> Seq<char> {
    if c.parents@.len() == 0 {
        "—"@
    } else if c.parents@[0]@.len() <= 7 {
        c.parents@[0]@
    } else {
        c.parents@[0]@.take(7)
    }
}

/// The initial of a name, in capitals. A name that is not there has none.
pub open spec fn initial_of(author: Seq<char>) -> Option<Seq<char>> {
    if author.len() == 0 {
        None
    } else {
        Some(text::uppercase(author[0]))
    }
}

impl Detail {
    /// What is said of the commit on a row, or of there being none.
    pub open spec fn describes(
        self,
        entry: Option<(Commit, Seq<char>)>,
        branch: Seq<char>,
        avatar: Option<Seq<char>>,
    ) -> bool {
        &&& match entry {
            Some((c, age)) => {
                &&& self.label@ == "COMMIT "@ + c.short@
                &&& self.subject@ == c.subject@
                &&& self.author@ == c.author@
                &&& self.committed@ == "committed "@ + age
                &&& self.parent@ == parent_text(c)
            },
            None => {
                &&& self.label@ == "COMMIT "@
                &&& self.subject@ == "No commit selected"@
                &&& self.author@.len() == 0
                &&& self.committed@ == "committed "@
                &&& self.parent@ == "—"@
            },
        }
        &&& self.footer@ == "Authored on "@ + branch
        &&& text::maybe_text(self.avatar) == avatar
    }
}

fn parent(c: &Commit) -> (r: String)
    ensures
        r@ == parent_text(*c),
{
    if c.parents.len() == 0 {
        return "—".to_owned();
    }
    let sha = c.parents[0].as_str();
    if sha.unicode_len() <= 7 {
        sha.to_owned()
    } else {
        let short = sha.substring_char(0, 7);
        assert(short@ =~= sha@.take(7));
        short.to_owned()
    }
}

fn joined(a: &str, b: &str) -> (r: String)
    ensures
        r@ == a@ + b@,
{
    let mut out = a.to_owned();
    out.append(b);
    out
}

/// The author that the detail names.
pub open spec fn author_of(entry: Option<(Commit, Seq<char>)>) -> Seq<char> {
    match entry {
        Some((c, _)) => c.author@,
        None => seq![],
    }
}

/// The commit on the keyboard's row, spelled out, with `avatar` beside its
/// author.
pub fn detail_with(commits: &Commits, branch: &str, avatar: Option<String>) -> (r: Detail)
    requires
        commits.wf(),
    ensures
        r.describes(
            entry(*commits, commits.cursor as int),
            branch@,
            text::maybe_text(avatar),
        ),
{
    let row: usize = commits.cursor();
    let footer = joined("Authored on ", branch);
    match (commits.commit_at(row), commits.age_at(row)) {
        (Some(c), Some(age)) => Detail {
            label: joined("COMMIT ", c.short.as_str()),
            subject: c.subject.clone(),
            author: c.author.clone(),
            avatar,
            committed: joined("committed ", age),
            parent: parent(c),
            footer,
        },
        _ => Detail {
            label: "COMMIT ".to_owned(),
            subject: "No commit selected".to_owned(),
            author: String::new(),
            avatar,
            committed: "committed ".to_owned(),
            parent: "—".to_owned(),
            footer,
        },
    }
}

/// The initial of a name, in capitals.
pub fn initial(author: &str) -> (r: Option<String>)
    ensures
        text::maybe_text(r) == initial_of(author@),
{
    if author.unicode_len() == 0 {
        None
    } else {
        Some(text::upper(author.get_char(0)))
    }
}

/// The commit on the keyboard's row, spelled out.
pub fn detail(commits: &Commits, branch: &str) -> (r: Detail)
    requires
        commits.wf(),
    ensures
        r.describes(
            entry(*commits, commits.cursor as int),
            branch@,
            initial_of(author_of(entry(*commits, commits.cursor as int))),
        ),
{
    let avatar = match commits.commit_at(commits.cursor()) {
        Some(c) => initial(c.author.as_str()),
        None => None,
    };
    detail_with(commits, branch, avatar)
}

/// What stands under the row of uncommitted changes.
pub fn working_tree(changed: usize) -> (r: String)
    ensures
        r@ == "Working tree · "@ + text::decimal(changed as nat) + " files"@,
{
    let mut out = "Working tree · ".to_owned();
    text::push_decimal(&mut out, changed as u64);
    out.append(" files");
    out
}

} // verus!
