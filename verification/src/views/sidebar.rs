//! The sidebar: the changed files grouped by directory, the ways to the other
//! panes, and the filter.
use super::draw::Rgb;
use super::files::Section;
use crate::text;
use vstd::prelude::*;

verus! {

/// What a click does, in order: move the keyboard to a row, or run a command.
#[derive(Clone, Copy, Debug)]
pub enum Step {
    Select(usize),
    Run(&'static str),
}

/// A step is to run this command.
pub open spec fn runs(s: Step, command: Seq<char>) -> bool {
    s matches Step::Run(name) && name@ == command
}

/// What a click on a file's box does: a click is the keyboard coming back, so it
/// moves first, then stages, then asks for the preview to be aimed again.
pub fn stage_click(row: usize) -> (r: Vec<Step>)
    ensures
        r@.len() == 3,
        r@[0] == Step::Select(row),
        runs(r@[1], "files.stage"@),
        runs(r@[2], "workspace.preview"@),
{
    vec![Step::Select(row), Step::Run("files.stage"), Step::Run("workspace.preview")]
}

/// What a click on a file's name does: the keyboard moves, and the preview is
/// aimed again. Nothing is staged.
pub fn row_click(row: usize) -> (r: Vec<Step>)
    ensures
        r@.len() == 2,
        r@[0] == Step::Select(row),
        runs(r@[1], "workspace.preview"@),
{
    vec![Step::Select(row), Step::Run("workspace.preview")]
}

/// Where the workspace is.
#[derive(Clone, Copy, Debug, PartialEq, Eq, Structural)]
pub enum Destination {
    Changes,
    History,
}

/// A destination's button.
#[derive(Clone, Copy, Debug)]
pub struct Nav {
    pub label: &'static str,
    pub command: &'static str,
    pub bg: Rgb,
    pub fg: Rgb,
}

/// The colours of the sidebar.
#[derive(Clone, Copy, Debug, PartialEq, Eq, Structural)]
pub struct SideInks {
    pub bg: Rgb,
    pub fg: Rgb,
    pub dim: Rgb,
    pub faint: Rgb,
    pub accent: Rgb,
    pub raised: Rgb,
    /// The letters of each group.
    pub staged: Rgb,
    pub unstaged: Rgb,
    pub untracked: Rgb,
    pub conflicts: Rgb,
}

impl Nav {
    /// The button of `to`, while the workspace is at `at`.
    pub open spec fn leads(self, to: Destination, at: Destination, inks: SideInks) -> bool {
        &&& self.label@ == match to {
            Destination::Changes => "Changes"@,
            Destination::History => "History"@,
        }
        &&& self.command@ == match to {
            Destination::Changes => "workspace.changes"@,
            Destination::History => "workspace.history"@,
        }
        &&& self.bg == if to == at {
            inks.raised
        } else {
            inks.bg
        }
        &&& self.fg == if to == at {
            inks.fg
        } else {
            inks.dim
        }
    }
}

/// The button of `to`, while the workspace is at `at`.
pub fn nav(to: Destination, at: Destination, inks: &SideInks) -> (r: Nav)
    ensures
        r.leads(to, at, *inks),
{
    let active: bool = to == at;
    let (label, command) = match to {
        Destination::Changes => ("Changes", "workspace.changes"),
        Destination::History => ("History", "workspace.history"),
    };
    Nav {
        label,
        command,
        bg: if active {
            inks.raised
        } else {
            inks.bg
        },
        fg: if active {
            inks.fg
        } else {
            inks.dim
        },
    }
}

/// A pane that is reached through the history.
#[derive(Clone, Copy, Debug, PartialEq, Eq, Structural)]
pub enum Utility {
    Branches,
    Stashes,
}

/// What a utility's link says.
pub fn utility_label(u: Utility) -> (r: &'static str)
    ensures
        r@ == match u {
            Utility::Branches => "Branches"@,
            Utility::Stashes => "Stashes"@,
        },
{
    match u {
        Utility::Branches => "Branches",
        Utility::Stashes => "Stashes",
    }
}

/// What a click on a utility's link does: the history first, then the pane in it.
pub fn utility_click(u: Utility) -> (r: Vec<Step>)
    ensures
        r@.len() == 2,
        runs(r@[0], "workspace.history"@),
        runs(
            r@[1],
            match u {
                Utility::Branches => "branches.focus"@,
                Utility::Stashes => "stashes.focus"@,
            },
        ),
{
    vec![
        Step::Run("workspace.history"),
        Step::Run(
            match u {
                Utility::Branches => "branches.focus",
                Utility::Stashes => "stashes.focus",
            },
        ),
    ]
}

/// What the link over the list says and runs.
pub const STAGE_ALL: &'static str = "Stage all";

pub const STAGE_ALL_COMMAND: &'static str = "files.stage-all";

/// What the filter runs.
pub const FILTER_COMMAND: &'static str = "files.search";

/// What the filter says: the query, or what it is for.
pub open spec fn filter_text(query: Option<Seq<char>>) -> Seq<char> {
    match query {
        Some(q) => if q.len() == 0 {
            "Filter files…"@
        } else {
            q
        },
        None => "Filter files…"@,
    }
}

/// What the filter says.
pub fn filter_label(query: &Option<String>) -> (r: String)
    ensures
        r@ == filter_text(text::maybe_text(*query)),
{
    match query {
        Some(q) => if q.as_str().unicode_len() == 0 {
            "Filter files…".to_owned()
        } else {
            q.clone()
        },
        None => "Filter files…".to_owned(),
    }
}

/// One row of the grouped list: a directory, or a row of the files pane.
#[derive(Debug)]
pub enum GroupedRow {
    Heading { dir: String, count: String },
    File { visible: usize },
}

/// One entry of the files pane, as far as the sidebar draws it.
#[derive(Debug)]
pub enum SideEntry {
    Heading,
    File { section: Section, dir: String, name: String, letters: &'static str },
}

/// A file as it is drawn.
#[derive(Debug)]
pub struct SideFile {
    /// The keyboard is on it.
    pub current: bool,
    pub box_border: Rgb,
    /// None for a box that is empty.
    pub box_fill: Option<Rgb>,
    pub dir: String,
    pub name: String,
    pub letters: &'static str,
    pub letters_fg: Rgb,
}

/// A row as it is drawn.
#[derive(Debug)]
pub enum SideRow {
    Label { text: String, count: String },
    Blank,
    File(SideFile),
}

/// The colour of a group's letters.
pub open spec fn section_ink(section: Section, inks: SideInks) -> Rgb {
    match section {
        Section::Staged => inks.staged,
        Section::Unstaged => inks.unstaged,
        Section::Untracked => inks.untracked,
        Section::Conflicts => inks.conflicts,
    }
}

impl SideRow {
    /// A row of the list. The box of a staged file is filled; a row of the pane
    /// that is no file draws nothing.
    pub open spec fn draws(
        self,
        row: GroupedRow,
        data: Seq<SideEntry>,
        visible: Seq<usize>,
        cursor: usize,
        inks: SideInks,
    ) -> bool {
        match row {
            GroupedRow::Heading { dir, count } => {
                &&& self matches SideRow::Label { text, count: said }
                &&& said@ == count@
                &&& text@ == if dir@.len() == 0 {
                    "repository root"@
                } else {
                    dir@
                }
            },
            GroupedRow::File { visible: at } => match data[visible[at as int] as int] {
                SideEntry::Heading => self is Blank,
                SideEntry::File { section, dir, name, letters } => {
                    &&& self matches SideRow::File(f)
                    &&& f.current == (at == cursor)
                    &&& f.box_border == if section == Section::Staged {
                        inks.accent
                    } else {
                        inks.faint
                    }
                    &&& f.box_fill == if section == Section::Staged {
                        Some(inks.accent)
                    } else {
                        None
                    }
                    &&& f.dir@ == dir@
                    &&& f.name@ == name@
                    &&& f.letters@ == letters@
                    &&& f.letters_fg == section_ink(section, inks)
                },
            },
        }
    }
}

/// A row of the list. `visible` says which entry of the pane each of its rows is.
pub fn side_row(
    row: &GroupedRow,
    data: &Vec<SideEntry>,
    visible: &Vec<usize>,
    cursor: usize,
    inks: &SideInks,
) -> (r: SideRow)
    requires
        row matches GroupedRow::File { visible: at } ==> at < visible@.len() && visible@[at as int]
            < data@.len(),
    ensures
        r.draws(*row, data@, visible@, cursor, *inks),
{
    match row {
        GroupedRow::Heading { dir, count } => SideRow::Label {
            text: if dir.as_str().unicode_len() == 0 {
                "repository root".to_owned()
            } else {
                dir.clone()
            },
            count: count.clone(),
        },
        GroupedRow::File { visible: at } => {
            let d: usize = visible[*at];
            match &data[d] {
                SideEntry::Heading => SideRow::Blank,
                SideEntry::File { section, dir, name, letters } => {
                    let staged: bool = *section == Section::Staged;
                    SideRow::File(
                        SideFile {
                            current: *at == cursor,
                            box_border: if staged {
                                inks.accent
                            } else {
                                inks.faint
                            },
                            box_fill: if staged {
                                Some(inks.accent)
                            } else {
                                None
                            },
                            dir: dir.clone(),
                            name: name.clone(),
                            letters: *letters,
                            letters_fg: match *section {
                                Section::Staged => inks.staged,
                                Section::Unstaged => inks.unstaged,
                                Section::Untracked => inks.untracked,
                                Section::Conflicts => inks.conflicts,
                            },
                        },
                    )
                },
            }
        },
    }
}

} // verus!
