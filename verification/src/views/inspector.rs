//! The commit inspector: what is staged, the drafts, and the button.
use super::draw::Rgb;
use crate::text;
use vstd::prelude::*;

verus! {

/// What the button runs, lit or not: a press that may not commit says why.
pub const COMMIT: &'static str = "workspace.commit";

/// A staged file: how many of its hunks are staged, and how many it has.
#[derive(Debug)]
pub struct StagedFile {
    pub name: String,
    pub dir: String,
    pub hunks: (u32, u32),
}

/// How much of a file is staged. A file that counts no hunks is staged whole.
pub open spec fn hunks_text(hunks: (u32, u32)) -> Seq<char> {
    if hunks.0 == 0 && hunks.1 == 0 {
        "staged"@
    } else {
        text::decimal(hunks.0 as nat) + "/"@ + text::decimal(hunks.1 as nat) + " hunks"@
    }
}

/// How much of a file is staged.
pub fn hunks(f: &StagedFile) -> (r: String)
    ensures
        r@ == hunks_text(f.hunks),
{
    let (staged, total) = f.hunks;
    if staged == 0 && total == 0 {
        return "staged".to_owned();
    }
    let mut out = String::new();
    text::push_decimal(&mut out, staged as u64);
    out.append("/");
    text::push_decimal(&mut out, total as u64);
    out.append(" hunks");
    assert(out@ =~= hunks_text(f.hunks));
    out
}

/// The staged files as they are listed.
#[derive(Debug)]
pub enum Staged {
    /// A note where there are none.
    Nothing(&'static str),
    /// How much of each is staged.
    Files(Vec<String>),
}

/// The colours of the button.
#[derive(Clone, Copy, Debug, PartialEq, Eq, Structural)]
pub struct ButtonInks {
    pub accent: Rgb,
    pub raised: Rgb,
    pub status_bg: Rgb,
    pub dim: Rgb,
}

/// The inspector as it is drawn.
#[derive(Debug)]
pub struct Inspector {
    /// How many files are staged, over everything.
    pub headline: String,
    /// The same, beside the list's label.
    pub count: String,
    pub staged: Staged,
    pub hunks: String,
    /// What stands where a field is missing.
    pub summary: Option<&'static str>,
    pub description: Option<&'static str>,
    pub button_bg: Rgb,
    pub button_fg: Rgb,
}

impl Inspector {
    /// The list shows `files`.
    pub open spec fn lists(&self, files: Seq<StagedFile>) -> bool {
        match self.staged {
            Staged::Nothing(note) => files.len() == 0 && note@ == "No staged changes"@,
            Staged::Files(v) => files.len() > 0 && v@.len() == files.len() && forall|i: int|
                0 <= i < v@.len() ==> (#[trigger] v@[i])@ == hunks_text(files[i].hunks),
        }
    }
}

/// What stands where a field is: nothing in the way of a field that is there.
pub open spec fn stands_in(r: Option<&'static str>, there: bool, note: Seq<char>) -> bool {
    match r {
        Some(said) => !there && said@ == note,
        None => there,
    }
}

fn list(files: &Vec<StagedFile>) -> (r: Staged)
    ensures
        match r {
            Staged::Nothing(note) => files@.len() == 0 && note@ == "No staged changes"@,
            Staged::Files(v) => files@.len() > 0 && v@.len() == files@.len() && forall|i: int|
                0 <= i < v@.len() ==> (#[trigger] v@[i])@ == hunks_text(files@[i].hunks),
        },
{
    if files.len() == 0 {
        return Staged::Nothing("No staged changes");
    }
    let mut out: Vec<String> = Vec::new();
    let mut i: usize = 0;
    while i < files.len()
        invariant
            i <= files@.len(),
            out@.len() == i,
            forall|k: int| 0 <= k < i ==> (#[trigger] out@[k])@ == hunks_text(files@[k].hunks),
        decreases files@.len() - i,
    {
        out.push(hunks(&files[i]));
        i += 1;
    }
    Staged::Files(out)
}

fn counted(n: u64, what: &str) -> (r: String)
    ensures
        r@ == text::decimal(n as nat) + what@,
{
    let mut out = String::new();
    text::push_decimal(&mut out, n);
    out.append(what);
    assert(out@ =~= text::decimal(n as nat) + what@);
    out
}

/// The inspector over `staged`. The button is lit only when it may commit; a
/// field that is not there yet says so in its own place.
pub fn render_inspector(
    staged: &Vec<StagedFile>,
    staged_hunks: u32,
    can_commit: bool,
    has_summary: bool,
    has_description: bool,
    inks: &ButtonInks,
) -> (r: Inspector)
    ensures
        r.lists(staged@),
        r.headline@ == text::decimal(staged@.len()) + " files staged"@,
        r.count@ == text::decimal(staged@.len()),
        r.hunks@ == text::decimal(staged_hunks as nat) + " hunks staged"@,
        stands_in(r.summary, has_summary, "Summary arrives with the workspace."@),
        stands_in(r.description, has_description, "Description arrives with the workspace."@),
        r.button_bg == if can_commit {
            inks.accent
        } else {
            inks.raised
        },
        r.button_fg == if can_commit {
            inks.status_bg
        } else {
            inks.dim
        },
{
    Inspector {
        headline: counted(staged.len() as u64, " files staged"),
        count: text::decimal_text(staged.len()),
        staged: list(staged),
        hunks: counted(staged_hunks as u64, " hunks staged"),
        summary: if has_summary {
            None
        } else {
            Some("Summary arrives with the workspace.")
        },
        description: if has_description {
            None
        } else {
            Some("Description arrives with the workspace.")
        },
        button_bg: if can_commit {
            inks.accent
        } else {
            inks.raised
        },
        button_fg: if can_commit {
            inks.status_bg
        } else {
            inks.dim
        },
    }
}

} // verus!
