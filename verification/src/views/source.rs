//! A diff as it was read: whole lines, not yet clipped, compared by word or
//! coloured. The rows are built from what is made of it; a verb that acts on a
//! hunk acts on the hunk here.
use super::rows::{File, LineKind};
use crate::text;
use std::sync::Arc;
use vstd::prelude::*;

verus! {

/// One line of a hunk.
#[derive(Debug)]
pub struct SourceLine {
    pub kind: LineKind,
    /// Part of a block that was moved rather than written or deleted.
    pub moved: bool,
    pub old_no: Option<u32>,
    pub new_no: Option<u32>,
    pub text: Arc<str>,
}

/// One hunk of a file.
#[derive(Debug)]
pub struct SourceHunk {
    pub header: Arc<str>,
    pub lines: Vec<SourceLine>,
}

/// One file of a diff.
#[derive(Debug)]
pub struct Source {
    pub path: Arc<str>,
    pub hunks: Vec<SourceHunk>,
}

pub ghost struct SourceLineView {
    pub kind: LineKind,
    pub moved: bool,
    pub old_no: Option<u32>,
    pub new_no: Option<u32>,
    pub text: Seq<char>,
}

pub ghost struct SourceHunkView {
    pub header: Seq<char>,
    pub lines: Seq<SourceLineView>,
}

pub ghost struct SourceView {
    pub path: Seq<char>,
    pub hunks: Seq<SourceHunkView>,
}

impl View for SourceLine {
    type V = SourceLineView;

    open spec fn view(&self) -> SourceLineView {
        SourceLineView {
            kind: self.kind,
            moved: self.moved,
            old_no: self.old_no,
            new_no: self.new_no,
            text: self.text@,
        }
    }
}

impl View for SourceHunk {
    type V = SourceHunkView;

    open spec fn view(&self) -> SourceHunkView {
        SourceHunkView {
            header: self.header@,
            lines: self.lines@.map_values(|l: SourceLine| l@),
        }
    }
}

impl View for Source {
    type V = SourceView;

    open spec fn view(&self) -> SourceView {
        SourceView { path: self.path@, hunks: self.hunks@.map_values(|h: SourceHunk| h@) }
    }
}

/// What a diff says, file by file.
pub open spec fn source_views(files: Seq<Source>) -> Seq<SourceView> {
    files.map_values(|f: Source| f@)
}

fn same_number(a: Option<u32>, b: Option<u32>) -> (r: bool)
    ensures
        r == (a == b),
{
    match (a, b) {
        (Some(a), Some(b)) => a == b,
        (None, None) => true,
        _ => false,
    }
}

fn same_line(a: &SourceLine, b: &SourceLine) -> (r: bool)
    ensures
        r == (a@ == b@),
{
    a.kind == b.kind && a.moved == b.moved && same_number(a.old_no, b.old_no) && same_number(
        a.new_no,
        b.new_no,
    ) && text::same(&*a.text, &*b.text)
}

fn same_hunk(a: &SourceHunk, b: &SourceHunk) -> (r: bool)
    ensures
        r == (a@ == b@),
{
    if !text::same(&*a.header, &*b.header) {
        return false;
    }
    assert(a@.lines.len() == a.lines@.len() && b@.lines.len() == b.lines@.len());
    if a.lines.len() != b.lines.len() {
        return false;
    }
    let mut i: usize = 0;
    while i < a.lines.len()
        invariant
            i <= a.lines@.len(),
            a.lines@.len() == b.lines@.len(),
            forall|k: int| 0 <= k < i ==> (#[trigger] a.lines@[k])@ == b.lines@[k]@,
        decreases a.lines@.len() - i,
    {
        if !same_line(&a.lines[i], &b.lines[i]) {
            assert(a@.lines[i as int] != b@.lines[i as int]);
            return false;
        }
        i += 1;
    }
    assert(a@.lines =~= b@.lines);
    true
}

fn same_file(a: &Source, b: &Source) -> (r: bool)
    ensures
        r == (a@ == b@),
{
    if !text::same(&*a.path, &*b.path) {
        return false;
    }
    assert(a@.hunks.len() == a.hunks@.len() && b@.hunks.len() == b.hunks@.len());
    if a.hunks.len() != b.hunks.len() {
        return false;
    }
    let mut i: usize = 0;
    while i < a.hunks.len()
        invariant
            i <= a.hunks@.len(),
            a.hunks@.len() == b.hunks@.len(),
            forall|k: int| 0 <= k < i ==> (#[trigger] a.hunks@[k])@ == b.hunks@[k]@,
        decreases a.hunks@.len() - i,
    {
        if !same_hunk(&a.hunks[i], &b.hunks[i]) {
            assert(a@.hunks[i as int] != b@.hunks[i as int]);
            return false;
        }
        i += 1;
    }
    assert(a@.hunks =~= b@.hunks);
    true
}

/// Whether two diffs say the same.
pub fn same_diff(a: &Vec<Source>, b: &Vec<Source>) -> (r: bool)
    ensures
        r == (source_views(a@) == source_views(b@)),
{
    assert(source_views(a@).len() == a@.len() && source_views(b@).len() == b@.len());
    if a.len() != b.len() {
        return false;
    }
    let mut i: usize = 0;
    while i < a.len()
        invariant
            i <= a@.len(),
            a@.len() == b@.len(),
            forall|k: int| 0 <= k < i ==> (#[trigger] a@[k])@ == b@[k]@,
        decreases a@.len() - i,
    {
        if !same_file(&a[i], &b[i]) {
            assert(source_views(a@)[i as int] != source_views(b@)[i as int]);
            return false;
        }
        i += 1;
    }
    assert(source_views(a@) =~= source_views(b@));
    true
}

/// The first file at `path`.
pub open spec fn source_at(files: Seq<Source>, path: Seq<char>) -> Option<Source>
    decreases files.len(),
{
    if files.len() == 0 {
        None
    } else if files[0].path@ == path {
        Some(files[0])
    } else {
        source_at(files.skip(1), path)
    }
}

/// The file found at a path is the first that has it.
pub proof fn the_first_source_is_found(files: Seq<Source>, path: Seq<char>) -> (i: int)
    ensures
        match source_at(files, path) {
            Some(f) => 0 <= i < files.len() && files[i] == f && f.path@ == path,
            None => i == files.len(),
        },
        forall|j: int| 0 <= j < i ==> (#[trigger] files[j]).path@ != path,
    decreases files.len(),
{
    if files.len() == 0 || files[0].path@ == path {
        0
    } else {
        let rest = files.skip(1);
        let i = the_first_source_is_found(rest, path);
        assert forall|j: int| 0 <= j < i + 1 implies (#[trigger] files[j]).path@ != path by {
            if j > 0 {
                assert(rest[j - 1] == files[j]);
            }
        }
        i + 1
    }
}

/// The first file at `path`.
pub fn find_source<'a>(files: &'a Vec<Source>, path: &str) -> (r: Option<&'a Source>)
    ensures
        match r {
            Some(f) => source_at(files@, path@) == Some(*f),
            None => source_at(files@, path@) is None,
        },
{
    let mut i: usize = 0;
    assert(files@.skip(0) =~= files@);
    while i < files.len()
        invariant
            i <= files@.len(),
            source_at(files@, path@) == source_at(files@.skip(i as int), path@),
        decreases files@.len() - i,
    {
        let f = &files[i];
        if text::same(&*f.path, path) {
            return Some(f);
        }
        assert(files@.skip(i as int).skip(1) =~= files@.skip(i + 1));
        i += 1;
    }
    None
}

/// The files are what was made of the diff: the same paths in the same order,
/// with as many hunks each.
pub open spec fn prepared_from(files: Seq<File>, source: Seq<Source>) -> bool {
    &&& files.len() == source.len()
    &&& forall|i: int|
        #![trigger files[i]]
        #![trigger source[i]]
        0 <= i < files.len() ==> files[i].path@ == source[i].path@ && files[i].hunks@.len()
            == source[i].hunks@.len()
}

/// Whether the files are what was made of the diff.
pub fn is_prepared(files: &Vec<File>, source: &Vec<Source>) -> (r: bool)
    ensures
        r == prepared_from(files@, source@),
{
    if files.len() != source.len() {
        return false;
    }
    let mut i: usize = 0;
    while i < files.len()
        invariant
            i <= files@.len(),
            files@.len() == source@.len(),
            forall|k: int|
                #![trigger files@[k]]
                #![trigger source@[k]]
                0 <= k < i ==> files@[k].path@ == source@[k].path@ && files@[k].hunks@.len()
                    == source@[k].hunks@.len(),
        decreases files@.len() - i,
    {
        if !text::same(&*files[i].path, &*source[i].path) || files[i].hunks.len()
            != source[i].hunks.len() {
            assert(files@[i as int].path@ != source@[i as int].path@
                || files@[i as int].hunks@.len() != source@[i as int].hunks@.len());
            return false;
        }
        i += 1;
    }
    true
}

} // verus!
