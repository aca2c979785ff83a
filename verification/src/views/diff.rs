//! The diff pane: a diff arranged into rows, where the keyboard is in it, and
//! what a key, a click or a new diff does to that.
use super::draw::RowState;
use super::list::{
    drift_of, each_command_is_its_own_move, held_row, hold, inside, motion_of, pressed, reconcile,
    run_view, wheel_route, Drift, Motion, PendingScroll, Wheel,
};
use super::rows::{
    alike, alike_presentations_arrange_alike, all_known, all_ready, all_rebroken, anchor_is_found,
    anchor_is_the_last_start, anchor_row, arrange, arrangeable, arranged, chosen, claimant,
    collapsed, entries_are_listed, expand, extent_of, grown, grown_len, header_rows,
    headers_are_listed, hunk_marks, hunk_starts, ids_of, is_table, jump_target, known, laid_out,
    laying_out_keeps_order, laying_out_makes_a_table, marks_are_hunk_starts, models, positions,
    rebroken, rising, row_of, same_id, segments_stand_together, span_at, walked, widest_at, Built,
    File, HunkExtent, RowModel, RowRef, Rows,
};
use super::source::{
    find_source, prepared_from, same_diff, source_at, source_views, the_first_source_is_found,
    Source, SourceHunk,
};
use super::text_rows::{rows_name_hunks_of_their_file, text_rows_are_coherent, TextRows};
use crate::text;
use vstd::prelude::*;

verus! {

// ---------------------------------------------------------------------------
// Presentations
// ---------------------------------------------------------------------------

/// A named presentation. `build` is whatever makes its rows.
#[derive(Debug)]
pub struct Layout<B> {
    pub name: &'static str,
    pub build: B,
}

/// Every presentation the pane can be in, in the order they are cycled.
#[derive(Debug)]
pub struct Layouts<B> {
    pub entries: Vec<Layout<B>>,
}

/// The names of some presentations.
pub open spec fn layout_names<B>(entries: Seq<Layout<B>>) -> Seq<Seq<char>> {
    entries.map_values(|l: Layout<B>| l.name@)
}

impl<B> Layouts<B> {
    /// No presentations.
    pub fn new() -> (r: Layouts<B>)
        ensures
            r.entries@.len() == 0,
    {
        Layouts { entries: Vec::new() }
    }

    /// The two shipped presentations.
    pub fn builtin(unified: B, split: B) -> (r: Layouts<B>)
        ensures
            r.entries@ == seq![
                Layout { name: "unified", build: unified },
                Layout { name: "split", build: split },
            ],
    {
        let mut l: Layouts<B> = Layouts::new();
        proof {
            reveal_strlit("unified");
            reveal_strlit("split");
            let one = seq![Layout { name: "unified", build: unified }];
            assert(layout_names(l.entries@) =~= seq![]);
            assert(layout_names(one).drop_last() =~= seq![]);
            assert("unified"@[0] != "split"@[0]);
            assert(layout_names(one).last() != "split"@);
            reveal_with_fuel(text::place, 2);
        }
        l.register("unified", unified);
        assert(l.entries@ =~= seq![Layout { name: "unified", build: unified }]);
        l.register("split", split);
        l
    }

    /// Which presentation to open on: the one of that name, or the first.
    pub fn opening(&self, name: &str) -> (r: usize)
        ensures
            r == match text::place(layout_names(self.entries@), name@) {
                Some(i) => i,
                None => 0,
            },
    {
        match self.position(name) {
            Some(i) => i,
            None => 0,
        }
    }

    /// Adds a presentation, in place of one of the same name where there is one.
    pub fn register(&mut self, name: &'static str, build: B)
        ensures
            match text::place(layout_names(old(self).entries@), name@) {
                Some(i) => final(self).entries@ == old(self).entries@.update(
                    i,
                    (Layout { name, build }),
                ),
                None => final(self).entries@ == old(self).entries@.push((Layout { name, build })),
            },
    {
        match self.position(name) {
            Some(i) => {
                self.entries.set(i, Layout { name, build });
            },
            None => {
                self.entries.push(Layout { name, build });
            },
        }
    }

    /// The names, in the order they are cycled.
    pub fn names(&self) -> (r: Vec<&'static str>)
        ensures
            r@.map_values(|s: &'static str| s@) == layout_names(self.entries@),
    {
        let mut out: Vec<&'static str> = Vec::new();
        let mut i: usize = 0;
        let ghost chars = |s: &'static str| s@;
        assert(out@.map_values(chars) =~= layout_names(self.entries@).take(0));
        while i < self.entries.len()
            invariant
                i <= self.entries@.len(),
                chars == (|s: &'static str| s@),
                out@.map_values(chars) == layout_names(self.entries@).take(i as int),
            decreases self.entries@.len() - i,
        {
            let ghost was = out@;
            out.push(self.entries[i].name);
            assert(out@.map_values(chars) =~= was.map_values(chars).push(
                self.entries@[i as int].name@,
            ));
            assert(out@.map_values(chars) =~= layout_names(self.entries@).take(i + 1));
            i += 1;
        }
        assert(layout_names(self.entries@).take(i as int) =~= layout_names(self.entries@));
        out
    }

    /// The place of a name.
    pub fn position(&self, name: &str) -> (r: Option<usize>)
        ensures
            match r {
                Some(i) => text::place(layout_names(self.entries@), name@) == Some(i as int) && i
                    < self.entries@.len(),
                None => text::place(layout_names(self.entries@), name@) is None,
            },
    {
        let ghost names = layout_names(self.entries@);
        let mut i: usize = 0;
        assert(names.take(0) =~= seq![]);
        while i < self.entries.len()
            invariant
                i <= self.entries@.len(),
                names == layout_names(self.entries@),
                text::place(names.take(i as int), name@) is None,
            decreases self.entries@.len() - i,
        {
            assert(names.take(i + 1).drop_last() =~= names.take(i as int));
            if text::same(self.entries[i].name, name) {
                proof {
                    text::place_stays(names, name@, i + 1);
                }
                return Some(i);
            }
            i += 1;
        }
        assert(names.take(i as int) =~= names);
        None
    }

    /// How many presentations there are.
    pub fn len(&self) -> (r: usize)
        ensures
            r == self.entries@.len(),
    {
        self.entries.len()
    }
}

/// Registering a name makes it known, and registering it again replaces the
/// presentation rather than adding one.
pub proof fn registering_again_replaces<B>(entries: Seq<Layout<B>>, name: &'static str, build: B)
    ensures
        ({
            let after = match text::place(layout_names(entries), name@) {
                Some(i) => entries.update(i, (Layout { name, build })),
                None => entries.push((Layout { name, build })),
            };
            &&& text::place(layout_names(after), name@) is Some
            &&& text::place(layout_names(entries), name@) is Some ==> after.len() == entries.len()
                && layout_names(after) == layout_names(entries)
            &&& after[text::place(layout_names(after), name@).unwrap()].build == build
        }),
{
    let names = layout_names(entries);
    text::place_is_first(names, name@);
    match text::place(names, name@) {
        Some(i) => {
            let after = entries.update(i, (Layout { name, build }));
            assert(layout_names(after) =~= names);
        },
        None => {
            let after = entries.push((Layout { name, build }));
            let now = layout_names(after);
            assert(now.drop_last() =~= names);
            assert(now.last() == name@);
        },
    }
}

// ---------------------------------------------------------------------------
// Commands
// ---------------------------------------------------------------------------

/// What a command asks of a diff.
#[derive(Clone, Copy, Debug, PartialEq, Eq, Structural)]
pub enum DiffCommand {
    /// Move the keyboard.
    Move(Motion),
    /// Move the text sideways by this many columns.
    Pan(isize),
    /// Jump to the next file, or to the one before for a negative number.
    JumpFile(isize),
    CycleLayout,
    CycleWrap,
    /// Not one of the pane's commands.
    Unknown,
}

/// The command that a name is.
pub open spec fn command_of(command: Seq<char>) -> DiffCommand {
    if command == "view.left"@ {
        DiffCommand::Pan((-8) as isize)
    } else if command == "view.right"@ {
        DiffCommand::Pan(8)
    } else if command == "diff.next-file"@ {
        DiffCommand::JumpFile(1)
    } else if command == "diff.prev-file"@ {
        DiffCommand::JumpFile((-1) as isize)
    } else if command == "diff.cycle-layout"@ {
        DiffCommand::CycleLayout
    } else if command == "diff.cycle-wrap"@ {
        DiffCommand::CycleWrap
    } else if motion_of(command).moves() {
        DiffCommand::Move(motion_of(command))
    } else {
        DiffCommand::Unknown
    }
}

/// The command that a name is. Unlike a list, a diff moves sideways.
pub fn run_command(command: &str) -> (r: DiffCommand)
    ensures
        r == command_of(command@),
{
    if text::same(command, "view.left") {
        return DiffCommand::Pan(-8);
    }
    if text::same(command, "view.right") {
        return DiffCommand::Pan(8);
    }
    if text::same(command, "diff.next-file") {
        return DiffCommand::JumpFile(1);
    }
    if text::same(command, "diff.prev-file") {
        return DiffCommand::JumpFile(-1);
    }
    if text::same(command, "diff.cycle-layout") {
        return DiffCommand::CycleLayout;
    }
    if text::same(command, "diff.cycle-wrap") {
        return DiffCommand::CycleWrap;
    }
    let motion = run_view(command);
    if motion.is_move() {
        DiffCommand::Move(motion)
    } else {
        DiffCommand::Unknown
    }
}

/// Fourteen commands are a diff's, and nothing else is: eight move the keyboard,
/// two move the text sideways, and four are the diff's own.
pub proof fn the_commands_of_a_diff(command: Seq<char>)
    ensures
        command_of("view.down"@) == DiffCommand::Move(Motion::Down),
        command_of("view.up"@) == DiffCommand::Move(Motion::Up),
        command_of("view.page-down"@) == DiffCommand::Move(Motion::PageDown),
        command_of("view.page-up"@) == DiffCommand::Move(Motion::PageUp),
        command_of("view.scroll-down"@) == DiffCommand::Move(Motion::ScrollDown),
        command_of("view.scroll-up"@) == DiffCommand::Move(Motion::ScrollUp),
        command_of("view.top"@) == DiffCommand::Move(Motion::Top),
        command_of("view.bottom"@) == DiffCommand::Move(Motion::Bottom),
        command_of("view.left"@) == DiffCommand::Pan((-8) as isize),
        command_of("view.right"@) == DiffCommand::Pan(8),
        command_of("diff.next-file"@) == DiffCommand::JumpFile(1),
        command_of("diff.prev-file"@) == DiffCommand::JumpFile((-1) as isize),
        command_of("diff.cycle-layout"@) == DiffCommand::CycleLayout,
        command_of("diff.cycle-wrap"@) == DiffCommand::CycleWrap,
        command_of(command) is Unknown <==> {
            &&& command != "view.down"@ && command != "view.up"@
            &&& command != "view.page-down"@ && command != "view.page-up"@
            &&& command != "view.scroll-down"@ && command != "view.scroll-up"@
            &&& command != "view.top"@ && command != "view.bottom"@
            &&& command != "view.left"@ && command != "view.right"@
            &&& command != "diff.next-file"@ && command != "diff.prev-file"@
            &&& command != "diff.cycle-layout"@ && command != "diff.cycle-wrap"@
        },
{
    each_command_is_its_own_move();
    reveal_strlit("view.down");
    reveal_strlit("view.up");
    reveal_strlit("view.page-down");
    reveal_strlit("view.page-up");
    reveal_strlit("view.scroll-down");
    reveal_strlit("view.scroll-up");
    reveal_strlit("view.top");
    reveal_strlit("view.bottom");
    reveal_strlit("view.left");
    reveal_strlit("view.right");
    reveal_strlit("diff.next-file");
    reveal_strlit("diff.prev-file");
    reveal_strlit("diff.cycle-layout");
    reveal_strlit("diff.cycle-wrap");
    assert("view.down"@[0] == 'v');
    assert("view.up"@[0] == 'v');
    assert("view.page-down"@[0] == 'v');
    assert("view.page-up"@[0] == 'v');
    assert("view.scroll-down"@[0] == 'v');
    assert("view.scroll-up"@[0] == 'v');
    assert("view.top"@[0] == 'v');
    assert("view.bottom"@[0] == 'v');
    assert("view.left"@[0] == 'v');
    assert("view.right"@[0] == 'v');
    assert("diff.next-file"@[0] == 'd');
    assert("diff.prev-file"@[0] == 'd');
    assert("diff.cycle-layout"@[0] == 'd');
    assert("diff.cycle-wrap"@[0] == 'd');
    assert("view.down"@[5] != "view.left"@[5]);
    assert("view.left"@.len() == 9);
    assert("view.right"@.len() == 10);
    assert("diff.next-file"@[5] != "diff.prev-file"@[5]);
    assert("diff.cycle-layout"@.len() == 17);
    assert("diff.cycle-wrap"@.len() == 15);
}

/// The entry after `current` of `count`, around the end. One entry has nothing
/// to cycle to.
pub open spec fn cycled(current: usize, count: usize) -> usize {
    if count >= 2 {
        ((current + 1) % (count as int)) as usize
    } else {
        current
    }
}

fn cycle_to(current: usize, count: usize) -> (r: usize)
    requires
        current < usize::MAX,
    ensures
        r == cycled(current, count),
{
    if count >= 2 {
        (current + 1) % count
    } else {
        current
    }
}

// ---------------------------------------------------------------------------
// Where the keyboard is
// ---------------------------------------------------------------------------

/// What the pane's title says of the file the keyboard is in.
#[derive(Clone, Debug, PartialEq, Eq)]
pub struct FileSummary {
    pub path: String,
    pub adds: u64,
    pub dels: u64,
    /// Which hunk of the file the keyboard is in, counted from one. Zero for a
    /// file with no hunks.
    pub hunk: usize,
    pub hunks: usize,
}

/// What a summary says.
pub ghost struct Summary {
    pub path: Seq<char>,
    pub adds: nat,
    pub dels: nat,
    pub hunk: nat,
    pub hunks: nat,
}

impl View for FileSummary {
    type V = Summary;

    open spec fn view(&self) -> Summary {
        Summary {
            path: self.path@,
            adds: self.adds as nat,
            dels: self.dels as nat,
            hunk: self.hunk as nat,
            hunks: self.hunks as nat,
        }
    }
}

/// The first file at `path`.
pub open spec fn file_at(files: Seq<File>, path: Seq<char>) -> Option<int>
    decreases files.len(),
{
    if files.len() == 0 {
        None
    } else {
        match file_at(files.drop_last(), path) {
            Some(i) => Some(i),
            None => if files.last().path@ == path {
                Some(files.len() - 1)
            } else {
                None
            },
        }
    }
}

/// The file found at a path is the first that has it.
pub proof fn the_first_file_is_found(files: Seq<File>, path: Seq<char>)
    ensures
        match file_at(files, path) {
            Some(i) => {
                &&& 0 <= i < files.len()
                &&& files[i].path@ == path
                &&& forall|j: int| 0 <= j < i ==> (#[trigger] files[j]).path@ != path
            },
            None => forall|j: int| 0 <= j < files.len() ==> (#[trigger] files[j]).path@ != path,
        },
    decreases files.len(),
{
    if files.len() > 0 {
        let rest = files.drop_last();
        the_first_file_is_found(rest, path);
        assert forall|j: int| 0 <= j < rest.len() implies #[trigger] files[j] == rest[j] by {}
    }
}

proof fn file_stays(files: Seq<File>, path: Seq<char>, n: int)
    requires
        0 <= n <= files.len(),
        file_at(files.take(n), path) is Some,
    ensures
        file_at(files, path) == file_at(files.take(n), path),
    decreases files.len(),
{
    if n < files.len() {
        assert(files.drop_last().take(n) =~= files.take(n));
        file_stays(files.drop_last(), path, n);
    } else {
        assert(files.take(n) =~= files);
    }
}

fn find_file(files: &Vec<File>, path: &str) -> (r: Option<usize>)
    ensures
        match r {
            Some(i) => file_at(files@, path@) == Some(i as int) && i < files@.len(),
            None => file_at(files@, path@) is None,
        },
{
    let mut i: usize = 0;
    assert(files@.take(0) =~= seq![]);
    while i < files.len()
        invariant
            i <= files@.len(),
            file_at(files@.take(i as int), path@) is None,
        decreases files@.len() - i,
    {
        assert(files@.take(i + 1).drop_last() =~= files@.take(i as int));
        if text::same(&*files[i].path, path) {
            proof {
                file_stays(files@, path@, i + 1);
            }
            return Some(i);
        }
        i += 1;
    }
    assert(files@.take(i as int) =~= files@);
    None
}

/// The file that a row is in, and which of its hunks: a row of a hunk is in its
/// hunk, and a file's band is in its file.
pub open spec fn located(row: RowModel) -> Option<(Seq<char>, Option<nat>)> {
    match row.hunk {
        Some((path, n)) => Some((path, Some(n))),
        None => if row.header && row.texts.contains_key(0) {
            Some((row.texts[0], None))
        } else {
            None
        },
    }
}

/// How a presentation's row is found by a click.
#[derive(Clone, Copy, Debug, PartialEq, Eq, Structural)]
pub struct Located {
    /// The visual row that was clicked.
    pub visual: usize,
    pub row: RowRef,
    /// The visual rows that its logical row takes.
    pub first: usize,
    pub count: usize,
}

/// What a press of the mouse does to the selection.
#[derive(Clone, Copy, Debug, PartialEq, Eq, Structural)]
pub enum Press {
    /// Move the end of the selection that is there.
    Extend,
    /// Select the word.
    Word,
    /// Select the whole row.
    Row,
    /// Start a selection.
    Start,
}

/// What a press does: with shift it extends a selection of the same text, two
/// clicks take the word and three or more the row.
pub fn press(shift: bool, selected: Option<u16>, part: u16, clicks: usize) -> (r: Press)
    ensures
        r == if shift && selected == Some(part) {
            Press::Extend
        } else if clicks == 2 {
            Press::Word
        } else if clicks >= 3 {
            Press::Row
        } else {
            Press::Start
        },
{
    let extend: bool = match selected {
        Some(p) => shift && p == part,
        None => false,
    };
    if extend {
        Press::Extend
    } else if clicks == 2 {
        Press::Word
    } else if clicks >= 3 {
        Press::Row
    } else {
        Press::Start
    }
}

/// Where a drag over part `part` leaves a selection of part `anchor`. Parts stand
/// left to right: past the anchor's part is the end of its text, `len`, and
/// before it is the start.
pub fn drag_to(part: u16, anchor: u16, off: usize, len: usize) -> (r: usize)
    ensures
        r == if part == anchor {
            off
        } else if part > anchor {
            len
        } else {
            0
        },
{
    if part == anchor {
        off
    } else if part > anchor {
        len
    } else {
        0
    }
}

/// The row a drag past the edge pulls to the top: a row per row of overshoot,
/// and one at least. `over` is the overshoot in whole rows, `sign` its direction.
pub fn autoscroll(top: usize, over: i64, sign: i64, len: usize) -> (r: Option<usize>)
    requires
        -1 <= sign <= 1,
    ensures
        match r {
            Some(to) => len > 0 && ({
                let by = if over == 0 {
                    sign as int
                } else {
                    over as int
                };
                to == if top + by < 0 {
                    0
                } else if top + by > len - 1 {
                    len - 1
                } else {
                    top + by
                }
            }),
            None => len == 0,
        },
{
    if len == 0 {
        return None;
    }
    let by: i64 = if over == 0 {
        sign
    } else {
        over
    };
    let to: i128 = top as i128 + by as i128;
    if to < 0 {
        Some(0)
    } else if to > (len - 1) as i128 {
        Some(len - 1)
    } else {
        Some(to as usize)
    }
}

/// What copying copies: the selection, or else the keyboard's row. Nothing where
/// both are empty, so that nothing copied elsewhere is lost.
pub fn copied(selection: String, row: String) -> (r: Option<String>)
    ensures
        text::maybe_text(r) == if selection@.len() > 0 {
            Some(selection@)
        } else if row@.len() > 0 {
            Some(row@)
        } else {
            None
        },
{
    if selection.as_str().unicode_len() > 0 {
        Some(selection)
    } else if row.as_str().unicode_len() > 0 {
        Some(row)
    } else {
        None
    }
}

/// What a frame does before it draws: rebuild the rows, break them anew, both or
/// neither.
#[derive(Clone, Copy, Debug, PartialEq, Eq, Structural)]
pub struct Reflow {
    pub rebuild: bool,
    pub rebreak: bool,
}

/// What a frame does, given whether the face is the one the rows were built for,
/// whether the width and the wrap are those they were broken for, and whether
/// there is any width yet. Rows that were just built are broken for nothing.
pub fn reflow(same_font: bool, same_width: bool, positive: bool) -> (r: Reflow)
    ensures
        r.rebuild == !same_font,
        r.rebreak == (positive && !(same_font && same_width)),
{
    Reflow { rebuild: !same_font, rebreak: positive && !(same_font && same_width) }
}

/// What the overlay says after the rows were broken anew: the policy, the width,
/// how many rows the lines take, and how far there is to scroll.
pub fn reflow_note(
    wrap: &str,
    width: &str,
    rows: usize,
    lines: usize,
    right: Option<&str>,
) -> (r: String)
    ensures
        r@ == wrap@ + " · "@ + width@ + " px · "@ + text::decimal(rows as nat) + " rows / "@
            + text::decimal(lines as nat) + " lines"@ + (match right {
            Some(px) => " · "@ + px@ + " px right"@,
            None => seq![],
        }),
{
    let mut out = wrap.to_owned();
    out.append(" · ");
    out.append(width);
    out.append(" px · ");
    text::push_decimal(&mut out, rows as u64);
    out.append(" rows / ");
    text::push_decimal(&mut out, lines as u64);
    out.append(" lines");
    let ghost said = out@;
    if let Some(px) = right {
        out.append(" · ");
        out.append(px);
        out.append(" px right");
        assert(out@ =~= said + (" · "@ + px@ + " px right"@));
    } else {
        assert(out@ =~= said + seq![]);
    }
    out
}

/// Some texts with a dot between each two.
pub open spec fn joined(parts: Seq<String>) -> Seq<char>
    decreases parts.len(),
{
    if parts.len() == 0 {
        seq![]
    } else if parts.len() == 1 {
        parts[0]@
    } else {
        joined(parts.drop_last()) + " · "@ + parts.last()@
    }
}

/// What the overlay says of an arrangement: how much there is of it, which
/// presentation it is in, how long it took, and what its parts report.
pub fn load_line(rows: usize, files: usize, name: &str, took: &str, reports: &Vec<String>) -> (r:
    String)
    ensures
        r@ == text::decimal(rows as nat) + " rows · "@ + text::decimal(files as nat) + " files · "@
            + name@ + " · build "@ + took@ + " ("@ + joined(reports@) + ")"@,
{
    let mut out = text::decimal_text(rows);
    out.append(" rows · ");
    text::push_decimal(&mut out, files as u64);
    out.append(" files · ");
    out.append(name);
    out.append(" · build ");
    out.append(took);
    out.append(" (");
    let ghost start = out@;
    let mut i: usize = 0;
    assert(out@ =~= start + joined(reports@.take(0)));
    while i < reports.len()
        invariant
            i <= reports@.len(),
            out@ == start + joined(reports@.take(i as int)),
        decreases reports@.len() - i,
    {
        assert(reports@.take(i + 1).drop_last() =~= reports@.take(i as int));
        if i > 0 {
            out.append(" · ");
        }
        out.append(reports[i].as_str());
        assert(out@ =~= start + joined(reports@.take(i + 1)));
        i += 1;
    }
    assert(reports@.take(i as int) =~= reports@);
    out.append(")");
    out
}

/// The reports that say something.
pub open spec fn spoken(reports: Seq<String>) -> Seq<Seq<char>>
    decreases reports.len(),
{
    if reports.len() == 0 {
        seq![]
    } else if reports.last()@.len() > 0 {
        spoken(reports.drop_last()).push(reports.last()@)
    } else {
        spoken(reports.drop_last())
    }
}

/// What the passes over the diff took: summed over `threads` where there were
/// several.
pub open spec fn passes_text(
    intraline: Seq<char>,
    syntax: Seq<char>,
    threads: usize,
) -> Seq<char> {
    "intraline "@ + intraline + " · syntax "@ + syntax + (if threads > 1 {
        " cpu across "@ + text::decimal(threads as nat)
    } else {
        seq![]
    })
}

/// What the parts of a load report: the passes, what they threw away where they
/// did, and each presentation that has something to say.
pub fn load_reports(
    intraline: &str,
    syntax: &str,
    threads: usize,
    rejected: usize,
    reports: &Vec<String>,
) -> (r: Vec<String>)
    ensures
        r@.map_values(|s: String| s@) == seq![passes_text(intraline@, syntax@, threads)] + (
        if rejected > 0 {
            seq![text::decimal(rejected as nat) + " spans/tokens rejected"@]
        } else {
            seq![]
        }) + spoken(reports@),
{
    let ghost chars = |s: String| s@;
    let mut out: Vec<String> = Vec::new();
    let mut first = "intraline ".to_owned();
    first.append(intraline);
    first.append(" · syntax ");
    first.append(syntax);
    if threads > 1 {
        first.append(" cpu across ");
        text::push_decimal(&mut first, threads as u64);
    }
    assert(first@ =~= passes_text(intraline@, syntax@, threads));
    out.push(first);
    if rejected > 0 {
        let mut line = text::decimal_text(rejected);
        line.append(" spans/tokens rejected");
        out.push(line);
    }
    let ghost head = out@.map_values(chars);
    assert(head =~= seq![passes_text(intraline@, syntax@, threads)] + (if rejected > 0 {
        seq![text::decimal(rejected as nat) + " spans/tokens rejected"@]
    } else {
        seq![]
    }));
    let mut i: usize = 0;
    assert(reports@.take(0) =~= seq![]);
    assert(out@.map_values(chars) =~= head + spoken(reports@.take(0)));
    while i < reports.len()
        invariant
            i <= reports@.len(),
            chars == (|s: String| s@),
            out@.map_values(chars) == head + spoken(reports@.take(i as int)),
        decreases reports@.len() - i,
    {
        assert(reports@.take(i + 1).drop_last() =~= reports@.take(i as int));
        if reports[i].as_str().unicode_len() > 0 {
            let ghost was = out@;
            out.push(reports[i].clone());
            assert(out@.map_values(chars) =~= was.map_values(chars).push(reports@[i as int]@));
            assert(out@.map_values(chars) =~= head + spoken(reports@.take(i + 1)));
        }
        i += 1;
    }
    assert(reports@.take(i as int) =~= reports@);
    out
}

// ---------------------------------------------------------------------------
// The pane
// ---------------------------------------------------------------------------

/// The diff pane.
#[derive(Debug)]
pub struct Diff<R> {
    /// The diff as it was read.
    pub source: Vec<Source>,
    /// What was made of it for the rows.
    pub files: Vec<File>,
    /// The names of the presentations, and which one is loaded.
    pub names: Vec<&'static str>,
    pub current: usize,
    /// Which wrap is on.
    pub wrap: usize,
    pub renderers: Vec<R>,
    pub order: Vec<RowRef>,
    /// Where each hunk starts in the table.
    pub marks: Vec<usize>,
    pub widest: usize,
    /// Where each file's band is in the table.
    pub headers: Vec<usize>,
    /// The logical row that a discard waits for its second press on.
    pub armed_hunk: Option<(u16, u32)>,
    /// The pane holds the keyboard.
    pub focused: bool,
    /// The keyboard's row and the top row, as the viewport last had them.
    pub cursor: usize,
    pub top: usize,
    pub pending: PendingScroll,
}

/// What a command leaves for the window to do.
#[derive(Clone, Copy, Debug, PartialEq, Eq, Structural)]
pub enum Ran {
    /// The command is not the pane's.
    Refused,
    /// Nothing is left to do.
    Done,
    /// Show the rows that the viewport now has.
    Moved,
    /// Take the viewport to this row.
    Jumped(usize),
    /// Move the text sideways by this many columns.
    Pan(isize),
    /// Load this presentation.
    Layout(usize),
}

/// Where the window takes its viewport after the rows were arranged anew.
#[derive(Clone, Copy, Debug, PartialEq, Eq, Structural)]
pub struct Rearranged {
    pub len: usize,
    pub cursor: usize,
    pub top: usize,
    /// Ask for the viewport's top row. A diff of no rows forgets its request and
    /// goes back to its top instead.
    pub park: bool,
}

impl<R: Rows> Diff<R> {
    /// The rows of every presentation.
    pub open spec fn m(&self) -> Seq<Seq<RowModel>> {
        models(self.renderers@)
    }

    /// What holds even while the presentations are being broken for a new width:
    /// every entry names a row that is there, the keyboard and the top row are rows
    /// of the table, and the files are those of the diff.
    pub open spec fn addressed(&self) -> bool {
        &&& all_ready(self.renderers@)
        &&& all_known(self.m(), self.order@)
        &&& rising(self.order@)
        &&& prepared_from(self.files@, self.source@)
        &&& inside(self.cursor, self.order@.len())
        &&& inside(self.top, self.order@.len())
    }

    /// What every pane keeps between events: the table has every segment of each
    /// of its rows, and what goes with it was taken from it.
    pub open spec fn wf(&self) -> bool {
        &&& self.addressed()
        &&& is_table(self.m(), self.order@)
        &&& widest_at(self.m(), self.order@, self.widest as int)
        &&& positions(self.headers@) == header_rows(self.m(), collapsed(self.order@))
        &&& positions(self.marks@) == walked(self.m(), self.order@).0
    }

    /// The row the keyboard is on, if there is one.
    pub open spec fn at(&self) -> Option<RowModel> {
        if self.cursor < self.order@.len() {
            Some(row_of(self.m(), self.order@[self.cursor as int].id()))
        } else {
            None
        }
    }

    /// Row `row`, held inside the table.
    pub open spec fn held(&self, row: usize) -> usize {
        held_row(row as int, self.order@.len()) as usize
    }

    /// The logical row the keyboard is on. Past the end it is a row that no
    /// presentation has.
    pub open spec fn row_id(&self) -> (u16, u32) {
        if self.cursor < self.order@.len() {
            self.order@[self.cursor as int].id()
        } else {
            (u16::MAX, u32::MAX)
        }
    }

    /// The hunk the keyboard is on, as the diff has it, and its file's path.
    pub open spec fn hunk_here(&self) -> Option<(Seq<char>, SourceHunk)> {
        match self.at() {
            Some(row) => match row.hunk {
                Some((path, n)) => match source_at(self.source@, path) {
                    Some(f) => if n < f.hunks@.len() {
                        Some((path, f.hunks@[n as int]))
                    } else {
                        None
                    },
                    None => None,
                },
                None => None,
            },
            None => None,
        }
    }

    /// What there is to say of the file the keyboard is in.
    pub open spec fn summary_here(&self) -> Option<Summary> {
        match self.at() {
            Some(row) => match located(row) {
                Some((path, hunk)) => match file_at(self.files@, path) {
                    Some(i) => Some(
                        Summary {
                            path,
                            adds: self.files@[i].adds as nat,
                            dels: self.files@[i].dels as nat,
                            hunk: match hunk {
                                Some(n) => n + 1,
                                None => if self.files@[i].hunks@.len() > 0 {
                                    1
                                } else {
                                    0
                                },
                            },
                            hunks: self.files@[i].hunks@.len(),
                        },
                    ),
                    None => None,
                },
                None => None,
            },
            None => None,
        }
    }

    /// A pane on a diff, in presentation `current`.
    pub fn with_layouts(
        source: Vec<Source>,
        files: Vec<File>,
        names: Vec<&'static str>,
        current: usize,
        wrap: usize,
        renderers: Vec<R>,
        fallback: R,
    ) -> (r: Diff<R>)
        requires
            all_ready(chosen(renderers@, fallback)),
            renderers@.len() <= u16::MAX,
            arrangeable(chosen(renderers@, fallback), files@),
            prepared_from(files@, source@),
        ensures
            r.wf(),
            r.arranged_from(chosen(renderers@, fallback), files@),
            r.source == source,
            r.files == files,
            r.names == names,
            r.current == current,
            r.wrap == wrap,
            r.armed_hunk is None,
            !r.focused,
            r.cursor == 0,
            r.top == 0,
            !r.pending.awaiting,
    {
        let built = arrange(&files, renderers, fallback);
        Diff {
            source,
            files,
            names,
            current,
            wrap,
            renderers: built.renderers,
            order: built.order,
            marks: built.marks,
            widest: built.widest,
            headers: built.headers,
            armed_hunk: None,
            focused: false,
            cursor: 0,
            top: 0,
            pending: PendingScroll::new(),
        }
    }

    /// A pane pinned to one presentation, with nothing to cycle to.
    pub fn with_renderers(
        source: Vec<Source>,
        files: Vec<File>,
        wrap: usize,
        renderers: Vec<R>,
        fallback: R,
    ) -> (r: Diff<R>)
        requires
            all_ready(chosen(renderers@, fallback)),
            renderers@.len() <= u16::MAX,
            arrangeable(chosen(renderers@, fallback), files@),
            prepared_from(files@, source@),
        ensures
            r.wf(),
            r.arranged_from(chosen(renderers@, fallback), files@),
            r.source == source,
            r.files == files,
            r.names@.len() == 1,
            r.names@[0]@ == "custom"@,
            r.current == 0,
            r.wrap == wrap,
            r.armed_hunk is None,
            !r.focused,
            r.cursor == 0,
            r.top == 0,
            !r.pending.awaiting,
    {
        let mut names: Vec<&'static str> = Vec::new();
        names.push("custom");
        Self::with_layouts(source, files, names, 0, wrap, renderers, fallback)
    }

    /// The rows are `files` arranged with `rs`.
    pub open spec fn arranged_from(&self, rs: Seq<R>, files: Seq<File>) -> bool {
        &&& self.m() == grown(rs, files)
        &&& collapsed(self.order@) == ids_of(
            arranged(rs, files, files.len() == 1),
        )
    }

    /// How many rows there are.
    pub fn total(&self) -> (r: usize)
        ensures
            r == self.order@.len(),
    {
        self.order.len()
    }

    /// Loads a wrap. One that is not there is ignored. Says whether it changed.
    pub fn set_wrap(&mut self, index: usize, count: usize) -> (r: bool)
        ensures
            r == (index < count && index != old(self).wrap),
            *final(self) == (Diff {
                wrap: if r {
                    index
                } else {
                    old(self).wrap
                },
                ..*old(self)
            }),
    {
        if index >= count || index == self.wrap {
            return false;
        }
        self.wrap = index;
        true
    }

    /// Whether a presentation can be switched to. One that is not there is
    /// ignored: the list it came from has changed.
    pub fn set_layout(&self, index: usize) -> (r: bool)
        ensures
            r == (index < self.names@.len() && index != self.current),
    {
        index < self.names.len() && index != self.current
    }

    /// The presentation to cycle to: none where there is no other. The question
    /// is dropped either way.
    pub fn cycle_layout(&mut self) -> (r: Option<usize>)
        requires
            old(self).current < usize::MAX,
        ensures
            *final(self) == (Diff { armed_hunk: None, ..*old(self) }),
            r == if old(self).names@.len() >= 2 {
                Some(cycled(old(self).current, old(self).names@.len() as usize))
            } else {
                None
            },
    {
        self.armed_hunk = None;
        let count: usize = self.names.len();
        if count >= 2 {
            Some(cycle_to(self.current, count))
        } else {
            None
        }
    }

    /// Cycles the wrap. The question is dropped: the rows are about to change.
    pub fn cycle_wrap(&mut self, count: usize)
        requires
            old(self).wrap < usize::MAX,
        ensures
            *final(self) == (Diff {
                wrap: cycled(old(self).wrap, count),
                armed_hunk: None,
                ..*old(self)
            }),
    {
        self.wrap = cycle_to(self.wrap, count);
        self.armed_hunk = None;
    }

    /// The command that a name is.
    pub fn run_view(&self, command: &str) -> (r: DiffCommand)
        ensures
            r == command_of(command@),
    {
        run_command(command)
    }

    /// The pane after a move of the keyboard that the viewport took to row `cursor`
    /// with `top` at the top. A scroll moves the rows under the keyboard and leaves
    /// the keyboard where it is. What a question was asked about is where the
    /// keyboard used to be, so it goes. What moves nothing changes nothing.
    pub open spec fn moved(self, motion: Motion, cursor: usize, top: usize) -> Diff<R> {
        if motion.moves() {
            Diff {
                cursor: if motion.scrolls() {
                    self.cursor
                } else {
                    self.held(cursor)
                },
                top: self.held(top),
                armed_hunk: None,
                ..self
            }
        } else {
            self
        }
    }

    /// A move landed the keyboard on row `cursor`, with `top` at the top.
    pub fn landed(&mut self, motion: Motion, cursor: usize, top: usize)
        ensures
            *final(self) == old(self).moved(motion, cursor, top),
            old(self).wf() ==> final(self).wf(),
    {
        if !motion.is_move() {
            return;
        }
        let len: usize = self.order.len();
        if !motion.is_scroll() {
            self.cursor = hold(cursor, len);
        }
        self.top = hold(top, len);
        self.armed_hunk = None;
    }

    /// The wheel turned, and `top` is at the top where the list `moved`: the keyboard
    /// stays, the question goes. A list that could not move is left as it was. Says
    /// whether it moved.
    pub fn wheeled(&mut self, moved: bool, top: usize) -> (r: bool)
        ensures
            r == moved,
            *final(self) == if moved {
                Diff { top: old(self).held(top), armed_hunk: None, ..*old(self) }
            } else {
                *old(self)
            },
            old(self).wf() ==> final(self).wf(),
    {
        if moved {
            self.top = hold(top, self.order.len());
            self.armed_hunk = None;
        }
        moved
    }

    /// A scrollbar panned the list, a click moved the keyboard, or the viewport
    /// came to rest.
    pub fn followed(&mut self, cursor: usize, top: usize)
        ensures
            *final(self) == (Diff {
                cursor: old(self).held(cursor),
                top: old(self).held(top),
                ..*old(self)
            }),
            old(self).wf() ==> final(self).wf(),
    {
        self.cursor = hold(cursor, self.order.len());
        self.top = hold(top, self.order.len());
    }

    /// The pane is `now` after a jump by `by` that went to `target`: the band of the
    /// next file, or of the one before for a negative `by`. A jump that goes
    /// somewhere drops the question.
    pub open spec fn jumps(self, by: isize, target: Option<usize>, now: Diff<R>) -> bool {
        let bands = self.headers@;
        match target {
            Some(h) => {
                &&& bands.contains(h)
                &&& now == (Diff { cursor: h, armed_hunk: None, ..self })
                &&& if by < 0 {
                    h < self.cursor && forall|i: int|
                        0 <= i < bands.len() && #[trigger] bands[i] < self.cursor ==> bands[i] <= h
                } else {
                    h > self.cursor && forall|i: int|
                        0 <= i < bands.len() && #[trigger] bands[i] > self.cursor ==> bands[i] >= h
                }
            },
            None => {
                &&& now == self
                &&& if by < 0 {
                    forall|i: int| 0 <= i < bands.len() ==> #[trigger] bands[i] >= self.cursor
                } else {
                    forall|i: int| 0 <= i < bands.len() ==> #[trigger] bands[i] <= self.cursor
                }
            },
        }
    }

    /// The band of the next file, or of the one before for a negative `by`.
    pub fn jump_file(&mut self, by: isize) -> (r: Option<usize>)
        requires
            old(self).wf(),
        ensures
            final(self).wf(),
            old(self).jumps(by, r, *final(self)),
    {
        proof {
            headers_are_listed(self.m(), collapsed(self.order@));
            let h = self.headers@;
            let p = header_rows(self.m(), collapsed(self.order@));
            assert forall|i: int, j: int| 0 <= i < j < h.len() implies h[i] < h[j] by {
                assert(positions(h)[i] == p[i] && positions(h)[j] == p[j]);
            }
            assert forall|i: int| 0 <= i < h.len() implies #[trigger] h[i] < self.order@.len() by {
                assert(positions(h)[i] == p[i]);
            }
        }
        let target = jump_target(&self.headers, self.cursor, by);
        if let Some(h) = target {
            self.cursor = h;
            self.armed_hunk = None;
        }
        target
    }

    /// Runs a command, where the viewport has the keyboard on row `cursor` and row
    /// `top` at the top after the move that the command is, and there are `wraps`
    /// wraps. A name that is not the pane's changes nothing.
    pub fn ran(&mut self, command: DiffCommand, cursor: usize, top: usize, wraps: usize) -> (r: Ran)
        requires
            old(self).wf(),
            old(self).current < usize::MAX,
            old(self).wrap < usize::MAX,
        ensures
            final(self).wf(),
            match command {
                DiffCommand::Unknown => r is Refused && *final(self) == *old(self),
                DiffCommand::Pan(columns) => r == Ran::Pan(columns) && *final(self) == *old(self),
                DiffCommand::Move(motion) => r is Moved && *final(self) == old(self).moved(
                    motion,
                    cursor,
                    top,
                ),
                DiffCommand::JumpFile(by) => match r {
                    Ran::Jumped(row) => old(self).jumps(by, Some(row), *final(self)),
                    _ => r is Done && old(self).jumps(by, None, *final(self)),
                },
                DiffCommand::CycleLayout => {
                    &&& *final(self) == (Diff { armed_hunk: None, ..*old(self) })
                    &&& r == if old(self).names@.len() >= 2 {
                        Ran::Layout(cycled(old(self).current, old(self).names@.len() as usize))
                    } else {
                        Ran::Done
                    }
                },
                DiffCommand::CycleWrap => r is Done && *final(self) == (Diff {
                    wrap: cycled(old(self).wrap, wraps),
                    armed_hunk: None,
                    ..*old(self)
                }),
            },
    {
        match command {
            DiffCommand::Unknown => Ran::Refused,
            DiffCommand::Pan(columns) => Ran::Pan(columns),
            DiffCommand::Move(motion) => {
                self.landed(motion, cursor, top);
                Ran::Moved
            },
            DiffCommand::JumpFile(by) => match self.jump_file(by) {
                Some(row) => Ran::Jumped(row),
                None => Ran::Done,
            },
            DiffCommand::CycleLayout => match self.cycle_layout() {
                Some(index) => Ran::Layout(index),
                None => Ran::Done,
            },
            DiffCommand::CycleWrap => {
                self.cycle_wrap(wraps);
                Ran::Done
            },
        }
    }

    /// The logical row the keyboard is on. Past the end it is a row that no
    /// presentation has.
    pub fn cursor_row_id(&self) -> (r: (u16, u32))
        ensures
            r == self.row_id(),
    {
        if self.cursor < self.order.len() {
            self.order[self.cursor].logical()
        } else {
            (u16::MAX, u32::MAX)
        }
    }

    /// The hunk the keyboard is on, with its file's path: the diff's own hunk,
    /// and not what was made of it for the rows. None on a file's band, or where
    /// the diff has no such hunk.
    pub fn current_hunk(&self) -> (r: Option<(&str, &SourceHunk)>)
        requires
            self.addressed(),
        ensures
            match r {
                Some((path, hunk)) => self.hunk_here() == Some((path@, *hunk)),
                None => self.hunk_here() is None,
            },
    {
        if self.cursor >= self.order.len() {
            return None;
        }
        let r = self.order[self.cursor];
        assert(known(self.m(), r.id()));
        let rows = &self.renderers[r.owner as usize];
        assert(self.m()[r.owner as int] == rows.model());
        match rows.hunk_at(r.index as usize) {
            Some((path, n)) => match find_source(&self.source, path) {
                Some(f) => if n < f.hunks.len() {
                    Some((path, &f.hunks[n]))
                } else {
                    None
                },
                None => None,
            },
            None => None,
        }
    }

    /// What the pane's title says of the file the keyboard is in. None on a row
    /// that is neither in a hunk nor a file's band, and in an empty diff.
    pub fn file_summary(&self) -> (r: Option<FileSummary>)
        requires
            self.addressed(),
        ensures
            match r {
                Some(s) => self.summary_here() == Some(s@),
                None => self.summary_here() is None,
            },
    {
        if self.cursor >= self.order.len() {
            return None;
        }
        let r = self.order[self.cursor];
        let index: usize = r.index as usize;
        assert(known(self.m(), r.id()));
        let rows = &self.renderers[r.owner as usize];
        assert(self.m()[r.owner as int] == rows.model());
        let found: Option<(&str, Option<usize>)> = match rows.hunk_at(index) {
            Some((path, n)) => Some((path, Some(n))),
            None => if rows.is_header(index) {
                match rows.selectable(index, 0) {
                    Some(path) => Some((path, None)),
                    None => None,
                }
            } else {
                None
            },
        };
        let (path, hunk) = match found {
            Some(f) => f,
            None => {
                return None;
            },
        };
        match find_file(&self.files, path) {
            Some(i) => {
                let f = &self.files[i];
                let hunks: usize = f.hunks.len();
                Some(
                    FileSummary {
                        path: path.to_owned(),
                        adds: f.adds as u64,
                        dels: f.dels as u64,
                        hunk: match hunk {
                            Some(n) => n + 1,
                            None => if hunks > 0 {
                                1
                            } else {
                                0
                            },
                        },
                        hunks,
                    },
                )
            },
            None => None,
        }
    }

    /// Asks about discarding the hunk at logical row `id`, or says that it may
    /// happen now.
    pub fn confirm_or_arm_discard_hunk(&mut self, id: (u16, u32)) -> (r: bool)
        ensures
            (final(self).armed_hunk, r) == pressed(old(self).armed_hunk, id),
            *final(self) == (Diff { armed_hunk: final(self).armed_hunk, ..*old(self) }),
    {
        let already: bool = match self.armed_hunk {
            Some(armed) => same_id(armed, id),
            None => false,
        };
        self.armed_hunk = if already {
            None
        } else {
            Some(id)
        };
        already
    }

    /// Told whenever the keyboard enters or leaves the pane.
    pub fn set_focused(&mut self, focused: bool)
        ensures
            *final(self) == (Diff { focused, ..*old(self) }),
    {
        self.focused = focused;
    }

    /// Whether the pane holds the keyboard.
    pub fn focused(&self) -> (r: bool)
        ensures
            r == self.focused,
    {
        self.focused
    }

    /// Where the keyboard is.
    pub fn cursor(&self) -> (r: usize)
        ensures
            r == self.cursor,
    {
        self.cursor
    }

    /// What to do with a turn of the wheel, where `parked` says that a request
    /// for a row stands. A drag past the edge makes requests of its own.
    pub fn scroll_pixels(&self, parked: bool) -> (r: Wheel)
        ensures
            r == wheel_route(self.pending.awaiting, parked),
    {
        self.pending.wheel(parked)
    }

    /// What to do about a list that a scrollbar may have moved.
    pub fn reconcile(&self, parked: bool, moved: bool, shown: usize, top: usize) -> (r: Drift)
        ensures
            r == drift_of(parked, moved, shown, top),
    {
        reconcile(parked, moved, shown, top)
    }

    /// The text of the row the keyboard is on. Nothing past the end.
    pub fn cursor_text(&self) -> (r: String)
        requires
            self.addressed(),
        ensures
            r@ == if self.at() is Some && self.at().unwrap().texts.contains_key(0) {
                self.at().unwrap().texts[0]
            } else {
                seq![]
            },
    {
        if self.cursor < self.order.len() {
            let r = self.order[self.cursor];
            assert(known(self.m(), r.id()));
            let rows = &self.renderers[r.owner as usize];
            assert(self.m()[r.owner as int] == rows.model());
            match rows.selectable(r.index as usize, 0) {
                Some(t) => t.to_owned(),
                None => String::new(),
            }
        } else {
            String::new()
        }
    }

    /// The name of the presentation that is loaded.
    pub fn layout(&self) -> (r: &'static str)
        ensures
            r@ == if self.current < self.names@.len() {
                self.names@[self.current as int]@
            } else {
                "custom"@
            },
    {
        if self.current < self.names.len() {
            self.names[self.current]
        } else {
            "custom"
        }
    }

    /// The names of the presentations, in the order they are cycled.
    pub fn layout_names(&self) -> (r: &Vec<&'static str>)
        ensures
            *r == self.names,
    {
        &self.names
    }

    /// The place of the presentation that is loaded.
    pub fn layout_index(&self) -> (r: usize)
        ensures
            r == self.current,
    {
        self.current
    }

    /// The place of the wrap that is on.
    pub fn wrap_index(&self) -> (r: usize)
        ensures
            r == self.wrap,
    {
        self.wrap
    }

    /// The pane is `now` after `files`, made of `source`, took the place of its diff
    /// with the presentations `rs`, and `r` is what the viewport is told. The
    /// keyboard and the top row keep their numbers, held inside the new rows. A
    /// question about the old rows is dropped.
    pub open spec fn swaps(
        self,
        source: Vec<Source>,
        files: Vec<File>,
        rs: Seq<R>,
        now: Diff<R>,
        r: Rearranged,
    ) -> bool {
        &&& now.arranged_from(rs, files@)
        &&& now.source == source
        &&& now.files == files
        &&& now.armed_hunk is None
        &&& now.names == self.names
        &&& now.current == self.current
        &&& now.wrap == self.wrap
        &&& now.focused == self.focused
        &&& now.cursor == held_row(self.cursor as int, now.order@.len())
        &&& now.top == held_row(self.top as int, now.order@.len())
        &&& now.pending.awaiting == (now.order@.len() > 0)
        &&& r == (Rearranged {
            len: now.order@.len() as usize,
            cursor: now.cursor,
            top: now.top,
            park: now.order@.len() > 0,
        })
    }

    /// A new diff, in the same presentation.
    pub fn swap_prepared(
        &mut self,
        source: Vec<Source>,
        files: Vec<File>,
        renderers: Vec<R>,
        fallback: R,
    ) -> (r: Rearranged)
        requires
            all_ready(chosen(renderers@, fallback)),
            renderers@.len() <= u16::MAX,
            arrangeable(chosen(renderers@, fallback), files@),
            prepared_from(files@, source@),
        ensures
            final(self).wf(),
            old(self).swaps(source, files, chosen(renderers@, fallback), *final(self), r),
    {
        self.armed_hunk = None;
        let built = arrange(&files, renderers, fallback);
        self.source = source;
        self.files = files;
        self.take_built(built);
        let len: usize = self.order.len();
        self.cursor = hold(self.cursor, len);
        self.top = hold(self.top, len);
        if len == 0 {
            self.pending.cancel();
        } else {
            self.pending.begin();
        }
        Rearranged { len, cursor: self.cursor, top: self.top, park: len > 0 }
    }

    /// A new diff, unless it says what the one that is shown says: then nothing
    /// moves and a question stays asked.
    pub fn replace(
        &mut self,
        source: Vec<Source>,
        files: Vec<File>,
        renderers: Vec<R>,
        fallback: R,
    ) -> (r: Option<Rearranged>)
        requires
            all_ready(chosen(renderers@, fallback)),
            renderers@.len() <= u16::MAX,
            arrangeable(chosen(renderers@, fallback), files@),
            prepared_from(files@, source@),
        ensures
            source_views(source@) == source_views(old(self).source@) ==> r is None && *final(self)
                == *old(self),
            source_views(source@) != source_views(old(self).source@) ==> {
                &&& final(self).wf()
                &&& r is Some
                &&& old(self).swaps(
                    source,
                    files,
                    chosen(renderers@, fallback),
                    *final(self),
                    r.unwrap(),
                )
            },
    {
        if same_diff(&source, &self.source) {
            return None;
        }
        Some(self.swap_prepared(source, files, renderers, fallback))
    }

    fn take_built(&mut self, built: Built<R>)
        ensures
            *final(self) == (Diff {
                renderers: built.renderers,
                order: built.order,
                marks: built.marks,
                widest: built.widest,
                headers: built.headers,
                ..*old(self)
            }),
    {
        self.renderers = built.renderers;
        self.order = built.order;
        self.marks = built.marks;
        self.widest = built.widest;
        self.headers = built.headers;
    }

    /// The same diff in another presentation. A question about the old rows is
    /// dropped: the row it was asked about is about to mean something else. The
    /// viewport keeps the fraction of the way down that it was at.
    pub fn apply_layout(&mut self, index: usize, renderers: Vec<R>, fallback: R)
        requires
            old(self).addressed(),
            all_ready(chosen(renderers@, fallback)),
            renderers@.len() <= u16::MAX,
            arrangeable(chosen(renderers@, fallback), old(self).files@),
        ensures
            final(self).wf(),
            final(self).arranged_from(chosen(renderers@, fallback), old(self).files@),
            final(self).source == old(self).source,
            final(self).files == old(self).files,
            final(self).current == index,
            final(self).armed_hunk is None,
            final(self).names == old(self).names,
            final(self).wrap == old(self).wrap,
            final(self).focused == old(self).focused,
            final(self).cursor == final(self).held(old(self).cursor),
            final(self).top == final(self).held(old(self).top),
            final(self).pending.awaiting,
    {
        self.current = index;
        self.armed_hunk = None;
        let built = arrange(&self.files, renderers, fallback);
        self.take_built(built);
        self.cursor = hold(self.cursor, self.order.len());
        self.top = hold(self.top, self.order.len());
        self.pending.begin();
    }

    /// The pane is `now` after its rows were rebuilt for another face with the
    /// presentations `rs`. It is the same presentation of the same diff, so the
    /// keyboard stays on its logical row, wherever that now starts. A question is
    /// dropped: to ask it again is the safe way to be wrong.
    pub open spec fn refaces(self, rs: Seq<R>, now: Diff<R>) -> bool {
        &&& now.arranged_from(rs, self.files@)
        &&& now.cursor == anchor_row(now.m(), collapsed(now.order@), Some(self.row_id()))
        &&& now.top == now.held(self.top)
        &&& now.armed_hunk is None
        &&& now.pending.awaiting
        &&& now.source == self.source
        &&& now.files == self.files
        &&& now.names == self.names
        &&& now.current == self.current
        &&& now.wrap == self.wrap
        &&& now.focused == self.focused
    }

    /// The same diff in the same presentation, rebuilt for another face.
    pub fn apply_font(&mut self, renderers: Vec<R>, fallback: R)
        requires
            old(self).addressed(),
            all_ready(chosen(renderers@, fallback)),
            renderers@.len() <= u16::MAX,
            arrangeable(chosen(renderers@, fallback), old(self).files@),
        ensures
            final(self).wf(),
            old(self).refaces(chosen(renderers@, fallback), *final(self)),
    {
        let id = self.cursor_row_id();
        self.apply_layout(self.current, renderers, fallback);
        self.cursor = self.kept_row(id);
    }

    /// Where a logical row starts in the table, or the top where it is not in it.
    pub fn kept_row(&self, id: (u16, u32)) -> (r: usize)
        requires
            self.wf(),
        ensures
            r == anchor_row(self.m(), collapsed(self.order@), Some(id)),
            inside(r, self.order@.len()),
    {
        let ghost ids = collapsed(self.order@);
        let ghost at = anchor_row(self.m(), ids, Some(id));
        proof {
            anchor_is_the_last_start(self.m(), ids, id);
            if ids.contains(id) {
                anchor_is_found(self.m(), ids, id);
            }
        }
        let mut i: usize = self.order.len();
        while i > 0
            invariant
                self.order@ == laid_out(self.m(), ids),
                ids == collapsed(self.order@),
                at == anchor_row(self.m(), ids, Some(id)),
                i <= self.order@.len(),
                ids.contains(id) ==> 0 <= at < self.order@.len() && self.order@[at] == (RowRef {
                    owner: id.0,
                    seg: 0,
                    index: id.1,
                }),
                ids.contains(id) ==> forall|k: int|
                    at < k < self.order@.len() && (#[trigger] self.order@[k]).seg == 0
                        ==> self.order@[k].id() != id,
                !ids.contains(id) ==> at == 0 && forall|k: int|
                    0 <= k < self.order@.len() ==> (#[trigger] self.order@[k]).id() != id,
                forall|k: int|
                    i <= k < self.order@.len() && (#[trigger] self.order@[k]).seg == 0
                        ==> self.order@[k].id() != id,
            decreases i,
        {
            let r = self.order[i - 1];
            if r.seg == 0 && same_id(r.logical(), id) {
                assert(at == i - 1);
                return i - 1;
            }
            i -= 1;
        }
        0
    }

    /// The pane is `now` after its rows were laid out for the widths that the
    /// presentations have: the same logical rows in the same order, with the
    /// keyboard on the one it was on.
    pub open spec fn reflows(self, now: Diff<R>) -> bool {
        &&& now.order@ == laid_out(self.m(), collapsed(self.order@))
        &&& collapsed(now.order@) == collapsed(self.order@)
        &&& now.cursor == anchor_row(
            self.m(),
            collapsed(self.order@),
            if self.cursor < self.order@.len() {
                Some(self.order@[self.cursor as int].id())
            } else {
                None
            },
        )
        &&& now.top == now.held(self.top)
        &&& now.pending.awaiting
        &&& now.renderers == self.renderers
        &&& now.source == self.source
        &&& now.files == self.files
        &&& now.names == self.names
        &&& now.current == self.current
        &&& now.wrap == self.wrap
        &&& now.armed_hunk == self.armed_hunk
        &&& now.focused == self.focused
    }

    /// Lays the rows out for the widths that the presentations now have, with the
    /// keyboard on the line it was on.
    pub fn reflowed(&mut self)
        requires
            old(self).addressed(),
        ensures
            final(self).wf(),
            old(self).reflows(*final(self)),
    {
        let anchor: Option<RowRef> = if self.cursor < self.order.len() {
            Some(self.order[self.cursor])
        } else {
            None
        };
        proof {
            if self.cursor < self.order@.len() {
                a_reflow_keeps_the_line(self.m(), self.order@, self.cursor as int);
            }
            laying_out_makes_a_table(self.m(), self.order@);
            laying_out_keeps_order(self.m(), self.order@);
            assert forall|i: int|
                0 <= i < self.order@.len() && self.order@[i].owner < self.m().len() implies (
            #[trigger] self.order@[i]).index < self.m()[self.order@[i].owner as int].len() by {
                assert(known(self.m(), self.order@[i].id()));
            }
        }
        let (ordered, headers) = expand(self.order.as_slice(), self.renderers.as_slice(), anchor);
        self.order = ordered.order;
        self.widest = ordered.widest;
        self.cursor = ordered.anchor;
        self.headers = headers;
        self.marks = hunk_marks(self.order.as_slice(), self.renderers.as_slice());
        self.top = hold(self.top, self.order.len());
        self.pending.begin();
    }

    /// The row that a saved position comes back to: none in an empty diff.
    pub fn scroll_to(&self, row: usize) -> (r: Option<usize>)
        ensures
            r == if self.order@.len() == 0 {
                None
            } else if row >= self.order@.len() {
                Some((self.order@.len() - 1) as usize)
            } else {
                Some(row)
            },
    {
        let len: usize = self.order.len();
        if len == 0 {
            None
        } else if row >= len {
            Some(len - 1)
        } else {
            Some(row)
        }
    }

    /// A position was asked for: the list has not laid its rows out yet.
    pub fn parked(&mut self, cursor: usize, top: usize)
        ensures
            *final(self) == (Diff {
                cursor: old(self).held(cursor),
                top: old(self).held(top),
                pending: PendingScroll { awaiting: true },
                ..*old(self)
            }),
            old(self).wf() ==> final(self).wf(),
    {
        self.cursor = hold(cursor, self.order.len());
        self.top = hold(top, self.order.len());
        self.pending.begin();
    }

    /// The row under a click `visual` rows down the list, held inside it, and the
    /// visual rows its logical row takes.
    pub fn locate(&self, visual: usize) -> (r: Option<Located>)
        requires
            self.wf(),
        ensures
            match r {
                Some(l) => {
                    &&& self.order@.len() > 0
                    &&& l.visual == if visual >= self.order@.len() {
                        self.order@.len() - 1
                    } else {
                        visual as int
                    }
                    &&& l.row == self.order@[l.visual as int]
                    &&& l.first + l.row.seg == l.visual
                    &&& l.count == if row_of(self.m(), l.row.id()).rows < 1 {
                        1
                    } else {
                        row_of(self.m(), l.row.id()).rows
                    }
                },
                None => self.order@.len() == 0,
            },
    {
        let len: usize = self.order.len();
        if len == 0 {
            return None;
        }
        let visual: usize = if visual >= len {
            len - 1
        } else {
            visual
        };
        let row = self.order[visual];
        proof {
            assert(known(self.m(), row.id()));
            segments_stand_together(self.m(), collapsed(self.order@), visual as int);
        }
        let rows = &self.renderers[row.owner as usize];
        assert(self.m()[row.owner as int] == rows.model());
        let asked: usize = rows.rows(row.index as usize);
        let count: usize = if asked < 1 {
            1
        } else {
            asked
        };
        Some(Located { visual, row, first: visual - row.seg as usize, count })
    }

    /// The hunk the keyboard is on and the hunk a question stands over, taken
    /// once per frame.
    pub fn extents(&self) -> (r: (Option<HunkExtent>, Option<HunkExtent>))
        requires
            all_ready(self.renderers@),
        ensures
            r.0 == if self.cursor < self.order@.len() {
                extent_at(self.m(), self.order@[self.cursor as int].id())
            } else {
                None
            },
            r.1 == match self.armed_hunk {
                Some(id) => extent_at(self.m(), id),
                None => None,
            },
    {
        let here: Option<HunkExtent> = if self.cursor < self.order.len() {
            let r = self.order[self.cursor];
            extent_of(self.renderers.as_slice(), r.owner, r.index)
        } else {
            None
        };
        let armed: Option<HunkExtent> = match self.armed_hunk {
            Some((owner, index)) => extent_of(self.renderers.as_slice(), owner, index),
            None => None,
        };
        (here, armed)
    }

    /// How row `i` stands to the keyboard, given the hunks of this frame.
    pub fn row_state(
        &self,
        i: usize,
        here: Option<HunkExtent>,
        armed: Option<HunkExtent>,
    ) -> (r: RowState)
        requires
            i < self.order@.len(),
        ensures
            r == (RowState {
                current: i == self.cursor,
                focused: self.focused,
                armed: inside_extent(armed, self.order@[i as int]),
                in_hunk: inside_extent(here, self.order@[i as int]),
            }),
    {
        let r = self.order[i];
        RowState {
            current: i == self.cursor,
            focused: self.focused,
            armed: match armed {
                Some(e) => e.contains(r.owner, r.index),
                None => false,
            },
            in_hunk: match here {
                Some(e) => e.contains(r.owner, r.index),
                None => false,
            },
        }
    }
}

/// The hunk over a logical row.
pub open spec fn extent_at(m: Seq<Seq<RowModel>>, id: (u16, u32)) -> Option<HunkExtent> {
    match span_at(m, (RowRef { owner: id.0, seg: 0, index: id.1 })) {
        Some(span) => Some(HunkExtent { owner: id.0, span }),
        None => None,
    }
}

/// A row of the table is inside a hunk.
pub open spec fn inside_extent(e: Option<HunkExtent>, r: RowRef) -> bool {
    e is Some && e.unwrap().owner == r.owner && e.unwrap().span.0 <= r.index
        < e.unwrap().span.1
}

/// A change of width keeps the keyboard on its line: it lands on the first row
/// of the line it was on.
pub proof fn a_reflow_keeps_the_line(m: Seq<Seq<RowModel>>, order: Seq<RowRef>, cursor: int)
    requires
        all_known(m, order),
        0 <= cursor < order.len(),
    ensures
        ({
            let ids = collapsed(order);
            let at = anchor_row(m, ids, Some(order[cursor].id()));
            &&& 0 <= at < laid_out(m, ids).len()
            &&& laid_out(m, ids)[at].id() == order[cursor].id()
            &&& laid_out(m, ids)[at].seg == 0
        }),
{
    entries_are_listed(m, order, cursor);
    anchor_is_found(m, collapsed(order), order[cursor].id());
}

/// In the default presentation every hunk leaves one mark, at the first row of
/// its band, and nothing else leaves any.
pub proof fn every_hunk_leaves_one_mark(pane: Diff<TextRows>)
    requires
        pane.wf(),
    ensures
        positions(pane.marks@) == hunk_starts(pane.m(), pane.order@),
{
    let m = pane.m();
    assert forall|o: int| 0 <= o < m.len() implies super::rows::coherent(#[trigger] m[o]) by {
        assert(pane.renderers@[o].ready());
        text_rows_are_coherent(pane.renderers@[o]);
    }
    assert forall|i: int| 0 <= i < pane.order@.len() && pane.order@[i].owner < m.len() implies (
    #[trigger] pane.order@[i]).index < m[pane.order@[i].owner as int].len() by {
        assert(known(m, pane.order@[i].id()));
    }
    marks_are_hunk_starts(m, pane.order@);
}

/// Going to another presentation and back rebuilds the rows there were: what is
/// listed depends on the diff and on the presentations alone.
pub proof fn a_round_trip_rebuilds_the_rows<R: Rows>(
    before: Diff<R>,
    after: Diff<R>,
    a: Seq<R>,
    b: Seq<R>,
    files: Seq<File>,
)
    requires
        before.wf(),
        after.wf(),
        before.arranged_from(a, files),
        after.arranged_from(b, files),
        a.len() > 0,
        alike(a, b),
    ensures
        before.order@ == after.order@,
        positions(before.headers@) == positions(after.headers@),
        positions(before.marks@) == positions(after.marks@),
{
    alike_presentations_arrange_alike(a, b, files, files.len() == 1);
}

/// The title and the hunk that a verb acts on never name different hunks: where
/// the keyboard is on a hunk of the diff, the title names its file, counts the
/// file's hunks, and numbers that hunk among them from one.
pub proof fn the_title_and_the_hunk_agree<R: Rows>(pane: Diff<R>)
    requires
        pane.addressed(),
        pane.hunk_here() is Some,
    ensures
        ({
            let (path, hunk) = pane.hunk_here().unwrap();
            let file = source_at(pane.source@, path);
            &&& file is Some
            &&& pane.summary_here() is Some
            &&& pane.summary_here().unwrap().path == path
            &&& pane.summary_here().unwrap().hunks == file.unwrap().hunks@.len()
            &&& 1 <= pane.summary_here().unwrap().hunk <= pane.summary_here().unwrap().hunks
            &&& file.unwrap().hunks@[pane.summary_here().unwrap().hunk - 1] == hunk
        }),
{
    let path = pane.hunk_here().unwrap().0;
    let i = the_first_source_is_found(pane.source@, path);
    the_first_file_is_found(pane.files@, path);
    assert(pane.files@[i].path@ == pane.source@[i].path@);
    let k = file_at(pane.files@, path).unwrap();
    assert(pane.source@[k].path@ == path);
    assert(k == i);
}

/// On the band of a file the title names the file's first hunk, or none where it
/// has none, and there is no hunk to act on. A diff of no rows has neither.
pub proof fn a_band_names_the_first_hunk<R: Rows>(pane: Diff<R>)
    ensures
        pane.at() is Some && pane.at().unwrap().hunk is None ==> {
            &&& pane.hunk_here() is None
            &&& pane.summary_here() matches Some(s) ==> s.hunk == if s.hunks == 0 {
                0
            } else {
                1nat
            }
        },
        pane.order@.len() == 0 ==> pane.hunk_here() is None && pane.summary_here() is None,
{
}

/// A row in a hunk names a file of the diff, and a hunk that the file has.
pub open spec fn names_a_hunk(row: RowModel, files: Seq<File>) -> bool {
    row.hunk matches Some((path, n)) ==> exists|i: int|
        0 <= i < files.len() && (#[trigger] files[i]).path@ == path && n < files[i].hunks@.len()
}

proof fn grown_rows_name_hunks(rs: Seq<TextRows>, files: Seq<File>, o: int, k: int)
    requires
        rs.len() > 0,
        forall|i: int| 0 <= i < rs.len() ==> (#[trigger] rs[i]).rows@.len() == 0,
        arrangeable(rs, files),
        0 <= o < grown(rs, files).len(),
        0 <= k < grown(rs, files)[o].len(),
    ensures
        names_a_hunk(grown(rs, files)[o][k], files),
    decreases files.len(),
{
    if files.len() == 0 {
        assert(rs[o].rows@.len() == 0);
    } else {
        let rest = files.drop_last();
        let f = files.last();
        let before = grown(rs, rest);
        let c = claimant(rs, f.path@);
        assert(rs[rs.len() - 1].wants(f.path@));
        grown_len(rs, rest);
        if o == c && k >= before[c].len() {
            let at = before[c].len() as int;
            rows_name_hunks_of_their_file(at, f, k - at);
            assert(files[files.len() - 1] == f);
        } else {
            grown_rows_name_hunks(rs, rest, o, k);
            let row = before[o][k];
            if row.hunk is Some {
                let i = choose|i: int|
                    0 <= i < rest.len() && (#[trigger] rest[i]).path@ == row.hunk.unwrap().0
                        && row.hunk.unwrap().1 < rest[i].hunks@.len();
                assert(files[i] == rest[i]);
            }
        }
    }
}

/// In the default presentation, where no two files have one path, every row of a
/// hunk has a hunk to act on, whatever width the rows are broken for.
pub proof fn every_row_of_a_hunk_has_a_hunk_to_act_on(pane: Diff<TextRows>, rs: Seq<TextRows>)
    requires
        pane.addressed(),
        rs.len() > 0,
        forall|i: int| 0 <= i < rs.len() ==> (#[trigger] rs[i]).rows@.len() == 0,
        arrangeable(rs, pane.files@),
        all_rebroken(pane.m(), grown(rs, pane.files@)),
        forall|i: int, j: int|
            0 <= i < j < pane.files@.len() ==> (#[trigger] pane.files@[i]).path@ != (
            #[trigger] pane.files@[j]).path@,
        pane.at() is Some,
        pane.at().unwrap().hunk is Some,
    ensures
        pane.hunk_here() is Some,
{
    let id = pane.row_id();
    let files = pane.files@;
    assert(known(pane.m(), pane.order@[pane.cursor as int].id()));
    let (o, k) = (id.0 as int, id.1 as int);
    assert(rebroken(pane.m()[o], grown(rs, files)[o]));
    grown_rows_name_hunks(rs, files, o, k);
    assert(pane.m()[o][k].hunk == grown(rs, files)[o][k].hunk);
    let (path, n) = pane.at().unwrap().hunk.unwrap();
    let i = choose|i: int|
        0 <= i < files.len() && (#[trigger] files[i]).path@ == path && n < files[i].hunks@.len();
    let j = the_first_source_is_found(pane.source@, path);
    assert(pane.source@[i].path@ == path);
    assert(files[j].path@ == path);
}

/// Scrolling moves the rows and not the keyboard, and drops the question.
pub proof fn a_scroll_keeps_the_keyboards_row<R: Rows>(
    pane: Diff<R>,
    command: Seq<char>,
    cursor: usize,
    top: usize,
)
    requires
        command == "view.scroll-down"@ || command == "view.scroll-up"@,
    ensures
        command_of(command) matches DiffCommand::Move(motion) && {
            let now = pane.moved(motion, cursor, top);
            &&& now.cursor == pane.cursor
            &&& now.order == pane.order
            &&& now.armed_hunk is None
        },
{
    the_commands_of_a_diff(command);
}

/// A change of width keeps what is read: the same logical rows in the same order,
/// the keyboard on the first row of its line, and the rows of each line one after
/// the other from its first segment.
pub proof fn a_reflow_keeps_the_reading<R: Rows>(before: Diff<R>, now: Diff<R>)
    requires
        before.addressed(),
        before.reflows(now),
        now.wf(),
    ensures
        collapsed(now.order@) == collapsed(before.order@),
        before.cursor < before.order@.len() ==> {
            &&& now.cursor < now.order@.len()
            &&& now.order@[now.cursor as int].id() == before.order@[before.cursor as int].id()
            &&& now.order@[now.cursor as int].seg == 0
        },
        forall|k: int|
            0 <= k < now.order@.len() ==> {
                let r = #[trigger] now.order@[k];
                ||| r.seg == 0
                ||| k > 0 && now.order@[k - 1].id() == r.id() && now.order@[k - 1].seg + 1 == r.seg
            },
{
    if before.cursor < before.order@.len() {
        a_reflow_keeps_the_line(before.m(), before.order@, before.cursor as int);
    }
    let ids = collapsed(now.order@);
    assert forall|k: int| 0 <= k < now.order@.len() implies {
        let r = #[trigger] now.order@[k];
        ||| r.seg == 0
        ||| k > 0 && now.order@[k - 1].id() == r.id() && now.order@[k - 1].seg + 1 == r.seg
    } by {
        segments_stand_together(now.m(), ids, k);
        let r = now.order@[k];
        let first = k - r.seg;
        if r.seg > 0 {
            assert(laid_out(now.m(), ids)[first + (r.seg - 1)] == now.order@[k - 1]);
        }
    }
}

/// Laying the rows out again for the same width changes nothing.
pub proof fn a_second_reflow_changes_nothing<R: Rows>(
    before: Diff<R>,
    now: Diff<R>,
    again: Diff<R>,
)
    requires
        before.addressed(),
        before.reflows(now),
        now.wf(),
        now.reflows(again),
        again.wf(),
    ensures
        again.order@ == now.order@,
        again.cursor == now.cursor,
        again.top == now.top,
        positions(again.headers@) == positions(now.headers@),
        positions(again.marks@) == positions(now.marks@),
        again.renderers == now.renderers,
        again.armed_hunk == now.armed_hunk,
{
    if before.cursor < before.order@.len() {
        a_reflow_keeps_the_line(before.m(), before.order@, before.cursor as int);
    }
}

/// Another face keeps the keyboard on its logical row, on the first of the rows
/// that it now takes, wherever the rebuilt rows still list it.
pub proof fn a_new_face_keeps_the_row<R: Rows>(before: Diff<R>, rs: Seq<R>, now: Diff<R>)
    requires
        before.refaces(rs, now),
        now.wf(),
        collapsed(now.order@).contains(before.row_id()),
    ensures
        now.cursor < now.order@.len(),
        now.order@[now.cursor as int].id() == before.row_id(),
        now.order@[now.cursor as int].seg == 0,
        now.armed_hunk is None,
{
    anchor_is_found(now.m(), collapsed(now.order@), before.row_id());
}

/// Presentations that differ in their face alone list the rows that there were,
/// with the texts and the hunks that they had: what was selected of them still
/// says the same, and the keyboard is on its row.
pub proof fn a_font_edit_keeps_the_rows<R: Rows>(
    before: Diff<R>,
    a: Seq<R>,
    b: Seq<R>,
    now: Diff<R>,
)
    requires
        before.addressed(),
        before.cursor < before.order@.len(),
        all_rebroken(before.m(), grown(a, before.files@)),
        collapsed(before.order@) == ids_of(
            arranged(a, before.files@, before.files@.len() == 1),
        ),
        a.len() > 0,
        alike(a, b),
        before.refaces(b, now),
        now.wf(),
    ensures
        all_rebroken(before.m(), now.m()),
        collapsed(now.order@) == collapsed(before.order@),
        now.cursor < now.order@.len(),
        now.order@[now.cursor as int].id() == before.row_id(),
        now.armed_hunk is None,
{
    alike_presentations_arrange_alike(a, b, before.files@, before.files@.len() == 1);
    entries_are_listed(before.m(), before.order@, before.cursor as int);
    a_new_face_keeps_the_row(before, b, now);
}

} // verus!
