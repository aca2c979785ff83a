//! Every knob on one surface: what each is called, what it holds, and one line
//! on what it does.
use crate::text;
use vstd::prelude::*;

verus! {

/// The name of the keys that stand while settings do.
pub const MODE: &'static str = "settings";

/// Which knob a row edits.
#[derive(Clone, Copy, Debug, PartialEq, Eq, Structural)]
pub enum Setting {
    Layout,
    Wrap,
    Algorithm,
    Whitespace,
    Context,
    Moves,
    IndentHeuristic,
    Theme,
    FontSize,
    FontFamily,
    Scroll,
    Scrolloff,
    Scrollbar,
    Sidebar,
    CopyOnSelect,
}

/// One row of the panel.
#[derive(Clone, Debug)]
pub struct Row {
    pub setting: Setting,
    pub label: &'static str,
    pub value: String,
    /// One line on what the knob does.
    pub desc: &'static str,
    /// Touching it does something.
    pub enabled: bool,
}

/// One group of rows, under a heading.
#[derive(Clone, Debug)]
pub struct Section {
    pub title: &'static str,
    pub rows: Vec<Row>,
}

/// A row, text by text.
#[verifier::ext_equal]
pub ghost struct RowView {
    pub setting: Setting,
    pub label: Seq<char>,
    pub value: Seq<char>,
    pub desc: Seq<char>,
    pub enabled: bool,
}

/// A group, text by text.
#[verifier::ext_equal]
pub ghost struct SectionView {
    pub title: Seq<char>,
    pub rows: Seq<RowView>,
}

impl View for Row {
    type V = RowView;

    open spec fn view(&self) -> RowView {
        RowView {
            setting: self.setting,
            label: self.label@,
            value: self.value@,
            desc: self.desc@,
            enabled: self.enabled,
        }
    }
}

/// Some rows, text by text.
pub open spec fn row_views(rows: Seq<Row>) -> Seq<RowView> {
    rows.map_values(|r: Row| r@)
}

impl View for Section {
    type V = SectionView;

    open spec fn view(&self) -> SectionView {
        SectionView { title: self.title@, rows: row_views(self.rows@) }
    }
}

/// Some groups, text by text.
pub open spec fn section_views(sections: Seq<Section>) -> Seq<SectionView> {
    sections.map_values(|s: Section| s@)
}

/// What the panel is spelled from, besides what the diff view shows.
#[derive(Debug)]
pub struct Knobs {
    pub algorithms: Vec<String>,
    pub whitespaces: Vec<String>,
    pub themes: Vec<String>,
    pub theme: String,
    pub family: String,
    /// The size of the face, in whole points.
    pub font_size: String,
    pub context: usize,
    /// The shortest block that counts as moved. Zero is off.
    pub min_moved: usize,
    pub indent_heuristic: bool,
    pub rows: usize,
    pub scrolloff: usize,
    pub scrollbar: bool,
    /// The sidebar's share of the window, in whole per cent.
    pub sidebar: String,
    pub copy_on_select: bool,
}

/// What a choice among `options` shows: nothing where the choice is not there.
pub open spec fn choice_value(options: Seq<Seq<char>>, current: int) -> Seq<char> {
    if 0 <= current < options.len() {
        options[current]
    } else {
        seq![]
    }
}

/// What a choice shows that is made by name: the first option where no option
/// has that name.
pub open spec fn named_value(options: Seq<Seq<char>>, name: Seq<char>) -> Seq<char> {
    choice_value(
        options,
        match text::place(options, name) {
            Some(i) => i,
            None => 0,
        },
    )
}

/// What a switch shows.
pub open spec fn toggle_value(on: bool) -> Seq<char> {
    if on {
        "on"@
    } else {
        "off"@
    }
}

/// What the floor of a move shows.
pub open spec fn moves_value(n: usize) -> Seq<char> {
    if n == 0 {
        "off"@
    } else {
        text::decimal(n as nat)
    }
}

/// A row that can be touched.
pub open spec fn row_of(
    setting: Setting,
    label: Seq<char>,
    desc: Seq<char>,
    value: Seq<char>,
) -> RowView {
    RowView { setting, label, value, desc, enabled: true }
}

/// A row that can be touched where a repository made the diff.
pub open spec fn repo_row(
    setting: Setting,
    label: Seq<char>,
    desc: Seq<char>,
    value: Seq<char>,
    from_repo: bool,
) -> RowView {
    RowView { setting, label, value, desc, enabled: from_repo }
}

/// What the diff view shows: its presentations and its wraps, and which of each
/// is on.
#[derive(Debug)]
pub struct Showing {
    pub layouts: Vec<String>,
    pub layout: usize,
    pub wraps: Vec<String>,
    pub wrap: usize,
}

/// The panel.
pub open spec fn panel(
    k: Knobs,
    on: Showing,
    algorithm: Seq<char>,
    whitespace: Seq<char>,
    from_repo: bool,
) -> Seq<SectionView> {
    seq![
        SectionView {
            title: "view"@,
            rows: seq![
                row_of(
                    Setting::Layout,
                    "layout"@,
                    "unified or side-by-side — s cycles the registry"@,
                    choice_value(text::texts(on.layouts@), on.layout as int),
                ),
                row_of(
                    Setting::Wrap,
                    "wrap"@,
                    "word, character or off — a wrap is more rows, never a taller one"@,
                    choice_value(text::texts(on.wraps@), on.wrap as int),
                ),
            ],
        },
        SectionView {
            title: "diff"@,
            rows: seq![
                repo_row(
                    Setting::Algorithm,
                    "algorithm"@,
                    "which lines correspond — histogram anchors on rare lines"@,
                    named_value(text::texts(k.algorithms@), algorithm),
                    from_repo,
                ),
                repo_row(
                    Setting::Whitespace,
                    "whitespace"@,
                    "an equivalence relation, not an algorithm — normalised per line"@,
                    named_value(text::texts(k.whitespaces@), whitespace),
                    from_repo,
                ),
                row_of(
                    Setting::Context,
                    "context"@,
                    "unchanged lines around each hunk"@,
                    text::decimal(k.context as nat),
                ),
                row_of(
                    Setting::Moves,
                    "moves"@,
                    "blocks shorter than this are coincidence, not a move"@,
                    moves_value(k.min_moved),
                ),
                row_of(
                    Setting::IndentHeuristic,
                    "indent heuristic"@,
                    "slide hunk edges by indentation sign"@,
                    toggle_value(k.indent_heuristic),
                ),
            ],
        },
        SectionView {
            title: "theme"@,
            rows: seq![
                row_of(
                    Setting::Theme,
                    "theme"@,
                    "the palette the window reads — colour reloads per frame"@,
                    named_value(text::texts(k.themes@), k.theme@),
                ),
            ],
        },
        SectionView {
            title: "text"@,
            rows: seq![
                row_of(
                    Setting::FontSize,
                    "font size"@,
                    "point size for code and chrome"@,
                    k.font_size@,
                ),
                row_of(
                    Setting::FontFamily,
                    "font"@,
                    "family for code and chrome"@,
                    k.family@,
                ),
            ],
        },
        SectionView {
            title: "scrolling"@,
            rows: seq![
                row_of(
                    Setting::Scroll,
                    "scroll"@,
                    "multiplier on wheel and smooth-scroll pixels"@,
                    text::decimal(k.rows as nat),
                ),
                row_of(
                    Setting::Scrolloff,
                    "scrolloff"@,
                    "margin the cursor keeps from the list edges"@,
                    text::decimal(k.scrolloff as nat),
                ),
                row_of(
                    Setting::Scrollbar,
                    "scrollbar"@,
                    "the bar over the last cell — an indicator, not a track"@,
                    toggle_value(k.scrollbar),
                ),
                row_of(
                    Setting::Sidebar,
                    "sidebar"@,
                    "share of the window the sidebar keeps"@,
                    k.sidebar@ + "%"@,
                ),
            ],
        },
        SectionView {
            title: "mouse"@,
            rows: seq![
                row_of(
                    Setting::CopyOnSelect,
                    "copy on select"@,
                    "drag-select copies through OSC 52"@,
                    toggle_value(k.copy_on_select),
                ),
            ],
        },
    ]
}

fn chosen(options: &Vec<String>, current: usize) -> (r: String)
    ensures
        r@ == choice_value(text::texts(options@), current as int),
{
    if current < options.len() {
        options[current].clone()
    } else {
        String::new()
    }
}

fn named(options: &Vec<String>, name: &str) -> (r: String)
    ensures
        r@ == named_value(text::texts(options@), name@),
{
    let at: usize = match text::find(options, name) {
        Some(i) => i,
        None => 0,
    };
    chosen(options, at)
}

fn switch(on: bool) -> (r: String)
    ensures
        r@ == toggle_value(on),
{
    if on {
        "on".to_owned()
    } else {
        "off".to_owned()
    }
}

fn row(
    setting: Setting,
    label: &'static str,
    desc: &'static str,
    value: String,
    enabled: bool,
) -> (r: Row)
    ensures
        r@ == (RowView { setting, label: label@, value: value@, desc: desc@, enabled }),
{
    Row { setting, label, value, desc, enabled }
}

/// The faces to choose from: the one in use, and the known ones that are not it.
pub fn families(family: &str) -> (r: Vec<String>)
    ensures
        text::texts(r@) == family_list(family@),
{
    let mut out: Vec<String> = Vec::new();
    out.push(family.to_owned());
    if !text::same(family, "JetBrainsMono Nerd Font Mono") {
        out.push("JetBrainsMono Nerd Font Mono".to_owned());
    }
    if !text::same(family, "Menlo") {
        out.push("Menlo".to_owned());
    }
    assert(text::texts(out@) =~= family_list(family@));
    out
}

/// The faces to choose from.
pub open spec fn family_list(family: Seq<char>) -> Seq<Seq<char>> {
    let known = "JetBrainsMono Nerd Font Mono"@;
    let other = "Menlo"@;
    seq![family] + (if family == known {
        seq![]
    } else {
        seq![known]
    }) + (if family == other {
        seq![]
    } else {
        seq![other]
    })
}

/// Every group of the panel, spelled from what is on screen. The two rows that
/// only a repository can answer are there without one, but cannot be touched.
pub fn build(
    k: &Knobs,
    on: &Showing,
    algorithm: &str,
    whitespace: &str,
    from_repo: bool,
) -> (r: Vec<Section>)
    ensures
        section_views(r@) == panel(*k, *on, algorithm@, whitespace@, from_repo),
{
    let view = Section {
        title: "view",
        rows: vec![
            row(
                Setting::Layout,
                "layout",
                "unified or side-by-side — s cycles the registry",
                chosen(&on.layouts, on.layout),
                true,
            ),
            row(
                Setting::Wrap,
                "wrap",
                "word, character or off — a wrap is more rows, never a taller one",
                chosen(&on.wraps, on.wrap),
                true,
            ),
        ],
    };
    let moves: String = if k.min_moved == 0 {
        "off".to_owned()
    } else {
        text::decimal_text(k.min_moved)
    };
    let diff = Section {
        title: "diff",
        rows: vec![
            row(
                Setting::Algorithm,
                "algorithm",
                "which lines correspond — histogram anchors on rare lines",
                named(&k.algorithms, algorithm),
                from_repo,
            ),
            row(
                Setting::Whitespace,
                "whitespace",
                "an equivalence relation, not an algorithm — normalised per line",
                named(&k.whitespaces, whitespace),
                from_repo,
            ),
            row(
                Setting::Context,
                "context",
                "unchanged lines around each hunk",
                text::decimal_text(k.context),
                true,
            ),
            row(
                Setting::Moves,
                "moves",
                "blocks shorter than this are coincidence, not a move",
                moves,
                true,
            ),
            row(
                Setting::IndentHeuristic,
                "indent heuristic",
                "slide hunk edges by indentation sign",
                switch(k.indent_heuristic),
                true,
            ),
        ],
    };
    let theme = Section {
        title: "theme",
        rows: vec![
            row(
                Setting::Theme,
                "theme",
                "the palette the window reads — colour reloads per frame",
                named(&k.themes, k.theme.as_str()),
                true,
            ),
        ],
    };
    let families = families(k.family.as_str());
    let face = Section {
        title: "text",
        rows: vec![
            row(
                Setting::FontSize,
                "font size",
                "point size for code and chrome",
                k.font_size.clone(),
                true,
            ),
            row(
                Setting::FontFamily,
                "font",
                "family for code and chrome",
                chosen(&families, 0),
                true,
            ),
        ],
    };
    let mut share = k.sidebar.clone();
    share.append("%");
    let scrolling = Section {
        title: "scrolling",
        rows: vec![
            row(
                Setting::Scroll,
                "scroll",
                "multiplier on wheel and smooth-scroll pixels",
                text::decimal_text(k.rows),
                true,
            ),
            row(
                Setting::Scrolloff,
                "scrolloff",
                "margin the cursor keeps from the list edges",
                text::decimal_text(k.scrolloff),
                true,
            ),
            row(
                Setting::Scrollbar,
                "scrollbar",
                "the bar over the last cell — an indicator, not a track",
                switch(k.scrollbar),
                true,
            ),
            row(
                Setting::Sidebar,
                "sidebar",
                "share of the window the sidebar keeps",
                share,
                true,
            ),
        ],
    };
    let mouse = Section {
        title: "mouse",
        rows: vec![
            row(
                Setting::CopyOnSelect,
                "copy on select",
                "drag-select copies through OSC 52",
                switch(k.copy_on_select),
                true,
            ),
        ],
    };
    let ghost want = panel(*k, *on, algorithm@, whitespace@, from_repo);
    assert(row_views(view.rows@) =~= want[0].rows);
    assert(row_views(diff.rows@) =~= want[1].rows);
    assert(row_views(theme.rows@) =~= want[2].rows);
    assert(row_views(face.rows@) =~= want[3].rows);
    assert(row_views(scrolling.rows@) =~= want[4].rows);
    assert(row_views(mouse.rows@) =~= want[5].rows);
    let out = vec![view, diff, theme, face, scrolling, mouse];
    assert(section_views(out@) =~= want);
    out
}

// ---------------------------------------------------------------------------
// Addresses
// ---------------------------------------------------------------------------

/// How many rows stand in the first `n` groups.
pub open spec fn rows_before(sections: Seq<Section>, n: int) -> nat
    decreases n,
{
    if n <= 0 {
        0
    } else {
        rows_before(sections, n - 1) + sections[n - 1].rows@.len()
    }
}

/// How many rows stand in all groups.
pub open spec fn row_count(sections: Seq<Section>) -> nat {
    rows_before(sections, sections.len() as int)
}

/// Row `r` of group `s` is row `index` of the panel.
pub open spec fn addressed(sections: Seq<Section>, s: int, r: int, index: int) -> bool {
    &&& 0 <= s < sections.len()
    &&& 0 <= r < sections[s].rows@.len()
    &&& index == rows_before(sections, s) + r
}

/// Groups further on start further on.
pub proof fn rows_before_grow(sections: Seq<Section>, a: int, b: int)
    requires
        0 <= a <= b <= sections.len(),
    ensures
        rows_before(sections, a) <= rows_before(sections, b),
        a < b ==> rows_before(sections, a) + sections[a].rows@.len() <= rows_before(sections, b),
    decreases b - a,
{
    if a < b {
        rows_before_grow(sections, a, b - 1);
    }
}

/// How many rows the panel holds.
pub fn len(sections: &Vec<Section>) -> (r: usize)
    requires
        row_count(sections@) <= usize::MAX,
    ensures
        r == row_count(sections@),
{
    let mut n: usize = 0;
    let mut i: usize = 0;
    while i < sections.len()
        invariant
            i <= sections@.len(),
            n == rows_before(sections@, i as int),
            row_count(sections@) <= usize::MAX,
        decreases sections@.len() - i,
    {
        proof {
            rows_before_grow(sections@, i as int, sections@.len() as int);
        }
        n += sections[i].rows.len();
        i += 1;
    }
    n
}

/// The row that an index names: its group, and its place there. None past the
/// end.
pub fn at(sections: &Vec<Section>, index: usize) -> (r: Option<(usize, usize)>)
    ensures
        match r {
            Some((s, i)) => addressed(sections@, s as int, i as int, index as int),
            None => index >= row_count(sections@),
        },
{
    let mut left: usize = index;
    let mut s: usize = 0;
    while s < sections.len()
        invariant
            s <= sections@.len(),
            left + rows_before(sections@, s as int) == index,
        decreases sections@.len() - s,
    {
        let n: usize = sections[s].rows.len();
        if left < n {
            return Some((s, left));
        }
        left -= n;
        s += 1;
    }
    None
}

proof fn named_before(sections: Seq<Section>, n: int, index: int) -> (at: (int, int))
    requires
        0 <= n <= sections.len(),
        0 <= index < rows_before(sections, n),
    ensures
        addressed(sections, at.0, at.1, index),
    decreases n,
{
    if index >= rows_before(sections, n - 1) {
        (n - 1, index - rows_before(sections, n - 1))
    } else {
        named_before(sections, n - 1, index)
    }
}

/// Every index below the row count names a row: its group, and its place there.
pub proof fn every_index_names_a_row(sections: Seq<Section>, index: int) -> (at: (int, int))
    requires
        0 <= index < row_count(sections),
    ensures
        addressed(sections, at.0, at.1, index),
{
    named_before(sections, sections.len() as int, index)
}

/// Every row has an index below the row count, and no two rows have the same one.
pub proof fn addresses_are_unique(
    sections: Seq<Section>,
    s: int,
    r: int,
    index: int,
    s2: int,
    r2: int,
    index2: int,
)
    requires
        addressed(sections, s, r, index),
        addressed(sections, s2, r2, index2),
    ensures
        index < row_count(sections),
        index == index2 <==> (s == s2 && r == r2),
{
    rows_before_grow(sections, s, sections.len() as int);
    if s < s2 {
        rows_before_grow(sections, s, s2);
    }
    if s2 < s {
        rows_before_grow(sections, s2, s);
    }
}

// ---------------------------------------------------------------------------
// Choices
// ---------------------------------------------------------------------------

/// The choice `dir` steps from `current` among `count`, around either end.
pub open spec fn cycled(count: usize, current: usize, dir: i32) -> int {
    if count == 0 {
        0
    } else {
        (current + dir) % (count as int)
    }
}

/// Steps a choice, around either end. Negative is up.
pub fn cycle(count: usize, current: usize, dir: i32) -> (r: usize)
    ensures
        r == cycled(count, current, dir),
{
    if count == 0 {
        return 0;
    }
    let sum: i128 = current as i128 + dir as i128;
    if sum >= 0 {
        let k: u128 = sum as u128;
        let m: u128 = count as u128;
        (k % m) as usize
    } else {
        // Below zero by `k`: as far below the top as `k - 1` is above zero.
        let k: u128 = (-(sum + 1)) as u128;
        let m: u128 = count as u128;
        let rem: u128 = k % m;
        proof {
            let q = (k / m) as int;
            assert(k == m * q + rem) by {
                vstd::arithmetic::div_mod::lemma_fundamental_div_mod(k as int, m as int);
            }
            assert(sum == (-(q + 1)) * (m as int) + (m - 1 - rem)) by (nonlinear_arith)
                requires
                    k == m * q + rem,
                    k == -(sum + 1),
            ;
            vstd::arithmetic::div_mod::lemma_fundamental_div_mod_converse(
                sum as int,
                m as int,
                -(q + 1),
                m - 1 - rem,
            );
        }
        (m - 1 - rem) as usize
    }
}

/// A step and a step back leave a choice where it was, and no step leaves the
/// choices.
pub proof fn a_step_back_undoes_a_step(count: usize, current: usize, dir: i32)
    requires
        current < count,
        dir > i32::MIN,
    ensures
        0 <= cycled(count, current, dir) < count,
        cycled(count, cycled(count, current, dir) as usize, (-dir) as i32) == current,
{
    let n = count as int;
    let there = cycled(count, current, dir);
    assert((((current + dir) % n) - dir) % n == current as int) by {
        vstd::arithmetic::div_mod::lemma_mod_adds((current + dir) % n, -dir, n);
        vstd::arithmetic::div_mod::lemma_sub_mod_noop((current + dir) as int, dir as int, n);
        vstd::arithmetic::div_mod::lemma_sub_mod_noop_right((current + dir) % n, dir as int, n);
        vstd::arithmetic::div_mod::lemma_small_mod(current as nat, count as nat);
    }
}

} // verus!
