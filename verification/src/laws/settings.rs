//! The settings panel: every row shows its own knob.
use super::texts::numbers_are_told_apart;
use crate::settings::{
    addressed, addresses_are_unique, at, build, cycle, every_index_names_a_row, families, len,
    panel, row_count, row_views, section_views, Knobs, Row, Section, Setting, Showing,
};
use crate::text;
use vstd::prelude::*;

verus! {

/// The panel was built from these knobs, and row `i` of its group `s` is `row`.
pub open spec fn shows(
    k: Knobs,
    on: Showing,
    algorithm: &str,
    whitespace: &str,
    from_repo: bool,
    r: Vec<Section>,
    s: int,
    i: int,
    row: Row,
) -> bool {
    &&& call_ensures(build, (&k, &on, algorithm, whitespace, from_repo), r)
    &&& 0 <= s < r@.len()
    &&& 0 <= i < r@[s].rows@.len()
    &&& row == r@[s].rows@[i]
}

proof fn row_of_panel(
    k: Knobs,
    on: Showing,
    algorithm: &str,
    whitespace: &str,
    from_repo: bool,
    r: Vec<Section>,
    s: int,
)
    requires
        call_ensures(build, (&k, &on, algorithm, whitespace, from_repo), r),
        0 <= s < 6,
    ensures
        r@.len() == 6,
        r@[s].title@ == panel(k, on, algorithm@, whitespace@, from_repo)[s].title,
        r@[s].rows@.len() == panel(k, on, algorithm@, whitespace@, from_repo)[s].rows.len(),
        forall|i: int|
            0 <= i < r@[s].rows@.len() ==> (#[trigger] r@[s].rows@[i])@ == panel(
                k,
                on,
                algorithm@,
                whitespace@,
                from_repo,
            )[s].rows[i],
{
    let want = panel(k, on, algorithm@, whitespace@, from_repo);
    assert(section_views(r@).len() == want.len());
    assert(section_views(r@)[s] == r@[s]@);
    assert(row_views(r@[s].rows@) == want[s].rows);
    assert forall|i: int| 0 <= i < r@[s].rows@.len() implies (#[trigger] r@[s].rows@[i])@
        == want[s].rows[i] by {
        assert(row_views(r@[s].rows@)[i] == r@[s].rows@[i]@);
    }
}

/// Every row shows the knob that it edits and no other.
#[verifier::rlimit(40)]
pub proof fn every_row_shows_its_own_setting(
    k: Knobs,
    on: Showing,
    algorithm: &str,
    whitespace: &str,
    from_repo: bool,
    r: Vec<Section>,
    s: int,
    i: int,
    row: Row,
)
    requires
        shows(k, on, algorithm, whitespace, from_repo, r, s, i, row),
    ensures
        row.setting == Setting::Layout ==> row.value@ == (if on.layout < on.layouts@.len() {
            on.layouts@[on.layout as int]@
        } else {
            seq![]
        }),
        row.setting == Setting::Wrap ==> row.value@ == (if on.wrap < on.wraps@.len() {
            on.wraps@[on.wrap as int]@
        } else {
            seq![]
        }),
        row.setting == Setting::Context ==> row.value@ == text::decimal(k.context as nat),
        row.setting == Setting::Moves && k.min_moved == 0 ==> row.value@ == "off"@,
        row.setting == Setting::Moves && k.min_moved > 0 ==> row.value@ == text::decimal(
            k.min_moved as nat,
        ),
        row.setting == Setting::IndentHeuristic && k.indent_heuristic ==> row.value@ == "on"@,
        row.setting == Setting::IndentHeuristic && !k.indent_heuristic ==> row.value@ == "off"@,
        row.setting == Setting::FontSize ==> row.value@ == k.font_size@,
        row.setting == Setting::FontFamily ==> row.value@ == k.family@,
        row.setting == Setting::Scroll ==> row.value@ == text::decimal(k.rows as nat),
        row.setting == Setting::Scrolloff ==> row.value@ == text::decimal(k.scrolloff as nat),
        row.setting == Setting::Scrollbar && k.scrollbar ==> row.value@ == "on"@,
        row.setting == Setting::Scrollbar && !k.scrollbar ==> row.value@ == "off"@,
        row.setting == Setting::Sidebar ==> row.value@ == k.sidebar@ + "%"@,
        row.setting == Setting::CopyOnSelect && k.copy_on_select ==> row.value@ == "on"@,
        row.setting == Setting::CopyOnSelect && !k.copy_on_select ==> row.value@ == "off"@,
{
    assert(section_views(r@).len() == 6);
    row_of_panel(k, on, algorithm, whitespace, from_repo, r, s);
    assert(row@ == panel(k, on, algorithm@, whitespace@, from_repo)[s].rows[i]);
    if on.layout < on.layouts@.len() {
        assert(text::texts(on.layouts@)[on.layout as int] == on.layouts@[on.layout as int]@);
    }
    if on.wrap < on.wraps@.len() {
        assert(text::texts(on.wraps@)[on.wrap as int] == on.wraps@[on.wrap as int]@);
    }
}

/// A choice made by name shows that name where the options have it, and the first
/// option, or nothing, where they do not. The three such rows look each in their own
/// options for their own name.
#[verifier::rlimit(40)]
pub proof fn a_named_choice_shows_its_name(
    k: Knobs,
    on: Showing,
    algorithm: &str,
    whitespace: &str,
    from_repo: bool,
    r: Vec<Section>,
    s: int,
    i: int,
    row: Row,
    options: Seq<String>,
    name: Seq<char>,
)
    requires
        shows(k, on, algorithm, whitespace, from_repo, r, s, i, row),
        ({
            ||| row.setting == Setting::Algorithm && options == k.algorithms@ && name == algorithm@
            ||| row.setting == Setting::Whitespace && options == k.whitespaces@ && name
                == whitespace@
            ||| row.setting == Setting::Theme && options == k.themes@ && name == k.theme@
        }),
    ensures
        (exists|j: int| 0 <= j < options.len() && (#[trigger] options[j])@ == name) ==> row.value@
            == name,
        (forall|j: int| 0 <= j < options.len() ==> (#[trigger] options[j])@ != name) ==> row.value@
            == (if options.len() > 0 {
            options[0]@
        } else {
            seq![]
        }),
{
    assert(section_views(r@).len() == 6);
    row_of_panel(k, on, algorithm, whitespace, from_repo, r, s);
    assert(row@ == panel(k, on, algorithm@, whitespace@, from_repo)[s].rows[i]);
    let texts = text::texts(options);
    assert(forall|j: int| 0 <= j < options.len() ==> texts[j] == (#[trigger] options[j])@);
    text::place_is_first(texts, name);
    assert(row.value@ == crate::settings::named_value(texts, name));
    if exists|j: int| 0 <= j < options.len() && (#[trigger] options[j])@ == name {
        let j = choose|j: int| 0 <= j < options.len() && (#[trigger] options[j])@ == name;
        assert(texts[j] == name);
    }
}

/// A row is called after its setting, and only the two that a repository answers are
/// out of reach, and only without one.
#[verifier::rlimit(40)]
pub proof fn every_row_is_called_after_its_setting(
    k: Knobs,
    on: Showing,
    algorithm: &str,
    whitespace: &str,
    from_repo: bool,
    r: Vec<Section>,
    s: int,
    i: int,
    row: Row,
)
    requires
        shows(k, on, algorithm, whitespace, from_repo, r, s, i, row),
    ensures
        row.setting == Setting::Layout ==> row.label@ == "layout"@,
        row.setting == Setting::Wrap ==> row.label@ == "wrap"@,
        row.setting == Setting::Algorithm ==> row.label@ == "algorithm"@,
        row.setting == Setting::Whitespace ==> row.label@ == "whitespace"@,
        row.setting == Setting::Context ==> row.label@ == "context"@,
        row.setting == Setting::Moves ==> row.label@ == "moves"@,
        row.setting == Setting::IndentHeuristic ==> row.label@ == "indent heuristic"@,
        row.setting == Setting::Theme ==> row.label@ == "theme"@,
        row.setting == Setting::FontSize ==> row.label@ == "font size"@,
        row.setting == Setting::FontFamily ==> row.label@ == "font"@,
        row.setting == Setting::Scroll ==> row.label@ == "scroll"@,
        row.setting == Setting::Scrolloff ==> row.label@ == "scrolloff"@,
        row.setting == Setting::Scrollbar ==> row.label@ == "scrollbar"@,
        row.setting == Setting::Sidebar ==> row.label@ == "sidebar"@,
        row.setting == Setting::CopyOnSelect ==> row.label@ == "copy on select"@,
        !row.enabled <==> !from_repo && (row.setting == Setting::Algorithm || row.setting
            == Setting::Whitespace),
{
    assert(section_views(r@).len() == 6);
    row_of_panel(k, on, algorithm, whitespace, from_repo, r, s);
    assert(row@ == panel(k, on, algorithm@, whitespace@, from_repo)[s].rows[i]);
}

/// A row's line says what its own knob does.
#[verifier::rlimit(40)]
pub proof fn every_row_says_what_its_setting_does(
    k: Knobs,
    on: Showing,
    algorithm: &str,
    whitespace: &str,
    from_repo: bool,
    r: Vec<Section>,
    s: int,
    i: int,
    row: Row,
)
    requires
        shows(k, on, algorithm, whitespace, from_repo, r, s, i, row),
    ensures
        row.setting == Setting::Layout ==> row.desc@
            == "unified or side-by-side — s cycles the registry"@,
        row.setting == Setting::Wrap ==> row.desc@
            == "word, character or off — a wrap is more rows, never a taller one"@,
        row.setting == Setting::Algorithm ==> row.desc@
            == "which lines correspond — histogram anchors on rare lines"@,
        row.setting == Setting::Whitespace ==> row.desc@
            == "an equivalence relation, not an algorithm — normalised per line"@,
        row.setting == Setting::Context ==> row.desc@ == "unchanged lines around each hunk"@,
        row.setting == Setting::Moves ==> row.desc@
            == "blocks shorter than this are coincidence, not a move"@,
        row.setting == Setting::IndentHeuristic ==> row.desc@
            == "slide hunk edges by indentation sign"@,
        row.setting == Setting::Theme ==> row.desc@
            == "the palette the window reads — colour reloads per frame"@,
        row.setting == Setting::FontSize ==> row.desc@ == "point size for code and chrome"@,
        row.setting == Setting::FontFamily ==> row.desc@ == "family for code and chrome"@,
        row.setting == Setting::Scroll ==> row.desc@
            == "multiplier on wheel and smooth-scroll pixels"@,
        row.setting == Setting::Scrolloff ==> row.desc@
            == "margin the cursor keeps from the list edges"@,
        row.setting == Setting::Scrollbar ==> row.desc@
            == "the bar over the last cell — an indicator, not a track"@,
        row.setting == Setting::Sidebar ==> row.desc@ == "share of the window the sidebar keeps"@,
        row.setting == Setting::CopyOnSelect ==> row.desc@ == "drag-select copies through OSC 52"@,
{
    assert(section_views(r@).len() == 6);
    row_of_panel(k, on, algorithm, whitespace, from_repo, r, s);
    assert(row@ == panel(k, on, algorithm@, whitespace@, from_repo)[s].rows[i]);
}

/// Every setting stands in the panel once, in the group it belongs to.
#[verifier::rlimit(60)]
pub proof fn every_setting_stands_once(
    k: Knobs,
    on: Showing,
    algorithm: &str,
    whitespace: &str,
    from_repo: bool,
    r: Vec<Section>,
    setting: Setting,
) -> (place: (int, int))
    requires
        call_ensures(build, (&k, &on, algorithm, whitespace, from_repo), r),
    ensures
        r@.len() == 6,
        0 <= place.0 < 6,
        0 <= place.1 < r@[place.0].rows@.len(),
        r@[place.0].rows@[place.1].setting == setting,
        forall|s: int, i: int|
            0 <= s < 6 && 0 <= i < r@[s].rows@.len() && (s != place.0 || i != place.1)
                ==> (#[trigger] r@[s].rows@[i]).setting != setting,
        setting == Setting::Layout || setting == Setting::Wrap <==> r@[place.0].title@ == "view"@,
        setting == Setting::Algorithm || setting == Setting::Whitespace || setting
            == Setting::Context || setting == Setting::Moves || setting
            == Setting::IndentHeuristic <==> r@[place.0].title@ == "diff"@,
        setting == Setting::Theme <==> r@[place.0].title@ == "theme"@,
        setting == Setting::FontSize || setting == Setting::FontFamily <==> r@[place.0].title@
            == "text"@,
        setting == Setting::Scroll || setting == Setting::Scrolloff || setting
            == Setting::Scrollbar || setting == Setting::Sidebar <==> r@[place.0].title@
            == "scrolling"@,
        setting == Setting::CopyOnSelect <==> r@[place.0].title@ == "mouse"@,
{
    let want = panel(k, on, algorithm@, whitespace@, from_repo);
    assert forall|s: int| 0 <= s < 6 implies (#[trigger] r@[s]).title@ == want[s].title
        && r@[s].rows@.len() == want[s].rows.len() && forall|i: int|
        0 <= i < r@[s].rows@.len() ==> (#[trigger] r@[s].rows@[i])@ == want[s].rows[i] by {
        row_of_panel(k, on, algorithm, whitespace, from_repo, r, s);
    }
    assert(section_views(r@).len() == 6);
    reveal_strlit("view");
    reveal_strlit("diff");
    reveal_strlit("theme");
    reveal_strlit("text");
    reveal_strlit("scrolling");
    reveal_strlit("mouse");
    assert("view"@[0] == 'v' && "diff"@[0] == 'd' && "theme"@[1] == 'h' && "text"@[1] == 'e'
        && "scrolling"@[0] == 's' && "mouse"@[0] == 'm' && "theme"@[0] == 't' && "text"@[0] == 't');
    let place = match setting {
        Setting::Layout => (0int, 0int),
        Setting::Wrap => (0, 1),
        Setting::Algorithm => (1, 0),
        Setting::Whitespace => (1, 1),
        Setting::Context => (1, 2),
        Setting::Moves => (1, 3),
        Setting::IndentHeuristic => (1, 4),
        Setting::Theme => (2, 0),
        Setting::FontSize => (3, 0),
        Setting::FontFamily => (3, 1),
        Setting::Scroll => (4, 0),
        Setting::Scrolloff => (4, 1),
        Setting::Scrollbar => (4, 2),
        Setting::Sidebar => (4, 3),
        Setting::CopyOnSelect => (5, 0),
    };
    assert(r@[place.0].rows@[place.1]@ == want[place.0].rows[place.1]);
    assert(r@[place.0].title@ == want[place.0].title);
    assert forall|s: int, i: int|
        0 <= s < 6 && 0 <= i < r@[s].rows@.len() && (s != place.0 || i != place.1) implies (
    #[trigger] r@[s].rows@[i]).setting != setting by {
        assert(r@[s].rows@[i]@ == want[s].rows[i]);
    }
    place
}

/// The panel goes from what is seen to what is touched, group by group and row by row.
pub proof fn the_panel_stands_in_order(
    k: Knobs,
    on: Showing,
    algorithm: &str,
    whitespace: &str,
    from_repo: bool,
    r: Vec<Section>,
)
    requires
        call_ensures(build, (&k, &on, algorithm, whitespace, from_repo), r),
    ensures
        r@.len() == 6,
        r@[0].title@ == "view"@ && r@[1].title@ == "diff"@ && r@[2].title@ == "theme"@,
        r@[3].title@ == "text"@ && r@[4].title@ == "scrolling"@ && r@[5].title@ == "mouse"@,
        r@[0].rows@.map_values(|row: Row| row.setting) == seq![Setting::Layout, Setting::Wrap],
        r@[1].rows@.map_values(|row: Row| row.setting) == seq![
            Setting::Algorithm,
            Setting::Whitespace,
            Setting::Context,
            Setting::Moves,
            Setting::IndentHeuristic,
        ],
        r@[2].rows@.map_values(|row: Row| row.setting) == seq![Setting::Theme],
        r@[3].rows@.map_values(|row: Row| row.setting) == seq![
            Setting::FontSize,
            Setting::FontFamily,
        ],
        r@[4].rows@.map_values(|row: Row| row.setting) == seq![
            Setting::Scroll,
            Setting::Scrolloff,
            Setting::Scrollbar,
            Setting::Sidebar,
        ],
        r@[5].rows@.map_values(|row: Row| row.setting) == seq![Setting::CopyOnSelect],
{
    let want = panel(k, on, algorithm@, whitespace@, from_repo);
    let settings = |row: Row| row.setting;
    assert forall|s: int| 0 <= s < 6 implies (#[trigger] r@[s]).title@ == want[s].title
        && r@[s].rows@.len() == want[s].rows.len() && forall|i: int|
        0 <= i < r@[s].rows@.len() ==> (#[trigger] r@[s].rows@[i])@ == want[s].rows[i] by {
        row_of_panel(k, on, algorithm, whitespace, from_repo, r, s);
    }
    assert(section_views(r@).len() == 6);
    assert(r@[0].rows@.map_values(settings) =~= seq![Setting::Layout, Setting::Wrap]);
    assert(r@[1].rows@.map_values(settings) =~= seq![
        Setting::Algorithm,
        Setting::Whitespace,
        Setting::Context,
        Setting::Moves,
        Setting::IndentHeuristic,
    ]);
    assert(r@[2].rows@.map_values(settings) =~= seq![Setting::Theme]);
    assert(r@[3].rows@.map_values(settings) =~= seq![Setting::FontSize, Setting::FontFamily]);
    assert(r@[4].rows@.map_values(settings) =~= seq![
        Setting::Scroll,
        Setting::Scrolloff,
        Setting::Scrollbar,
        Setting::Sidebar,
    ]);
    assert(r@[5].rows@.map_values(settings) =~= seq![Setting::CopyOnSelect]);
}

/// Turning one knob changes what its own row shows and what no other row shows: of
/// two panels, the rows of a setting show the same exactly where that setting's own
/// knob is the same.
#[verifier::rlimit(40)]
pub proof fn a_knob_changes_its_own_row_alone(
    k: Knobs,
    l: Knobs,
    on: Showing,
    algorithm: &str,
    whitespace: &str,
    from_repo: bool,
    r: Vec<Section>,
    q: Vec<Section>,
    s: int,
    i: int,
    row: Row,
    other: Row,
)
    requires
        shows(k, on, algorithm, whitespace, from_repo, r, s, i, row),
        shows(l, on, algorithm, whitespace, from_repo, q, s, i, other),
    ensures
        row.setting == other.setting,
        row.label@ == other.label@,
        row.setting == Setting::Layout || row.setting == Setting::Wrap ==> row.value@
            == other.value@,
        row.setting == Setting::Context ==> (row.value@ == other.value@ <==> k.context
            == l.context),
        row.setting == Setting::Scroll ==> (row.value@ == other.value@ <==> k.rows == l.rows),
        row.setting == Setting::Scrolloff ==> (row.value@ == other.value@ <==> k.scrolloff
            == l.scrolloff),
        row.setting == Setting::IndentHeuristic ==> (row.value@ == other.value@
            <==> k.indent_heuristic == l.indent_heuristic),
        row.setting == Setting::Scrollbar ==> (row.value@ == other.value@ <==> k.scrollbar
            == l.scrollbar),
        row.setting == Setting::CopyOnSelect ==> (row.value@ == other.value@ <==> k.copy_on_select
            == l.copy_on_select),
        row.setting == Setting::FontSize ==> (row.value@ == other.value@ <==> k.font_size@
            == l.font_size@),
        row.setting == Setting::FontFamily ==> (row.value@ == other.value@ <==> k.family@
            == l.family@),
        row.setting == Setting::Sidebar ==> (row.value@ == other.value@ <==> k.sidebar@
            == l.sidebar@),
        row.setting == Setting::Moves && k.min_moved == l.min_moved ==> row.value@ == other.value@,
        row.setting == Setting::Moves && k.min_moved > 0 && l.min_moved > 0 && k.min_moved
            != l.min_moved ==> row.value@ != other.value@,
        row.setting == Setting::Algorithm && k.algorithms == l.algorithms ==> row.value@
            == other.value@,
        row.setting == Setting::Whitespace && k.whitespaces == l.whitespaces ==> row.value@
            == other.value@,
        row.setting == Setting::Theme && k.themes == l.themes && k.theme@ == l.theme@
            ==> row.value@ == other.value@,
{
    assert(section_views(r@).len() == 6);
    row_of_panel(k, on, algorithm, whitespace, from_repo, r, s);
    row_of_panel(l, on, algorithm, whitespace, from_repo, q, s);
    assert(row@ == panel(k, on, algorithm@, whitespace@, from_repo)[s].rows[i]);
    assert(other@ == panel(l, on, algorithm@, whitespace@, from_repo)[s].rows[i]);
    numbers_are_told_apart(k.context as nat, l.context as nat);
    numbers_are_told_apart(k.rows as nat, l.rows as nat);
    numbers_are_told_apart(k.scrolloff as nat, l.scrolloff as nat);
    numbers_are_told_apart(k.min_moved as nat, l.min_moved as nat);
    reveal_strlit("on");
    reveal_strlit("off");
    assert("on"@.len() == 2 && "off"@.len() == 3);
    reveal_strlit("%");
    if row.setting == Setting::Sidebar && row.value@ == other.value@ {
        assert(k.sidebar@ =~= row.value@.drop_last());
        assert(l.sidebar@ =~= other.value@.drop_last());
    }
}

// ---------------------------------------------------------------------------
// Addresses
// ---------------------------------------------------------------------------

/// Counting on from the first row of the first group, group by group, reaches every
/// row once: each index below the length is a row, the first is the first row, and
/// the next index is the next row of the group or, past its end, the first of a
/// group further on.
pub proof fn indices_walk_the_rows(
    sections: Vec<Section>,
    n: usize,
    i: usize,
    r: Option<(usize, usize)>,
    next: Option<(usize, usize)>,
)
    requires
        row_count(sections@) <= usize::MAX,
        call_ensures(len, (&sections,), n),
        call_ensures(at, (&sections, i), r),
        i < usize::MAX,
        call_ensures(at, (&sections, (i + 1) as usize), next),
    ensures
        r is Some <==> i < n,
        r matches Some((s, j)) ==> s < sections@.len() && j < sections@[s as int].rows@.len(),
        i == 0 ==> (r matches Some((s, j)) ==> j == 0),
        r is Some && next is Some ==> {
            let (s, j) = r.unwrap();
            let (t, k) = next.unwrap();
            &&& j + 1 < sections@[s as int].rows@.len() ==> t == s && k == j + 1
            &&& j + 1 == sections@[s as int].rows@.len() ==> t > s && k == 0
        },
{
    let all = sections@;
    let (m, count) = (i as int, row_count(all) as int);
    if m < count {
        let a = every_index_names_a_row(all, m);
    }
    if r is Some {
        let (s, j) = r.unwrap();
        addresses_are_unique(all, s as int, j as int, m, s as int, j as int, m);
        if next is Some {
            let (t, k) = next.unwrap();
            if j + 1 < all[s as int].rows@.len() {
                assert(addressed(all, s as int, j + 1, m + 1));
                addresses_are_unique(all, s as int, j + 1, m + 1, t as int, k as int, m + 1);
            } else {
                if t < s {
                    crate::settings::rows_before_grow(all, t as int, s as int);
                }
                if t == s {
                    assert(false);
                }
                crate::settings::rows_before_grow(all, s as int, t as int);
                assert(k == 0);
            }
        }
        if m == 0 {
            assert(j == 0);
        }
    }
}

// ---------------------------------------------------------------------------
// Choices
// ---------------------------------------------------------------------------

/// One step goes to the next choice, and from the last to the first; one step back
/// goes to the one before, and from the first to the last. No step stays, and there
/// is nowhere to go among none.
pub proof fn a_step_goes_to_the_next_choice(
    count: usize,
    current: usize,
    next: usize,
    back: usize,
    still: usize,
)
    requires
        call_ensures(cycle, (count, current, 1i32), next),
        call_ensures(cycle, (count, current, -1i32), back),
        call_ensures(cycle, (count, current, 0i32), still),
    ensures
        count == 0 ==> next == 0 && back == 0,
        current + 1 < count ==> next == current + 1,
        current + 1 == count ==> next == 0,
        0 < current < count ==> back == current - 1,
        current == 0 && count > 0 ==> back == count - 1,
        current < count ==> still == current,
{
    if current < count {
        let n = count as int;
        if current + 1 < count {
            vstd::arithmetic::div_mod::lemma_small_mod((current + 1) as nat, count as nat);
        } else {
            vstd::arithmetic::div_mod::lemma_mod_self_0(n);
        }
        vstd::arithmetic::div_mod::lemma_small_mod(current as nat, count as nat);
        if current > 0 {
            vstd::arithmetic::div_mod::lemma_small_mod((current - 1) as nat, count as nat);
        } else {
            vstd::arithmetic::div_mod::lemma_fundamental_div_mod_converse(-1, n, -1, n - 1);
        }
    }
}

/// Steps add up: stepping by one count and then by another is stepping by both.
pub proof fn steps_add_up(
    count: usize,
    current: usize,
    a: i32,
    b: i32,
    there: usize,
    after: usize,
    at_once: usize,
)
    requires
        count > 0,
        i32::MIN <= a + b <= i32::MAX,
        call_ensures(cycle, (count, current, a), there),
        call_ensures(cycle, (count, there, b), after),
        call_ensures(cycle, (count, current, (a + b) as i32), at_once),
    ensures
        after == at_once,
{
    let n = count as int;
    vstd::arithmetic::div_mod::lemma_add_mod_noop((current + a) as int, b as int, n);
    vstd::arithmetic::div_mod::lemma_add_mod_noop((current + a) % n, b as int, n);
    vstd::arithmetic::div_mod::lemma_mod_twice((current + a) as int, n);
}

/// The face in use comes first among the faces, every known face is there, and none
/// is there twice.
pub proof fn the_face_in_use_comes_first(family: &str, r: Vec<String>)
    requires
        call_ensures(families, (family,), r),
    ensures
        r@.len() > 0,
        r@[0]@ == family@,
        exists|i: int| 0 <= i < r@.len() && (#[trigger] r@[i])@ == "JetBrainsMono Nerd Font Mono"@,
        exists|i: int| 0 <= i < r@.len() && (#[trigger] r@[i])@ == "Menlo"@,
        forall|i: int, j: int|
            0 <= i < j < r@.len() ==> (#[trigger] r@[i])@ != (#[trigger] r@[j])@,
        forall|i: int|
            1 <= i < r@.len() ==> (#[trigger] r@[i])@ == "JetBrainsMono Nerd Font Mono"@ || r@[i]@
                == "Menlo"@,
{
    let want = crate::settings::family_list(family@);
    assert(text::texts(r@).len() == want.len());
    assert(forall|i: int| 0 <= i < r@.len() ==> (#[trigger] r@[i])@ == text::texts(r@)[i]);
    reveal_strlit("JetBrainsMono Nerd Font Mono");
    reveal_strlit("Menlo");
    assert("Menlo"@.len() == 5);
    assert("JetBrainsMono Nerd Font Mono"@.len() == 28);
    assert(r@[0]@ == want[0]);
    if family@ == "JetBrainsMono Nerd Font Mono"@ {
        assert(r@[1]@ == want[1]);
    } else if family@ == "Menlo"@ {
        assert(r@[1]@ == want[1]);
    } else {
        assert(r@[1]@ == want[1]);
        assert(r@[2]@ == want[2]);
    }
}

} // verus!
