//! The settings window: what a query leaves of the panel, and what a key does to the
//! row it selects.
use super::texts::{a_part_stands_between, blank, one_word, one_word_is_looked_for};
use crate::settings::{
    addressed, addresses_are_unique, at, every_index_names_a_row, len, row_count, row_views,
    rows_before, rows_before_grow, section_views, Row, RowView, Section, SectionView,
};
use crate::settings_window::{
    body_lines, filtered, filtered_lowered, flat_at, flat_len, fold, folded, kept_rows,
    kept_section, kept_sections, matches_lowered, row_look, side_look, titled, Act, BodyLine,
    Folded, Item, PanelInks, Pressed, Resolved, RowLook, SettingsWindow, SideEntry,
};
use crate::text;
use crate::views::draw::Rgb;
use vstd::prelude::*;

verus! {

// ---------------------------------------------------------------------------
// The filter
// ---------------------------------------------------------------------------

/// A row answers a query of one word where its label or its value has that word in
/// it, in whatever case, and a blank query in any case.
pub proof fn a_row_answers_by_its_label_or_its_value(
    query: &str,
    label: &str,
    value: &str,
    r: bool,
)
    requires
        call_ensures(crate::settings_window::matches, (query, label, value), r),
    ensures
        one_word(text::lowercase(query@)) ==> (r <==> (exists|before: Seq<char>, after: Seq<char>|
            text::lowercase(label@) == #[trigger] (before + text::lowercase(query@) + after)) || (
        exists|before: Seq<char>, after: Seq<char>|
            text::lowercase(value@) == #[trigger] (before + text::lowercase(query@) + after))),
        blank(text::lowercase(query@)) ==> r,
{
    let word = text::lowercase(query@);
    let fields = seq![text::lowercase(label@), text::lowercase(value@)];
    one_word_is_looked_for(word, fields);
    a_part_stands_between(fields[0], word);
    a_part_stands_between(fields[1], word);
    if text::holds(fields[0], word) || text::holds(fields[1], word) {
        assert(text::holds(fields[0], word) || text::holds(fields[1], word));
    }
}

/// Folding first changes nothing: a query in lowercase asks of lowercase texts what
/// it asks of the texts as they are.
pub proof fn folding_first_changes_nothing(
    query: &str,
    label: &str,
    value: &str,
    low_query: &str,
    low_label: &str,
    low_value: &str,
    r: bool,
    s: bool,
)
    requires
        low_query@ == text::lowercase(query@),
        low_label@ == text::lowercase(label@),
        low_value@ == text::lowercase(value@),
        call_ensures(crate::settings_window::matches, (query, label, value), r),
        call_ensures(matches_lowered, (low_query, low_label, low_value), s),
    ensures
        r == s,
{
}

/// The panel is filtered group by group: what is left of some groups and more groups
/// behind them is what is left of each, one after the other.
pub proof fn groups_are_filtered_one_by_one(
    typed: &str,
    a: Vec<Section>,
    b: Vec<Section>,
    both: Vec<Section>,
    r: Vec<Section>,
    s: Vec<Section>,
    t: Vec<Section>,
)
    requires
        call_ensures(filtered, (typed, &a), r),
        call_ensures(filtered, (typed, &b), s),
        call_ensures(filtered, (typed, &both), t),
        both@ == a@ + b@,
    ensures
        t@.len() == r@.len() + s@.len(),
        forall|i: int| 0 <= i < r@.len() ==> (#[trigger] t@[i])@ == r@[i]@,
        forall|i: int| 0 <= i < s@.len() ==> t@[r@.len() + i]@ == (#[trigger] s@[i])@,
{
    let (x, y) = (section_views(a@), section_views(b@));
    assert(section_views(both@) =~= x + y);
    let q = text::asked(typed@);
    let w = text::lowercase(q);
    let fold = |s: SectionView| folded(s);
    kept_appends(q, w, x, y);
    assert(section_views(t@) =~= section_views(r@) + section_views(s@));
    assert(section_views(t@).len() == t@.len());
    assert(section_views(r@).len() == r@.len());
    assert(section_views(s@).len() == s@.len());
    assert forall|i: int| 0 <= i < r@.len() implies (#[trigger] t@[i])@ == r@[i]@ by {
        assert(section_views(t@)[i] == section_views(r@)[i]);
    }
    assert forall|i: int| 0 <= i < s@.len() implies t@[r@.len() + i]@ == (#[trigger] s@[i])@ by {
        assert(section_views(t@)[r@.len() + i] == section_views(s@)[i]);
    }
}

proof fn kept_appends(q: Seq<char>, w: Seq<char>, a: Seq<SectionView>, b: Seq<SectionView>)
    ensures
        ({
            let fold = |s: SectionView| folded(s);
            kept_sections(q, w, a + b, (a + b).map_values(fold)) == kept_sections(
                q,
                w,
                a,
                a.map_values(fold),
            ) + kept_sections(q, w, b, b.map_values(fold))
        }),
    decreases b.len(),
{
    let fold = |s: SectionView| folded(s);
    let both = a + b;
    if b.len() == 0 {
        assert(both =~= a);
        assert(kept_sections(q, w, a, a.map_values(fold)) + kept_sections(q, w, b, b.map_values(fold))
            =~= kept_sections(q, w, a, a.map_values(fold)));
    } else {
        let rest = b.drop_last();
        kept_appends(q, w, a, rest);
        assert(both.drop_last() =~= a + rest);
        assert(both.map_values(fold).drop_last() =~= (a + rest).map_values(fold));
        assert(b.map_values(fold).drop_last() =~= rest.map_values(fold));
        assert(both.last() == b.last());
        assert(both.map_values(fold).last() == b.map_values(fold).last());
        assert(kept_sections(q, w, both, both.map_values(fold)) =~= kept_sections(
            q,
            w,
            a,
            a.map_values(fold),
        ) + kept_sections(q, w, b, b.map_values(fold)));
    }
}

/// A query that asks nothing, and one that a group's title has in it, leave the group
/// whole. Any other leaves the rows that answer it, in order, under the group's own
/// title, and no group where no row does.
pub proof fn a_group_is_left_by_its_title_or_its_rows(
    typed: &str,
    section: Section,
    panel: Vec<Section>,
    r: Vec<Section>,
    query: String,
)
    requires
        panel@ == seq![section],
        call_ensures(filtered, (typed, &panel), r),
        call_ensures(text::ask, (typed,), query),
    ensures
        ({
            let whole = query@.len() == 0 || exists|before: Seq<char>, after: Seq<char>|
                text::lowercase(section.title@) == #[trigger] (before + query@ + after);
            let answers = row_views(section.rows@).filter(
                |v: RowView|
                    text::words_held(
                        text::lowercase(query@),
                        seq![text::lowercase(v.label), text::lowercase(v.value)],
                    ),
            );
            &&& whole ==> r@.len() == 1 && r@[0].title@ == section.title@ && row_views(r@[0].rows@)
                == row_views(section.rows@)
            &&& !whole && answers.len() > 0 ==> r@.len() == 1 && r@[0].title@ == section.title@
                && row_views(r@[0].rows@) == answers
            &&& !whole && answers.len() == 0 ==> r@.len() == 0
        }),
{
    let q = query@;
    let w = text::lowercase(q);
    let fold = |s: SectionView| folded(s);
    let views = section_views(panel@);
    assert(views =~= seq![section@]);
    let folds = views.map_values(fold);
    assert(folds =~= seq![folded(section@)]);
    a_part_stands_between(text::lowercase(section.title@), q);
    rows_are_filtered(w, section@.rows);
    assert(section_views(r@).len() == r@.len());
    if q.len() > 0 {
        reveal_with_fuel(kept_sections, 2);
        assert(views.drop_last() =~= seq![]);
        let earlier = kept_sections(q, w, views.drop_last(), folds.drop_last());
        assert(earlier =~= seq![]);
        match kept_section(q, w, section@, folded(section@)) {
            Some(s) => {
                assert(section_views(r@) =~= seq![s]);
                assert(section_views(r@)[0] == r@[0]@);
            },
            None => {
                assert(section_views(r@) =~= seq![]);
            },
        }
    } else {
        assert(section_views(r@)[0] == r@[0]@);
    }
}

proof fn rows_are_filtered(words: Seq<char>, rows: Seq<RowView>)
    ensures
        kept_rows(
            words,
            rows,
            rows.map_values(|r: RowView| (text::lowercase(r.label), text::lowercase(r.value))),
        ) == rows.filter(
            |v: RowView|
                text::words_held(words, seq![text::lowercase(v.label), text::lowercase(v.value)]),
        ),
    decreases rows.len(),
{
    reveal(Seq::filter);
    let low = |r: RowView| (text::lowercase(r.label), text::lowercase(r.value));
    if rows.len() > 0 {
        rows_are_filtered(words, rows.drop_last());
        assert(rows.map_values(low).drop_last() =~= rows.drop_last().map_values(low));
    }
}

/// The panel folded beforehand is filtered as the panel is.
pub proof fn a_folded_panel_is_filtered_alike(
    typed: &str,
    sections: Vec<Section>,
    folds: Vec<Folded>,
    query: String,
    asked: &str,
    words: &str,
    r: Vec<Section>,
    s: Vec<Section>,
)
    requires
        call_ensures(fold, (&sections,), folds),
        call_ensures(text::ask, (typed,), query),
        asked@ == query@,
        words@ == text::lowercase(query@),
        call_ensures(filtered_lowered, (asked, words, &sections, &folds), r),
        call_ensures(filtered, (typed, &sections), s),
    ensures
        r@.len() == s@.len(),
        forall|i: int| 0 <= i < r@.len() ==> (#[trigger] r@[i])@ == s@[i]@,
{
    assert(section_views(r@).len() == r@.len() && section_views(s@).len() == s@.len());
    assert forall|i: int| 0 <= i < r@.len() implies (#[trigger] r@[i])@ == s@[i]@ by {
        assert(section_views(r@)[i] == section_views(s@)[i]);
    }
}

// ---------------------------------------------------------------------------
// The selection
// ---------------------------------------------------------------------------

/// The selection moves over every row and then the file: an index names the row it
/// counts to, the one past every row names the file, and none past that names
/// anything.
pub proof fn the_file_comes_after_every_row(
    sections: Vec<Section>,
    index: usize,
    rows: usize,
    flat: usize,
    place: Option<(usize, usize)>,
    item: Option<Item>,
)
    requires
        row_count(sections@) < usize::MAX,
        call_ensures(len, (&sections,), rows),
        call_ensures(flat_len, (&sections,), flat),
        call_ensures(at, (&sections, index), place),
        call_ensures(flat_at, (&sections, index), item),
    ensures
        flat == rows + 1,
        index < rows ==> (place matches Some((s, r)) && item == Some((Item::Row { s, r }))),
        index == rows ==> item == Some(Item::File),
        index > rows ==> item is None,
{
    let n = index as int;
    if index < rows {
        let a = every_index_names_a_row(sections@, n);
        let (s, r) = place.unwrap();
        if let Some(Item::Row { s: t, r: q }) = item {
            addresses_are_unique(sections@, s as int, r as int, n, t as int, q as int, n);
        }
    } else if let Some(Item::Row { s, r }) = item {
        addresses_are_unique(sections@, s as int, r as int, n, s as int, r as int, n);
    }
}

/// A step moves the selection by as much, but stops at either end. A step that goes
/// somewhere clears the last line, and one that does not changes nothing.
pub proof fn a_step_stops_at_either_end<K>(
    w: Ghost<&mut SettingsWindow<K>>,
    shown: Vec<Section>,
    by: isize,
    flat: usize,
)
    requires
        row_count(shown@) < usize::MAX,
        call_ensures(flat_len, (&shown,), flat),
        call_ensures(SettingsWindow::<K>::step, (w@, &shown, by), ()),
    ensures
        final(w@).sel < flat,
        0 <= w@.sel + by < flat ==> final(w@).sel == w@.sel + by,
        w@.sel + by < 0 ==> final(w@).sel == 0,
        w@.sel + by >= flat ==> final(w@).sel + 1 == flat,
        final(w@).sel == w@.sel ==> *final(w@) == *w@,
        final(w@).sel != w@.sel ==> final(w@).footer is None,
        final(w@).query == w@.query,
        final(w@).pending == w@.pending,
{
}

/// The selection is held inside what is shown, a jump goes to the first row or to the
/// file, and a click to the row it is on. A jump and a click clear the last line.
pub proof fn a_jump_goes_to_an_end<K>(
    a: Ghost<&mut SettingsWindow<K>>,
    b: Ghost<&mut SettingsWindow<K>>,
    c: Ghost<&mut SettingsWindow<K>>,
    d: Ghost<&mut SettingsWindow<K>>,
    shown: Vec<Section>,
    index: usize,
    flat: usize,
)
    requires
        row_count(shown@) < usize::MAX,
        call_ensures(flat_len, (&shown,), flat),
        call_ensures(SettingsWindow::<K>::clamp, (a@, &shown), ()),
        call_ensures(SettingsWindow::<K>::jump, (b@, &shown, false), ()),
        call_ensures(SettingsWindow::<K>::jump, (c@, &shown, true), ()),
        call_ensures(SettingsWindow::<K>::select, (d@, index), ()),
    ensures
        a@.sel < flat ==> *final(a@) == *a@,
        a@.sel >= flat ==> final(a@).sel + 1 == flat && final(a@).footer == a@.footer,
        final(b@).sel == 0 && final(b@).footer is None,
        final(c@).sel + 1 == flat && final(c@).footer is None,
        final(d@).sel == index && final(d@).footer is None,
        final(b@).query == b@.query && final(c@).query == c@.query && final(d@).query == d@.query,
{
}

/// A window opens on an empty field and its first row; another text in the field
/// goes back to the first row; and the last line says what it is told.
pub proof fn an_edit_goes_back_to_the_first_row<K>(
    fresh: SettingsWindow<K>,
    a: Ghost<&mut SettingsWindow<K>>,
    b: Ghost<&mut SettingsWindow<K>>,
    typed: String,
    error: Option<String>,
)
    requires
        call_ensures(SettingsWindow::<K>::new, (), fresh),
        call_ensures(SettingsWindow::<K>::edited, (a@, typed), ()),
        call_ensures(SettingsWindow::<K>::opened, (b@, error), ()),
    ensures
        fresh.query@.len() == 0,
        fresh.sel == 0,
        fresh.pending@.len() == 0,
        fresh.footer is None,
        final(a@).query == typed,
        final(a@).sel == 0,
        final(a@).footer == a@.footer,
        final(b@).footer == error,
        final(b@).sel == b@.sel,
        final(b@).query == b@.query,
{
    reveal_strlit("");
}

/// Turning turns the knob of the selected row, that way, and says where the row
/// cannot be turned; on the file it opens the file.
pub proof fn the_selected_knob_is_turned<K>(
    w: Ghost<&mut SettingsWindow<K>>,
    shown: Vec<Section>,
    dir: i32,
    r: Act,
    item: Option<Item>,
)
    requires
        row_count(shown@) < usize::MAX,
        call_ensures(SettingsWindow::<K>::adjust, (w@, &shown, dir), r),
        call_ensures(flat_at, (&shown, w@.sel), item),
    ensures
        item matches Some(Item::Row { s, r: i }) ==> {
            let row = shown@[s as int].rows@[i as int];
            &&& row.enabled ==> r == (Act::Apply { setting: row.setting, dir }) && final(w@).footer
                is None
            &&& !row.enabled ==> r == Act::Nothing && final(w@).footer is Some && final(
                w@).footer.unwrap()@ == "set by the repository — not here"@
        },
        item == Some(Item::File) ==> r == Act::OpenFile && *final(w@) == *w@,
        item is None ==> r == Act::Nothing && *final(w@) == *w@,
        final(w@).sel == w@.sel,
        final(w@).query == w@.query,
        final(w@).pending == w@.pending,
{
    turned(*w@, shown, dir, *final(w@), r, item);
}

proof fn turned<K>(
    was: SettingsWindow<K>,
    shown: Vec<Section>,
    dir: i32,
    now: SettingsWindow<K>,
    r: Act,
    item: Option<Item>,
)
    requires
        row_count(shown@) < usize::MAX,
        crate::settings_window::turns(was, shown@, dir, now, r),
        call_ensures(flat_at, (&shown, was.sel), item),
    ensures
        item matches Some(Item::Row { s, r: i }) ==> {
            let row = shown@[s as int].rows@[i as int];
            &&& row.enabled ==> r == (Act::Apply { setting: row.setting, dir }) && now.footer
                is None
            &&& !row.enabled ==> r == Act::Nothing && now.footer is Some && now.footer.unwrap()@
                == "set by the repository — not here"@
        },
        item == Some(Item::File) ==> r == Act::OpenFile && now == was,
        item is None ==> r == Act::Nothing && now == was,
        now.sel == was.sel,
        now.query == was.query,
        now.pending == was.pending,
{
    let n = was.sel as int;
    if let Some(Item::Row { s, r: i }) = item {
        addresses_are_unique(shown@, s as int, i as int, n, s as int, i as int, n);
        let (t, j) = choose|t: int, j: int| #[trigger] addressed(shown@, t, j, n) && ({
            let row = shown@[t].rows@[j];
            if row.enabled {
                &&& r == (Act::Apply { setting: row.setting, dir })
                &&& now == (SettingsWindow { footer: None, ..was })
            } else {
                &&& r == Act::Nothing
                &&& now.footer is Some
                &&& now.footer.unwrap()@ == "set by the repository — not here"@
                &&& now == (SettingsWindow { footer: now.footer, ..was })
            }
        });
        addresses_are_unique(shown@, s as int, i as int, n, t, j, n);
    } else if n < row_count(shown@) {
        let a = every_index_names_a_row(shown@, n);
    }
}

/// A click on a value turns the row that was clicked, one step on, and selects it.
pub proof fn a_click_turns_the_row_it_is_on<K>(
    w: Ghost<&mut SettingsWindow<K>>,
    shown: Vec<Section>,
    index: usize,
    r: Act,
    item: Option<Item>,
)
    requires
        row_count(shown@) < usize::MAX,
        call_ensures(SettingsWindow::<K>::turn, (w@, &shown, index), r),
        call_ensures(flat_at, (&shown, index), item),
    ensures
        final(w@).sel == index,
        item matches Some(Item::Row { s, r: i }) ==> {
            let row = shown@[s as int].rows@[i as int];
            &&& row.enabled ==> r == (Act::Apply { setting: row.setting, dir: 1 })
            &&& !row.enabled ==> r == Act::Nothing
        },
        item == Some(Item::File) ==> r == Act::OpenFile,
{
    turned((SettingsWindow { sel: index, ..*w@ }), shown, 1, *final(w@), r, item);
}

/// Each name is its own command: the moves move, left and right turn the knob back
/// and on, and the rest ask what they are called.
pub proof fn a_name_is_its_own_command<K>(
    w: Ghost<&mut SettingsWindow<K>>,
    name: &str,
    shown: Vec<Section>,
    r: Act,
    flat: usize,
    item: Option<Item>,
)
    requires
        row_count(shown@) < usize::MAX,
        call_ensures(flat_len, (&shown,), flat),
        w@.sel < flat,
        call_ensures(flat_at, (&shown, w@.sel), item),
        call_ensures(SettingsWindow::<K>::dispatch, (w@, name, &shown), r),
    ensures
        final(w@).query == w@.query,
        name@ == "view.down"@ ==> r == Act::Nothing && final(w@).sel == if w@.sel + 1 < flat {
            w@.sel + 1
        } else {
            w@.sel as int
        },
        name@ == "view.up"@ ==> r == Act::Nothing && final(w@).sel == if w@.sel > 0 {
            w@.sel - 1
        } else {
            0
        },
        name@ == "view.top"@ ==> r == Act::Nothing && final(w@).sel == 0,
        name@ == "view.bottom"@ ==> r == Act::Nothing && final(w@).sel + 1 == flat,
        name@ == "view.left"@ ==> (item matches Some(Item::Row { s, r: i }) ==> {
            let row = shown@[s as int].rows@[i as int];
            &&& row.enabled ==> r == (Act::Apply { setting: row.setting, dir: (-1) as i32 })
            &&& !row.enabled ==> r == Act::Nothing
        }),
        name@ == "view.right"@ || name@ == "settings.apply"@ ==> (item matches Some(
            Item::Row { s, r: i },
        ) ==> {
            let row = shown@[s as int].rows@[i as int];
            &&& row.enabled ==> r == (Act::Apply { setting: row.setting, dir: 1 })
            &&& !row.enabled ==> r == Act::Nothing
        }),
        name@ == "view.left"@ || name@ == "view.right"@ || name@ == "settings.apply"@ ==> (item
            == Some(Item::File) ==> r == Act::OpenFile),
        name@ == "back"@ || name@ == "settings"@ || name@ == "input.cancel"@ <==> r == Act::Close,
        name@ == "input.accept"@ <==> r == Act::FocusRows,
        name@ == "help"@ ==> final(w@).footer is Some && final(w@).footer.unwrap()@
            == "the keymap lives in the main window"@,
        r is Apply ==> name@ == "view.left"@ || name@ == "view.right"@ || name@
            == "settings.apply"@,
        name@ != "view.down"@ && name@ != "view.up"@ && name@ != "view.top"@ && name@
            != "view.bottom"@ ==> final(w@).sel == w@.sel,
{
    names_differ();
    let was = SettingsWindow {
        sel: crate::settings_window::clamped(w@.sel, row_count(shown@) + 1) as usize,
        ..*w@
    };
    assert(was == *w@);
    if name@ == "view.left"@ {
        turned(was, shown, (-1) as i32, *final(w@), r, item);
    }
    if name@ == "view.right"@ || name@ == "settings.apply"@ {
        turned(was, shown, 1, *final(w@), r, item);
    }
}

proof fn names_differ()
    ensures
        "view.down"@.len() == 9 && "view.down"@[5] == 'd',
        "view.up"@.len() == 7,
        "view.top"@.len() == 8 && "view.top"@[0] == 'v',
        "view.bottom"@.len() == 11,
        "view.left"@.len() == 9 && "view.left"@[5] == 'l',
        "view.right"@.len() == 10,
        "settings.apply"@.len() == 14,
        "back"@.len() == 4 && "back"@[0] == 'b',
        "settings"@.len() == 8 && "settings"@[0] == 's',
        "input.cancel"@.len() == 12 && "input.cancel"@[6] == 'c',
        "input.accept"@.len() == 12 && "input.accept"@[6] == 'a' && "input.accept"@[7] == 'c',
        "input.cancel"@[7] == 'a',
        "help"@.len() == 4 && "help"@[0] == 'h',
{
    reveal_strlit("view.down");
    reveal_strlit("view.up");
    reveal_strlit("view.top");
    reveal_strlit("view.bottom");
    reveal_strlit("view.left");
    reveal_strlit("view.right");
    reveal_strlit("settings.apply");
    reveal_strlit("back");
    reveal_strlit("settings");
    reveal_strlit("input.cancel");
    reveal_strlit("input.accept");
    reveal_strlit("help");
}

/// A selection left past what is shown is held inside it before a command acts.
pub proof fn a_command_acts_on_what_is_shown<K>(
    w: Ghost<&mut SettingsWindow<K>>,
    name: &str,
    shown: Vec<Section>,
    r: Act,
    flat: usize,
)
    requires
        row_count(shown@) < usize::MAX,
        call_ensures(flat_len, (&shown,), flat),
        call_ensures(SettingsWindow::<K>::dispatch, (w@, name, &shown), r),
    ensures
        final(w@).sel < flat,
{
    names_differ();
}

// ---------------------------------------------------------------------------
// Keys
// ---------------------------------------------------------------------------

/// A press is added to the chord, a chord begun elsewhere is forgotten first, and a
/// press that stands for no key adds nothing.
pub proof fn a_press_is_added_to_the_chord<K: Copy>(
    w: Ghost<&mut SettingsWindow<K>>,
    focus_moved: bool,
    candidates: Vec<K>,
    r: bool,
)
    requires
        w@.wf(),
        call_ensures(SettingsWindow::<K>::on_key, (w@, focus_moved, candidates), r),
    ensures
        r <==> candidates@.len() > 0,
        r && !focus_moved ==> final(w@).pending@ == w@.pending@.push(candidates),
        r && focus_moved ==> final(w@).pending@ == seq![candidates],
        !r && !focus_moved ==> final(w@).pending@ == w@.pending@,
        !r && focus_moved ==> final(w@).pending@.len() == 0,
        final(w@).query == w@.query,
        final(w@).sel == w@.sel,
        final(w@).footer == w@.footer,
{
    if r && focus_moved {
        assert(final(w@).pending@ =~= seq![candidates]);
    }
}

/// The chord is spelled press by press, each by its first spelling.
pub proof fn a_chord_is_spelled_press_by_press<K: Copy>(w: SettingsWindow<K>, r: Vec<K>, i: int)
    requires
        w.wf(),
        call_ensures(SettingsWindow::<K>::typed, (&w,), r),
        0 <= i < w.pending@.len(),
    ensures
        r@.len() == w.pending@.len(),
        r@[i] == w.pending@[i]@[0],
{
}

/// A chord that may go on is waited for; a bound one runs and clears the last line;
/// an unbound one is text in the field, and is said elsewhere.
pub proof fn a_chord_comes_to_what_it_is_bound_to<K: Copy>(
    w: Ghost<&mut SettingsWindow<K>>,
    outcome: Resolved,
    in_field: bool,
    chord: &str,
    r: Pressed,
)
    requires
        w@.wf(),
        call_ensures(SettingsWindow::<K>::resolved, (w@, outcome, in_field, chord), r),
    ensures
        outcome == Resolved::Pending ==> r == Pressed::Consumed && *final(w@) == *w@,
        outcome != Resolved::Pending ==> final(w@).pending@.len() == 0,
        outcome == Resolved::Run <==> r == Pressed::Run,
        outcome == Resolved::Run ==> final(w@).footer is None,
        outcome == Resolved::Unbound && in_field <==> r == Pressed::PassOn,
        outcome == Resolved::Unbound && in_field ==> final(w@).footer == w@.footer,
        outcome == Resolved::Unbound && !in_field ==> final(w@).footer is Some
            && final(w@).footer.unwrap()@ == chord@ + " is not bound"@,
        final(w@).query == w@.query,
        final(w@).sel == w@.sel,
{
}

// ---------------------------------------------------------------------------
// Drawing
// ---------------------------------------------------------------------------

/// The row of an index stands in the body under the heading of its own group, below
/// the rows in front of it there, says its own place, and is selected where the
/// selection is on it. The file comes last.
pub proof fn a_row_stands_under_its_own_heading<K>(
    w: SettingsWindow<K>,
    shown: Vec<Section>,
    lines: Vec<BodyLine>,
    index: usize,
    place: Option<(usize, usize)>,
    s: usize,
    r: usize,
    rows: usize,
)
    requires
        row_count(shown@) < usize::MAX,
        call_ensures(SettingsWindow::<K>::body, (&w, &shown), lines),
        call_ensures(at, (&shown, index), place),
        call_ensures(len, (&shown,), rows),
        place == Some((s, r)),
    ensures
        lines@.len() == rows + shown@.len() + 1,
        lines@[index - r + s] == (BodyLine::Heading { s }),
        lines@[index + s + 1] == (BodyLine::Row { s, r, index, selected: index == w.sel }),
        lines@.last() == (BodyLine::File { index: rows, selected: rows == w.sel }),
{
    let n = shown@.len() as int;
    lines_of_body(shown, w.sel, n, s as int, r as int);
    rows_before_grow(shown@, s as int, n);
}

proof fn lines_of_body(shown: Vec<Section>, sel: usize, n: int, s: int, r: int)
    requires
        row_count(shown@) < usize::MAX,
        0 <= s < n <= shown@.len(),
        0 <= r < shown@[s].rows@.len(),
    ensures
        ({
            let lines = body_lines(shown@, sel, n);
            let first = rows_before(shown@, s) as int;
            &&& lines.len() == rows_before(shown@, n) + n
            &&& first + s + 1 + r < lines.len()
            &&& lines[first + s] == (BodyLine::Heading { s: s as usize })
            &&& lines[first + s + 1 + r] == (BodyLine::Row {
                s: s as usize,
                r: r as usize,
                index: (first + r) as usize,
                selected: first + r == sel,
            })
        }),
    decreases n,
{
    body_count(shown, sel, n);
    body_count(shown, sel, n - 1);
    rows_before_grow(shown@, s, n);
    if s < n - 1 {
        lines_of_body(shown, sel, n - 1, s, r);
    }
}

proof fn body_count(shown: Vec<Section>, sel: usize, n: int)
    requires
        0 <= n <= shown@.len(),
    ensures
        body_lines(shown@, sel, n).len() == rows_before(shown@, n) + n,
    decreases n,
{
    if n > 0 {
        body_count(shown, sel, n - 1);
    }
}

/// The list of groups names each group that is shown, starts it at its first row,
/// and marks the one that the selection is in.
pub proof fn a_group_is_listed_at_its_first_row<K>(
    w: SettingsWindow<K>,
    sections: Vec<Section>,
    shown: Vec<Section>,
    side: Vec<SideEntry>,
    s: int,
    first: Option<(usize, usize)>,
    selected: Option<(usize, usize)>,
)
    requires
        row_count(shown@) < usize::MAX,
        call_ensures(SettingsWindow::<K>::side, (&w, &sections, &shown), side),
        0 <= s < shown@.len(),
        shown@[s].rows@.len() > 0,
        call_ensures(at, (&shown, side@[s].start), first),
        call_ensures(at, (&shown, w.sel), selected),
    ensures
        side@.len() == shown@.len(),
        side@[s].title@ == shown@[s].title@,
        first matches Some((t, r)) && t == s && r == 0,
        side@[s].active <==> (selected matches Some((t, r)) && t == s),
{
    let entry = side@[s];
    assert(entry.lists(sections@, shown@, s, w.sel));
    let start = entry.start as int;
    assert(addressed(shown@, s, 0, start));
    addresses_are_unique(shown@, s, 0, start, s, 0, start);
    let (t, r) = first.unwrap();
    addresses_are_unique(shown@, s, 0, start, t as int, r as int, start);
    let n = w.sel as int;
    if entry.active {
        assert(addressed(shown@, s, n - start, n));
        addresses_are_unique(shown@, s, n - start, n, s, n - start, n);
        let (t, r) = selected.unwrap();
        addresses_are_unique(shown@, s, n - start, n, t as int, r as int, n);
    }
}

/// A group counts the rows that are shown, and of how many where some are not.
pub proof fn a_group_counts_what_is_shown<K>(
    w: SettingsWindow<K>,
    sections: Vec<Section>,
    shown: Vec<Section>,
    side: Vec<SideEntry>,
    s: int,
    full: int,
)
    requires
        row_count(shown@) < usize::MAX,
        call_ensures(SettingsWindow::<K>::side, (&w, &sections, &shown), side),
        0 <= s < shown@.len(),
        0 <= full < sections@.len(),
        sections@[full].title@ == shown@[s].title@,
        forall|i: int| 0 <= i < full ==> (#[trigger] sections@[i]).title@ != shown@[s].title@,
    ensures
        ({
            let (n, m) = (shown@[s].rows@.len(), sections@[full].rows@.len());
            &&& n == m ==> side@[s].count@ == text::decimal(n)
            &&& n != m ==> side@[s].count@ == text::decimal(n) + "/"@ + text::decimal(m)
        }),
{
    assert(side@[s].lists(sections@, shown@, s, w.sel));
    first_titled(sections@, shown@[s].title@, full);
}

/// A group that the panel does not have counts its own rows.
pub proof fn a_group_of_its_own_counts_itself<K>(
    w: SettingsWindow<K>,
    sections: Vec<Section>,
    shown: Vec<Section>,
    side: Vec<SideEntry>,
    s: int,
)
    requires
        row_count(shown@) < usize::MAX,
        call_ensures(SettingsWindow::<K>::side, (&w, &sections, &shown), side),
        0 <= s < shown@.len(),
        forall|i: int|
            0 <= i < sections@.len() ==> (#[trigger] sections@[i]).title@ != shown@[s].title@,
    ensures
        side@[s].count@ == text::decimal(shown@[s].rows@.len()),
{
    assert(side@[s].lists(sections@, shown@, s, w.sel));
    none_titled(sections@, shown@[s].title@);
}

proof fn first_titled(sections: Seq<Section>, title: Seq<char>, full: int)
    requires
        0 <= full < sections.len(),
        sections[full].title@ == title,
        forall|i: int| 0 <= i < full ==> (#[trigger] sections[i]).title@ != title,
    ensures
        titled(sections, title) == Some(sections[full]),
    decreases sections.len(),
{
    if full == sections.len() - 1 {
        none_titled(sections.drop_last(), title);
    } else {
        first_titled(sections.drop_last(), title, full);
    }
}

proof fn none_titled(sections: Seq<Section>, title: Seq<char>)
    requires
        forall|i: int| 0 <= i < sections.len() ==> (#[trigger] sections[i]).title@ != title,
    ensures
        titled(sections, title) is None,
    decreases sections.len(),
{
    if sections.len() > 0 {
        assert(sections[sections.len() - 1].title@ != title);
        none_titled(sections.drop_last(), title);
    }
}

/// The selected row stands out, and a row that cannot be turned has a dim label
/// whether or not it is selected. The group that the selection is in stands out.
pub proof fn the_selected_row_stands_out(
    selected: bool,
    enabled: bool,
    inks: PanelInks,
    r: RowLook,
    side: (Rgb, Rgb),
)
    requires
        call_ensures(row_look, (selected, enabled, &inks), r),
        call_ensures(side_look, (selected, &inks), side),
    ensures
        selected ==> r.bg == inks.selection_bg && r.bar == inks.accent && r.value == inks.accent,
        !selected ==> r.bg == inks.title_bg && r.bar == inks.title_bg && r.value == inks.fg,
        enabled ==> r.label == inks.fg,
        !enabled ==> r.label == inks.inert,
        selected ==> side.0 == inks.selection_bg && side.1 == inks.fg,
        !selected ==> side.0 == inks.title_bg && side.1 == inks.dim,
{
}

/// The last line says what there is to say, and else counts rows and groups, each
/// under its own name.
pub proof fn the_last_line_counts_the_panel<K>(
    w: SettingsWindow<K>,
    sections: Vec<Section>,
    r: String,
    rows: usize,
)
    requires
        row_count(sections@) <= usize::MAX,
        call_ensures(SettingsWindow::<K>::footer_text, (&w, &sections), r),
        call_ensures(len, (&sections,), rows),
    ensures
        w.footer is Some ==> r@ == w.footer.unwrap()@,
        w.footer is None ==> r@ == text::decimal(rows as nat) + " rows · "@ + text::decimal(
            sections@.len(),
        ) + " sections"@,
{
}

} // verus!
