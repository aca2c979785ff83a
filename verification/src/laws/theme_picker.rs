//! The theme picker: every palette's card shows its own colours, and a query leaves
//! the cards that answer it.
use super::texts::{a_part_stands_between, blank, one_word, one_word_is_looked_for};
use crate::text;
use crate::theme_picker::{
    card_views, cards, cards_lowered, first_current, fold, folded, kept_cards, look_of,
    matches_lowered, Card, CardLook, Folded, GridRow, PickerInks, Theme, ThemePicker,
};
use vstd::prelude::*;

verus! {

// ---------------------------------------------------------------------------
// Cards
// ---------------------------------------------------------------------------

/// The card shows this palette's own name, label, family and colours, and is the
/// current one where the palette in use has its name. A palette without a label is
/// called by its name.
pub open spec fn shows(card: Card, t: Theme, current: Seq<char>) -> bool {
    &&& card.name@ == t.name@
    &&& t.label@.len() > 0 ==> card.label@ == t.label@
    &&& t.label@.len() == 0 ==> card.label@ == t.name@
    &&& card.family@ == t.family@
    &&& card.surface == t.bg
    &&& card.line == t.border
    &&& card.accent == t.accent
    &&& card.green == t.adds_fg
    &&& card.red == t.dels_fg
    &&& card.add == t.added_bg
    &&& card.del == t.removed_bg
    &&& card.current <==> t.name@ == current
}

/// Without a query every palette has its card, in the order of the registry.
pub proof fn every_palette_has_its_card(
    typed: &str,
    themes: Vec<Theme>,
    current: &str,
    r: Vec<Card>,
    query: String,
    i: int,
)
    requires
        call_ensures(cards, (typed, &themes, current), r),
        call_ensures(text::ask, (typed,), query),
        query@.len() == 0,
        0 <= i < themes@.len(),
    ensures
        r@.len() == themes@.len(),
        shows(r@[i], themes@[i], current@),
{
    let folds = themes@.map_values(|t: Theme| folded(t));
    assert(text::asked(typed@) =~= seq![]);
    all_kept(themes@, folds, current@);
    assert(card_views(r@).len() == r@.len());
    assert(card_views(r@)[i] == r@[i]@);
}

proof fn all_kept(themes: Seq<Theme>, folds: Seq<Seq<Seq<char>>>, current: Seq<char>)
    ensures
        kept_cards(seq![], themes, folds, current) == themes.map_values(
            |t: Theme| crate::theme_picker::card_of(t, current),
        ),
    decreases themes.len(),
{
    let card = |t: Theme| crate::theme_picker::card_of(t, current);
    if themes.len() > 0 {
        all_kept(themes.drop_last(), folds.drop_last(), current);
        assert(themes.map_values(card) =~= themes.drop_last().map_values(card).push(
            card(themes.last()),
        ));
    } else {
        assert(themes.map_values(card) =~= seq![]);
    }
}

/// Under a query a palette alone in the registry has its card exactly where it
/// answers the query.
pub proof fn a_palette_that_answers_has_its_card(
    typed: &str,
    t: Theme,
    themes: Vec<Theme>,
    current: &str,
    r: Vec<Card>,
    query: String,
    asked: &str,
    label: &str,
    family: &str,
    name: &str,
    answers: bool,
)
    requires
        themes@ == seq![t],
        call_ensures(cards, (typed, &themes, current), r),
        call_ensures(text::ask, (typed,), query),
        asked@ == query@,
        query@.len() > 0,
        label@ == (if t.label@.len() > 0 {
            t.label@
        } else {
            t.name@
        }),
        family@ == t.family@,
        name@ == t.name@,
        call_ensures(crate::theme_picker::matches, (asked, label, family, name), answers),
    ensures
        answers ==> r@.len() == 1 && shows(r@[0], t, current@),
        !answers ==> r@.len() == 0,
{
    let folds = themes@.map_values(|t: Theme| folded(t));
    reveal_with_fuel(kept_cards, 2);
    assert(folds.last() == folded(t));
    assert(themes@.drop_last() =~= seq![]);
    let earlier = kept_cards(query@, themes@.drop_last(), folds.drop_last(), current@);
    assert(earlier =~= seq![]);
    assert(card_views(r@).len() == r@.len());
    if answers {
        assert(card_views(r@)[0] == r@[0]@);
    }
}

/// The registry is filtered palette by palette: what is left of some palettes and more
/// behind them is what is left of each, one after the other.
pub proof fn palettes_are_filtered_one_by_one(
    typed: &str,
    a: Vec<Theme>,
    b: Vec<Theme>,
    both: Vec<Theme>,
    current: &str,
    r: Vec<Card>,
    s: Vec<Card>,
    t: Vec<Card>,
)
    requires
        call_ensures(cards, (typed, &a, current), r),
        call_ensures(cards, (typed, &b, current), s),
        call_ensures(cards, (typed, &both, current), t),
        both@ == a@ + b@,
    ensures
        t@.len() == r@.len() + s@.len(),
        forall|i: int| 0 <= i < r@.len() ==> (#[trigger] t@[i])@ == r@[i]@,
        forall|i: int| 0 <= i < s@.len() ==> t@[r@.len() + i]@ == (#[trigger] s@[i])@,
{
    kept_appends(text::asked(typed@), a@, b@, current@);
    assert(card_views(t@).len() == t@.len());
    assert(card_views(r@).len() == r@.len());
    assert(card_views(s@).len() == s@.len());
    assert forall|i: int| 0 <= i < r@.len() implies (#[trigger] t@[i])@ == r@[i]@ by {
        assert(card_views(t@)[i] == card_views(r@)[i]);
    }
    assert forall|i: int| 0 <= i < s@.len() implies t@[r@.len() + i]@ == (#[trigger] s@[i])@ by {
        assert(card_views(t@)[r@.len() + i] == card_views(s@)[i]);
    }
}

proof fn kept_appends(q: Seq<char>, a: Seq<Theme>, b: Seq<Theme>, current: Seq<char>)
    ensures
        ({
            let fold = |t: Theme| folded(t);
            kept_cards(q, a + b, (a + b).map_values(fold), current) == kept_cards(
                q,
                a,
                a.map_values(fold),
                current,
            ) + kept_cards(q, b, b.map_values(fold), current)
        }),
    decreases b.len(),
{
    let fold = |t: Theme| folded(t);
    let both = a + b;
    if b.len() == 0 {
        assert(both =~= a);
        assert(kept_cards(q, a, a.map_values(fold), current) + kept_cards(
            q,
            b,
            b.map_values(fold),
            current,
        ) =~= kept_cards(q, a, a.map_values(fold), current));
    } else {
        let rest = b.drop_last();
        kept_appends(q, a, rest, current);
        assert(both.drop_last() =~= a + rest);
        assert(both.map_values(fold).drop_last() =~= (a + rest).map_values(fold));
        assert(b.map_values(fold).drop_last() =~= rest.map_values(fold));
        assert(both.last() == b.last());
        assert(both.map_values(fold).last() == b.map_values(fold).last());
        assert(kept_cards(q, both, both.map_values(fold), current) =~= kept_cards(
            q,
            a,
            a.map_values(fold),
            current,
        ) + kept_cards(q, b, b.map_values(fold), current));
    }
}

/// The registry folded beforehand is filtered as the registry is.
pub proof fn a_folded_registry_is_filtered_alike(
    typed: &str,
    themes: Vec<Theme>,
    folds: Vec<Folded>,
    current: &str,
    query: String,
    asked: &str,
    r: Vec<Card>,
    s: Vec<Card>,
)
    requires
        call_ensures(fold, (&themes,), folds),
        call_ensures(text::ask, (typed,), query),
        asked@ == query@,
        call_ensures(cards_lowered, (asked, &themes, &folds, current), r),
        call_ensures(cards, (typed, &themes, current), s),
    ensures
        r@.len() == s@.len(),
        forall|i: int| 0 <= i < r@.len() ==> (#[trigger] r@[i])@ == s@[i]@,
{
    assert(card_views(r@).len() == r@.len() && card_views(s@).len() == s@.len());
    assert forall|i: int| 0 <= i < r@.len() implies (#[trigger] r@[i])@ == s@[i]@ by {
        assert(card_views(r@)[i] == card_views(s@)[i]);
    }
}

/// A palette answers a lowercase query of one word where its label, its family or its
/// name has that word in it, in whatever case.
pub proof fn a_palette_answers_by_any_of_its_texts(
    query: &str,
    label: &str,
    family: &str,
    name: &str,
    r: bool,
    low_label: &str,
    low_family: &str,
    low_name: &str,
    s: bool,
)
    requires
        call_ensures(crate::theme_picker::matches, (query, label, family, name), r),
        low_label@ == text::lowercase(label@),
        low_family@ == text::lowercase(family@),
        low_name@ == text::lowercase(name@),
        call_ensures(matches_lowered, (query, low_label, low_family, low_name), s),
    ensures
        r == s,
        one_word(query@) ==> (r <==> (exists|before: Seq<char>, after: Seq<char>|
            text::lowercase(label@) == #[trigger] (before + query@ + after)) || (exists|
            before: Seq<char>,
            after: Seq<char>,
        |
            text::lowercase(family@) == #[trigger] (before + query@ + after)) || (exists|
            before: Seq<char>,
            after: Seq<char>,
        |
            text::lowercase(name@) == #[trigger] (before + query@ + after))),
        blank(query@) ==> r,
{
    let fields = seq![text::lowercase(label@), text::lowercase(family@), text::lowercase(name@)];
    one_word_is_looked_for(query@, fields);
    a_part_stands_between(fields[0], query@);
    a_part_stands_between(fields[1], query@);
    a_part_stands_between(fields[2], query@);
    if text::holds(fields[0], query@) || text::holds(fields[1], query@) || text::holds(
        fields[2],
        query@,
    ) {
        assert(text::holds(fields[0], query@) || text::holds(fields[1], query@) || text::holds(
            fields[2],
            query@,
        ));
    }
}

// ---------------------------------------------------------------------------
// The picker
// ---------------------------------------------------------------------------

/// The picker opens with an empty field on the palette in use, or on the first card
/// where none is, and closes without a selection.
pub proof fn the_picker_opens_on_the_palette_in_use(
    fresh: ThemePicker,
    p: Ghost<&mut ThemePicker>,
    q: Ghost<&mut ThemePicker>,
    all: Vec<Card>,
    i: int,
)
    requires
        call_ensures(ThemePicker::new, (), fresh),
        call_ensures(ThemePicker::open, (p@, &all), ()),
        call_ensures(ThemePicker::close, (q@,), ()),
        0 <= i < all@.len(),
    ensures
        !fresh.open,
        fresh.sel == 0,
        fresh.query@.len() == 0,
        final(p@).open,
        final(p@).query@.len() == 0,
        all@[i].current ==> final(p@).sel <= i && all@[final(p@).sel as int].current,
        (forall|j: int| 0 <= j < all@.len() ==> !(#[trigger] all@[j]).current) ==> final(p@).sel
            == 0,
        !final(q@).open,
        final(q@).sel == 0,
        final(q@).query == q@.query,
{
    current_is_first(all@);
}

proof fn current_is_first(all: Seq<Card>)
    ensures
        match first_current(all) {
            Some(i) => 0 <= i < all.len() && all[i].current && forall|j: int|
                0 <= j < i ==> !(#[trigger] all[j]).current,
            None => forall|j: int| 0 <= j < all.len() ==> !(#[trigger] all[j]).current,
        },
    decreases all.len(),
{
    if all.len() > 0 {
        let rest = all.drop_last();
        current_is_first(rest);
        assert forall|j: int| 0 <= j < rest.len() implies #[trigger] all[j] == rest[j] by {}
    }
}

/// Another text in the field goes back to the first card. A step moves the selection
/// by as much, stops at either end, and says whether it moved.
pub proof fn a_step_stops_at_either_end(
    e: Ghost<&mut ThemePicker>,
    typed: String,
    p: Ghost<&mut ThemePicker>,
    by: isize,
    count: usize,
    r: bool,
)
    requires
        call_ensures(ThemePicker::edited, (e@, typed), ()),
        call_ensures(ThemePicker::step, (p@, by, count), r),
    ensures
        final(e@).query == typed,
        final(e@).sel == 0,
        final(e@).open == e@.open,
        r <==> final(p@).sel != p@.sel,
        count == 0 ==> *final(p@) == *p@,
        count > 0 && 0 <= p@.sel + by < count ==> final(p@).sel == p@.sel + by,
        count > 0 && p@.sel + by < 0 ==> final(p@).sel == 0,
        count > 0 && p@.sel + by >= count ==> final(p@).sel + 1 == count,
        final(p@).open == p@.open,
        final(p@).query == p@.query,
{
}

/// Choosing a card gives the name of its own palette and leaves the picker open, and
/// running the selection chooses the selected card.
pub proof fn a_card_gives_its_own_palette(
    p: Ghost<&mut ThemePicker>,
    q: Ghost<&mut ThemePicker>,
    index: usize,
    all: Vec<Card>,
    r: Option<String>,
    s: Option<String>,
)
    requires
        call_ensures(ThemePicker::choose_at, (p@, index, &all), r),
        call_ensures(ThemePicker::run_selection, (q@, &all), s),
    ensures
        r is Some <==> index < all@.len(),
        r is Some ==> r.unwrap()@ == all@[index as int].name@ && final(p@).sel == index,
        r is None ==> *final(p@) == *p@,
        final(p@).open == p@.open,
        s is Some <==> q@.sel < all@.len(),
        s is Some ==> s.unwrap()@ == all@[q@.sel as int].name@,
        *final(q@) == *q@,
{
}

/// The look is that of card `index`, where `sel` is selected.
pub open spec fn looks(look: CardLook, card: Card, index: int, sel: int, inks: PickerInks) -> bool {
    &&& look.index == index
    &&& card.current ==> look.border == inks.accent
    &&& !card.current && index == sel ==> look.border == inks.faint
    &&& !card.current && index != sel ==> look.border == inks.bg
    &&& index == sel ==> look.bg == inks.selection_bg
    &&& index != sel ==> look.bg == inks.bg
}

/// The cards stand in rows of two, in order, each once. The palette in use is in the
/// accent, and the selected card on the selection's ground.
pub proof fn the_grid_has_every_card_once(
    p: ThemePicker,
    all: Vec<Card>,
    inks: PickerInks,
    rows: Vec<GridRow>,
    i: int,
    sel: int,
)
    requires
        call_ensures(ThemePicker::grid, (&p, &all, &inks), rows),
        0 <= i < all@.len(),
        p.sel < all@.len() ==> sel == p.sel,
        p.sel >= all@.len() ==> sel == all@.len() - 1,
    ensures
        2 * rows@.len() == all@.len() || 2 * rows@.len() == all@.len() + 1,
        i % 2 == 0 ==> looks(rows@[i / 2].left, all@[i], i, sel, inks),
        i % 2 == 1 ==> rows@[i / 2].right is Some && looks(
            rows@[i / 2].right.unwrap(),
            all@[i],
            i,
            sel,
            inks,
        ),
        all@.len() % 2 == 1 ==> rows@.last().right is None,
{
    assert(all.len() == all@.len());
    let k = i / 2;
    assert(rows@[k].left == look_of(all@[2 * k], 2 * k, sel, inks));
    let last = rows@.len() - 1;
    assert(rows@[last].left == look_of(all@[2 * last], 2 * last, sel, inks));
}

/// A grid without a card says so, and the line under it counts the cards.
pub proof fn the_line_counts_the_cards(
    p: ThemePicker,
    all: Vec<Card>,
    note: Option<&'static str>,
    hint: String,
)
    requires
        call_ensures(ThemePicker::empty_note, (&p, &all), note),
        call_ensures(ThemePicker::hint, (&p, &all), hint),
    ensures
        note is Some <==> all@.len() == 0,
        note is Some ==> note.unwrap()@ == "No theme matches that."@,
        hint@ == text::decimal(all@.len()) + " themes · enter to choose · esc to close"@,
{
}

} // verus!
