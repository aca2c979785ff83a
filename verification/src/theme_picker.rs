//! The theme picker: every registered palette as a card, filtered by a query.
//! Choosing one leaves the picker open, so that several can be tried.
use crate::text;
use vstd::prelude::*;

verus! {

/// A palette, as far as its card shows it.
#[derive(Debug)]
pub struct Theme {
    pub name: String,
    /// What it is called. Empty where it has no name but the one it is
    /// registered under.
    pub label: String,
    pub family: String,
    pub bg: u32,
    pub border: u32,
    pub accent: u32,
    pub adds_fg: u32,
    pub dels_fg: u32,
    pub added_bg: u32,
    pub removed_bg: u32,
}

/// The card of a palette.
#[derive(Debug)]
pub struct Card {
    pub name: String,
    pub label: String,
    pub family: String,
    pub surface: u32,
    pub line: u32,
    pub accent: u32,
    pub green: u32,
    pub red: u32,
    pub add: u32,
    pub del: u32,
    /// It is the palette in use.
    pub current: bool,
}

/// A card, text by text.
#[verifier::ext_equal]
pub ghost struct CardView {
    pub name: Seq<char>,
    pub label: Seq<char>,
    pub family: Seq<char>,
    pub surface: u32,
    pub line: u32,
    pub accent: u32,
    pub green: u32,
    pub red: u32,
    pub add: u32,
    pub del: u32,
    pub current: bool,
}

impl View for Card {
    type V = CardView;

    open spec fn view(&self) -> CardView {
        CardView {
            name: self.name@,
            label: self.label@,
            family: self.family@,
            surface: self.surface,
            line: self.line,
            accent: self.accent,
            green: self.green,
            red: self.red,
            add: self.add,
            del: self.del,
            current: self.current,
        }
    }
}

/// Some cards, text by text.
pub open spec fn card_views(cards: Seq<Card>) -> Seq<CardView> {
    cards.map_values(|c: Card| c@)
}

/// What a palette is called: by its registered name where it has no other.
pub open spec fn label_of(t: Theme) -> Seq<char> {
    if t.label@.len() == 0 {
        t.name@
    } else {
        t.label@
    }
}

/// The card of a palette, where `current` is in use.
pub open spec fn card_of(t: Theme, current: Seq<char>) -> CardView {
    CardView {
        name: t.name@,
        label: label_of(t),
        family: t.family@,
        surface: t.bg,
        line: t.border,
        accent: t.accent,
        green: t.adds_fg,
        red: t.dels_fg,
        add: t.added_bg,
        del: t.removed_bg,
        current: t.name@ == current,
    }
}

// ---------------------------------------------------------------------------
// The filter
// ---------------------------------------------------------------------------

/// Whether every word of a query stands in a lowercase label, family or name.
pub fn matches_lowered(query: &str, label: &str, family: &str, name: &str) -> (r: bool)
    ensures
        r == text::words_held(query@, seq![label@, family@, name@]),
{
    let mut fields: Vec<Vec<char>> = Vec::new();
    fields.push(text::chars_of(label));
    fields.push(text::chars_of(family));
    fields.push(text::chars_of(name));
    assert(text::field_chars(fields@) =~= seq![label@, family@, name@]);
    text::all_words_held(text::chars_of(query).as_slice(), &fields)
}

/// Whether a card survives a lowercase query: every word of it is somewhere in
/// the label, the family or the name.
pub fn matches(query: &str, label: &str, family: &str, name: &str) -> (r: bool)
    ensures
        r == text::words_held(
            query@,
            seq![text::lowercase(label@), text::lowercase(family@), text::lowercase(name@)],
        ),
{
    let label = text::lower(label);
    let family = text::lower(family);
    let name = text::lower(name);
    matches_lowered(query, label.as_str(), family.as_str(), name.as_str())
}

/// A palette's texts in lowercase.
#[derive(Debug)]
pub struct Folded {
    pub label: String,
    pub family: String,
    pub name: String,
}

/// A palette's texts in lowercase: label, family and name.
pub open spec fn folded_view(f: Folded) -> Seq<Seq<char>> {
    seq![f.label@, f.family@, f.name@]
}

/// Some palettes' texts in lowercase.
pub open spec fn folded_views(folds: Seq<Folded>) -> Seq<Seq<Seq<char>>> {
    folds.map_values(|f: Folded| folded_view(f))
}

/// What a palette's texts are in lowercase.
pub open spec fn folded(t: Theme) -> Seq<Seq<char>> {
    seq![text::lowercase(label_of(t)), text::lowercase(t.family@), text::lowercase(t.name@)]
}

/// The cards that a query leaves, in order. An empty query leaves all.
pub open spec fn kept_cards(
    query: Seq<char>,
    themes: Seq<Theme>,
    folds: Seq<Seq<Seq<char>>>,
    current: Seq<char>,
) -> Seq<CardView>
    decreases themes.len(),
{
    if themes.len() == 0 {
        seq![]
    } else {
        let earlier = kept_cards(query, themes.drop_last(), folds.drop_last(), current);
        if query.len() == 0 || text::words_held(query, folds.last()) {
            earlier.push(card_of(themes.last(), current))
        } else {
            earlier
        }
    }
}

/// The cards under what the field holds.
pub open spec fn cards_of(typed: Seq<char>, themes: Seq<Theme>, current: Seq<char>) -> Seq<
    CardView,
> {
    kept_cards(
        text::asked(typed),
        themes,
        themes.map_values(|t: Theme| folded(t)),
        current,
    )
}

fn shown_label(t: &Theme) -> (r: String)
    ensures
        r@ == label_of(*t),
{
    if t.label.as_str().unicode_len() == 0 {
        t.name.clone()
    } else {
        t.label.clone()
    }
}

/// The cards under a query, given everything in lowercase.
pub fn cards_lowered(query: &str, themes: &Vec<Theme>, folds: &Vec<Folded>, current: &str) -> (r:
    Vec<Card>)
    requires
        themes@.len() == folds@.len(),
    ensures
        card_views(r@) == kept_cards(query@, themes@, folded_views(folds@), current@),
{
    let none: bool = query.unicode_len() == 0;
    let mut out: Vec<Card> = Vec::new();
    let mut i: usize = 0;
    let ghost lower = folded_views(folds@);
    assert(card_views(out@) =~= kept_cards(query@, themes@.take(0), lower.take(0), current@));
    while i < themes.len()
        invariant
            i <= themes@.len() == folds@.len(),
            none == (query@.len() == 0),
            lower == folded_views(folds@),
            card_views(out@) == kept_cards(
                query@,
                themes@.take(i as int),
                lower.take(i as int),
                current@,
            ),
        decreases themes@.len() - i,
    {
        assert(themes@.take(i + 1).drop_last() =~= themes@.take(i as int));
        assert(lower.take(i + 1).drop_last() =~= lower.take(i as int));
        let f = &folds[i];
        if none || matches_lowered(query, f.label.as_str(), f.family.as_str(), f.name.as_str()) {
            let t = &themes[i];
            let card = Card {
                name: t.name.clone(),
                label: shown_label(t),
                family: t.family.clone(),
                surface: t.bg,
                line: t.border,
                accent: t.accent,
                green: t.adds_fg,
                red: t.dels_fg,
                add: t.added_bg,
                del: t.removed_bg,
                current: text::same(t.name.as_str(), current),
            };
            let ghost was = out@;
            out.push(card);
            assert(card_views(out@) =~= card_views(was).push(card@));
        }
        i += 1;
    }
    assert(themes@.take(i as int) =~= themes@);
    assert(lower.take(i as int) =~= lower);
    out
}

/// The registry in lowercase.
pub fn fold(themes: &Vec<Theme>) -> (r: Vec<Folded>)
    ensures
        folded_views(r@) == themes@.map_values(|t: Theme| folded(t)),
{
    let mut out: Vec<Folded> = Vec::new();
    let mut i: usize = 0;
    while i < themes.len()
        invariant
            i <= themes@.len(),
            out@.len() == i,
            forall|k: int|
                0 <= k < i ==> folded_view(#[trigger] out@[k]) == folded(themes@[k]),
        decreases themes@.len() - i,
    {
        let t = &themes[i];
        let label = shown_label(t);
        out.push(
            Folded {
                label: text::lower(label.as_str()),
                family: text::lower(t.family.as_str()),
                name: text::lower(t.name.as_str()),
            },
        );
        i += 1;
    }
    assert(folded_views(out@) =~= themes@.map_values(|t: Theme| folded(t)));
    out
}

/// The registry as cards under what the field holds, in its order.
pub fn cards(typed: &str, themes: &Vec<Theme>, current: &str) -> (r: Vec<Card>)
    ensures
        card_views(r@) == cards_of(typed@, themes@, current@),
{
    let query = text::ask(typed);
    let folds = fold(themes);
    assert(folds@.len() == folded_views(folds@).len());
    cards_lowered(query.as_str(), themes, &folds, current)
}

proof fn nothing_asked_keeps_all(
    themes: Seq<Theme>,
    folds: Seq<Seq<Seq<char>>>,
    current: Seq<char>,
)
    ensures
        kept_cards(seq![], themes, folds, current) == themes.map_values(
            |t: Theme| card_of(t, current),
        ),
    decreases themes.len(),
{
    let all = themes.map_values(|t: Theme| card_of(t, current));
    if themes.len() > 0 {
        nothing_asked_keeps_all(themes.drop_last(), folds.drop_last(), current);
        assert(all =~= themes.drop_last().map_values(|t: Theme| card_of(t, current)).push(
            card_of(themes.last(), current),
        ));
    } else {
        assert(all =~= seq![]);
    }
}

/// A field that holds nothing but blanks shows every palette, in order.
pub proof fn no_query_shows_every_theme(
    typed: Seq<char>,
    themes: Seq<Theme>,
    current: Seq<char>,
)
    requires
        text::trimmed(typed).len() == 0,
    ensures
        cards_of(typed, themes, current) == themes.map_values(|t: Theme| card_of(t, current)),
{
    nothing_asked_keeps_all(themes, themes.map_values(|t: Theme| folded(t)), current);
}

proof fn kept_come_from(
    query: Seq<char>,
    themes: Seq<Theme>,
    folds: Seq<Seq<Seq<char>>>,
    current: Seq<char>,
) -> (from: Seq<int>)
    ensures
        from.len() == kept_cards(query, themes, folds, current).len(),
        forall|i: int, j: int| 0 <= i < j < from.len() ==> from[i] < from[j],
        forall|i: int|
            0 <= i < from.len() ==> 0 <= #[trigger] from[i] < themes.len() && kept_cards(
                query,
                themes,
                folds,
                current,
            )[i] == card_of(themes[from[i]], current),
    decreases themes.len(),
{
    if themes.len() == 0 {
        seq![]
    } else {
        let earlier = kept_come_from(query, themes.drop_last(), folds.drop_last(), current);
        assert(forall|i: int|
            0 <= i < earlier.len() ==> themes.drop_last()[#[trigger] earlier[i]]
                == themes[earlier[i]]);
        if query.len() == 0 || text::words_held(query, folds.last()) {
            earlier.push(themes.len() - 1)
        } else {
            earlier
        }
    }
}

/// A query only takes cards away: each one it leaves is a palette's, and they
/// stand in the order of the registry. The places they came from rise.
pub proof fn a_query_only_takes_cards_away(
    typed: Seq<char>,
    themes: Seq<Theme>,
    current: Seq<char>,
) -> (from: Seq<int>)
    ensures
        from.len() == cards_of(typed, themes, current).len(),
        forall|i: int, j: int| 0 <= i < j < from.len() ==> from[i] < from[j],
        forall|i: int|
            0 <= i < from.len() ==> 0 <= #[trigger] from[i] < themes.len() && cards_of(
                typed,
                themes,
                current,
            )[i] == card_of(themes[from[i]], current),
{
    kept_come_from(text::asked(typed), themes, themes.map_values(|t: Theme| folded(t)), current)
}

// ---------------------------------------------------------------------------
// The picker
// ---------------------------------------------------------------------------

/// The picker: what its field holds, and which card is selected.
#[derive(Debug)]
pub struct ThemePicker {
    pub open: bool,
    pub query: String,
    pub sel: usize,
}

/// `sel` moved by `by`, held inside `count` cards.
pub open spec fn stepped(sel: usize, by: isize, count: nat) -> int {
    if count == 0 {
        sel as int
    } else if sel + by < 0 {
        0
    } else if sel + by > count - 1 {
        count - 1
    } else {
        sel + by
    }
}

impl ThemePicker {
    /// A picker that is not open.
    pub fn new() -> (r: ThemePicker)
        ensures
            !r.open,
            r.query@.len() == 0,
            r.sel == 0,
    {
        ThemePicker { open: false, query: String::new(), sel: 0 }
    }

    /// Opens with a fresh query, on the palette in use. `cards` are all there
    /// are.
    pub fn open(&mut self, cards: &Vec<Card>)
        ensures
            final(self).open,
            final(self).query@.len() == 0,
            match first_current(cards@) {
                Some(i) => final(self).sel == i,
                None => final(self).sel == 0,
            },
    {
        self.query = String::new();
        self.sel = match find_current(cards) {
            Some(i) => i,
            None => 0,
        };
        self.open = true;
    }

    /// Closes, and forgets the selection.
    pub fn close(&mut self)
        ensures
            *final(self) == (ThemePicker { open: false, sel: 0, ..*old(self) }),
    {
        self.open = false;
        self.sel = 0;
    }

    /// The field was edited. The cards are another set now.
    pub fn edited(&mut self, typed: String)
        ensures
            *final(self) == (ThemePicker { query: typed, sel: 0, ..*old(self) }),
    {
        self.query = typed;
        self.sel = 0;
    }

    /// The cards under what the field holds.
    pub fn cards(&self, themes: &Vec<Theme>, current: &str) -> (r: Vec<Card>)
        ensures
            card_views(r@) == cards_of(self.query@, themes@, current@),
    {
        cards(self.query.as_str(), themes, current)
    }

    /// Moves the selection by `by` over `count` cards. Says whether it moved.
    pub fn step(&mut self, by: isize, count: usize) -> (r: bool)
        ensures
            *final(self) == (ThemePicker {
                sel: stepped(old(self).sel, by, count as nat) as usize,
                ..*old(self)
            }),
            r == (final(self).sel != old(self).sel),
    {
        if count == 0 {
            return false;
        }
        let to: i128 = self.sel as i128 + by as i128;
        let next: usize = if to < 0 {
            0
        } else if to > (count - 1) as i128 {
            count - 1
        } else {
            to as usize
        };
        let moved: bool = next != self.sel;
        self.sel = next;
        moved
    }

    /// Chooses the card at `index`: its palette's name. The picker stays open. A
    /// card that is not there is ignored.
    pub fn choose_at(&mut self, index: usize, cards: &Vec<Card>) -> (r: Option<String>)
        ensures
            if index < cards@.len() {
                r is Some && r.unwrap()@ == cards@[index as int].name@ && *final(self)
                    == (ThemePicker { sel: index, ..*old(self) })
            } else {
                r is None && *final(self) == *old(self)
            },
    {
        if index >= cards.len() {
            return None;
        }
        self.sel = index;
        Some(cards[index].name.clone())
    }

    /// Chooses the selected card.
    pub fn run_selection(&mut self, cards: &Vec<Card>) -> (r: Option<String>)
        ensures
            *final(self) == *old(self),
            if old(self).sel < cards@.len() {
                r is Some && r.unwrap()@ == cards@[old(self).sel as int].name@
            } else {
                r is None
            },
    {
        let sel: usize = self.sel;
        self.choose_at(sel, cards)
    }
}

/// The first card of the palette in use.
pub open spec fn first_current(cards: Seq<Card>) -> Option<int>
    decreases cards.len(),
{
    if cards.len() == 0 {
        None
    } else {
        match first_current(cards.drop_last()) {
            Some(i) => Some(i),
            None => if cards.last().current {
                Some(cards.len() - 1)
            } else {
                None
            },
        }
    }
}

proof fn first_current_stays(cards: Seq<Card>, n: int)
    requires
        0 <= n <= cards.len(),
        first_current(cards.take(n)) is Some,
    ensures
        first_current(cards) == first_current(cards.take(n)),
    decreases cards.len(),
{
    if n < cards.len() {
        assert(cards.drop_last().take(n) =~= cards.take(n));
        first_current_stays(cards.drop_last(), n);
    } else {
        assert(cards.take(n) =~= cards);
    }
}

fn find_current(cards: &Vec<Card>) -> (r: Option<usize>)
    ensures
        match r {
            Some(i) => first_current(cards@) == Some(i as int),
            None => first_current(cards@) is None,
        },
{
    let mut i: usize = 0;
    assert(cards@.take(0) =~= seq![]);
    while i < cards.len()
        invariant
            i <= cards@.len(),
            first_current(cards@.take(i as int)) is None,
        decreases cards@.len() - i,
    {
        assert(cards@.take(i + 1).drop_last() =~= cards@.take(i as int));
        if cards[i].current {
            proof {
                first_current_stays(cards@, i + 1);
            }
            return Some(i);
        }
        i += 1;
    }
    assert(cards@.take(i as int) =~= cards@);
    None
}

// ---------------------------------------------------------------------------
// Drawing
// ---------------------------------------------------------------------------

/// How a card is drawn.
#[derive(Clone, Copy, Debug, PartialEq, Eq, Structural)]
pub struct CardLook {
    pub index: usize,
    pub border: u32,
    pub bg: u32,
}

/// The colours of the picker.
#[derive(Clone, Copy, Debug, PartialEq, Eq, Structural)]
pub struct PickerInks {
    pub bg: u32,
    pub accent: u32,
    pub faint: u32,
    pub selection_bg: u32,
}

/// How the card at `index` is drawn: the palette in use in the accent, the
/// selected card on the selection's background.
pub open spec fn look_of(card: Card, index: int, sel: int, inks: PickerInks) -> CardLook {
    CardLook {
        index: index as usize,
        border: if card.current {
            inks.accent
        } else if index == sel {
            inks.faint
        } else {
            inks.bg
        },
        bg: if index == sel {
            inks.selection_bg
        } else {
            inks.bg
        },
    }
}

/// The selected card, held inside the cards.
pub open spec fn selected_card(sel: usize, count: nat) -> int {
    if count == 0 {
        0
    } else if sel >= count {
        count - 1
    } else {
        sel as int
    }
}

/// One row of the grid: two cards, or the last one alone.
#[derive(Clone, Copy, Debug, PartialEq, Eq, Structural)]
pub struct GridRow {
    pub left: CardLook,
    pub right: Option<CardLook>,
}

impl ThemePicker {
    /// The cards in rows of two.
    pub fn grid(&self, cards: &Vec<Card>, inks: &PickerInks) -> (r: Vec<GridRow>)
        ensures
            r@.len() == (cards@.len() + 1) / 2,
            forall|k: int|
                0 <= k < r@.len() ==> {
                    let sel = selected_card(self.sel, cards@.len());
                    &&& (#[trigger] r@[k]).left == look_of(cards@[2 * k], 2 * k, sel, *inks)
                    &&& r@[k].right == if 2 * k + 1 < cards@.len() {
                        Some(look_of(cards@[2 * k + 1], 2 * k + 1, sel, *inks))
                    } else {
                        None
                    }
                },
    {
        let count: usize = cards.len();
        let sel: usize = if count == 0 {
            0
        } else if self.sel >= count {
            count - 1
        } else {
            self.sel
        };
        let mut out: Vec<GridRow> = Vec::new();
        let mut i: usize = 0;
        while i < count
            invariant
                count == cards@.len(),
                sel == selected_card(self.sel, cards@.len()),
                i <= count,
                i == 2 * out@.len() || (i == count && out@.len() == (count + 1) / 2),
                forall|k: int|
                    0 <= k < out@.len() ==> {
                        &&& (#[trigger] out@[k]).left == look_of(
                            cards@[2 * k],
                            2 * k,
                            sel as int,
                            *inks,
                        )
                        &&& out@[k].right == if 2 * k + 1 < cards@.len() {
                            Some(look_of(cards@[2 * k + 1], 2 * k + 1, sel as int, *inks))
                        } else {
                            None
                        }
                    },
            decreases count - i,
        {
            let left = draw_card(&cards[i], i, sel, inks);
            let pair: bool = count - i >= 2;
            let right: Option<CardLook> = if pair {
                Some(draw_card(&cards[i + 1], i + 1, sel, inks))
            } else {
                None
            };
            out.push(GridRow { left, right });
            i = if pair {
                i + 2
            } else {
                count
            };
        }
        out
    }

    /// What stands in the grid's place where no theme is left to show.
    pub fn empty_note(&self, cards: &Vec<Card>) -> (r: Option<&'static str>)
        ensures
            match r {
                Some(note) => cards@.len() == 0 && note@ == "No theme matches that."@,
                None => cards@.len() > 0,
            },
    {
        if cards.len() == 0 {
            Some("No theme matches that.")
        } else {
            None
        }
    }

    /// The line under the grid.
    pub fn hint(&self, cards: &Vec<Card>) -> (r: String)
        ensures
            r@ == text::decimal(cards@.len()) + " themes · enter to choose · esc to close"@,
    {
        let mut out = text::decimal_text(cards.len());
        out.append(" themes · enter to choose · esc to close");
        out
    }
}

fn draw_card(card: &Card, index: usize, sel: usize, inks: &PickerInks) -> (r: CardLook)
    ensures
        r == look_of(*card, index as int, sel as int, *inks),
{
    CardLook {
        index,
        border: if card.current {
            inks.accent
        } else if index == sel {
            inks.faint
        } else {
            inks.bg
        },
        bg: if index == sel {
            inks.selection_bg
        } else {
            inks.bg
        },
    }
}

} // verus!
