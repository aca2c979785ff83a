//! Numbers, blanks, words and columns.
use crate::text;
use vstd::prelude::*;

verus! {

// ---------------------------------------------------------------------------
// Numbers
// ---------------------------------------------------------------------------

/// Every character is a decimal digit.
pub open spec fn all_digits(s: Seq<char>) -> bool {
    forall|i: int| 0 <= i < s.len() ==> '0' <= (#[trigger] s[i]) <= '9'
}

/// The number that a text of decimal digits is read as.
pub open spec fn reading(s: Seq<char>) -> nat
    decreases s.len(),
{
    if s.len() == 0 {
        0
    } else {
        reading(s.drop_last()) * 10 + (s.last() as int - '0' as int) as nat
    }
}

/// A number is spelled in digits that read as that number, without a leading zero.
pub proof fn a_number_reads_back(n: nat)
    ensures
        text::decimal(n).len() > 0,
        all_digits(text::decimal(n)),
        reading(text::decimal(n)) == n,
        text::decimal(n)[0] == '0' ==> n == 0,
        n < 10 ==> text::decimal(n).len() == 1,
    decreases n,
{
    let s = text::decimal(n);
    reveal_with_fuel(reading, 2);
    if n >= 10 {
        let front = text::decimal(n / 10);
        a_number_reads_back(n / 10);
        assert(s.drop_last() =~= front);
        assert(s[0] == front[0]);
        assert forall|i: int| 0 <= i < s.len() implies '0' <= (#[trigger] s[i]) <= '9' by {
            if i < front.len() {
                assert(s[i] == front[i]);
            }
        }
    } else {
        assert(s.drop_last() =~= seq![]);
    }
}

/// Two numbers that are spelled alike are the same number.
pub proof fn numbers_are_told_apart(a: nat, b: nat)
    ensures
        text::decimal(a) == text::decimal(b) <==> a == b,
{
    a_number_reads_back(a);
    a_number_reads_back(b);
}

/// What a number is written as reads as that number.
pub proof fn a_written_number_reads_back(n: usize, r: String)
    requires
        call_ensures(text::decimal_text, (n,), r),
    ensures
        all_digits(r@),
        reading(r@) == n,
        r@.len() > 0,
        r@[0] == '0' ==> r@.len() == 1,
{
    a_number_reads_back(n as nat);
    if n == 0 {
        assert(r@.len() == 1);
    }
}

/// A number is appended to what is there, and reads back from behind it.
pub proof fn an_appended_number_reads_back(s: Ghost<&mut String>, n: u64)
    requires
        call_ensures(text::push_decimal, (s@, n), ()),
    ensures
        s@@.is_prefix_of(final(s@)@),
        all_digits(final(s@)@.skip(s@@.len() as int)),
        reading(final(s@)@.skip(s@@.len() as int)) == n,
{
    a_number_reads_back(n as nat);
    assert(final(s@)@.skip(s@@.len() as int) =~= text::decimal(n as nat));
}

/// A text that is set to the right ends with that text, stands behind blanks alone,
/// and is exactly as wide as asked unless it was wider to begin with.
pub proof fn a_text_is_set_to_the_right(s: Seq<char>, width: nat)
    ensures
        text::right_aligned(s, width).len() == if s.len() < width {
            width
        } else {
            s.len()
        },
        text::right_aligned(s, width).skip(text::right_aligned(s, width).len() - s.len()) == s,
        forall|i: int|
            0 <= i < text::right_aligned(s, width).len() - s.len() ==> (
            #[trigger] text::right_aligned(s, width)[i]) == ' ',
    decreases width - s.len(),
{
    let r = text::right_aligned(s, width);
    if s.len() < width {
        let wider = seq![' '] + s;
        a_text_is_set_to_the_right(wider, width);
        let at = r.len() - s.len();
        assert(r.skip(at) =~= s) by {
            assert(r.skip(at - 1) == wider);
            assert forall|i: int| 0 <= i < s.len() implies r.skip(at)[i] == s[i] by {
                assert(r.skip(at - 1)[i + 1] == wider[i + 1]);
            }
        }
        assert(r[at - 1] == ' ') by {
            assert(r.skip(at - 1)[0] == wider[0]);
        }
    } else {
        assert(r.skip(0) =~= s);
    }
}

// ---------------------------------------------------------------------------
// Blanks
// ---------------------------------------------------------------------------

/// The blanks: the tab, the line ends and the form feed, the space, and the other
/// spaces and line ends that Unicode has.
pub proof fn the_blanks(c: char)
    ensures
        text::white_space(c) <==> {
            ||| c == '\t' || c == '\n' || c == '\u{b}' || c == '\u{c}' || c == '\r' || c == ' '
            ||| c == '\u{85}' || c == '\u{a0}' || c == '\u{1680}'
            ||| c == '\u{2000}' || c == '\u{2001}' || c == '\u{2002}' || c == '\u{2003}'
            ||| c == '\u{2004}' || c == '\u{2005}' || c == '\u{2006}' || c == '\u{2007}'
            ||| c == '\u{2008}' || c == '\u{2009}' || c == '\u{200a}'
            ||| c == '\u{2028}' || c == '\u{2029}' || c == '\u{202f}' || c == '\u{205f}'
            ||| c == '\u{3000}'
        },
{
}

/// A text that is nothing but blanks.
pub open spec fn blank(s: Seq<char>) -> bool {
    forall|i: int| 0 <= i < s.len() ==> text::white_space(#[trigger] s[i])
}

/// A text with no blank at either end.
pub open spec fn tight(s: Seq<char>) -> bool {
    s.len() > 0 ==> !text::white_space(s[0]) && !text::white_space(s.last())
}

/// A text without the blanks at its end is cut off behind its last character that is
/// no blank.
pub proof fn blanks_are_cut_off_the_end(s: Seq<char>)
    ensures
        text::trimmed_end(s) <= s.len(),
        forall|i: int| text::trimmed_end(s) <= i < s.len() ==> text::white_space(s[i]),
        text::trimmed_end(s) > 0 ==> !text::white_space(s[text::trimmed_end(s) - 1]),
    decreases s.len(),
{
    if s.len() > 0 && text::white_space(s.last()) {
        let rest = s.drop_last();
        blanks_are_cut_off_the_end(rest);
        assert forall|i: int| text::trimmed_end(s) <= i < s.len() implies text::white_space(s[i]) by {
            if i < rest.len() {
                assert(rest[i] == s[i]);
            }
        }
    }
}

proof fn no_blanks_at_the_end(s: Seq<char>)
    ensures
        text::trimmed_end(s) <= s.len(),
        blank(s.skip(text::trimmed_end(s) as int)),
        text::trimmed_end(s) > 0 ==> !text::white_space(s[text::trimmed_end(s) - 1]),
{
    blanks_are_cut_off_the_end(s);
}

proof fn blanks_at_the_start(s: Seq<char>)
    ensures
        text::leading_blanks(s) <= s.len(),
        blank(s.take(text::leading_blanks(s) as int)),
        text::leading_blanks(s) < s.len() ==> !text::white_space(
            s[text::leading_blanks(s) as int],
        ),
    decreases s.len(),
{
    if s.len() > 0 && text::white_space(s[0]) {
        let rest = s.skip(1);
        blanks_at_the_start(rest);
        let n = text::leading_blanks(s) as int;
        assert forall|i: int| 0 <= i < s.take(n).len() implies text::white_space(
            #[trigger] s.take(n)[i],
        ) by {
            if i > 0 {
                assert(rest.take(n - 1)[i - 1] == s[i]);
            }
        }
    }
}

/// Trimming takes blanks off both ends and nothing else: what is left stands in the
/// text between blanks, and has none at either end.
pub proof fn trimming_takes_the_blanks_around(s: Seq<char>) -> (at: int)
    ensures
        0 <= at,
        at + text::trimmed(s).len() <= s.len(),
        s.subrange(at, at + text::trimmed(s).len()) == text::trimmed(s),
        blank(s.take(at)),
        blank(s.skip(at + text::trimmed(s).len())),
        tight(text::trimmed(s)),
        text::trimmed(s).len() == 0 <==> blank(s),
{
    let end = text::trimmed_end(s) as int;
    let kept = s.take(end);
    let at = text::leading_blanks(kept) as int;
    no_blanks_at_the_end(s);
    blanks_at_the_start(kept);
    let r = text::trimmed(s);
    assert(r =~= s.subrange(at, end));
    assert(s.take(at) =~= kept.take(at));
    assert(s.skip(at + r.len()) =~= s.skip(end));
    if r.len() > 0 {
        assert(r[0] == kept[at]);
        assert(r.last() == s[end - 1]);
        assert(!blank(s)) by {
            assert(!text::white_space(s[at]));
        }
    } else {
        assert forall|i: int| 0 <= i < s.len() implies text::white_space(#[trigger] s[i]) by {
            if i < at {
                assert(kept.take(at)[i] == s[i]);
            } else {
                assert(s.skip(end)[i - end] == s[i]);
            }
        }
    }
    at
}

/// The one text between blanks that has none at its ends is what trimming leaves.
pub proof fn what_stands_between_blanks_is_left(
    before: Seq<char>,
    core: Seq<char>,
    after: Seq<char>,
)
    requires
        blank(before),
        blank(after),
        tight(core),
        core.len() > 0,
    ensures
        text::trimmed(before + core + after) == core,
{
    let s = before + core + after;
    let at = trimming_takes_the_blanks_around(s);
    let r = text::trimmed(s);
    let first = before.len() as int;
    let last = before.len() + core.len() - 1;
    assert(s[first] == core[0] && s[last] == core.last());
    assert(!blank(s)) by {
        assert(!text::white_space(s[first]));
    }
    if first < at {
        assert(s.take(at)[first] == s[first]);
    }
    if last >= at + r.len() {
        assert(s.skip(at + r.len())[last - at - r.len()] == s[last]);
    }
    assert(r[0] == s[at]);
    assert(r.last() == s[at + r.len() - 1]);
    if at < first {
        assert(before[at] == s[at]);
    }
    if at + r.len() - 1 > last {
        assert(after[at + r.len() - 2 - last] == s[at + r.len() - 1]);
    }
    assert(at == first && r.len() == core.len());
    assert(s.subrange(at, at + r.len()) =~= core);
}

/// Trimming a text takes the blanks around it, and nothing else.
pub proof fn a_trimmed_text_has_no_blanks_around(
    s: &str,
    before: Seq<char>,
    core: Seq<char>,
    after: Seq<char>,
    r: &str,
)
    requires
        call_ensures(text::trim, (s,), r),
        s@ == before + core + after,
        blank(before),
        blank(after),
        tight(core),
        core.len() > 0,
    ensures
        r@ == core,
{
    what_stands_between_blanks_is_left(before, core, after);
}

/// A field asks for what stands in it between blanks, in lowercase; one that holds
/// nothing else asks for nothing.
pub proof fn a_field_asks_in_lowercase(
    typed: &str,
    before: Seq<char>,
    core: Seq<char>,
    after: Seq<char>,
    r: String,
)
    requires
        call_ensures(text::ask, (typed,), r),
        typed@ == before + core + after,
        blank(before),
        blank(after),
        tight(core),
    ensures
        core.len() > 0 ==> r@ == text::lowercase(core),
        core.len() == 0 ==> r@.len() == 0,
{
    if core.len() > 0 {
        what_stands_between_blanks_is_left(before, core, after);
    } else {
        let at = trimming_takes_the_blanks_around(typed@);
        assert forall|i: int| 0 <= i < typed@.len() implies text::white_space(
            #[trigger] typed@[i],
        ) by {
            if i < before.len() {
                assert(before[i] == typed@[i]);
            } else {
                assert(after[i - before.len()] == typed@[i]);
            }
        }
    }
}

// ---------------------------------------------------------------------------
// Words
// ---------------------------------------------------------------------------

/// A part is found in a text exactly where the text is that part between two others.
pub proof fn a_part_stands_between(s: Seq<char>, part: Seq<char>)
    ensures
        text::holds(s, part) <==> exists|before: Seq<char>, after: Seq<char>|
            s == #[trigger] (before + part + after),
{
    if text::holds(s, part) {
        let i = choose|i: int| text::holds_at(s, part, i);
        let before = s.take(i);
        let after = s.skip(i + part.len());
        assert(s =~= before + part + after);
    }
    if exists|before: Seq<char>, after: Seq<char>| s == #[trigger] (before + part + after) {
        let (before, after) = choose|before: Seq<char>, after: Seq<char>|
            s == #[trigger] (before + part + after);
        assert(s.subrange(before.len() as int, (before.len() + part.len()) as int) =~= part);
        assert(text::holds_at(s, part, before.len() as int));
    }
}

/// Whether a text has a part in it is whether it is that part between two others.
pub proof fn containing_is_standing_between(s: &[char], part: &[char], r: bool)
    requires
        call_ensures(text::contains, (s, part), r),
    ensures
        r <==> exists|before: Seq<char>, after: Seq<char>|
            s@ == #[trigger] (before + part@ + after),
{
    a_part_stands_between(s@, part@);
}

/// A text without a blank in it.
pub open spec fn one_word(s: Seq<char>) -> bool {
    s.len() > 0 && forall|i: int| 0 <= i < s.len() ==> !text::white_space(#[trigger] s[i])
}

/// A query of one word is answered by the fields that have it in them, and a blank
/// query by all.
pub proof fn one_word_is_looked_for(word: Seq<char>, fields: Seq<Seq<char>>)
    ensures
        one_word(word) ==> (text::words_held(word, fields) <==> exists|f: int|
            0 <= f < fields.len() && #[trigger] text::holds(fields[f], word)),
        blank(word) ==> text::words_held(word, fields),
{
    if one_word(word) {
        assert(text::is_word(word, 0, word.len() as int));
        assert(word.subrange(0, word.len() as int) =~= word);
        if text::words_held(word, fields) {
            assert(text::any_holds(fields, word));
        }
        if exists|f: int| 0 <= f < fields.len() && #[trigger] text::holds(fields[f], word) {
            assert forall|i: int, j: int| #[trigger]
                text::is_word(word, i, j) implies text::any_holds(
                fields,
                word.subrange(i, j),
            ) by {
                if i > 0 {
                    assert(!text::white_space(word[i - 1]));
                }
                if j < word.len() {
                    assert(!text::white_space(word[j]));
                }
                assert(word.subrange(i, j) =~= word);
            }
        }
    }
    if blank(word) {
        assert forall|i: int, j: int| #[trigger] text::is_word(word, i, j) implies text::any_holds(
            fields,
            word.subrange(i, j),
        ) by {
            assert(text::white_space(word[i]));
        }
    }
}

/// Two queries with a blank between them are answered where both are: every word is
/// looked for, and the order of the words says nothing.
pub proof fn every_word_is_looked_for(a: Seq<char>, gap: char, b: Seq<char>, fields: Seq<Seq<char>>)
    requires
        text::white_space(gap),
    ensures
        text::words_held(a.push(gap) + b, fields) <==> text::words_held(a, fields)
            && text::words_held(b, fields),
{
    let s = a.push(gap) + b;
    let cut = a.len() as int;
    assert(s[cut] == gap);
    assert forall|i: int, j: int| #[trigger] text::is_word(a, i, j) implies text::is_word(s, i, j)
        && s.subrange(i, j) == a.subrange(i, j) by {
        assert forall|k: int| i <= k < j implies !text::white_space(#[trigger] s[k]) by {
            assert(s[k] == a[k]);
        }
        assert(s.subrange(i, j) =~= a.subrange(i, j));
    }
    assert forall|i: int, j: int| #[trigger] text::is_word(b, i, j) implies text::is_word(
        s,
        i + cut + 1,
        j + cut + 1,
    ) && s.subrange(i + cut + 1, j + cut + 1) == b.subrange(i, j) by {
        assert forall|k: int| i + cut + 1 <= k < j + cut + 1 implies !text::white_space(
            #[trigger] s[k],
        ) by {
            assert(s[k] == b[k - cut - 1]);
        }
        if i > 0 {
            assert(s[i + cut] == b[i - 1]);
        }
        if j < b.len() {
            assert(s[j + cut + 1] == b[j]);
        }
        assert(s.subrange(i + cut + 1, j + cut + 1) =~= b.subrange(i, j));
    }
    if text::words_held(s, fields) {
        assert forall|i: int, j: int| #[trigger] text::is_word(a, i, j) implies text::any_holds(
            fields,
            a.subrange(i, j),
        ) by {
            assert(text::is_word(s, i, j));
        }
        assert forall|i: int, j: int| #[trigger] text::is_word(b, i, j) implies text::any_holds(
            fields,
            b.subrange(i, j),
        ) by {
            assert(text::is_word(s, i + cut + 1, j + cut + 1));
        }
    }
    if text::words_held(a, fields) && text::words_held(b, fields) {
        assert forall|i: int, j: int| #[trigger] text::is_word(s, i, j) implies text::any_holds(
            fields,
            s.subrange(i, j),
        ) by {
            assert(!(i <= cut < j)) by {
                if i <= cut < j {
                    assert(!text::white_space(s[cut]));
                }
            }
            if j <= cut {
                assert forall|k: int| i <= k < j implies !text::white_space(#[trigger] a[k]) by {
                    assert(s[k] == a[k]);
                }
                if i > 0 {
                    assert(s[i - 1] == a[i - 1]);
                }
                if j < cut {
                    assert(s[j] == a[j]);
                }
                assert(text::is_word(a, i, j));
                assert(s.subrange(i, j) =~= a.subrange(i, j));
            } else {
                let (p, q) = (i - cut - 1, j - cut - 1);
                assert forall|k: int| p <= k < q implies !text::white_space(#[trigger] b[k]) by {
                    assert(s[k + cut + 1] == b[k]);
                }
                if p > 0 {
                    assert(s[i - 1] == b[p - 1]);
                }
                if q < b.len() {
                    assert(s[j] == b[q]);
                }
                assert(text::is_word(b, p, q));
                assert(s.subrange(i, j) =~= b.subrange(p, q));
            }
        }
    }
}

// ---------------------------------------------------------------------------
// Columns
// ---------------------------------------------------------------------------

/// The text in front of a column is that many characters of the text, or all of it
/// past its last column.
pub proof fn a_column_has_its_characters_in_front(s: &str, col: usize, n: usize)
    requires
        call_ensures(text::offset_of_column, (s, col), n),
    ensures
        col <= s@.len() ==> n == vstd::utf8::encode_utf8(s@.take(col as int)).len(),
        col >= s@.len() ==> n == vstd::utf8::encode_utf8(s@).len(),
{
    if col == s@.len() {
        assert(s@.take(col as int) =~= s@);
    }
}

/// What is cut out of a text between two columns is the characters between them.
pub proof fn cutting_at_columns_cuts_characters(s: Seq<char>, i: int, j: int)
    requires
        0 <= i <= j <= s.len(),
    ensures
        text::sliced(
            s,
            vstd::utf8::encode_utf8(s.take(i)).len() as int,
            vstd::utf8::encode_utf8(s.take(j)).len() as int,
        ) == s.subrange(i, j),
{
    let a = s.take(i);
    let b = s.subrange(i, j);
    let c = s.skip(j);
    assert(s =~= a + (b + c));
    assert(s.take(j) =~= a + b);
    text::encode_append(a, b + c);
    text::encode_append(b, c);
    text::encode_append(a, b);
    let bytes = vstd::utf8::encode_utf8(s);
    let (p, q) = (
        vstd::utf8::encode_utf8(a).len() as int,
        vstd::utf8::encode_utf8(s.take(j)).len() as int,
    );
    assert(bytes.subrange(p, q) =~= vstd::utf8::encode_utf8(b));
    vstd::utf8::encode_utf8_decode_utf8(b);
}

// ---------------------------------------------------------------------------
// Texts
// ---------------------------------------------------------------------------

/// Two texts are the same exactly where they are as long and agree character by
/// character, and so are two runs of bytes; a copy is the same as what it copies.
pub proof fn the_same_text_is_the_same_throughout(
    a: &str,
    b: &str,
    x: &[u8],
    y: &[u8],
    v: Vec<u8>,
    texts: bool,
    bytes: bool,
    copy: Vec<u8>,
    chars: Vec<char>,
    n: usize,
)
    requires
        call_ensures(text::same, (a, b), texts),
        call_ensures(text::same_bytes, (x, y), bytes),
        call_ensures(text::copy_bytes, (&v,), copy),
        call_ensures(text::chars_of, (a,), chars),
        call_ensures(text::byte_count, (a,), n),
    ensures
        texts <==> a@.len() == b@.len() && forall|i: int| 0 <= i < a@.len() ==> a@[i] == b@[i],
        bytes <==> x@.len() == y@.len() && forall|i: int| 0 <= i < x@.len() ==> x@[i] == y@[i],
        copy@ == v@,
        chars@ == a@,
        n == vstd::utf8::encode_utf8(a@).len(),
{
    if a@.len() == b@.len() && forall|i: int| 0 <= i < a@.len() ==> a@[i] == b@[i] {
        assert(a@ =~= b@);
    }
    if x@.len() == y@.len() && forall|i: int| 0 <= i < x@.len() ==> x@[i] == y@[i] {
        assert(x@ =~= y@);
    }
}

/// A text is found at the first place that has it, and not found where none has.
pub proof fn a_text_is_found_at_its_first_place(v: Vec<String>, s: &str, r: Option<usize>, i: int)
    requires
        call_ensures(text::find, (&v, s), r),
        0 <= i < v@.len(),
    ensures
        v@[i]@ == s@ ==> r is Some && r.unwrap() <= i,
        r matches Some(at) ==> at < v@.len() && v@[at as int]@ == s@,
{
    let names = text::texts(v@);
    text::place_is_first(names, s@);
    assert(names[i] == v@[i]@);
    if r is Some {
        assert(names[r.unwrap() as int] == v@[r.unwrap() as int]@);
    }
}

/// What is set to the right stands behind what is there, ends the text, and is as wide
/// as asked unless it was wider to begin with.
pub proof fn what_is_set_to_the_right_ends_the_text(s: Ghost<&mut String>, t: &str, width: usize)
    requires
        call_ensures(text::push_right_aligned, (s@, t, width), ()),
    ensures
        s@@.is_prefix_of(final(s@)@),
        t@.is_suffix_of(final(s@)@),
        final(s@)@.len() == s@@.len() + if t@.len() < width {
            width as nat
        } else {
            t@.len()
        },
        forall|i: int|
            s@@.len() <= i < final(s@)@.len() - t@.len() ==> #[trigger] final(s@)@[i] == ' ',
{
    a_text_is_set_to_the_right(t@, width as nat);
    let set = text::right_aligned(t@, width as nat);
    let now = final(s@)@;
    assert(now == s@@ + set);
    assert(now.skip(now.len() - t@.len()) =~= set.skip(set.len() - t@.len()));
    assert forall|i: int| s@@.len() <= i < now.len() - t@.len() implies #[trigger] now[i] == ' ' by {
        assert(now[i] == set[i - s@@.len()]);
    }
}

/// What is left of a text without the blanks at its end is cut off behind its last
/// character that is no blank.
pub proof fn the_end_is_cut_behind_the_last_ink(v: &[char], n: usize, c: char, white: bool)
    requires
        call_ensures(text::trim_end_len, (v,), n),
        call_ensures(text::is_white_space, (c,), white),
    ensures
        n <= v@.len(),
        forall|i: int| n <= i < v@.len() ==> text::white_space(v@[i]),
        n > 0 ==> !text::white_space(v@[n - 1]),
        white == text::white_space(c),
{
    blanks_are_cut_off_the_end(v@);
}

/// What is cut out of a text between two columns is the characters between them.
pub proof fn a_cut_between_columns_is_its_characters(
    s: &str,
    i: usize,
    j: usize,
    a: usize,
    b: usize,
    r: &str,
)
    requires
        i <= j <= s@.len(),
        call_ensures(text::offset_of_column, (s, i), a),
        call_ensures(text::offset_of_column, (s, j), b),
        call_ensures(text::slice, (s, a, b), r),
    ensures
        r@ == s@.subrange(i as int, j as int),
{
    cutting_at_columns_cuts_characters(s@, i as int, j as int);
    assert(s@.take(s@.len() as int) =~= s@);
}

/// A query of one word is held by some fields where one of them has it in it.
pub proof fn a_word_is_held_by_a_field(query: &[char], fields: Vec<Vec<char>>, r: bool)
    requires
        call_ensures(text::all_words_held, (query, &fields), r),
        one_word(query@),
    ensures
        r <==> exists|f: int|
            0 <= f < fields@.len() && #[trigger] text::holds(fields@[f]@, query@),
{
    let all = text::field_chars(fields@);
    one_word_is_looked_for(query@, all);
    assert(all.len() == fields@.len());
    assert(forall|f: int| 0 <= f < fields@.len() ==> all[f] == (#[trigger] fields@[f])@);
    if r {
        let f = choose|f: int| 0 <= f < all.len() && #[trigger] text::holds(all[f], query@);
        assert(text::holds(fields@[f]@, query@));
    }
    if exists|f: int| 0 <= f < fields@.len() && #[trigger] text::holds(fields@[f]@, query@) {
        let f = choose|f: int|
            0 <= f < fields@.len() && #[trigger] text::holds(fields@[f]@, query@);
        assert(text::holds(all[f], query@));
    }
}

} // verus!
