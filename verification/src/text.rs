//! Text as sequences of characters: numbers spelled out, words, substrings,
//! and byte offsets into UTF-8.
use vstd::prelude::*;
use vstd::utf8::*;

verus! {

// ---------------------------------------------------------------------------
// Equality
// ---------------------------------------------------------------------------

/// Whether two byte slices hold the same bytes.
pub fn same_bytes(a: &[u8], b: &[u8]) -> (r: bool)
    ensures
        r == (a@ == b@),
{
    if a.len() != b.len() {
        return false;
    }
    let mut i: usize = 0;
    while i < a.len()
        invariant
            a@.len() == b@.len(),
            i <= a@.len(),
            forall|k: int| 0 <= k < i ==> a@[k] == b@[k],
        decreases a@.len() - i,
    {
        if a[i] != b[i] {
            return false;
        }
        i += 1;
    }
    assert(a@ =~= b@);
    true
}

/// A copy of some bytes.
pub fn copy_bytes(v: &Vec<u8>) -> (r: Vec<u8>)
    ensures
        r@ == v@,
{
    let mut r: Vec<u8> = Vec::new();
    let mut i: usize = 0;
    while i < v.len()
        invariant
            i <= v@.len(),
            r@ == v@.take(i as int),
        decreases v@.len() - i,
    {
        r.push(v[i]);
        assert(r@ =~= v@.take(i + 1));
        i += 1;
    }
    assert(r@ =~= v@);
    r
}

/// Whether two texts are the same text.
pub fn same(a: &str, b: &str) -> (r: bool)
    ensures
        r == (a@ == b@),
{
    let r = same_bytes(a.as_bytes(), b.as_bytes());
    proof {
        encode_utf8_decode_utf8(a@);
        encode_utf8_decode_utf8(b@);
    }
    r
}

/// The text of an optional string.
pub open spec fn maybe_text(s: Option<String>) -> Option<Seq<char>> {
    match s {
        Some(t) => Some(t@),
        None => None,
    }
}

/// The first place of a name among some names.
pub open spec fn place(names: Seq<Seq<char>>, name: Seq<char>) -> Option<int>
    decreases names.len(),
{
    if names.len() == 0 {
        None
    } else {
        match place(names.drop_last(), name) {
            Some(i) => Some(i),
            None => if names.last() == name {
                Some(names.len() - 1)
            } else {
                None
            },
        }
    }
}

/// A name found among the first names is the first of all.
pub proof fn place_stays(names: Seq<Seq<char>>, name: Seq<char>, n: int)
    requires
        0 <= n <= names.len(),
        place(names.take(n), name) is Some,
    ensures
        place(names, name) == place(names.take(n), name),
    decreases names.len(),
{
    if n < names.len() {
        assert(names.drop_last().take(n) =~= names.take(n));
        place_stays(names.drop_last(), name, n);
    } else {
        assert(names.take(n) =~= names);
    }
}

/// A name is found at its first place.
pub proof fn place_is_first(names: Seq<Seq<char>>, name: Seq<char>)
    ensures
        match place(names, name) {
            Some(i) => 0 <= i < names.len() && names[i] == name && forall|j: int|
                0 <= j < i ==> names[j] != name,
            None => forall|j: int| 0 <= j < names.len() ==> names[j] != name,
        },
    decreases names.len(),
{
    if names.len() > 0 {
        let rest = names.drop_last();
        place_is_first(rest, name);
        assert(forall|j: int| 0 <= j < rest.len() ==> rest[j] == names[j]);
    }
}

/// The texts of some strings.
pub open spec fn texts(v: Seq<String>) -> Seq<Seq<char>> {
    v.map_values(|s: String| s@)
}

/// The first place of a text among some strings.
pub fn find(v: &Vec<String>, s: &str) -> (r: Option<usize>)
    ensures
        match r {
            Some(i) => place(texts(v@), s@) == Some(i as int) && i < v@.len(),
            None => place(texts(v@), s@) is None,
        },
{
    let ghost names = texts(v@);
    let mut i: usize = 0;
    assert(names.take(0) =~= seq![]);
    while i < v.len()
        invariant
            i <= v@.len(),
            names == texts(v@),
            place(names.take(i as int), s@) is None,
        decreases v@.len() - i,
    {
        assert(names.take(i + 1).drop_last() =~= names.take(i as int));
        if same(v[i].as_str(), s) {
            proof {
                place_stays(names, s@, i + 1);
            }
            return Some(i);
        }
        i += 1;
    }
    assert(names.take(i as int) =~= names);
    None
}

// ---------------------------------------------------------------------------
// Numbers
// ---------------------------------------------------------------------------

/// The character for a single digit.
pub open spec fn digit(n: nat) -> char {
    (48 + n) as char
}

/// The decimal digits of `n`, most significant first.
pub open spec fn decimal(n: nat) -> Seq<char>
    decreases n,
{
    if n < 10 {
        seq![digit(n)]
    } else {
        decimal(n / 10).push(digit(n % 10))
    }
}

/// Every number takes a digit at least.
pub proof fn decimal_is_never_empty(n: nat)
    ensures
        decimal(n).len() > 0,
{
}

fn digit_text(n: u64) -> (s: &'static str)
    requires
        n < 10,
    ensures
        s@ == seq![digit(n as nat)],
{
    proof {
        reveal_strlit("0");
        reveal_strlit("1");
        reveal_strlit("2");
        reveal_strlit("3");
        reveal_strlit("4");
        reveal_strlit("5");
        reveal_strlit("6");
        reveal_strlit("7");
        reveal_strlit("8");
        reveal_strlit("9");
    }
    let s = match n {
        0 => "0",
        1 => "1",
        2 => "2",
        3 => "3",
        4 => "4",
        5 => "5",
        6 => "6",
        7 => "7",
        8 => "8",
        _ => "9",
    };
    assert(s@ =~= seq![digit(n as nat)]);
    s
}

/// Append `n` in decimal.
pub fn push_decimal(s: &mut String, n: u64)
    ensures
        final(s)@ == old(s)@ + decimal(n as nat),
    decreases n,
{
    if n >= 10 {
        push_decimal(s, n / 10);
    }
    s.append(digit_text(n % 10));
    assert(s@ =~= old(s)@ + decimal(n as nat));
}

/// `n` in decimal.
pub fn decimal_text(n: usize) -> (s: String)
    ensures
        s@ == decimal(n as nat),
{
    let mut s = String::new();
    push_decimal(&mut s, n as u64);
    assert(s@ =~= decimal(n as nat));
    s
}

/// `width` columns of `text`, blanks first: a text already that wide is left alone.
pub open spec fn right_aligned(text: Seq<char>, width: nat) -> Seq<char>
    decreases width - text.len(),
{
    if text.len() >= width {
        text
    } else {
        right_aligned(seq![' '] + text, width)
    }
}

/// Append `text` right-aligned in `width` columns.
pub fn push_right_aligned(s: &mut String, text: &str, width: usize)
    ensures
        final(s)@ == old(s)@ + right_aligned(text@, width as nat),
{
    let mut padded = text.to_owned();
    let mut n: usize = text.unicode_len();
    while n < width
        invariant
            n == padded@.len(),
            right_aligned(padded@, width as nat) == right_aligned(text@, width as nat),
        decreases width - n,
    {
        let mut wider = String::new();
        wider.append(" ");
        wider.append(padded.as_str());
        proof {
            reveal_strlit(" ");
            assert(wider@ =~= seq![' '] + padded@);
        }
        padded = wider;
        n += 1;
    }
    s.append(padded.as_str());
}

// ---------------------------------------------------------------------------
// Characters
// ---------------------------------------------------------------------------

/// The characters of `s`.
pub fn chars_of(s: &str) -> (v: Vec<char>)
    ensures
        v@ == s@,
{
    let mut v: Vec<char> = Vec::new();
    for c in it: s.chars()
        invariant
            it.seq() == s@,
            v@ == it.seq().take(it.index()),
    {
        v.push(c);
    }
    v
}

/// `text` has `part` somewhere in it.
pub open spec fn holds(text: Seq<char>, part: Seq<char>) -> bool {
    exists|i: int| #[trigger] holds_at(text, part, i)
}

/// `part` stands in `text` from its `i`-th character on.
pub open spec fn holds_at(text: Seq<char>, part: Seq<char>, i: int) -> bool {
    0 <= i && i + part.len() <= text.len() && text.subrange(i, i + part.len()) == part
}

fn stands_at(text: &[char], part: &[char], i: usize) -> (r: bool)
    requires
        i + part@.len() <= text@.len(),
    ensures
        r == holds_at(text@, part@, i as int),
{
    let mut k: usize = 0;
    let len: usize = text.len();
    while k < part.len()
        invariant
            i + part@.len() <= text@.len() == len,
            k <= part@.len(),
            forall|j: int| 0 <= j < k ==> text@[i + j] == part@[j],
        decreases part@.len() - k,
    {
        if text[i + k] != part[k] {
            assert(text@.subrange(i as int, i + part@.len())[k as int] != part@[k as int]);
            return false;
        }
        k += 1;
    }
    assert(text@.subrange(i as int, i + part@.len()) =~= part@);
    true
}

/// Whether `text` has `part` somewhere in it.
pub fn contains(text: &[char], part: &[char]) -> (r: bool)
    ensures
        r == holds(text@, part@),
{
    if part.len() > text.len() {
        return false;
    }
    let last: usize = text.len() - part.len();
    let mut i: usize = 0;
    while i <= last
        invariant
            last + part@.len() == text@.len(),
            i <= last + 1,
            forall|k: int| 0 <= k < i ==> !#[trigger] holds_at(text@, part@, k),
        decreases last + 1 - i,
    {
        if stands_at(text, part, i) {
            return true;
        }
        if i == last {
            return false;
        }
        i += 1;
    }
    false
}

/// The characters with Unicode's `White_Space` property.
pub open spec fn white_space(c: char) -> bool {
    ||| 0x9 <= c as u32 <= 0xd
    ||| c as u32 == 0x20
    ||| c as u32 == 0x85
    ||| c as u32 == 0xa0
    ||| c as u32 == 0x1680
    ||| 0x2000 <= c as u32 <= 0x200a
    ||| 0x2028 <= c as u32 <= 0x2029
    ||| c as u32 == 0x202f
    ||| c as u32 == 0x205f
    ||| c as u32 == 0x3000
}

/// Whether a character has Unicode's `White_Space` property.
pub fn is_white_space(c: char) -> (r: bool)
    ensures
        r == white_space(c),
{
    let n: u32 = c as u32;
    (0x9 <= n && n <= 0xd) || n == 0x20 || n == 0x85 || n == 0xa0 || n == 0x1680 || (0x2000 <= n
        && n <= 0x200a) || (0x2028 <= n && n <= 0x2029) || n == 0x202f || n == 0x205f || n == 0x3000
}

/// How many characters of `s` are left once its trailing blanks are gone.
pub open spec fn trimmed_end(s: Seq<char>) -> nat
    decreases s.len(),
{
    if s.len() > 0 && white_space(s.last()) {
        trimmed_end(s.drop_last())
    } else {
        s.len()
    }
}

/// How many blanks `s` starts with.
pub open spec fn leading_blanks(s: Seq<char>) -> nat
    decreases s.len(),
{
    if s.len() > 0 && white_space(s[0]) {
        1 + leading_blanks(s.skip(1))
    } else {
        0
    }
}

/// `s` without the blanks at either end.
pub open spec fn trimmed(s: Seq<char>) -> Seq<char> {
    let kept = s.take(trimmed_end(s) as int);
    kept.skip(leading_blanks(kept) as int)
}

pub proof fn trimmed_end_bound(s: Seq<char>)
    ensures
        trimmed_end(s) <= s.len(),
    decreases s.len(),
{
    if s.len() > 0 && white_space(s.last()) {
        trimmed_end_bound(s.drop_last());
    }
}

/// How many characters are left of `v` once its trailing blanks are gone.
pub fn trim_end_len(v: &[char]) -> (n: usize)
    ensures
        n == trimmed_end(v@),
{
    let mut n: usize = v.len();
    assert(v@.take(n as int) =~= v@);
    while n > 0 && is_white_space(v[n - 1])
        invariant
            n <= v@.len(),
            trimmed_end(v@) == trimmed_end(v@.take(n as int)),
        decreases n,
    {
        assert(v@.take(n as int).drop_last() =~= v@.take(n - 1));
        n -= 1;
    }
    n
}

/// `s` without the blanks at either end.
pub fn trim(s: &str) -> (r: &str)
    ensures
        r@ == trimmed(s@),
{
    let v = chars_of(s);
    let end: usize = trim_end_len(v.as_slice());
    proof {
        trimmed_end_bound(s@);
    }
    let ghost kept = s@.take(end as int);
    let mut at: usize = 0;
    assert(kept.skip(0) =~= kept);
    while at < end && is_white_space(v[at])
        invariant
            v@ == s@,
            kept == s@.take(end as int),
            at <= end <= s@.len(),
            leading_blanks(kept) == at + leading_blanks(kept.skip(at as int)),
        decreases end - at,
    {
        assert(kept.skip(at as int).skip(1) =~= kept.skip(at + 1));
        at += 1;
    }
    let r = s.substring_char(at, end);
    assert(r@ =~= kept.skip(at as int));
    r
}

// ---------------------------------------------------------------------------
// Words
// ---------------------------------------------------------------------------

/// Characters `i..j` of `s` are one of its words: a longest run without blanks.
pub open spec fn is_word(s: Seq<char>, i: int, j: int) -> bool {
    &&& 0 <= i < j <= s.len()
    &&& forall|k: int| i <= k < j ==> !white_space(#[trigger] s[k])
    &&& i == 0 || white_space(s[i - 1])
    &&& j == s.len() || white_space(s[j])
}

/// Some field has `part` in it.
pub open spec fn any_holds(fields: Seq<Seq<char>>, part: Seq<char>) -> bool {
    exists|f: int| 0 <= f < fields.len() && #[trigger] holds(fields[f], part)
}

/// Every word of `query` stands in some field: words may come in any order.
pub open spec fn words_held(query: Seq<char>, fields: Seq<Seq<char>>) -> bool {
    forall|i: int, j: int| #[trigger]
        is_word(query, i, j) ==> any_holds(fields, query.subrange(i, j))
}

/// The characters of each field.
pub open spec fn field_chars(fields: Seq<Vec<char>>) -> Seq<Seq<char>> {
    fields.map_values(|f: Vec<char>| f@)
}

fn any_field_contains(fields: &Vec<Vec<char>>, part: &[char]) -> (r: bool)
    ensures
        r == any_holds(field_chars(fields@), part@),
{
    let mut f: usize = 0;
    while f < fields.len()
        invariant
            f <= fields@.len(),
            forall|k: int| 0 <= k < f ==> !#[trigger] holds(field_chars(fields@)[k], part@),
        decreases fields@.len() - f,
    {
        if contains(fields[f].as_slice(), part) {
            assert(holds(field_chars(fields@)[f as int], part@));
            return true;
        }
        assert(field_chars(fields@)[f as int] == fields@[f as int]@);
        f += 1;
    }
    false
}

/// Whether every word of `query` stands in some field.
pub fn all_words_held(query: &[char], fields: &Vec<Vec<char>>) -> (r: bool)
    ensures
        r == words_held(query@, field_chars(fields@)),
{
    let mut at: usize = 0;
    while at < query.len()
        invariant
            at <= query@.len(),
            at == 0 || at == query@.len() || white_space(query@[at as int]) || white_space(
                query@[at - 1],
            ),
            forall|i: int, j: int| #[trigger]
                is_word(query@, i, j) && j <= at ==> any_holds(
                    field_chars(fields@),
                    query@.subrange(i, j),
                ),
        decreases query@.len() - at,
    {
        if is_white_space(query[at]) {
            assert forall|i: int, j: int| #[trigger] is_word(query@, i, j) && j <= at + 1 implies any_holds(
                field_chars(fields@),
                query@.subrange(i, j),
            ) by {
                if j == at + 1 {
                    assert(white_space(query@[at as int]));
                    assert(i <= at < j);
                    assert(false);
                }
            }
            at += 1;
        } else {
            let start: usize = at;
            while at < query.len() && !is_white_space(query[at])
                invariant
                    start <= at <= query@.len(),
                    forall|k: int| start <= k < at ==> !white_space(#[trigger] query@[k]),
                decreases query@.len() - at,
            {
                at += 1;
            }
            let word = vstd::slice::slice_subrange(query, start, at);
            assert(is_word(query@, start as int, at as int));
            if !any_field_contains(fields, word) {
                return false;
            }
            assert forall|i: int, j: int| #[trigger] is_word(query@, i, j) && j <= at implies any_holds(
                field_chars(fields@),
                query@.subrange(i, j),
            ) by {
                if j > start {
                    if i < start {
                        assert(white_space(query@[start - 1]));
                        assert(false);
                    }
                    if i > start {
                        assert(!white_space(query@[i - 1]));
                        assert(false);
                    }
                    if j < at {
                        assert(!white_space(query@[j]));
                        assert(false);
                    }
                }
            }
        }
    }
    true
}

// ---------------------------------------------------------------------------
// Bytes
// ---------------------------------------------------------------------------

/// How many bytes a text takes.
pub open spec fn byte_len(s: Seq<char>) -> nat {
    encode_utf8(s).len()
}

/// Byte `at` of a text is where a character starts, or the end of it.
pub open spec fn boundary(s: Seq<char>, at: int) -> bool {
    is_char_boundary(encode_utf8(s), at)
}

/// Bytes `start..end` of a text can be cut out of it.
pub open spec fn sliceable(s: Seq<char>, start: int, end: int) -> bool {
    0 <= start <= end <= byte_len(s) && boundary(s, start) && boundary(s, end)
}

/// The text that bytes `start..end` of a text hold.
pub open spec fn sliced(s: Seq<char>, start: int, end: int) -> Seq<char> {
    decode_utf8(encode_utf8(s).subrange(start, end))
}

/// The byte that column `col` starts at, or the end of the text past its last
/// column.
pub open spec fn column_byte(s: Seq<char>, col: nat) -> nat {
    if col < s.len() {
        byte_len(s.take(col as int))
    } else {
        byte_len(s)
    }
}

pub proof fn encode_append(a: Seq<char>, b: Seq<char>)
    ensures
        encode_utf8(a + b) == encode_utf8(a) + encode_utf8(b),
    decreases a.len(),
{
    if a.len() == 0 {
        assert(a + b =~= b);
        assert(encode_utf8(a) + encode_utf8(b) =~= encode_utf8(b));
    } else {
        assert((a + b).drop_first() =~= a.drop_first() + b);
        encode_append(a.drop_first(), b);
        assert(encode_utf8(a + b) =~= encode_utf8(a) + encode_utf8(b));
    }
}

proof fn encode_one(c: char)
    ensures
        encode_utf8(seq![c]) == encode_scalar(c as u32),
{
    reveal_with_fuel(encode_utf8, 2);
    let one = seq![c];
    assert(one.drop_first() =~= seq![]);
    assert(encode_utf8(one) =~= encode_scalar(c as u32));
}

proof fn encode_step(s: Seq<char>, i: int)
    requires
        0 <= i < s.len(),
    ensures
        byte_len(s.take(i + 1)) == byte_len(s.take(i)) + encode_scalar(s[i] as u32).len(),
        byte_len(s.take(i + 1)) <= byte_len(s),
{
    assert(s.take(i + 1) =~= s.take(i) + seq![s[i]]);
    encode_append(s.take(i), seq![s[i]]);
    encode_one(s[i]);
    assert(s =~= s.take(i + 1) + s.skip(i + 1));
    encode_append(s.take(i + 1), s.skip(i + 1));
}

/// A column starts where a character does, and no later than the text ends.
pub proof fn columns_are_boundaries(s: Seq<char>, col: nat)
    ensures
        column_byte(s, col) <= byte_len(s),
        boundary(s, column_byte(s, col) as int),
    decreases s.len(),
{
    let bytes = encode_utf8(s);
    encode_utf8_valid_utf8(s);
    is_char_boundary_start_end_of_seq(bytes);
    if col < s.len() {
        assert(s =~= s.take(col as int) + s.skip(col as int));
        encode_append(s.take(col as int), s.skip(col as int));
        if col > 0 {
            let rest = s.drop_first();
            encode_utf8_first_scalar(s);
            assert(pop_first_scalar(bytes) =~= encode_utf8(rest));
            columns_are_boundaries(rest, (col - 1) as nat);
            assert(s.take(col as int) =~= seq![s[0]] + rest.take(col - 1));
            encode_append(seq![s[0]], rest.take(col - 1));
            encode_one(s[0]);
        } else {
            assert(s.take(0) =~= seq![]);
        }
    }
}

fn byte_width(c: char) -> (n: usize)
    ensures
        n == encode_scalar(c as u32).len(),
{
    let v: u32 = c as u32;
    if v <= 0x7f {
        1
    } else if v <= 0x7ff {
        2
    } else if v <= 0xffff {
        3
    } else {
        4
    }
}

/// How many bytes a text takes.
pub fn byte_count(s: &str) -> (n: usize)
    ensures
        n == byte_len(s@),
{
    s.as_bytes().len()
}

/// The byte that column `col` starts at, or the end of the text past its last
/// column.
pub fn offset_of_column(s: &str, col: usize) -> (n: usize)
    ensures
        n == column_byte(s@, col as nat),
        n <= byte_len(s@),
        boundary(s@, n as int),
{
    let v = chars_of(s);
    let whole: usize = byte_count(s);
    let mut n: usize = 0;
    let mut i: usize = 0;
    proof {
        columns_are_boundaries(s@, col as nat);
        assert(s@.take(0) =~= seq![]);
    }
    while i < col && i < v.len()
        invariant
            v@ == s@,
            i <= v@.len(),
            i <= col,
            whole == byte_len(s@),
            n == byte_len(s@.take(i as int)),
        decreases v@.len() - i,
    {
        proof {
            encode_step(s@, i as int);
        }
        n += byte_width(v[i]);
        i += 1;
    }
    assert(i == v@.len() ==> s@.take(i as int) =~= s@);
    n
}

/// What is cut out of a text is the bytes it was cut from.
pub proof fn sliced_bytes(s: Seq<char>, start: int, end: int)
    requires
        sliceable(s, start, end),
    ensures
        encode_utf8(sliced(s, start, end)) == encode_utf8(s).subrange(start, end),
        byte_len(sliced(s, start, end)) == end - start,
{
    let bytes = encode_utf8(s);
    encode_utf8_valid_utf8(s);
    valid_utf8_split(bytes, end);
    let front = bytes.subrange(0, end);
    is_char_boundary_start_end_of_seq(front);
    if start < end {
        is_char_boundary_iff_not_is_continuation_byte(bytes, start);
        is_char_boundary_iff_not_is_continuation_byte(front, start);
        assert(front[start] == bytes[start]);
    }
    valid_utf8_split(front, start);
    assert(front.subrange(start, front.len() as int) =~= bytes.subrange(start, end));
    decode_utf8_encode_utf8(bytes.subrange(start, end));
}

/// Bytes `start..end` of a text.
pub fn slice<'a>(s: &'a str, start: usize, end: usize) -> (r: &'a str)
    requires
        sliceable(s@, start as int, end as int),
    ensures
        r@ == sliced(s@, start as int, end as int),
{
    let ghost bytes = encode_utf8(s@);
    proof {
        encode_utf8_valid_utf8(s@);
        valid_utf8_split(bytes, end as int);
    }
    let (head, _) = s.split_at(end);
    let ghost front = bytes.subrange(0, end as int);
    proof {
        is_char_boundary_start_end_of_seq(front);
        if start < end {
            is_char_boundary_iff_not_is_continuation_byte(bytes, start as int);
            is_char_boundary_iff_not_is_continuation_byte(front, start as int);
            assert(front[start as int] == bytes[start as int]);
        }
    }
    let (_, r) = head.split_at(start);
    proof {
        assert(encode_utf8(r@) =~= bytes.subrange(start as int, end as int));
        encode_utf8_decode_utf8(r@);
    }
    r
}

// ---------------------------------------------------------------------------
// What the standard library spells
// ---------------------------------------------------------------------------

/// What `str::to_lowercase` makes of a text.
pub uninterp spec fn lowercase(s: Seq<char>) -> Seq<char>;

/// Lowercase, by `str::to_lowercase`: the result depends on the text alone.
/// Unicode's case tables are not written out here, so nothing more is said of it.
#[verifier::external_body]
pub(crate) fn lower(s: &str) -> (r: String)
    ensures
        r@ == lowercase(s@),
{
    s.to_lowercase()
}

/// What a search field asks for: its text without the blanks around it, in
/// lowercase. A field of blanks asks for nothing.
pub open spec fn asked(typed: Seq<char>) -> Seq<char> {
    if trimmed(typed).len() == 0 {
        seq![]
    } else {
        lowercase(trimmed(typed))
    }
}

/// What a search field asks for.
pub fn ask(typed: &str) -> (r: String)
    ensures
        r@ == asked(typed@),
{
    let wanted = trim(typed);
    if wanted.unicode_len() == 0 {
        String::new()
    } else {
        lower(wanted)
    }
}

/// What `char::to_uppercase` makes of a character.
pub uninterp spec fn uppercase(c: char) -> Seq<char>;

/// Uppercase, by `char::to_uppercase`: the result depends on the character alone.
/// Unicode's case tables are not written out here, so nothing more is said of it.
#[verifier::external_body]
pub(crate) fn upper(c: char) -> (r: String)
    ensures
        r@ == uppercase(c),
{
    c.to_uppercase().collect()
}

/// What `String::from_utf8_lossy` makes of a run of bytes.
pub uninterp spec fn lossy(bytes: Seq<u8>) -> Seq<char>;

/// Text from bytes that may not be UTF-8, by `String::from_utf8_lossy`. The
/// result depends on the bytes alone; bytes that are UTF-8 come out as the text
/// they encode. Where a replacement character goes is not said here.
#[verifier::external_body]
pub(crate) fn lossy_text(bytes: &[u8]) -> (r: String)
    ensures
        r@ == lossy(bytes@),
        valid_utf8(bytes@) ==> r@ == decode_utf8(bytes@),
{
    String::from_utf8_lossy(bytes).into_owned()
}

} // verus!
