//! Text: the string operations the rest of the crate is specified with.
//!
//! Strings are modelled as sequences of characters. Everything here is exact:
//! each function states which sequence it returns.

use vstd::prelude::*;

verus! {

/// The lowercase form of an ASCII letter; any other character stays.
pub open spec fn ascii_lower(c: char) -> char {
    if 'A' <= c <= 'Z' {
        ((c as nat) + 32) as char
    } else {
        c
    }
}

/// A text with its ASCII letters in lowercase.
pub open spec fn ascii_lowercased(text: Seq<char>) -> Seq<char> {
    text.map_values(|c: char| ascii_lower(c))
}

/// Whether every character of a text is ASCII.
pub open spec fn is_ascii(text: Seq<char>) -> bool {
    forall|i: int| 0 <= i < text.len() ==> #[trigger] text[i] < '\u{80}'
}

/// The lowercase form of a text under the Unicode rules of `str::to_lowercase`.
pub uninterp spec fn lowercased(text: Seq<char>) -> Seq<char>;

/// `str::to_lowercase`: the lowercase equivalent of `text`.
///
/// The Unicode tables behind it are not restated; the result is named
/// [`lowercased`] and depends on the text alone. Two facts are: it lowercases
/// ASCII letters as `str::to_ascii_lowercase` does, so that of an ASCII text is
/// known; and as it does so in any text, it makes no difference whether they
/// were in lowercase before. (The one mapping that looks at its neighbours,
/// that of a capital sigma, asks whether they are letters with case, which the
/// case of an ASCII letter does not change.)
#[verifier::external_body]
pub(crate) fn to_lowercase(text: &str) -> (lower: String)
    ensures
        lower@ == lowercased(text@),
        lower@ == lowercased(ascii_lowercased(text@)),
        is_ascii(text@) ==> lower@ == ascii_lowercased(text@),
{
    text.to_lowercase()
}

/// Whether a character has the Unicode `White_Space` property.
pub open spec fn white_space(c: char) -> bool {
    ||| '\u{9}' <= c <= '\u{d}'
    ||| c == ' ' || c == '\u{85}' || c == '\u{a0}' || c == '\u{1680}'
    ||| '\u{2000}' <= c <= '\u{200a}'
    ||| c == '\u{2028}' || c == '\u{2029}' || c == '\u{202f}' || c == '\u{205f}' || c == '\u{3000}'
}

/// `char::is_whitespace`: whether `c` has the `White_Space` property, which
/// [`white_space`] lists in full.
#[verifier::external_body]
pub(crate) fn is_white_space(c: char) -> (white: bool)
    ensures
        white == white_space(c),
{
    c.is_whitespace()
}

/// A text in double quotes, with the characters escaped that need it.
pub uninterp spec fn quoted(text: Seq<char>) -> Seq<char>;

/// `std::fmt::Debug` for `str`: the text in double quotes, escaped. The table
/// of escapes is not restated; the result depends on the text alone and is
/// named [`quoted`].
#[verifier::external_body]
pub(crate) fn quote(text: &str) -> (shown: String)
    ensures
        shown@ == quoted(text@),
{
    format!("{text:?}")
}

/// `String::from_iter` on a slice of characters: the string made of exactly
/// these characters, in order.
#[verifier::external_body]
pub(crate) fn string_of(chars: &[char]) -> (text: String)
    ensures
        text@ == chars@,
{
    String::from_iter(chars)
}

/// Whether two strings hold the same characters.
pub fn same(a: &str, b: &str) -> (equal: bool)
    ensures
        equal == (a@ == b@),
{
    let left = a.to_owned();
    let right = b.to_owned();
    left == right
}

/// The characters of a string.
pub fn chars_of(text: &str) -> (chars: Vec<char>)
    ensures
        chars@ == text@,
{
    let mut chars: Vec<char> = Vec::new();
    for c in it: text.chars()
        invariant
            chars@ == it.seq().take(it.index()),
            it.seq() == text@,
    {
        chars.push(c);
    }
    chars
}

/// Whether a list of strings holds `wanted`.
pub open spec fn lists(texts: Seq<String>, wanted: Seq<char>) -> bool {
    exists|i: int| 0 <= i < texts.len() && (#[trigger] texts[i])@ == wanted
}

/// Whether `texts` holds a string equal to `wanted`.
pub fn holds(texts: &Vec<String>, wanted: &str) -> (found: bool)
    ensures
        found == lists(texts@, wanted@),
{
    let mut i: usize = 0;
    while i < texts.len()
        invariant
            0 <= i <= texts@.len(),
            forall|j: int| 0 <= j < i ==> (#[trigger] texts@[j])@ != wanted@,
        decreases texts@.len() - i,
    {
        if same(texts[i].as_str(), wanted) {
            assert(texts@[i as int]@ == wanted@);
            return true;
        }
        i = i + 1;
    }
    false
}

// ---------------------------------------------------------------------------
// Lexicographic order
// ---------------------------------------------------------------------------

/// Whether `a` comes strictly before `b` in the order of code points.
pub open spec fn before(a: Seq<char>, b: Seq<char>) -> bool
    decreases a.len(),
{
    if b.len() == 0 {
        false
    } else if a.len() == 0 {
        true
    } else if a[0] != b[0] {
        a[0] < b[0]
    } else {
        before(a.drop_first(), b.drop_first())
    }
}

/// Whether `a` comes strictly before `b` in the order of code points.
pub fn is_before(a: &str, b: &str) -> (less: bool)
    ensures
        less == before(a@, b@),
{
    let left = chars_of(a);
    let right = chars_of(b);
    let mut i: usize = 0;
    assert(a@.skip(0) =~= a@);
    assert(b@.skip(0) =~= b@);
    while i < left.len() && i < right.len()
        invariant
            left@ == a@,
            right@ == b@,
            0 <= i <= left@.len(),
            i <= right@.len(),
            before(a@, b@) == before(a@.skip(i as int), b@.skip(i as int)),
        decreases left@.len() - i,
    {
        if left[i] != right[i] {
            return left[i] < right[i];
        }
        assert(a@.skip(i as int).drop_first() =~= a@.skip(i + 1));
        assert(b@.skip(i as int).drop_first() =~= b@.skip(i + 1));
        i = i + 1;
    }
    i < right.len()
}

/// The order of code points is irreflexive, asymmetric and total.
pub proof fn before_is_total(a: Seq<char>, b: Seq<char>)
    ensures
        !before(a, a),
        !(before(a, b) && before(b, a)),
        a != b ==> before(a, b) || before(b, a),
    decreases a.len(),
{
    if a.len() > 0 {
        before_is_total(a.drop_first(), a.drop_first());
    }
    if a.len() > 0 && b.len() > 0 {
        before_is_total(a.drop_first(), b.drop_first());
        if a[0] == b[0] && a.drop_first() == b.drop_first() {
            assert(a =~= seq![a[0]] + a.drop_first());
            assert(b =~= seq![b[0]] + b.drop_first());
        }
    }
    if a.len() == 0 && b.len() == 0 {
        assert(a =~= b);
    }
}

/// The order of code points is transitive.
pub proof fn before_is_transitive(a: Seq<char>, b: Seq<char>, c: Seq<char>)
    requires
        before(a, b),
        before(b, c),
    ensures
        before(a, c),
    decreases a.len(),
{
    if a.len() > 0 && a[0] == b[0] && b[0] == c[0] {
        before_is_transitive(a.drop_first(), b.drop_first(), c.drop_first());
    }
}

// ---------------------------------------------------------------------------
// Searching, splitting and joining
// ---------------------------------------------------------------------------

/// Whether `part` occurs in `text` at position `at`.
pub open spec fn occurs_at(text: Seq<char>, part: Seq<char>, at: int) -> bool {
    0 <= at && at + part.len() <= text.len() && text.subrange(at, at + part.len()) == part
}

/// Whether `part` occurs anywhere in `text`.
pub open spec fn contains_text(text: Seq<char>, part: Seq<char>) -> bool {
    exists|at: int| occurs_at(text, part, at)
}

/// Whether `part` occurs anywhere in `text`.
pub fn contains(text: &str, part: &str) -> (found: bool)
    ensures
        found == contains_text(text@, part@),
{
    let hay = chars_of(text);
    let needle = chars_of(part);
    if needle.len() > hay.len() {
        return false;
    }
    let total: usize = hay.len();
    let last: usize = total - needle.len();
    let mut at: usize = 0;
    while at <= last
        invariant
            hay@ == text@,
            needle@ == part@,
            total == hay@.len(),
            last + needle@.len() == total,
            at <= last + 1,
            forall|k: int| 0 <= k < at ==> !#[trigger] occurs_at(text@, part@, k),
        decreases last + 1 - at,
    {
        let mut i: usize = 0;
        while i < needle.len() && hay[at + i] == needle[i]
            invariant
                hay@ == text@,
                needle@ == part@,
                total == hay@.len(),
                at + needle@.len() <= total,
                0 <= i <= needle@.len(),
                forall|k: int| 0 <= k < i ==> hay@[at + k] == needle@[k],
            decreases needle@.len() - i,
        {
            i = i + 1;
        }
        if i == needle.len() {
            assert(text@.subrange(at as int, at + part@.len()) =~= part@);
            assert(occurs_at(text@, part@, at as int));
            return true;
        }
        assert(!occurs_at(text@, part@, at as int)) by {
            assert(text@.subrange(at as int, at + part@.len())[i as int] == hay@[at + i]);
        }
        if at == last {
            return false;
        }
        at = at + 1;
    }
    false
}

/// The pieces of `text` between the characters in `separators`;
/// always at least one piece.
pub open spec fn split_on(text: Seq<char>, separators: Set<char>) -> Seq<Seq<char>>
    decreases text.len(),
{
    if text.len() == 0 {
        seq![Seq::<char>::empty()]
    } else {
        let init = split_on(text.drop_last(), separators);
        if separators.contains(text.last()) {
            init.push(Seq::empty())
        } else {
            init.update(init.len() - 1, init.last().push(text.last()))
        }
    }
}

/// A split always yields at least one piece.
pub proof fn split_is_never_empty(text: Seq<char>, separators: Set<char>)
    ensures
        split_on(text, separators).len() >= 1,
    decreases text.len(),
{
    if text.len() > 0 {
        split_is_never_empty(text.drop_last(), separators);
    }
}

/// The views of a list of strings.
pub open spec fn views(texts: Seq<String>) -> Seq<Seq<char>> {
    texts.map_values(|text: String| text@)
}

/// The views of a list of text pairs.
pub open spec fn pair_views(pairs: Seq<(String, String)>) -> Seq<(Seq<char>, Seq<char>)> {
    pairs.map_values(|pair: (String, String)| (pair.0@, pair.1@))
}

/// Splits `text` at every occurrence of either separator.
pub fn split_at_either(text: &str, one: char, other: char) -> (pieces: Vec<String>)
    ensures
        views(pieces@) == split_on(text@, set![one, other]),
        pieces@.len() >= 1,
{
    let chars = chars_of(text);
    let mut pieces: Vec<String> = Vec::new();
    let mut piece: Vec<char> = Vec::new();
    let mut i: usize = 0;
    assert(text@.take(0) =~= Seq::empty());
    assert(views(pieces@).push(piece@) =~= split_on(text@.take(0), set![one, other]));
    while i < chars.len()
        invariant
            chars@ == text@,
            0 <= i <= chars@.len(),
            views(pieces@).push(piece@) == split_on(text@.take(i as int), set![one, other]),
        decreases chars@.len() - i,
    {
        let c = chars[i];
        let ghost earlier = views(pieces@).push(piece@);
        assert(text@.take(i + 1).drop_last() =~= text@.take(i as int));
        assert(text@.take(i + 1).last() == c);
        if c == one || c == other {
            let done = string_of(piece.as_slice());
            pieces.push(done);
            piece = Vec::new();
            assert(views(pieces@) =~= earlier);
            assert(views(pieces@).push(piece@) =~= earlier.push(Seq::empty()));
        } else {
            let ghost old_piece = piece@;
            piece.push(c);
            assert(views(pieces@).push(piece@) =~= earlier.update(
                earlier.len() - 1,
                earlier.last().push(c),
            ));
        }
        i = i + 1;
    }
    assert(text@.take(i as int) =~= text@);
    let ghost earlier = views(pieces@).push(piece@);
    let done = string_of(piece.as_slice());
    pieces.push(done);
    assert(views(pieces@) =~= earlier);
    pieces
}

/// Splits `text` at every `separator`.
pub fn split(text: &str, separator: char) -> (pieces: Vec<String>)
    ensures
        views(pieces@) == split_on(text@, set![separator]),
        pieces@.len() >= 1,
{
    assert(set![separator, separator] =~= set![separator]);
    split_at_either(text, separator, separator)
}

/// No piece of a split holds a separator.
pub proof fn pieces_hold_no_separator(text: Seq<char>, separators: Set<char>)
    ensures
        forall|i: int, j: int|
            0 <= i < split_on(text, separators).len() && 0 <= j < split_on(text, separators)[i].len()
                ==> !separators.contains(#[trigger] split_on(text, separators)[i][j]),
    decreases text.len(),
{
    if text.len() > 0 {
        split_is_never_empty(text.drop_last(), separators);
        pieces_hold_no_separator(text.drop_last(), separators);
        let init = split_on(text.drop_last(), separators);
        let pieces = split_on(text, separators);
        assert forall|i: int, j: int|
            0 <= i < pieces.len() && 0 <= j < pieces[i].len() implies !separators.contains(
            #[trigger] pieces[i][j],
        ) by {
            if i < init.len() && j < init[i].len() {
                assert(pieces[i][j] == init[i][j]);
            }
        }
    }
}

/// The list with `text` added at its end, unless it is listed already.
pub open spec fn with_new(list: Seq<Seq<char>>, text: Seq<char>) -> Seq<Seq<char>> {
    if list.contains(text) {
        list
    } else {
        list.push(text)
    }
}

/// The list with everything in `more` added that it did not list.
pub open spec fn merged(list: Seq<Seq<char>>, more: Seq<Seq<char>>) -> Seq<Seq<char>>
    decreases more.len(),
{
    if more.len() == 0 {
        list
    } else {
        with_new(merged(list, more.drop_last()), more.last())
    }
}

/// A list that lists nothing twice still does after it was merged into, and
/// it lists everything that was merged and nothing else.
pub proof fn merging_adds_each_text_once(list: Seq<Seq<char>>, more: Seq<Seq<char>>)
    ensures
        list.no_duplicates() ==> merged(list, more).no_duplicates(),
        forall|text: Seq<char>| #[trigger]
            merged(list, more).contains(text) <==> list.contains(text) || more.contains(text),
    decreases more.len(),
{
    if more.len() > 0 {
        let init = more.drop_last();
        merging_adds_each_text_once(list, init);
        let before = merged(list, init);
        let after = merged(list, more);
        assert forall|text: Seq<char>| #[trigger] after.contains(text) <==> list.contains(text)
            || more.contains(text) by {
            assert(more.contains(text) <==> init.contains(text) || text == more.last()) by {
                if init.contains(text) {
                    let i = choose|i: int| 0 <= i < init.len() && init[i] == text;
                    assert(more[i] == text);
                }
                if text == more.last() {
                    assert(more[more.len() - 1] == text);
                }
                if more.contains(text) {
                    let i = choose|i: int| 0 <= i < more.len() && more[i] == text;
                    assert(i < init.len() ==> init[i] == text);
                }
            }
            if before.contains(text) {
                let i = choose|i: int| 0 <= i < before.len() && before[i] == text;
                assert(after[i] == text);
            }
            if text == more.last() && !before.contains(text) {
                assert(after[before.len() as int] == text);
            }
        }
        if list.no_duplicates() {
            assert forall|i: int, j: int|
                0 <= i < after.len() && 0 <= j < after.len() && i != j implies after[i] != after[j] by {
                if i < before.len() {
                    assert(before[i] == after[i]);
                    assert(before.contains(after[i]));
                }
                if j < before.len() {
                    assert(before[j] == after[j]);
                    assert(before.contains(after[j]));
                }
            }
        }
    }
}

/// A list holds a text just where its views do.
pub proof fn views_hold(texts: Seq<String>, wanted: Seq<char>)
    ensures
        lists(texts, wanted) == views(texts).contains(wanted),
{
    if lists(texts, wanted) {
        let i = choose|i: int| 0 <= i < texts.len() && (#[trigger] texts[i])@ == wanted;
        assert(views(texts)[i] == wanted);
    }
    if views(texts).contains(wanted) {
        let i = choose|i: int| 0 <= i < views(texts).len() && views(texts)[i] == wanted;
        assert(texts[i]@ == wanted);
    }
}

/// Adds `text` to the end of `list`, unless it is listed already.
pub fn add_new(list: &mut Vec<String>, text: String)
    ensures
        views(final(list)@) == with_new(views(old(list)@), text@),
{
    proof {
        views_hold(list@, text@);
    }
    if !holds(list, text.as_str()) {
        let ghost shorter = views(list@);
        let ghost added = text@;
        list.push(text);
        assert(views(list@) =~= shorter.push(added));
    }
}

/// Adds everything in `more` to `list` that it does not list.
pub fn merge(list: &mut Vec<String>, more: Vec<String>)
    ensures
        views(final(list)@) == merged(views(old(list)@), views(more@)),
{
    let ghost all = views(more@);
    let ghost start = views(list@);
    let ghost mut seen: int = 0;
    assert(all.take(0) =~= Seq::empty());
    for text in it: more
        invariant
            it.seq() == more@,
            all == views(more@),
            seen == it.index(),
            views(list@) == merged(start, all.take(it.index() as int)),
    {
        proof {
            assert(all.take(seen + 1).drop_last() =~= all.take(seen));
            assert(all.take(seen + 1).last() == text@);
            seen = seen + 1;
        }
        add_new(list, text);
    }
    assert(all.take(seen) =~= all);
}

/// Appends copies of all of `more` to `texts`.
pub fn append_all(texts: &mut Vec<String>, more: &Vec<String>)
    ensures
        views(final(texts)@) == views(old(texts)@) + views(more@),
{
    let ghost start = views(texts@);
    let mut i: usize = 0;
    assert(views(more@).take(0) =~= Seq::empty());
    assert(start + views(more@).take(0) =~= start);
    while i < more.len()
        invariant
            0 <= i <= more@.len(),
            start == views(old(texts)@),
            views(texts@) == start + views(more@).take(i as int),
        decreases more@.len() - i,
    {
        let ghost shorter = views(texts@);
        texts.push(more[i].clone());
        assert(views(texts@) =~= shorter.push(more@[i as int]@));
        assert(views(more@).take(i + 1) =~= views(more@).take(i as int).push(more@[i as int]@));
        assert(views(texts@) =~= start + views(more@).take(i + 1));
        i = i + 1;
    }
    assert(views(more@).take(i as int) =~= views(more@));
}

/// The texts of `parts` joined by `separator`.
pub open spec fn joined(parts: Seq<Seq<char>>, separator: Seq<char>) -> Seq<char>
    decreases parts.len(),
{
    if parts.len() == 0 {
        Seq::empty()
    } else if parts.len() == 1 {
        parts[0]
    } else {
        joined(parts.drop_last(), separator) + separator + parts.last()
    }
}

/// Joins strings with a separator between each two.
pub fn join(parts: &Vec<String>, separator: &str) -> (text: String)
    ensures
        text@ == joined(views(parts@), separator@),
{
    let mut text = String::new();
    let mut i: usize = 0;
    assert(views(parts@).take(0) =~= Seq::empty());
    while i < parts.len()
        invariant
            0 <= i <= parts@.len(),
            text@ == joined(views(parts@).take(i as int), separator@),
        decreases parts@.len() - i,
    {
        assert(views(parts@).take(i + 1).drop_last() =~= views(parts@).take(i as int));
        assert(views(parts@).take(i + 1).last() == parts@[i as int]@);
        if i > 0 {
            text.append(separator);
        }
        text.append(parts[i].as_str());
        if i == 0 {
            assert(text@ =~= parts@[0]@);
        }
        i = i + 1;
    }
    assert(views(parts@).take(i as int) =~= views(parts@));
    text
}

// ---------------------------------------------------------------------------
// Padding and trimming
// ---------------------------------------------------------------------------

/// `count` spaces.
pub open spec fn blanks(count: nat) -> Seq<char> {
    Seq::new(count, |i: int| ' ')
}

/// `text` followed by spaces up to `width` characters; longer texts are kept.
pub open spec fn padded(text: Seq<char>, width: nat) -> Seq<char> {
    if text.len() >= width {
        text
    } else {
        text + blanks((width - text.len()) as nat)
    }
}

/// `count` spaces.
pub fn spaces(count: usize) -> (text: String)
    ensures
        text@ == blanks(count as nat),
{
    let mut chars: Vec<char> = Vec::new();
    let mut i: usize = 0;
    while i < count
        invariant
            0 <= i <= count,
            chars@ == blanks(i as nat),
        decreases count - i,
    {
        chars.push(' ');
        assert(chars@ =~= blanks((i + 1) as nat));
        i = i + 1;
    }
    string_of(chars.as_slice())
}

/// Pads `text` with spaces on the right to `width` characters.
pub fn pad_end(text: &str, width: usize) -> (cell: String)
    ensures
        cell@ == padded(text@, width as nat),
{
    let length = text.unicode_len();
    let mut cell = text.to_owned();
    if length < width {
        let fill = spaces(width - length);
        cell.append(fill.as_str());
    }
    cell
}

/// `text` without the white space at its end.
pub open spec fn trimmed_end(text: Seq<char>) -> Seq<char>
    decreases text.len(),
{
    if text.len() > 0 && white_space(text.last()) {
        trimmed_end(text.drop_last())
    } else {
        text
    }
}

/// A text without trailing white space ends in none.
pub proof fn trimmed_end_is_trimmed(text: Seq<char>)
    ensures
        trimmed_end(text).len() > 0 ==> !white_space(trimmed_end(text).last()),
    decreases text.len(),
{
    if text.len() > 0 && white_space(text.last()) {
        trimmed_end_is_trimmed(text.drop_last());
    }
}

/// Removes the white space at the end of `text`.
pub fn trim_end(text: &str) -> (trimmed: String)
    ensures
        trimmed@ == trimmed_end(text@),
{
    let mut chars = chars_of(text);
    while chars.len() > 0
        invariant
            trimmed_end(chars@) == trimmed_end(text@),
        ensures
            chars@ == trimmed_end(text@),
        decreases chars@.len(),
    {
        if !is_white_space(chars[chars.len() - 1]) {
            break;
        }
        let ghost longer = chars@;
        chars.pop();
        assert(chars@ =~= longer.drop_last());
    }
    string_of(chars.as_slice())
}

// ---------------------------------------------------------------------------
// Numbers
// ---------------------------------------------------------------------------

/// Whether `c` is an ASCII decimal digit.
pub open spec fn is_digit(c: char) -> bool {
    '0' <= c <= '9'
}

/// The character of a digit below ten.
pub open spec fn digit(value: nat) -> char {
    (('0' as nat) + value) as char
}

/// The decimal notation of a number, without leading zeros.
pub open spec fn decimal(n: nat) -> Seq<char>
    decreases n,
{
    if n < 10 {
        seq![digit(n)]
    } else {
        decimal(n / 10).push(digit(n % 10))
    }
}

/// The digits of the decimal notation of `n`.
fn decimal_chars(n: u64) -> (chars: Vec<char>)
    ensures
        chars@ == decimal(n as nat),
    decreases n,
{
    let low: u8 = (n % 10) as u8;
    let last: char = (48u8 + low) as char;
    if n < 10 {
        let mut chars: Vec<char> = Vec::new();
        chars.push(last);
        assert(chars@ =~= decimal(n as nat));
        chars
    } else {
        let mut chars = decimal_chars(n / 10);
        chars.push(last);
        chars
    }
}

/// The decimal notation of `n`.
pub fn number_text(n: u64) -> (text: String)
    ensures
        text@ == decimal(n as nat),
{
    let chars = decimal_chars(n);
    string_of(chars.as_slice())
}

/// A count in decimal notation.
pub fn count_text(n: usize) -> (text: String)
    ensures
        text@ == decimal(n as nat),
{
    number_text(n as u64)
}

/// The value of a sequence of decimal digits.
pub open spec fn digits_value(digits: Seq<char>) -> nat
    decreases digits.len(),
{
    if digits.len() == 0 {
        0
    } else {
        digits_value(digits.drop_last()) * 10 + ((digits.last() as nat) - ('0' as nat)) as nat
    }
}

/// The digits of a number: the text without one leading `+`.
pub open spec fn unsigned_part(text: Seq<char>) -> Seq<char> {
    if text.len() > 0 && text[0] == '+' {
        text.drop_first()
    } else {
        text
    }
}

/// Whether a text is made of decimal digits.
pub open spec fn all_digits(text: Seq<char>) -> bool {
    forall|i: int| 0 <= i < text.len() ==> is_digit(#[trigger] text[i])
}

/// The number a text denotes, however large: an optional `+`, then one or more
/// decimal digits.
pub open spec fn number(text: Seq<char>) -> Option<nat> {
    let digits = unsigned_part(text);
    if digits.len() > 0 && all_digits(digits) {
        Some(digits_value(digits))
    } else {
        None
    }
}

/// Digits without the zeros in front.
pub open spec fn significant(digits: Seq<char>) -> Seq<char>
    decreases digits.len(),
{
    if digits.len() > 0 && digits[0] == '0' {
        significant(digits.drop_first())
    } else {
        digits
    }
}

/// A zero in front of digits adds nothing to their value.
proof fn a_leading_zero_is_worth_nothing(digits: Seq<char>)
    requires
        digits.len() > 0,
        digits[0] == '0',
    ensures
        digits_value(digits) == digits_value(digits.drop_first()),
    decreases digits.len(),
{
    let init = digits.drop_last();
    if init.len() > 0 {
        a_leading_zero_is_worth_nothing(init);
        assert(init.drop_first() =~= digits.drop_first().drop_last());
        assert(digits.drop_first().last() == digits.last());
    } else {
        assert(digits.drop_first().len() == 0);
        assert(digits_value(init) == 0);
    }
}

/// Digits are worth the same without the zeros in front, and then start with
/// none.
pub proof fn significant_digits_keep_the_value(digits: Seq<char>)
    ensures
        digits_value(significant(digits)) == digits_value(digits),
        significant(digits).len() > 0 ==> significant(digits)[0] != '0',
        all_digits(digits) ==> all_digits(significant(digits)),
    decreases digits.len(),
{
    if digits.len() > 0 && digits[0] == '0' {
        let rest = digits.drop_first();
        a_leading_zero_is_worth_nothing(digits);
        significant_digits_keep_the_value(rest);
        if all_digits(digits) {
            assert forall|i: int| 0 <= i < rest.len() implies is_digit(#[trigger] rest[i]) by {
                assert(rest[i] == digits[i + 1]);
            }
        }
    }
}

/// The digits of the number that `text` denotes, without the zeros in front;
/// nothing when it is no number.
pub fn significant_digits(text: &str) -> (digits: Option<Vec<char>>)
    ensures
        match digits {
            Some(digits) => number(text@) is Some && digits@ == significant(unsigned_part(text@)),
            None => number(text@) is None,
        },
{
    let chars = chars_of(text);
    let mut start: usize = if chars.len() > 0 && chars[0] == '+' {
        1
    } else {
        0
    };
    let ghost all = unsigned_part(text@);
    assert(all =~= text@.skip(start as int));
    if start == chars.len() {
        return None;
    }
    let mut i: usize = start;
    while i < chars.len()
        invariant
            chars@ == text@,
            all == unsigned_part(text@),
            all == text@.skip(start as int),
            start <= i <= chars@.len(),
            forall|j: int| 0 <= j < i - start ==> is_digit(#[trigger] all[j]),
        decreases chars@.len() - i,
    {
        assert(all[i - start] == chars@[i as int]);
        if !('0' <= chars[i] && chars[i] <= '9') {
            assert(!is_digit(all[i - start]));
            return None;
        }
        i = i + 1;
    }
    while start < chars.len() && chars[start] == '0'
        invariant
            chars@ == text@,
            start <= chars@.len(),
            significant(all) == significant(text@.skip(start as int)),
        decreases chars@.len() - start,
    {
        assert(text@.skip(start as int).drop_first() =~= text@.skip(start + 1));
        start = start + 1;
    }
    let mut digits: Vec<char> = Vec::new();
    let mut i: usize = start;
    while i < chars.len()
        invariant
            chars@ == text@,
            start <= i <= chars@.len(),
            digits@ == text@.subrange(start as int, i as int),
        decreases chars@.len() - i,
    {
        digits.push(chars[i]);
        i = i + 1;
        assert(digits@ =~= text@.subrange(start as int, i as int));
    }
    assert(digits@ =~= text@.skip(start as int));
    Some(digits)
}

/// Of two equally long rows of digits, the one whose beginning is worth less
/// is worth less.
proof fn the_beginning_decides(a: Seq<char>, b: Seq<char>, upto: int)
    requires
        a.len() == b.len(),
        all_digits(a),
        all_digits(b),
        0 <= upto <= a.len(),
        digits_value(a.take(upto)) < digits_value(b.take(upto)),
    ensures
        digits_value(a) < digits_value(b),
    decreases a.len(),
{
    if upto == a.len() {
        assert(a.take(upto) =~= a);
        assert(b.take(upto) =~= b);
    } else {
        let a_init = a.drop_last();
        let b_init = b.drop_last();
        assert(a_init.take(upto) =~= a.take(upto));
        assert(b_init.take(upto) =~= b.take(upto));
        assert forall|i: int| 0 <= i < a_init.len() implies is_digit(#[trigger] a_init[i]) by {
            assert(a_init[i] == a[i]);
        }
        assert forall|i: int| 0 <= i < b_init.len() implies is_digit(#[trigger] b_init[i]) by {
            assert(b_init[i] == b[i]);
        }
        the_beginning_decides(a_init, b_init, upto);
        assert(is_digit(a[a.len() - 1]) && is_digit(b[b.len() - 1]));
    }
}

/// Digits are worth less than a longer row of digits without a zero in front.
proof fn the_longer_number_is_larger(a: Seq<char>, b: Seq<char>)
    requires
        a.len() < b.len(),
        all_digits(a),
        all_digits(b),
        b[0] != '0',
    ensures
        digits_value(a) < digits_value(b),
    decreases b.len(),
{
    let b_init = b.drop_last();
    assert forall|i: int| 0 <= i < b_init.len() implies is_digit(#[trigger] b_init[i]) by {
        assert(b_init[i] == b[i]);
    }
    assert(is_digit(b[b.len() - 1]));
    if a.len() > 0 {
        let a_init = a.drop_last();
        assert forall|i: int| 0 <= i < a_init.len() implies is_digit(#[trigger] a_init[i]) by {
            assert(a_init[i] == a[i]);
        }
        assert(is_digit(a[a.len() - 1]));
        the_longer_number_is_larger(a_init, b_init);
    } else if b_init.len() > 0 {
        the_longer_number_is_larger(a, b_init);
    }
}

/// Whether one row of digits without zeros in front is worth less than another.
pub(crate) fn is_smaller(a: &Vec<char>, b: &Vec<char>) -> (smaller: bool)
    requires
        all_digits(a@),
        all_digits(b@),
        a@.len() > 0 ==> a@[0] != '0',
        b@.len() > 0 ==> b@[0] != '0',
    ensures
        smaller == (digits_value(a@) < digits_value(b@)),
{
    if a.len() != b.len() {
        proof {
            if a@.len() < b@.len() {
                the_longer_number_is_larger(a@, b@);
            } else {
                the_longer_number_is_larger(b@, a@);
            }
        }
        return a.len() < b.len();
    }
    let mut i: usize = 0;
    while i < a.len()
        invariant
            a@.len() == b@.len(),
            all_digits(a@),
            all_digits(b@),
            0 <= i <= a@.len(),
            a@.take(i as int) == b@.take(i as int),
        decreases a@.len() - i,
    {
        assert(a@.take(i + 1).drop_last() =~= a@.take(i as int));
        assert(b@.take(i + 1).drop_last() =~= b@.take(i as int));
        assert(is_digit(a@[i as int]) && is_digit(b@[i as int]));
        if a[i] != b[i] {
            proof {
                if a@[i as int] < b@[i as int] {
                    the_beginning_decides(a@, b@, i + 1);
                } else {
                    the_beginning_decides(b@, a@, i + 1);
                }
            }
            return a[i] < b[i];
        }
        i = i + 1;
        assert(a@.take(i as int) =~= b@.take(i as int));
    }
    assert(a@.take(i as int) =~= a@);
    assert(b@.take(i as int) =~= b@);
    false
}

// ---------------------------------------------------------------------------
// What holds of texts
// ---------------------------------------------------------------------------

/// One text comes before another just when they are equal up to some point, and
/// there the one ends or has the smaller character.
pub proof fn the_first_difference_orders(a: Seq<char>, b: Seq<char>)
    ensures
        before(a, b) <==> exists|k: int|
            0 <= k <= a.len() && k < b.len() && #[trigger] a.take(k) == b.take(k) && (k == a.len()
                || a[k] < b[k]),
    decreases a.len(),
{
    if b.len() > 0 {
        if a.len() == 0 {
            assert(a.take(0) =~= b.take(0));
        } else if a[0] != b[0] {
            if a[0] < b[0] {
                assert(a.take(0) =~= b.take(0));
            }
            assert forall|k: int|
                0 <= k <= a.len() && k < b.len() && #[trigger] a.take(k) == b.take(k) && (k
                    == a.len() || a[k] < b[k]) implies a[0] < b[0] by {
                if k > 0 {
                    assert(a.take(k)[0] == b.take(k)[0]);
                }
            }
        } else {
            let a_rest = a.drop_first();
            let b_rest = b.drop_first();
            the_first_difference_orders(a_rest, b_rest);
            if before(a, b) {
                let k = choose|k: int|
                    0 <= k <= a_rest.len() && k < b_rest.len() && #[trigger] a_rest.take(k)
                        == b_rest.take(k) && (k == a_rest.len() || a_rest[k] < b_rest[k]);
                assert forall|i: int| 0 <= i < k + 1 implies a[i] == b[i] by {
                    if i > 0 {
                        assert(a_rest.take(k)[i - 1] == b_rest.take(k)[i - 1]);
                    }
                }
                assert(a.take(k + 1) =~= b.take(k + 1));
            }
            if exists|k: int|
                0 <= k <= a.len() && k < b.len() && #[trigger] a.take(k) == b.take(k) && (k
                    == a.len() || a[k] < b[k]) {
                let k = choose|k: int|
                    0 <= k <= a.len() && k < b.len() && #[trigger] a.take(k) == b.take(k) && (k
                        == a.len() || a[k] < b[k]);
                assert(k > 0);
                assert forall|i: int| 0 <= i < k - 1 implies a_rest[i] == b_rest[i] by {
                    assert(a.take(k)[i + 1] == b.take(k)[i + 1]);
                }
                assert(a_rest.take(k - 1) =~= b_rest.take(k - 1));
            }
        }
    }
}

/// A text contains another just when it is that text with something in front of
/// it and something behind it.
pub proof fn contained_texts_are_parts(text: Seq<char>, part: Seq<char>)
    ensures
        contains_text(text, part) <==> exists|front: Seq<char>, back: Seq<char>|
            text == #[trigger] (front + part + back),
{
    if contains_text(text, part) {
        let at = choose|at: int| occurs_at(text, part, at);
        let front = text.take(at);
        let back = text.skip(at + part.len());
        assert forall|i: int| 0 <= i < text.len() implies text[i] == (front + part + back)[i] by {
            if at <= i < at + part.len() {
                assert(text.subrange(at, at + part.len())[i - at] == text[i]);
            }
        }
        assert(text =~= front + part + back);
    }
    if exists|front: Seq<char>, back: Seq<char>| text == #[trigger] (front + part + back) {
        let (front, back) = choose|front: Seq<char>, back: Seq<char>|
            text == #[trigger] (front + part + back);
        let at = front.len() as int;
        assert(text.subrange(at, at + part.len()) =~= part);
        assert(occurs_at(text, part, at));
    }
}

/// The pieces of a split, joined by the separator, are the text again.
pub proof fn joining_undoes_splitting(text: Seq<char>, separator: char)
    ensures
        joined(split_on(text, set![separator]), seq![separator]) == text,
    decreases text.len(),
{
    let pieces = split_on(text, set![separator]);
    let between = seq![separator];
    if text.len() == 0 {
        assert(joined(pieces, between) =~= text);
    } else {
        let init = text.drop_last();
        let before = split_on(init, set![separator]);
        joining_undoes_splitting(init, separator);
        split_is_never_empty(init, set![separator]);
        if text.last() == separator {
            assert(pieces.drop_last() =~= before);
            assert(joined(pieces, between) =~= init + between);
            assert(text =~= init.push(separator));
            assert(init + between =~= text);
        } else {
            assert(!set![separator].contains(text.last()));
            let last = before.last();
            assert(pieces.last() == last.push(text.last()));
            assert(pieces.drop_last() =~= before.drop_last());
            if before.len() == 1 {
                assert(joined(pieces, between) =~= init.push(text.last()));
            } else {
                let front = joined(before.drop_last(), between) + between;
                assert(front + last.push(text.last()) =~= (front + last).push(text.last()));
            }
            assert(init.push(text.last()) =~= text);
        }
    }
}

/// What a separator-free text adds to a split: it lengthens the last piece.
proof fn splits_grow_at_the_end(text: Seq<char>, more: Seq<char>, separator: char)
    requires
        forall|i: int| 0 <= i < more.len() ==> #[trigger] more[i] != separator,
    ensures
        ({
            let pieces = split_on(text, set![separator]);
            split_on(text + more, set![separator]) == pieces.update(
                pieces.len() - 1,
                pieces.last() + more,
            )
        }),
    decreases more.len(),
{
    let pieces = split_on(text, set![separator]);
    split_is_never_empty(text, set![separator]);
    if more.len() == 0 {
        assert(text + more =~= text);
        assert(pieces.last() + more =~= pieces.last());
        assert(pieces.update(pieces.len() - 1, pieces.last()) =~= pieces);
    } else {
        let init = more.drop_last();
        assert forall|i: int| 0 <= i < init.len() implies #[trigger] init[i] != separator by {
            assert(init[i] == more[i]);
        }
        splits_grow_at_the_end(text, init, separator);
        assert((text + more).drop_last() =~= text + init);
        assert((text + more).last() == more.last());
        assert(more[more.len() - 1] != separator);
        let before = split_on(text + init, set![separator]);
        assert(before.last().push(more.last()) =~= pieces.last() + more);
        assert(before.update(before.len() - 1, before.last().push(more.last())) =~= pieces.update(
            pieces.len() - 1,
            pieces.last() + more,
        ));
    }
}

/// Splitting a joined text gives its parts again, when none of them holds the
/// separator.
pub proof fn splitting_undoes_joining(parts: Seq<Seq<char>>, separator: char)
    requires
        parts.len() > 0,
        forall|i: int, j: int|
            0 <= i < parts.len() && 0 <= j < parts[i].len() ==> #[trigger] parts[i][j] != separator,
    ensures
        split_on(joined(parts, seq![separator]), set![separator]) == parts,
    decreases parts.len(),
{
    let between = seq![separator];
    let last = parts.last();
    assert forall|j: int| 0 <= j < last.len() implies #[trigger] last[j] != separator by {
        assert(parts[parts.len() - 1][j] != separator);
    }
    if parts.len() == 1 {
        splits_grow_at_the_end(Seq::empty(), last, separator);
        assert(Seq::<char>::empty() + last =~= last);
        assert(split_on(last, set![separator]) =~= parts);
    } else {
        let init = parts.drop_last();
        assert forall|i: int, j: int| 0 <= i < init.len() && 0 <= j < init[i].len() implies
            #[trigger] init[i][j] != separator by {
            assert(parts[i][j] != separator);
        }
        splitting_undoes_joining(init, separator);
        let front = joined(init, between) + between;
        assert(front.drop_last() =~= joined(init, between));
        assert(front.last() == separator);
        assert(split_on(front, set![separator]) == init.push(Seq::empty()));
        splits_grow_at_the_end(front, last, separator);
        assert(Seq::<char>::empty() + last =~= last);
        assert(split_on(front + last, set![separator]) =~= parts);
    }
}

/// Every separator counts alike: a split is the same when all of them are
/// replaced by one of them.
pub proof fn separators_are_alike(text: Seq<char>, one: char, other: char)
    ensures
        split_on(text, set![one, other]) == split_on(
            text.map_values(
                |c: char|
                    if c == other {
                        one
                    } else {
                        c
                    },
            ),
            set![one],
        ),
    decreases text.len(),
{
    let plain = text.map_values(
        |c: char|
            if c == other {
                one
            } else {
                c
            },
    );
    if text.len() > 0 {
        separators_are_alike(text.drop_last(), one, other);
        assert(plain.drop_last() =~= text.drop_last().map_values(
            |c: char|
                if c == other {
                    one
                } else {
                    c
                },
        ));
        assert(set![one, other].contains(text.last()) <==> set![one].contains(plain.last()));
    }
}

/// Joining goes part by part: what two lists come to, joined, is what they come
/// to together. A single text stays as it is.
pub proof fn joining_is_gradual(front: Seq<Seq<char>>, back: Seq<Seq<char>>, separator: Seq<char>)
    ensures
        front.len() > 0 && back.len() > 0 ==> joined(front + back, separator) == joined(
            front,
            separator,
        ) + separator + joined(back, separator),
        front.len() == 1 ==> joined(front, separator) == front[0],
        front.len() == 0 ==> joined(front, separator).len() == 0,
    decreases back.len(),
{
    if front.len() > 0 && back.len() > 0 {
        let all = front + back;
        assert(all.drop_last() =~= front + back.drop_last());
        assert(all.last() == back.last());
        if back.len() == 1 {
            assert(back.drop_last() =~= Seq::empty());
            assert(all.drop_last() =~= front);
        } else {
            joining_is_gradual(front, back.drop_last(), separator);
            let middle = joined(back.drop_last(), separator);
            assert(joined(front, separator) + separator + middle + separator + back.last()
                =~= joined(front, separator) + separator + (middle + separator + back.last()));
        }
    }
}

/// A padded text is the text with spaces behind it, as long as the width at
/// least and never cut.
pub proof fn padding_only_adds_spaces(text: Seq<char>, width: nat)
    ensures
        padded(text, width).len() == if text.len() < width {
            width
        } else {
            text.len()
        },
        text.is_prefix_of(padded(text, width)),
        forall|i: int|
            text.len() <= i < padded(text, width).len() ==> #[trigger] padded(text, width)[i] == ' ',
{
    assert(padded(text, width).take(text.len() as int) =~= text);
}

/// Trimming only takes white space away, and only at the end.
pub proof fn trimming_only_removes_white_space(text: Seq<char>)
    ensures
        trimmed_end(text).is_prefix_of(text),
        forall|i: int|
            trimmed_end(text).len() <= i < text.len() ==> white_space(#[trigger] text[i]),
    decreases text.len(),
{
    if text.len() > 0 && white_space(text.last()) {
        let init = text.drop_last();
        trimming_only_removes_white_space(init);
        let short = trimmed_end(text);
        assert(init.take(short.len() as int) =~= text.take(short.len() as int));
        assert forall|i: int| short.len() <= i < text.len() implies white_space(
            #[trigger] text[i],
        ) by {
            if i < init.len() {
                assert(init[i] == text[i]);
            }
        }
    } else {
        assert(text.take(text.len() as int) =~= text);
    }
}

/// Every number can be read back from its decimal notation, which has no zero
/// in front unless it is nothing else.
pub proof fn numbers_are_read_back(n: nat)
    ensures
        number(decimal(n)) == Some(n),
        all_digits(decimal(n)),
        decimal(n).len() > 0,
        n > 0 ==> decimal(n)[0] != '0',
        digits_value(decimal(n)) == n,
    decreases n,
{
    let digits = decimal(n);
    if n < 10 {
        assert(digits.len() == 1);
        assert(digits.drop_last() =~= Seq::empty());
        assert(is_digit(digits[0]));
        assert(digits_value(digits.drop_last()) == 0);
    } else {
        let rest = decimal(n / 10);
        numbers_are_read_back(n / 10);
        assert(digits.drop_last() =~= rest);
        assert forall|i: int| 0 <= i < digits.len() implies is_digit(#[trigger] digits[i]) by {
            if i < rest.len() {
                assert(digits[i] == rest[i]);
            }
        }
        assert(digits[0] == rest[0]);
    }
    assert(is_digit(digits[0]));
}

/// A text denotes a number just when it is made of decimal digits, one at
/// least, with at most one plus sign in front; the sign does not change the
/// number.
pub proof fn numbers_are_made_of_digits(text: Seq<char>)
    ensures
        number(text) is Some <==> exists|digits: Seq<char>|
            digits.len() > 0 && #[trigger] all_digits(digits) && (text == digits || text == seq!['+']
                + digits),
        all_digits(text) && text.len() > 0 ==> number(seq!['+'] + text) == number(text) && number(
            text,
        ) == Some(digits_value(text)),
{
    let signed = seq!['+'] + text;
    assert(signed.drop_first() =~= text);
    if all_digits(text) && text.len() > 0 {
        assert(is_digit(text[0]));
    }
    if number(text) is Some {
        let digits = unsigned_part(text);
        assert(text =~= digits || text =~= seq!['+'] + digits);
    }
    if exists|digits: Seq<char>|
        digits.len() > 0 && #[trigger] all_digits(digits) && (text == digits || text == seq!['+']
            + digits) {
        let digits = choose|digits: Seq<char>|
            digits.len() > 0 && #[trigger] all_digits(digits) && (text == digits || text == seq!['+']
                + digits);
        assert(is_digit(digits[0]));
        assert((seq!['+'] + digits).drop_first() =~= digits);
    }
}

/// Lowercasing ASCII letters keeps every other character and the length, moves
/// each capital letter to its place in the lowercase alphabet, and changes
/// nothing the second time.
pub proof fn ascii_letters_are_lowercased(text: Seq<char>, at: int)
    requires
        0 <= at < text.len(),
    ensures
        ascii_lowercased(text).len() == text.len(),
        !('A' <= text[at] <= 'Z') ==> ascii_lowercased(text)[at] == text[at],
        'A' <= text[at] <= 'Z' ==> 'a' <= ascii_lowercased(text)[at] <= 'z' && (ascii_lowercased(
            text,
        )[at] as int) - ('a' as int) == (text[at] as int) - ('A' as int),
        ascii_lowercased(ascii_lowercased(text)) == ascii_lowercased(text),
{
    assert(ascii_lowercased(ascii_lowercased(text)) =~= ascii_lowercased(text));
}

/// A text contains what stands between its front and its back.
pub proof fn texts_contain_their_middle(front: Seq<char>, part: Seq<char>, back: Seq<char>)
    ensures
        contains_text(front + part + back, part),
        contains_text(front + part, part),
{
    contained_texts_are_parts(front + part + back, part);
    contained_texts_are_parts(front + part, part);
    assert(front + part =~= front + part + Seq::empty());
}

/// Merging keeps the order: the list stays in front, what is new follows in the
/// order in which it comes, and two merges in a row are one merge of both lists.
pub proof fn merging_is_gradual(list: Seq<Seq<char>>, first: Seq<Seq<char>>, second: Seq<Seq<char>>)
    ensures
        list.is_prefix_of(merged(list, first)),
        merged(list, first + second) == merged(merged(list, first), second),
        first.len() == 1 ==> merged(list, first) == if list.contains(first[0]) {
            list
        } else {
            list.push(first[0])
        },
    decreases first.len() + second.len(),
{
    if second.len() > 0 {
        merging_is_gradual(list, first, second.drop_last());
        assert((first + second).drop_last() =~= first + second.drop_last());
        assert((first + second).last() == second.last());
    } else {
        assert(first + second =~= first);
        if first.len() > 0 {
            merging_is_gradual(list, first.drop_last(), Seq::empty());
            let before = merged(list, first.drop_last());
            let after = merged(list, first);
            assert(after.take(list.len() as int) =~= before.take(list.len() as int));
            if first.len() == 1 {
                assert(first.drop_last() =~= Seq::empty());
            }
        } else {
            assert(list.take(list.len() as int) =~= list);
        }
    }
}

} // verus!
