//! Text as a sequence of characters.
//!
//! The functions here work on the characters of a string, and their contracts
//! speak of `Seq<char>`: trimming, searching, splitting, joining and padding.
use vstd::prelude::*;
use vstd::string::*;

verus! {

broadcast use vstd::string::group_string_axioms;

/// `String::push` appends the character `c` to the end of the string.
pub assume_specification[ String::push ](s: &mut String, c: char)
    ensures
        final(s)@ == old(s)@.push(c),
;

/// The upper-case form of a character, by the full Unicode case mapping: one
/// character or more.
pub uninterp spec fn capitals(c: char) -> Seq<char>;

/// The upper-case form of a text: that of its characters, one after the other.
/// No upper-case form depends on what stands around the character.
pub open spec fn upper(text: Seq<char>) -> Seq<char>
    decreases text.len(),
{
    if text.len() == 0 {
        seq![]
    } else {
        upper(text.drop_last()) + capitals(text.last())
    }
}

/// The lower-case form of a text, by the full Unicode case mapping.
pub uninterp spec fn lower(text: Seq<char>) -> Seq<char>;

/// Whether a character is a letter or a number in the sense of Unicode.
pub uninterp spec fn alphanumeric(c: char) -> bool;

/// Every character of the text is an ASCII character.
pub open spec fn is_plain(text: Seq<char>) -> bool {
    forall|i: int| 0 <= i < text.len() ==> #[trigger] text[i] <= '\u{7f}'
}

/// The ASCII capital of an ASCII small letter; any other character itself.
pub open spec fn ascii_capital(c: char) -> char {
    if 'a' <= c <= 'z' {
        (c as int - 32) as char
    } else {
        c
    }
}

/// The ASCII small letter of an ASCII capital; any other character itself.
pub open spec fn ascii_small(c: char) -> char {
    if 'A' <= c <= 'Z' {
        (c as int + 32) as char
    } else {
        c
    }
}

/// Calls `char::to_uppercase`. The characters that it yields are named
/// `capitals`; of an ASCII character it is the ASCII capital alone.
#[verifier::external_body]
fn capitals_of(c: char) -> (out: Vec<char>)
    ensures
        out@ == capitals(c),
        c <= '\u{7f}' ==> out@ == seq![ascii_capital(c)],
{
    c.to_uppercase().collect()
}

/// The upper-case form of a text. That of a text of ASCII characters alone is
/// the text with each small letter made a capital.
pub fn to_upper(text: &str) -> (out: String)
    ensures
        out@ == upper(text@),
        is_plain(text@) ==> out@ == text@.map_values(|c: char| ascii_capital(c)),
{
    let chars = chars_of(text);
    let mut out = String::new();
    let ghost plain = text@.map_values(|c: char| ascii_capital(c));
    assert(out@ =~= upper(text@.take(0)));
    assert(out@ =~= plain.take(0));
    for i in 0..chars.len()
        invariant
            chars@ == text@,
            plain == text@.map_values(|c: char| ascii_capital(c)),
            out@ == upper(text@.take(i as int)),
            is_plain(text@) ==> out@ == plain.take(i as int),
    {
        let ghost before = out@;
        let more = capitals_of(chars[i]);
        for k in 0..more.len()
            invariant
                out@ == before + more@.take(k as int),
        {
            out.push(more[k]);
            assert(before + more@.take(k + 1) =~= (before + more@.take(k as int)).push(
                more@[k as int],
            ));
        }
        proof {
            assert(more@.take(more.len() as int) =~= more@);
            assert(text@.take(i + 1).drop_last() =~= text@.take(i as int));
            assert(text@.take(i + 1).last() == text@[i as int]);
            if is_plain(text@) {
                assert(text@[i as int] <= '\u{7f}');
                assert(before + more@ =~= plain.take(i + 1));
            }
        }
    }
    assert(text@.take(chars.len() as int) =~= text@);
    assert(plain.take(chars.len() as int) =~= plain);
    out
}

/// The upper-case form of two joined texts is their upper-case forms joined.
pub proof fn law_upper_forms_are_joined(a: Seq<char>, b: Seq<char>)
    ensures
        upper(a + b) == upper(a) + upper(b),
    decreases b.len(),
{
    if b.len() == 0 {
        assert(a + b =~= a);
        assert(upper(a) + upper(b) =~= upper(a));
    } else {
        law_upper_forms_are_joined(a, b.drop_last());
        assert((a + b).drop_last() =~= a + b.drop_last());
        assert(upper(a) + upper(b) =~= upper(a + b.drop_last()) + capitals(b.last()));
    }
}

/// Calls `str::to_lowercase`. Its result is named `lower`; on a text of ASCII
/// characters alone it is the text with each capital made a small letter.
#[verifier::external_body]
pub(crate) fn to_lower(text: &str) -> (out: String)
    ensures
        out@ == lower(text@),
        is_plain(text@) ==> out@ == text@.map_values(|c: char| ascii_small(c)),
{
    text.to_lowercase()
}

/// Calls `char::is_alphanumeric`. Its result is named `alphanumeric`; among the
/// ASCII characters it holds of the digits and the letters.
#[verifier::external_body]
pub(crate) fn is_letter_or_number(c: char) -> (yes: bool)
    ensures
        yes == alphanumeric(c),
        c <= '\u{7f}' ==> yes == ('0' <= c <= '9' || 'a' <= c <= 'z' || 'A' <= c <= 'Z'),
{
    c.is_alphanumeric()
}

/// The characters of the strings of a list.
pub open spec fn texts(list: Seq<String>) -> Seq<Seq<char>> {
    list.map_values(|t: String| t@)
}

/// The characters of the strings of a table of rows.
pub open spec fn table(rows: Seq<Vec<String>>) -> Seq<Seq<Seq<char>>> {
    rows.map_values(|row: Vec<String>| texts(row@))
}

/// The characters of an optional string.
pub open spec fn optional(text: Option<String>) -> Option<Seq<char>> {
    match text {
        Some(t) => Some(t@),
        None => None,
    }
}

/// The characters of an optional string slice.
pub open spec fn optional_str(text: Option<&str>) -> Option<Seq<char>> {
    match text {
        Some(t) => Some(t@),
        None => None,
    }
}

/// The characters of `s`, one by one.
pub fn chars_of(s: &str) -> (out: Vec<char>)
    ensures
        out@ == s@,
{
    let mut out: Vec<char> = Vec::new();
    for c in it: s.chars()
        invariant
            out@ == it.seq().take(it.index() as int),
            it.seq() == s@,
    {
        out.push(c);
    }
    out
}

/// The string made of the characters `chars[from..to]`.
pub fn text_of(chars: &Vec<char>, from: usize, to: usize) -> (out: String)
    requires
        from <= to <= chars.len(),
    ensures
        out@ == chars@.subrange(from as int, to as int),
{
    let mut out = String::new();
    for i in from..to
        invariant
            from <= to <= chars.len(),
            out@ == chars@.subrange(from as int, i as int),
    {
        out.push(chars[i]);
    }
    out
}

/// Whether the two texts hold the same characters.
pub fn same_text(a: &str, b: &str) -> (same: bool)
    ensures
        same == (a@ == b@),
{
    let left = chars_of(a);
    let right = chars_of(b);
    if left.len() != right.len() {
        return false;
    }
    for i in 0..left.len()
        invariant
            left@ == a@,
            right@ == b@,
            left.len() == right.len(),
            forall|j: int| 0 <= j < i ==> a@[j] == b@[j],
    {
        if left[i] != right[i] {
            return false;
        }
    }
    assert(a@ =~= b@);
    true
}

/// Whether the text in lower case is the word.
pub fn is_word(text: &str, word: &str) -> (yes: bool)
    ensures
        yes == (lower(text@) == word@),
        is_plain(text@) ==> yes == (text@.map_values(|c: char| ascii_small(c)) == word@),
{
    let small = to_lower(text);
    same_text(small.as_str(), word)
}

/// Whether `a` comes strictly before `b` in the order of character codes, a
/// shorter text before its continuations.
pub open spec fn precedes(a: Seq<char>, b: Seq<char>) -> bool
    decreases a.len(),
{
    if b.len() == 0 {
        false
    } else if a.len() == 0 {
        true
    } else if a[0] != b[0] {
        a[0] < b[0]
    } else {
        precedes(a.drop_first(), b.drop_first())
    }
}

/// Of two texts at most one comes before the other.
pub proof fn lemma_precedes_asymmetric(a: Seq<char>, b: Seq<char>)
    ensures
        !(precedes(a, b) && precedes(b, a)),
    decreases a.len(),
{
    if a.len() > 0 && b.len() > 0 && a[0] == b[0] {
        lemma_precedes_asymmetric(a.drop_first(), b.drop_first());
    }
}

/// A text that comes before another comes before all that this does not follow.
pub proof fn lemma_precedes_chain(a: Seq<char>, b: Seq<char>, c: Seq<char>)
    requires
        precedes(a, b),
        !precedes(c, b),
    ensures
        precedes(a, c),
    decreases a.len(),
{
    if a.len() > 0 && c.len() > 0 && a[0] == b[0] && b[0] == c[0] {
        lemma_precedes_chain(a.drop_first(), b.drop_first(), c.drop_first());
    }
}

/// Decides `precedes`.
pub fn is_before(a: &str, b: &str) -> (before: bool)
    ensures
        before == precedes(a@, b@),
{
    let left = chars_of(a);
    let right = chars_of(b);
    let mut i: usize = 0;
    assert(a@.skip(0) =~= a@);
    assert(b@.skip(0) =~= b@);
    while i < left.len() && i < right.len()
        invariant
            left@ == a@,
            right@ == b@,
            i <= left.len(),
            i <= right.len(),
            precedes(a@, b@) == precedes(a@.skip(i as int), b@.skip(i as int)),
        decreases left.len() - i,
    {
        if left[i] != right[i] {
            return left[i] < right[i];
        }
        assert(a@.skip(i as int).drop_first() =~= a@.skip(i + 1));
        assert(b@.skip(i as int).drop_first() =~= b@.skip(i + 1));
        i = i + 1;
    }
    i < right.len()
}

/// The characters with the Unicode property `White_Space`.
pub open spec fn is_white(c: char) -> bool {
    ||| '\u{9}' <= c <= '\u{d}'
    ||| c == '\u{20}'
    ||| c == '\u{85}'
    ||| c == '\u{a0}'
    ||| c == '\u{1680}'
    ||| '\u{2000}' <= c <= '\u{200a}'
    ||| c == '\u{2028}'
    ||| c == '\u{2029}'
    ||| c == '\u{202f}'
    ||| c == '\u{205f}'
    ||| c == '\u{3000}'
}

/// Decides `is_white`.
pub fn is_white_space(c: char) -> (white: bool)
    ensures
        white == is_white(c),
{
    ('\u{9}' <= c && c <= '\u{d}') || c == '\u{20}' || c == '\u{85}' || c == '\u{a0}' || c
        == '\u{1680}' || ('\u{2000}' <= c && c <= '\u{200a}') || c == '\u{2028}' || c == '\u{2029}'
        || c == '\u{202f}' || c == '\u{205f}' || c == '\u{3000}'
}

/// The text without the white space at its start.
pub open spec fn trimmed_start(s: Seq<char>) -> Seq<char>
    decreases s.len(),
{
    if s.len() > 0 && is_white(s[0]) {
        trimmed_start(s.drop_first())
    } else {
        s
    }
}

/// The text without the white space at its end.
pub open spec fn trimmed_end(s: Seq<char>) -> Seq<char>
    decreases s.len(),
{
    if s.len() > 0 && is_white(s.last()) {
        trimmed_end(s.drop_last())
    } else {
        s
    }
}

/// The text without the white space at its start and at its end.
pub open spec fn trimmed(s: Seq<char>) -> Seq<char> {
    trimmed_end(trimmed_start(s))
}

/// The text without the white space at its two ends.
pub fn trim<'a>(s: &'a str) -> (out: &'a str)
    ensures
        out@ == trimmed(s@),
{
    let chars = chars_of(s);
    let mut from: usize = 0;
    assert(s@.skip(0) =~= s@);
    while from < chars.len() && is_white_space(chars[from])
        invariant
            chars@ == s@,
            from <= chars.len(),
            trimmed_start(s@) == trimmed_start(s@.skip(from as int)),
        decreases chars.len() - from,
    {
        assert(s@.skip(from as int).drop_first() =~= s@.skip(from + 1));
        from = from + 1;
    }
    let mut to: usize = chars.len();
    assert(s@.skip(from as int) =~= s@.subrange(from as int, to as int));
    while to > from && is_white_space(chars[to - 1])
        invariant
            chars@ == s@,
            from <= to <= chars.len(),
            trimmed(s@) == trimmed_end(s@.subrange(from as int, to as int)),
        decreases to,
    {
        assert(s@.subrange(from as int, to as int).drop_last() =~= s@.subrange(
            from as int,
            to - 1,
        ));
        to = to - 1;
    }
    s.substring_char(from, to)
}

/// A trimmed text neither starts nor ends with white space.
pub proof fn lemma_trimmed(s: Seq<char>)
    ensures
        trimmed(s).len() > 0 ==> !is_white(trimmed(s)[0]) && !is_white(trimmed(s).last()),
{
    lemma_trimmed_start(s);
    lemma_trimmed_end(trimmed_start(s));
}

proof fn lemma_trimmed_start(s: Seq<char>)
    ensures
        trimmed_start(s).len() > 0 ==> !is_white(trimmed_start(s)[0]),
    decreases s.len(),
{
    if s.len() > 0 && is_white(s[0]) {
        lemma_trimmed_start(s.drop_first());
    }
}

proof fn lemma_trimmed_end(s: Seq<char>)
    ensures
        trimmed_end(s).len() > 0 ==> !is_white(trimmed_end(s).last()) && s.len() > 0
            && trimmed_end(s)[0] == s[0],
    decreases s.len(),
{
    if s.len() > 0 && is_white(s.last()) {
        lemma_trimmed_end(s.drop_last());
    }
}

/// Trimming a trimmed text changes nothing.
pub proof fn law_trim_is_idempotent(s: Seq<char>)
    ensures
        trimmed(trimmed(s)) == trimmed(s),
{
    lemma_trimmed(s);
}

/// `part` stands in `s` from position `at` on.
pub open spec fn stands_at(s: Seq<char>, part: Seq<char>, at: int) -> bool {
    0 <= at && at + part.len() <= s.len() && s.subrange(at, at + part.len()) == part
}

/// `part` stands somewhere in `s`.
pub open spec fn holds_text(s: Seq<char>, part: Seq<char>) -> bool {
    exists|at: int| #[trigger] stands_at(s, part, at)
}

/// Whether `part` stands in `s` from position `at` on.
fn matches_at(s: &Vec<char>, part: &Vec<char>, at: usize) -> (yes: bool)
    requires
        at <= s.len(),
    ensures
        yes == stands_at(s@, part@, at as int),
{
    if part.len() > s.len() - at {
        return false;
    }
    for i in 0..part.len()
        invariant
            at + part.len() <= s.len(),
            forall|j: int| 0 <= j < i ==> s@[at + j] == part@[j],
    {
        if s[at + i] != part[i] {
            assert(s@.subrange(at as int, at + part.len())[i as int] == s@[at + i]);
            return false;
        }
    }
    assert(s@.subrange(at as int, at + part.len()) =~= part@);
    true
}

/// Whether `part` stands somewhere in `s`.
pub fn contains(s: &str, part: &str) -> (yes: bool)
    ensures
        yes == holds_text(s@, part@),
{
    let chars = chars_of(s);
    let wanted = chars_of(part);
    let mut at: usize = 0;
    loop
        invariant
            chars@ == s@,
            wanted@ == part@,
            at <= chars.len(),
            forall|k: int| 0 <= k < at ==> !#[trigger] stands_at(s@, part@, k),
        decreases chars.len() - at,
    {
        if matches_at(&chars, &wanted, at) {
            return true;
        }
        if at == chars.len() {
            assert forall|k: int| !#[trigger] stands_at(s@, part@, k) by {
                if k >= at {
                    assert(k == at || k + part@.len() > s@.len());
                }
            }
            return false;
        }
        at = at + 1;
    }
}

/// Whether `s` begins with `part`.
pub fn starts_with(s: &str, part: &str) -> (yes: bool)
    ensures
        yes == stands_at(s@, part@, 0),
{
    let chars = chars_of(s);
    let wanted = chars_of(part);
    matches_at(&chars, &wanted, 0)
}

/// The first position of `c` in `s`.
pub open spec fn position(s: Seq<char>, c: char) -> Option<int>
    decreases s.len(),
{
    if s.len() == 0 {
        None
    } else if s[0] == c {
        Some(0)
    } else {
        match position(s.drop_first(), c) {
            Some(i) => Some(i + 1),
            None => None,
        }
    }
}

/// `position` is the least index at which `c` stands.
pub proof fn lemma_position(s: Seq<char>, c: char)
    ensures
        match position(s, c) {
            Some(p) => 0 <= p < s.len() && s[p] == c && forall|j: int|
                0 <= j < p ==> #[trigger] s[j] != c,
            None => forall|j: int| 0 <= j < s.len() ==> #[trigger] s[j] != c,
        },
    decreases s.len(),
{
    if s.len() > 0 && s[0] != c {
        let rest = s.drop_first();
        lemma_position(rest, c);
        assert forall|j: int| 0 < j < s.len() implies #[trigger] s[j] == rest[j - 1] by {}
        match position(rest, c) {
            Some(p) => {
                assert forall|j: int| 0 <= j < p + 1 implies #[trigger] s[j] != c by {
                    if j > 0 {
                        assert(rest[j - 1] == s[j]);
                    }
                }
            },
            None => {
                assert forall|j: int| 0 <= j < s.len() implies #[trigger] s[j] != c by {
                    if j > 0 {
                        assert(rest[j - 1] == s[j]);
                    }
                }
            },
        }
    }
}

/// A least index at which `c` stands is `position`.
pub proof fn lemma_position_is(s: Seq<char>, c: char, p: int)
    requires
        0 <= p < s.len(),
        s[p] == c,
        forall|j: int| 0 <= j < p ==> #[trigger] s[j] != c,
    ensures
        position(s, c) == Some(p),
{
    lemma_position(s, c);
}

/// The first position of `c` in `s`, counted in characters.
pub fn find_char(s: &str, c: char) -> (at: Option<usize>)
    ensures
        match at {
            Some(p) => position(s@, c) == Some(p as int) && p < s@.len(),
            None => position(s@, c) is None,
        },
{
    let chars = chars_of(s);
    for i in 0..chars.len()
        invariant
            chars@ == s@,
            forall|j: int| 0 <= j < i ==> #[trigger] s@[j] != c,
    {
        if chars[i] == c {
            proof {
                lemma_position_is(s@, c, i as int);
            }
            return Some(i);
        }
    }
    proof {
        lemma_position(s@, c);
    }
    None
}

/// The pieces of `s` between the occurrences of `c`, in order.
pub open spec fn split_on(s: Seq<char>, c: char) -> Seq<Seq<char>>
    decreases s.len(),
    via split_on_decreases
{
    match position(s, c) {
        Some(p) => seq![s.take(p)] + split_on(s.skip(p + 1), c),
        None => seq![s],
    }
}

#[via_fn]
proof fn split_on_decreases(s: Seq<char>, c: char) {
    lemma_position(s, c);
}

/// The pieces of `s` between the occurrences of `c`.
pub fn split(s: &str, c: char) -> (parts: Vec<String>)
    ensures
        texts(parts@) == split_on(s@, c),
{
    let chars = chars_of(s);
    let mut parts: Vec<String> = Vec::new();
    let mut from: usize = 0;
    let mut i: usize = 0;
    assert(s@.skip(0) =~= s@);
    assert(texts(parts@) + split_on(s@, c) =~= split_on(s@, c));
    while i < chars.len()
        invariant
            chars@ == s@,
            from <= i <= chars.len(),
            forall|j: int| from <= j < i ==> #[trigger] s@[j] != c,
            split_on(s@, c) == texts(parts@) + split_on(s@.skip(from as int), c),
        decreases chars.len() - i,
    {
        if chars[i] == c {
            let part = text_of(&chars, from, i);
            let ghost before = parts@;
            parts.push(part);
            proof {
                let rest = s@.skip(from as int);
                lemma_position_is(rest, c, i - from);
                assert(rest.take(i - from) =~= part@);
                assert(rest.skip(i - from + 1) =~= s@.skip(i + 1));
                assert(texts(parts@) =~= texts(before).push(part@));
                assert(texts(parts@) + split_on(s@.skip(i + 1), c) =~= texts(before) + (seq![part@]
                    + split_on(s@.skip(i + 1), c)));
            }
            from = i + 1;
        }
        i = i + 1;
    }
    let part = text_of(&chars, from, chars.len());
    let ghost before = parts@;
    parts.push(part);
    proof {
        let rest = s@.skip(from as int);
        lemma_position(rest, c);
        assert(position(rest, c) is None) by {
            if let Some(p) = position(rest, c) {
                assert(rest[p] == s@[from + p]);
            }
        }
        assert(rest =~= part@);
        assert(texts(parts@) =~= texts(before) + seq![part@]);
    }
    parts
}

/// The part of `s` behind the last `c`; all of `s` where there is none.
pub open spec fn after_last(s: Seq<char>, c: char) -> Seq<char> {
    split_on(s, c).last()
}

/// `split_on` gives at least one piece.
pub proof fn lemma_split_nonempty(s: Seq<char>, c: char)
    ensures
        split_on(s, c).len() > 0,
{
}

/// The part of `s` behind the last `c`.
pub fn last_part(s: &str, c: char) -> (part: String)
    ensures
        part@ == after_last(s@, c),
{
    let parts = split(s, c);
    proof {
        lemma_split_nonempty(s@, c);
    }
    let last = parts.len() - 1;
    parts[last].clone()
}

/// The text with every `c` taken out.
pub open spec fn without(s: Seq<char>, c: char) -> Seq<char> {
    s.filter(|x: char| x != c)
}

/// The text with every `c` taken out.
pub fn remove_char(s: &str, c: char) -> (out: String)
    ensures
        out@ == without(s@, c),
{
    let chars = chars_of(s);
    let mut out = String::new();
    for i in 0..chars.len()
        invariant
            chars@ == s@,
            out@ == without(s@.take(i as int), c),
    {
        proof {
            reveal(Seq::filter);
            assert(s@.take(i + 1).drop_last() =~= s@.take(i as int));
        }
        if chars[i] != c {
            out.push(chars[i]);
        }
    }
    assert(s@.take(chars.len() as int) =~= s@);
    out
}

/// The text with every leading `c` taken off.
pub open spec fn without_leading(s: Seq<char>, c: char) -> Seq<char>
    decreases s.len(),
{
    if s.len() > 0 && s[0] == c {
        without_leading(s.drop_first(), c)
    } else {
        s
    }
}

/// The text with every leading `c` taken off.
pub fn strip_leading<'a>(s: &'a str, c: char) -> (out: &'a str)
    ensures
        out@ == without_leading(s@, c),
{
    let chars = chars_of(s);
    let mut from: usize = 0;
    assert(s@.skip(0) =~= s@);
    while from < chars.len() && chars[from] == c
        invariant
            chars@ == s@,
            from <= chars.len(),
            without_leading(s@, c) == without_leading(s@.skip(from as int), c),
        decreases chars.len() - from,
    {
        assert(s@.skip(from as int).drop_first() =~= s@.skip(from + 1));
        from = from + 1;
    }
    assert(s@.skip(from as int) =~= s@.subrange(from as int, s@.len() as int));
    s.substring_char(from, chars.len())
}

/// The two texts are equal when ASCII capitals count as small letters.
pub open spec fn same_ignoring_case(a: Seq<char>, b: Seq<char>) -> bool {
    &&& a.len() == b.len()
    &&& forall|i: int| 0 <= i < a.len() ==> ascii_small(#[trigger] a[i]) == ascii_small(b[i])
}

/// The ASCII small letter of an ASCII capital; any other character itself.
fn small_letter(c: char) -> (out: char)
    ensures
        out == ascii_small(c),
{
    if 'A' <= c && c <= 'Z' {
        ((c as u8) + 32) as char
    } else {
        c
    }
}

/// Whether the two texts are equal when ASCII capitals count as small letters.
pub fn eq_ignoring_case(a: &str, b: &str) -> (same: bool)
    ensures
        same == same_ignoring_case(a@, b@),
{
    let left = chars_of(a);
    let right = chars_of(b);
    if left.len() != right.len() {
        return false;
    }
    for i in 0..left.len()
        invariant
            left@ == a@,
            right@ == b@,
            left.len() == right.len(),
            forall|j: int| 0 <= j < i ==> ascii_small(#[trigger] a@[j]) == ascii_small(b@[j]),
    {
        if small_letter(left[i]) != small_letter(right[i]) {
            assert(ascii_small(a@[i as int]) != ascii_small(b@[i as int]));
            return false;
        }
    }
    true
}

/// `n` times the character `c`.
pub open spec fn repeated(c: char, n: nat) -> Seq<char> {
    Seq::new(n, |i: int| c)
}

/// `n` times the character `c`.
pub fn repeat_char(c: char, n: usize) -> (out: String)
    ensures
        out@ == repeated(c, n as nat),
{
    let mut out = String::new();
    for i in 0..n
        invariant
            out@ == repeated(c, i as nat),
    {
        out.push(c);
        assert(out@ =~= repeated(c, (i + 1) as nat));
    }
    out
}

/// The text filled up with spaces on its right to at least `width` characters.
pub open spec fn padded(s: Seq<char>, width: nat) -> Seq<char> {
    if s.len() < width {
        s + repeated(' ', (width - s.len()) as nat)
    } else {
        s
    }
}

/// The text filled up with spaces on its right to at least `width` characters.
pub fn pad_right(s: &str, width: usize) -> (out: String)
    ensures
        out@ == padded(s@, width as nat),
{
    let length = s.unicode_len();
    let mut out = s.to_owned();
    if length < width {
        let fill = repeat_char(' ', width - length);
        out.append(fill.as_str());
    }
    out
}

/// The texts of the list with `separator` between each two of them.
pub open spec fn joined(list: Seq<Seq<char>>, separator: Seq<char>) -> Seq<char>
    decreases list.len(),
{
    if list.len() == 0 {
        seq![]
    } else if list.len() == 1 {
        list[0]
    } else {
        joined(list.drop_last(), separator) + separator + list.last()
    }
}

/// The texts of the list with `separator` between each two of them.
pub fn join(list: &Vec<String>, separator: &str) -> (out: String)
    ensures
        out@ == joined(texts(list@), separator@),
{
    let mut out = String::new();
    for i in 0..list.len()
        invariant
            out@ == joined(texts(list@).take(i as int), separator@),
    {
        if i > 0 {
            out.append(separator);
        }
        out.append(list[i].as_str());
        proof {
            let upto = texts(list@).take(i + 1);
            assert(upto.drop_last() =~= texts(list@).take(i as int));
            assert(upto.last() == list@[i as int]@);
            if i == 0 {
                assert(out@ =~= upto[0]);
            }
        }
    }
    assert(texts(list@).take(list.len() as int) =~= texts(list@));
    out
}

/// The lines of a text: the pieces that a line feed ends, without it and
/// without a carriage return right before it; a last piece without a line feed
/// counts where it is not empty.
pub open spec fn lines_of(s: Seq<char>) -> Seq<Seq<char>>
    decreases s.len(),
    via lines_of_decreases
{
    match position(s, '\n') {
        Some(p) => seq![without_return(s.take(p))] + lines_of(s.skip(p + 1)),
        None => if s.len() == 0 {
            seq![]
        } else {
            seq![s]
        },
    }
}

#[via_fn]
proof fn lines_of_decreases(s: Seq<char>) {
    lemma_position(s, '\n');
}

/// The text without the carriage return that ends it.
pub open spec fn without_return(s: Seq<char>) -> Seq<char> {
    if s.len() > 0 && s.last() == '\r' {
        s.drop_last()
    } else {
        s
    }
}

/// The lines of a text.
pub fn lines(s: &str) -> (out: Vec<String>)
    ensures
        texts(out@) == lines_of(s@),
{
    let chars = chars_of(s);
    let mut out: Vec<String> = Vec::new();
    let mut from: usize = 0;
    let mut i: usize = 0;
    assert(s@.skip(0) =~= s@);
    assert(texts(out@) + lines_of(s@) =~= lines_of(s@));
    while i < chars.len()
        invariant
            chars@ == s@,
            from <= i <= chars.len(),
            forall|j: int| from <= j < i ==> #[trigger] s@[j] != '\n',
            lines_of(s@) == texts(out@) + lines_of(s@.skip(from as int)),
        decreases chars.len() - i,
    {
        if chars[i] == '\n' {
            let end: usize = if i > from && chars[i - 1] == '\r' {
                i - 1
            } else {
                i
            };
            let line = text_of(&chars, from, end);
            let ghost before = out@;
            out.push(line);
            proof {
                let rest = s@.skip(from as int);
                lemma_position_is(rest, '\n', i - from);
                assert(without_return(rest.take(i - from)) =~= line@);
                assert(rest.skip(i - from + 1) =~= s@.skip(i + 1));
                assert(texts(out@) =~= texts(before).push(line@));
                assert(texts(out@) + lines_of(s@.skip(i + 1)) =~= texts(before) + (seq![line@]
                    + lines_of(s@.skip(i + 1))));
            }
            from = i + 1;
        }
        i = i + 1;
    }
    proof {
        let rest = s@.skip(from as int);
        lemma_position(rest, '\n');
        assert(position(rest, '\n') is None) by {
            if let Some(p) = position(rest, '\n') {
                assert(rest[p] == s@[from + p]);
            }
        }
    }
    if from < chars.len() {
        let line = text_of(&chars, from, chars.len());
        let ghost before = out@;
        out.push(line);
        assert(s@.skip(from as int) =~= line@);
        assert(texts(out@) =~= texts(before) + seq![line@]);
    } else {
        assert(s@.skip(from as int) =~= seq![]);
        assert(texts(out@) + lines_of(s@.skip(from as int)) =~= texts(out@));
    }
    out
}

/// The length of the UTF-8 form of a character.
pub open spec fn utf8_width(c: char) -> nat {
    if c <= '\u{7f}' {
        1
    } else if c <= '\u{7ff}' {
        2
    } else if c <= '\u{ffff}' {
        3
    } else {
        4
    }
}

/// The length of the UTF-8 form of a text.
pub open spec fn utf8_length(s: Seq<char>) -> nat
    decreases s.len(),
{
    if s.len() == 0 {
        0
    } else {
        utf8_length(s.drop_last()) + utf8_width(s.last())
    }
}

/// Whether the UTF-8 form of the first `count` characters of `s` is `length` bytes long.
pub fn prefix_takes(s: &str, count: usize, length: u64) -> (yes: bool)
    requires
        count <= s@.len(),
        length < 0xffff_ffff,
    ensures
        yes == (utf8_length(s@.take(count as int)) == length),
{
    let chars = chars_of(s);
    let mut total: u64 = 0;
    for i in 0..count
        invariant
            chars@ == s@,
            count <= s@.len(),
            length < 0xffff_ffff,
            total <= length,
            total == utf8_length(s@.take(i as int)),
    {
        let c = chars[i];
        let width: u64 = if c <= '\u{7f}' {
            1
        } else if c <= '\u{7ff}' {
            2
        } else if c <= '\u{ffff}' {
            3
        } else {
            4
        };
        proof {
            assert(s@.take(i + 1).drop_last() =~= s@.take(i as int));
            lemma_utf8_length_grows(s@, i + 1, count as int);
        }
        total = total + width;
        if total > length {
            return false;
        }
    }
    total == length
}

proof fn lemma_utf8_length_grows(s: Seq<char>, i: int, j: int)
    requires
        0 <= i <= j <= s.len(),
    ensures
        utf8_length(s.take(i)) <= utf8_length(s.take(j)),
    decreases j - i,
{
    if i < j {
        assert(s.take(j).drop_last() =~= s.take(j - 1));
        lemma_utf8_length_grows(s, i, j - 1);
    }
}

/// Every character of the text is white space.
pub open spec fn all_white(s: Seq<char>) -> bool {
    forall|i: int| 0 <= i < s.len() ==> is_white(#[trigger] s[i])
}

/// White space is what Unicode counts as such.
pub proof fn law_white_space(c: char)
    ensures
        is_white(c) <==> (0x9 <= c as int <= 0xd || 0x2000 <= c as int <= 0x200a || seq![
            0x20int,
            0x85,
            0xa0,
            0x1680,
            0x2028,
            0x2029,
            0x202f,
            0x205f,
            0x3000,
        ].contains(c as int)),
{
    let single = seq![0x20int, 0x85, 0xa0, 0x1680, 0x2028, 0x2029, 0x202f, 0x205f, 0x3000];
    assert(single[0] == 0x20 && single[1] == 0x85 && single[2] == 0xa0 && single[3] == 0x1680);
    assert(single[4] == 0x2028 && single[5] == 0x2029 && single[6] == 0x202f);
    assert(single[7] == 0x205f && single[8] == 0x3000);
}

proof fn lemma_trimmed_start_of(head: Seq<char>, rest: Seq<char>)
    requires
        all_white(head),
        rest.len() > 0 ==> !is_white(rest[0]),
    ensures
        trimmed_start(head + rest) == rest,
    decreases head.len(),
{
    if head.len() == 0 {
        assert(head + rest =~= rest);
    } else {
        assert(is_white(head[0]));
        assert((head + rest).drop_first() =~= head.drop_first() + rest);
        assert forall|i: int| 0 <= i < head.drop_first().len() implies is_white(
            #[trigger] head.drop_first()[i],
        ) by {
            assert(is_white(head[i + 1]));
        }
        lemma_trimmed_start_of(head.drop_first(), rest);
    }
}

proof fn lemma_trimmed_end_of(rest: Seq<char>, tail: Seq<char>)
    requires
        all_white(tail),
        rest.len() > 0 ==> !is_white(rest.last()),
    ensures
        trimmed_end(rest + tail) == rest,
    decreases tail.len(),
{
    if tail.len() == 0 {
        assert(rest + tail =~= rest);
    } else {
        assert(is_white(tail[tail.len() - 1]));
        assert((rest + tail).drop_last() =~= rest + tail.drop_last());
        assert forall|i: int| 0 <= i < tail.drop_last().len() implies is_white(
            #[trigger] tail.drop_last()[i],
        ) by {
            assert(is_white(tail[i]));
        }
        lemma_trimmed_end_of(rest, tail.drop_last());
    }
}

/// Trimming takes off the white space at both ends of a text, and nothing else.
pub proof fn law_trim_takes_off_white_space(head: Seq<char>, rest: Seq<char>, tail: Seq<char>)
    requires
        all_white(head),
        all_white(tail),
        rest.len() > 0 ==> !is_white(rest[0]) && !is_white(rest.last()),
    ensures
        trimmed(head + rest + tail) == rest,
{
    if rest.len() == 0 {
        let all = head + tail;
        assert(head + rest + tail =~= all + rest);
        assert forall|i: int| 0 <= i < all.len() implies is_white(#[trigger] all[i]) by {
            if i < head.len() {
                assert(is_white(head[i]));
            } else {
                assert(is_white(tail[i - head.len()]));
            }
        }
        lemma_trimmed_start_of(all, rest);
    } else {
        assert(head + rest + tail =~= head + (rest + tail));
        lemma_trimmed_start_of(head, rest + tail);
        lemma_trimmed_end_of(rest, tail);
    }
}

/// The pieces of a text hold no separator, and joined by it they are the text.
pub proof fn law_pieces_make_up_the_text(s: Seq<char>, c: char)
    ensures
        split_on(s, c).len() > 0,
        joined(split_on(s, c), seq![c]) == s,
        forall|i: int, j: int|
            0 <= i < split_on(s, c).len() && 0 <= j < split_on(s, c)[i].len()
                ==> #[trigger] split_on(s, c)[i][j] != c,
    decreases s.len(),
{
    lemma_position(s, c);
    if let Some(p) = position(s, c) {
        let rest = split_on(s.skip(p + 1), c);
        law_pieces_make_up_the_text(s.skip(p + 1), c);
        assert(split_on(s, c) =~= seq![s.take(p)] + rest);
        lemma_joined_with_first(s.take(p), rest, seq![c]);
        assert(s.take(p) + seq![c] + s.skip(p + 1) =~= s);
        assert forall|i: int, j: int|
            0 <= i < split_on(s, c).len() && 0 <= j < split_on(s, c)[i].len() implies
            #[trigger] split_on(s, c)[i][j] != c by {
            if i == 0 {
                assert(split_on(s, c)[i][j] == s[j]);
            } else {
                assert(split_on(s, c)[i][j] == rest[i - 1][j]);
            }
        }
    }
}

proof fn lemma_joined_with_first(first: Seq<char>, rest: Seq<Seq<char>>, separator: Seq<char>)
    requires
        rest.len() > 0,
    ensures
        joined(seq![first] + rest, separator) == first + separator + joined(rest, separator),
    decreases rest.len(),
{
    let all = seq![first] + rest;
    assert(all.drop_last() =~= seq![first] + rest.drop_last());
    assert(all.last() == rest.last());
    if rest.len() > 1 {
        lemma_joined_with_first(first, rest.drop_last(), separator);
        assert(joined(all, separator) =~= first + separator + joined(rest, separator));
    } else {
        assert(all.drop_last() =~= seq![first]);
        assert(joined(seq![first], separator) == first);
        assert(joined(all, separator) =~= first + separator + joined(rest, separator));
    }
}

/// What is behind the last separator is all that holds none.
pub proof fn law_last_part_is_behind_the_separator(head: Seq<char>, tail: Seq<char>, c: char)
    requires
        forall|i: int| 0 <= i < tail.len() ==> #[trigger] tail[i] != c,
    ensures
        after_last(head.push(c) + tail, c) == tail,
        after_last(tail, c) == tail,
    decreases head.len(),
{
    let s = head.push(c) + tail;
    lemma_position(tail, c);
    lemma_position(head, c);
    assert(position(tail, c) is None);
    assert(split_on(tail, c) =~= seq![tail]);
    match position(head, c) {
        Some(p) => {
            assert(s[p] == c);
            assert forall|j: int| 0 <= j < p implies #[trigger] s[j] != c by {
                assert(s[j] == head[j]);
            }
            lemma_position_is(s, c, p);
            assert(s.skip(p + 1) =~= head.skip(p + 1).push(c) + tail);
            law_last_part_is_behind_the_separator(head.skip(p + 1), tail, c);
            assert(split_on(s, c) =~= seq![s.take(p)] + split_on(s.skip(p + 1), c));
            law_pieces_make_up_the_text(s.skip(p + 1), c);
            assert(split_on(s, c).last() == split_on(s.skip(p + 1), c).last());
        },
        None => {
            let p = head.len() as int;
            assert forall|j: int| 0 <= j < p implies #[trigger] s[j] != c by {
                assert(s[j] == head[j]);
            }
            lemma_position_is(s, c, p);
            assert(s.skip(p + 1) =~= tail);
            assert(split_on(s, c) =~= seq![s.take(p)] + seq![tail]);
        },
    }
}

/// Taking a character out leaves all others, in their order.
pub proof fn law_only_the_character_is_taken_out(a: Seq<char>, b: Seq<char>, x: char, c: char)
    ensures
        without(a + b, c) == without(a, c) + without(b, c),
        without(seq![x], c) == if x == c {
            Seq::<char>::empty()
        } else {
            seq![x]
        },
{
    reveal(Seq::filter);
    Seq::filter_distributes_over_add(a, b, |x: char| x != c);
    assert(seq![x].drop_last() =~= Seq::<char>::empty());
    assert(seq![x].last() == x);
    assert(without(Seq::<char>::empty(), c) =~= Seq::<char>::empty());
    assert(without(seq![x], c) =~= if x == c {
        without(seq![x].drop_last(), c)
    } else {
        without(seq![x].drop_last(), c).push(x)
    });
    assert(Seq::<char>::empty().push(x) =~= seq![x]);
}

/// Leading marks do not count, and what is behind them stays.
pub proof fn law_leading_marks_are_taken_off(n: nat, rest: Seq<char>, c: char)
    requires
        rest.len() > 0 ==> rest[0] != c,
    ensures
        without_leading(repeated(c, n) + rest, c) == rest,
    decreases n,
{
    let s = repeated(c, n) + rest;
    if n == 0 {
        assert(s =~= rest);
    } else {
        law_leading_marks_are_taken_off((n - 1) as nat, rest, c);
        assert(s.drop_first() =~= repeated(c, (n - 1) as nat) + rest);
    }
}

/// The letters of the alphabet have their capitals and small letters; no other
/// character changes.
pub proof fn law_case_of_letters(c: char, i: int)
    requires
        0 <= i < 26,
    ensures
        ascii_capital((97 + i) as char) as int == 65 + i,
        ascii_small((65 + i) as char) as int == 97 + i,
        !(97 <= c as int <= 122) ==> ascii_capital(c) == c,
        !(65 <= c as int <= 90) ==> ascii_small(c) == c,
{
}

/// Texts are the same but for case exactly where their small forms are equal.
pub proof fn law_case_is_ignored(a: Seq<char>, b: Seq<char>)
    ensures
        same_ignoring_case(a, b) <==> a.map_values(|c: char| ascii_small(c)) == b.map_values(
            |c: char| ascii_small(c),
        ),
{
    let left = a.map_values(|c: char| ascii_small(c));
    let right = b.map_values(|c: char| ascii_small(c));
    if same_ignoring_case(a, b) {
        assert(left =~= right);
    }
    if left == right {
        assert(left.len() == a.len() && right.len() == b.len());
        assert forall|i: int| 0 <= i < a.len() implies ascii_small(#[trigger] a[i]) == ascii_small(
            b[i],
        ) by {
            assert(left[i] == ascii_small(a[i]));
            assert(right[i] == ascii_small(b[i]));
        }
    }
}

/// A text stands in another exactly where the other is made of it and what is
/// around it.
pub proof fn law_held_text(s: Seq<char>, part: Seq<char>)
    ensures
        holds_text(s, part) <==> exists|a: Seq<char>, b: Seq<char>| s == #[trigger] (a + part + b),
{
    if holds_text(s, part) {
        let at = choose|at: int| #[trigger] stands_at(s, part, at);
        let a = s.take(at);
        let b = s.skip(at + part.len());
        assert(s =~= a + part + b);
    }
    if exists|a: Seq<char>, b: Seq<char>| s == #[trigger] (a + part + b) {
        let (a, b) = choose|a: Seq<char>, b: Seq<char>| s == #[trigger] (a + part + b);
        let at = a.len() as int;
        assert(s.subrange(at, at + part.len()) =~= part);
        assert(stands_at(s, part, a.len() as int));
    }
}

/// A padded text keeps its characters and gets spaces alone, and no more than
/// its width asks for.
pub proof fn law_padding(s: Seq<char>, width: nat)
    ensures
        padded(s, width).len() == if s.len() < width {
            width
        } else {
            s.len()
        },
        forall|i: int|
            0 <= i < padded(s, width).len() ==> #[trigger] padded(s, width)[i] == if i < s.len() {
                s[i]
            } else {
                ' '
            },
{
}

/// The upper-case form of a character is its own.
pub proof fn law_upper_form_of_a_character(c: char)
    ensures
        upper(seq![c]) == capitals(c),
        upper(Seq::<char>::empty()) == Seq::<char>::empty(),
{
    assert(seq![c].drop_last() =~= Seq::<char>::empty());
    assert(upper(Seq::<char>::empty()) =~= Seq::<char>::empty());
    assert(Seq::<char>::empty() + capitals(c) =~= capitals(c));
}

/// A text comes before another exactly where it is a proper beginning of it, or
/// has a smaller character at the first place where the two differ.
pub proof fn law_order_of_texts(common: Seq<char>, x: char, a: Seq<char>, y: char, b: Seq<char>)
    ensures
        x < y ==> precedes(common + seq![x] + a, common + seq![y] + b),
        precedes(common, common + seq![y] + b),
        !precedes(common, common),
    decreases common.len(),
{
    let left = common + seq![x] + a;
    let right = common + seq![y] + b;
    if common.len() == 0 {
        assert(left[0] == x && right[0] == y);
    } else {
        let rest = common.drop_first();
        law_order_of_texts(rest, x, a, y, b);
        assert(left.drop_first() =~= rest + seq![x] + a);
        assert(right.drop_first() =~= rest + seq![y] + b);
        assert(left[0] == common[0] && right[0] == common[0]);
    }
}

proof fn lemma_utf8_length_from_the_front(s: Seq<char>)
    requires
        s.len() > 0,
    ensures
        utf8_length(s) == utf8_width(s[0]) + utf8_length(s.drop_first()),
    decreases s.len(),
{
    if s.len() == 1 {
        assert(s.drop_last() =~= s.drop_first());
    } else {
        lemma_utf8_length_from_the_front(s.drop_last());
        assert(s.drop_last().drop_first() =~= s.drop_first().drop_last());
    }
}

proof fn lemma_utf8_width(c: char)
    ensures
        vstd::utf8::encode_scalar(c as u32).len() == utf8_width(c),
{
}

/// The length of the UTF-8 form of a text is the number of its bytes.
pub proof fn law_utf8_length(s: Seq<char>)
    ensures
        utf8_length(s) == vstd::utf8::encode_utf8(s).len(),
    decreases s.len(),
{
    if s.len() > 0 {
        lemma_utf8_length_from_the_front(s);
        law_utf8_length(s.drop_first());
        lemma_utf8_width(s[0]);
    }
}

/// A line ends at its line feed, with the carriage return before it; the last line
/// needs none.
pub proof fn law_lines(line: Seq<char>, rest: Seq<char>)
    requires
        forall|i: int| 0 <= i < line.len() ==> #[trigger] line[i] != '\n',
    ensures
        lines_of(line.push('\n') + rest) == seq![
            if line.len() > 0 && line.last() == '\r' {
                line.drop_last()
            } else {
                line
            },
        ] + lines_of(rest),
        line.len() > 0 ==> lines_of(line) == seq![line],
        lines_of(Seq::empty()) == Seq::<Seq<char>>::empty(),
{
    let s = line.push('\n') + rest;
    let p = line.len() as int;
    assert forall|j: int| 0 <= j < p implies #[trigger] s[j] != '\n' by {
        assert(s[j] == line[j]);
    }
    lemma_position_is(s, '\n', p);
    lemma_position(line, '\n');
    assert(s.take(p) =~= line);
    assert(s.skip(p + 1) =~= rest);
    assert(lines_of(Seq::<char>::empty()) =~= Seq::<Seq<char>>::empty());
}

/// A repeated character is as often there as asked for, and alone.
pub proof fn law_repetition(c: char, n: nat)
    ensures
        repeated(c, n).len() == n,
        forall|i: int| 0 <= i < n ==> #[trigger] repeated(c, n)[i] == c,
{
}

} // verus!
