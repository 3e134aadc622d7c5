//! Text as characters: trimming, splitting into words and lines,
//! searching, and writing numbers. What Unicode says of a character is
//! asked of std; everything else is done here.

use vstd::prelude::*;
use vstd::string::*;

verus! {

/// Whether `c` is white space as Unicode defines it (the property
/// `White_Space`).
pub uninterp spec fn is_whitespace(c: char) -> bool;

/// `char::is_whitespace` of std: whether the character has the Unicode
/// property `White_Space`. The property is a table of the standard; it is
/// named here, not spelled out.
#[verifier::external_body]
pub(crate) fn char_is_whitespace(c: char) -> (yes: bool)
    ensures
        yes == is_whitespace(c),
{
    c.is_whitespace()
}

/// Whether `c` is a letter or a digit as Unicode defines them (the
/// properties `Alphabetic` and the general categories `Nd`, `Nl`, `No`).
pub uninterp spec fn is_alphanumeric(c: char) -> bool;

/// `char::is_alphanumeric` of std: whether the character is alphabetic or
/// numeric by the Unicode tables. The tables are named here, not spelled
/// out.
#[verifier::external_body]
pub(crate) fn char_is_alphanumeric(c: char) -> (yes: bool)
    ensures
        yes == is_alphanumeric(c),
{
    c.is_alphanumeric()
}

/// `text` in lower case, as the Unicode tables that std follows map it.
pub uninterp spec fn lowercase_of(text: Seq<char>) -> Seq<char>;

/// `str::to_lowercase` of std: the text in lower case by the Unicode
/// tables. The tables are named here, not spelled out.
#[verifier::external_body]
pub(crate) fn to_lowercase(text: &str) -> (lower: String)
    ensures
        lower@ == lowercase_of(text@),
{
    text.to_lowercase()
}

/// `String::push` of std: appends one character to the text.
#[verifier::external_body]
pub(crate) fn push_char(text: &mut String, c: char)
    ensures
        final(text)@ == old(text)@.push(c),
{
    text.push(c);
}

/// The characters of `text`.
pub fn chars_of(text: &str) -> (chars: Vec<char>)
    ensures
        chars@ == text@,
{
    let mut chars: Vec<char> = Vec::new();
    for c in it: text.chars()
        invariant
            chars@.len() == it.index(),
            forall|j: int| 0 <= j < chars@.len() ==> chars@[j] == it.seq()[j],
    {
        chars.push(c);
    }
    assert(chars@ =~= text@);
    chars
}

/// The characters of `chars` from `from` up to `to`, as a text.
pub(crate) fn string_of(chars: &Vec<char>, from: usize, to: usize) -> (text: String)
    requires
        from <= to <= chars@.len(),
    ensures
        text@ == chars@.subrange(from as int, to as int),
{
    let mut text: String = String::new();
    let mut i: usize = from;
    while i < to
        invariant
            from <= i <= to <= chars@.len(),
            text@ == chars@.subrange(from as int, i as int),
        decreases to - i,
    {
        push_char(&mut text, chars[i]);
        assert(chars@.subrange(from as int, i + 1) =~= chars@.subrange(from as int, i as int).push(
            chars@[i as int],
        ));
        i = i + 1;
    }
    text
}

/// A copy of the characters of `chars` from `from` up to `to`.
pub(crate) fn slice_of(chars: &Vec<char>, from: usize, to: usize) -> (part: Vec<char>)
    requires
        from <= to <= chars@.len(),
    ensures
        part@ == chars@.subrange(from as int, to as int),
{
    let mut part: Vec<char> = Vec::new();
    let mut i: usize = from;
    while i < to
        invariant
            from <= i <= to <= chars@.len(),
            part@ == chars@.subrange(from as int, i as int),
        decreases to - i,
    {
        part.push(chars[i]);
        assert(chars@.subrange(from as int, i + 1) =~= chars@.subrange(from as int, i as int).push(
            chars@[i as int],
        ));
        i = i + 1;
    }
    part
}

/// Whether two texts are the same.
pub fn same_text(a: &str, b: &str) -> (same: bool)
    ensures
        same == (a@ == b@),
{
    let left = chars_of(a);
    let right = chars_of(b);
    assert(left@.subrange(0, left@.len() as int) =~= left@);
    range_equals(&left, 0, left.len(), &right)
}

/// The first index from `from` on at which `text` has white space
/// (`white`) or anything else (`!white`); the length of `text` where there
/// is none.
pub open spec fn index_of_kind(text: Seq<char>, from: int, white: bool) -> int
    decreases text.len() - from,
{
    if from < 0 || from >= text.len() {
        text.len() as int
    } else if is_whitespace(text[from]) == white {
        from
    } else {
        index_of_kind(text, from + 1, white)
    }
}

/// `index_of_kind` lies between its start and the end of the text.
pub proof fn lemma_index_of_kind_bounds(text: Seq<char>, from: int, white: bool)
    requires
        0 <= from <= text.len(),
    ensures
        from <= index_of_kind(text, from, white) <= text.len(),
    decreases text.len() - from,
{
    if from < text.len() && is_whitespace(text[from]) != white {
        lemma_index_of_kind_bounds(text, from + 1, white);
    }
}

/// `index_of_kind` looks only at what follows its start.
pub proof fn lemma_index_of_kind_skip(text: Seq<char>, skip: int, from: int, white: bool)
    requires
        0 <= skip <= from <= text.len(),
    ensures
        index_of_kind(text.skip(skip), from - skip, white) == index_of_kind(text, from, white) - skip,
    decreases text.len() - from,
{
    if from < text.len() {
        assert(text.skip(skip)[from - skip] == text[from]);
        if is_whitespace(text[from]) != white {
            lemma_index_of_kind_skip(text, skip, from + 1, white);
        }
    }
}

/// What `index_of_kind` finds is of the kind asked for, and nothing before
/// it is.
pub proof fn lemma_index_of_kind_found(text: Seq<char>, from: int, white: bool)
    requires
        0 <= from <= text.len(),
    ensures
        index_of_kind(text, from, white) < text.len() ==> is_whitespace(
            text[index_of_kind(text, from, white)],
        ) == white,
        forall|i: int|
            from <= i < index_of_kind(text, from, white) ==> is_whitespace(#[trigger] text[i])
                != white,
    decreases text.len() - from,
{
    if from < text.len() && is_whitespace(text[from]) != white {
        lemma_index_of_kind_found(text, from + 1, white);
    }
}

/// The first index from `from` on at which `chars` has white space
/// (`white`) or anything else (`!white`).
pub(crate) fn find_kind(chars: &Vec<char>, from: usize, white: bool) -> (index: usize)
    requires
        from <= chars@.len(),
    ensures
        index == index_of_kind(chars@, from as int, white),
        from <= index <= chars@.len(),
{
    let mut index: usize = from;
    while index < chars.len() && char_is_whitespace(chars[index]) != white
        invariant
            from <= index <= chars@.len(),
            index_of_kind(chars@, index as int, white) == index_of_kind(chars@, from as int, white),
        decreases chars@.len() - index,
    {
        index = index + 1;
    }
    index
}

/// Where the first word of `text` starts: after the leading white space.
pub open spec fn word_start(text: Seq<char>) -> int {
    index_of_kind(text, 0, false)
}

/// Where the first word of `text` ends: at the first white space after
/// its start.
pub open spec fn word_end(text: Seq<char>) -> int {
    index_of_kind(text, word_start(text), true)
}

/// The first word of `text`: its first run of characters that are not
/// white space; empty where there is none.
pub open spec fn first_word(text: Seq<char>) -> Seq<char> {
    text.subrange(word_start(text), word_end(text))
}

/// Where `text` ends once the white space at its end is left off.
pub open spec fn text_end(text: Seq<char>) -> int
    decreases text.len(),
{
    if text.len() > 0 && is_whitespace(text.last()) {
        text_end(text.drop_last())
    } else {
        text.len() as int
    }
}

/// Where `chars` ends once the white space at its end is left off.
pub(crate) fn find_text_end(chars: &Vec<char>) -> (end: usize)
    ensures
        end == text_end(chars@),
        end <= chars@.len(),
{
    let mut end: usize = chars.len();
    assert(chars@.take(end as int) =~= chars@);
    while end > 0 && char_is_whitespace(chars[end - 1])
        invariant
            end <= chars@.len(),
            text_end(chars@.take(end as int)) == text_end(chars@),
        decreases end,
    {
        assert(chars@.take(end as int).drop_last() =~= chars@.take(end - 1));
        end = end - 1;
    }
    end
}

/// `text` without the white space at its start and at its end.
pub open spec fn trimmed(text: Seq<char>) -> Seq<char> {
    if word_start(text) >= text_end(text) {
        Seq::empty()
    } else {
        text.subrange(word_start(text), text_end(text))
    }
}

/// `text` without the white space at its start and at its end.
pub fn trim(text: &str) -> (kept: String)
    ensures
        kept@ == trimmed(text@),
{
    let chars = chars_of(text);
    let start: usize = find_kind(&chars, 0, false);
    let end: usize = find_text_end(&chars);
    if start >= end {
        String::new()
    } else {
        string_of(&chars, start, end)
    }
}

/// `chars` without the white space at its start and at its end.
pub fn trimmed_chars(chars: &Vec<char>) -> (kept: Vec<char>)
    ensures
        kept@ == trimmed(chars@),
{
    let start: usize = find_kind(chars, 0, false);
    let end: usize = find_text_end(chars);
    if start >= end {
        Vec::new()
    } else {
        slice_of(chars, start, end)
    }
}

/// The words of `text`: its runs of characters that are not white space,
/// in order.
pub open spec fn split_words(text: Seq<char>) -> Seq<Seq<char>>
    decreases text.len(),
{
    if word_start(text) >= text.len() || word_start(text) < 0 || word_end(text) <= word_start(text)
        || word_end(text) > text.len() {
        Seq::empty()
    } else {
        seq![first_word(text)] + split_words(text.skip(word_end(text)))
    }
}

/// The words of `chars`.
pub fn words_of(chars: &Vec<char>) -> (words: Vec<String>)
    ensures
        words@.len() == split_words(chars@).len(),
        forall|i: int| 0 <= i < words@.len() ==> (#[trigger] words@[i])@ == split_words(chars@)[i],
{
    let mut words: Vec<String> = Vec::new();
    let mut at: usize = 0;
    let ghost mut done: Seq<Seq<char>> = Seq::empty();
    assert(chars@.skip(0) =~= chars@);
    loop
        invariant
            at <= chars@.len(),
            done.len() == words@.len(),
            forall|i: int| 0 <= i < words@.len() ==> (#[trigger] words@[i])@ == done[i],
            split_words(chars@) == done + split_words(chars@.skip(at as int)),
        decreases chars@.len() - at,
    {
        let start: usize = find_kind(chars, at, false);
        let end: usize = find_kind(chars, start, true);
        proof {
            let rest = chars@.skip(at as int);
            lemma_index_of_kind_skip(chars@, at as int, at as int, false);
            lemma_index_of_kind_skip(chars@, at as int, start as int, true);
            lemma_index_of_kind_found(chars@, start as int, true);
            lemma_index_of_kind_found(chars@, at as int, false);
            if start < chars@.len() {
                lemma_index_of_kind_bounds(chars@, start + 1, true);
            }
            assert(word_start(rest) == start - at);
            assert(word_end(rest) == end - at);
            if start < chars@.len() {
                assert(end > start);
                assert(first_word(rest) =~= chars@.subrange(start as int, end as int));
                assert(rest.skip(end - at) =~= chars@.skip(end as int));
            }
        }
        if start >= chars.len() {
            assert(done + Seq::<Seq<char>>::empty() =~= done);
            return words;
        }
        words.push(string_of(chars, start, end));
        proof {
            let word = chars@.subrange(start as int, end as int);
            assert(done + (seq![word] + split_words(chars@.skip(end as int))) =~= done.push(word)
                + split_words(chars@.skip(end as int)));
            done = done.push(word);
        }
        at = end;
    }
}

/// Whether `text` holds a character of `set`.
pub open spec fn contains_any(text: Seq<char>, set: Seq<char>) -> bool {
    exists|i: int| 0 <= i < text.len() && set.contains(#[trigger] text[i])
}

/// Whether `set` holds `c`.
pub fn set_holds(set: &Vec<char>, c: char) -> (yes: bool)
    ensures
        yes == set@.contains(c),
{
    let mut i: usize = 0;
    while i < set.len()
        invariant
            i <= set@.len(),
            forall|j: int| 0 <= j < i ==> set@[j] != c,
        decreases set@.len() - i,
    {
        if set[i] == c {
            return true;
        }
        i = i + 1;
    }
    false
}

/// Whether `chars` holds a character of `set`.
pub fn holds_any(chars: &Vec<char>, set: &Vec<char>) -> (yes: bool)
    ensures
        yes == contains_any(chars@, set@),
{
    let mut i: usize = 0;
    while i < chars.len()
        invariant
            i <= chars@.len(),
            forall|j: int| 0 <= j < i ==> !set@.contains(#[trigger] chars@[j]),
        decreases chars@.len() - i,
    {
        if set_holds(set, chars[i]) {
            return true;
        }
        i = i + 1;
    }
    false
}

/// Whether the characters of `chars` from `from` up to `to` are exactly
/// those of `other`.
pub(crate) fn range_equals(chars: &Vec<char>, from: usize, to: usize, other: &Vec<char>) -> (same: bool)
    requires
        from <= to <= chars@.len(),
    ensures
        same == (chars@.subrange(from as int, to as int) == other@),
{
    if to - from != other.len() {
        return false;
    }
    let mut i: usize = 0;
    while i < other.len()
        invariant
            from <= to <= chars@.len(),
            to - from == other@.len(),
            i <= other@.len(),
            forall|j: int| 0 <= j < i ==> chars@[from + j] == other@[j],
        decreases other@.len() - i,
    {
        if chars[from + i] != other[i] {
            assert(chars@.subrange(from as int, to as int)[i as int] != other@[i as int]);
            return false;
        }
        i = i + 1;
    }
    assert(chars@.subrange(from as int, to as int) =~= other@);
    true
}

/// Whether `text` begins with `prefix`.
pub open spec fn has_prefix(text: Seq<char>, prefix: Seq<char>) -> bool {
    prefix.len() <= text.len() && text.subrange(0, prefix.len() as int) == prefix
}

/// Whether `chars` from `from` on begins with `prefix`.
pub(crate) fn starts_with_at(chars: &Vec<char>, from: usize, prefix: &Vec<char>) -> (yes: bool)
    requires
        from <= chars@.len(),
    ensures
        yes == (from + prefix@.len() <= chars@.len() && chars@.subrange(
            from as int,
            from + prefix@.len(),
        ) == prefix@),
{
    if chars.len() - from < prefix.len() {
        return false;
    }
    range_equals(chars, from, from + prefix.len(), prefix)
}

/// Where `pattern` first occurs in `text` at or after `from`, if it does.
pub open spec fn find_from(text: Seq<char>, pattern: Seq<char>, from: int) -> Option<int>
    decreases text.len() + 1 - from,
{
    if from < 0 || from + pattern.len() > text.len() {
        None
    } else if text.subrange(from, from + pattern.len()) == pattern {
        Some(from)
    } else {
        find_from(text, pattern, from + 1)
    }
}

/// Where `pattern` first occurs in `chars` at or after `from`, if it does.
pub fn find_in(chars: &Vec<char>, pattern: &Vec<char>, from: usize) -> (found: Option<usize>)
    ensures
        match found {
            Some(at) => find_from(chars@, pattern@, from as int) == Some(at as int) && at
                + pattern@.len() <= chars@.len(),
            None => find_from(chars@, pattern@, from as int) is None,
        },
{
    if pattern.len() > chars.len() || from > chars.len() - pattern.len() {
        return None;
    }
    let last: usize = chars.len() - pattern.len();
    let mut at: usize = from;
    loop
        invariant
            from <= at <= last,
            last == chars@.len() - pattern@.len(),
            chars@.len() <= usize::MAX,
            find_from(chars@, pattern@, at as int) == find_from(chars@, pattern@, from as int),
        decreases last - at,
    {
        if range_equals(chars, at, at + pattern.len(), pattern) {
            return Some(at);
        }
        if at == last {
            assert(find_from(chars@, pattern@, at + 1) is None);
            return None;
        }
        at = at + 1;
    }
}

/// Whether `pattern` occurs somewhere in `text`.
pub open spec fn has_substring(text: Seq<char>, pattern: Seq<char>) -> bool {
    find_from(text, pattern, 0) is Some
}

/// Whether `pattern` occurs somewhere in `chars`.
pub fn holds_text(chars: &Vec<char>, pattern: &str) -> (yes: bool)
    ensures
        yes == has_substring(chars@, pattern@),
{
    find_in(chars, &chars_of(pattern), 0).is_some()
}

/// `text` with every occurrence of `pattern` taken out, from the left,
/// none overlapping another.
pub open spec fn without(text: Seq<char>, pattern: Seq<char>) -> Seq<char>
    decreases text.len(),
{
    if pattern.len() == 0 || text.len() < pattern.len() {
        text
    } else if text.subrange(0, pattern.len() as int) == pattern {
        without(text.skip(pattern.len() as int), pattern)
    } else {
        seq![text[0]] + without(text.drop_first(), pattern)
    }
}

/// Nothing is taken out of a text that is shorter than the pattern, nor
/// for an empty pattern.
pub proof fn lemma_without_short(text: Seq<char>, pattern: Seq<char>)
    requires
        pattern.len() == 0 || text.len() < pattern.len(),
    ensures
        without(text, pattern) == text,
        text.len() > 0 ==> text == seq![text[0]] + text.drop_first(),
{
    if text.len() > 0 {
        assert(text =~= seq![text[0]] + text.drop_first());
    }
}

/// `chars` with every occurrence of `pattern` taken out.
pub fn remove_all(chars: &Vec<char>, pattern: &Vec<char>) -> (kept: Vec<char>)
    ensures
        kept@ == without(chars@, pattern@),
{
    let mut kept: Vec<char> = Vec::new();
    let mut at: usize = 0;
    assert(chars@.skip(0) =~= chars@);
    while at < chars.len()
        invariant
            at <= chars@.len(),
            without(chars@, pattern@) == kept@ + without(chars@.skip(at as int), pattern@),
        decreases chars@.len() - at,
    {
        let ghost rest = chars@.skip(at as int);
        if pattern.len() > 0 && starts_with_at(chars, at, pattern) {
            proof {
                assert(rest.subrange(0, pattern@.len() as int) =~= chars@.subrange(
                    at as int,
                    at + pattern@.len(),
                ));
                assert(rest.skip(pattern@.len() as int) =~= chars@.skip(at + pattern@.len()));
            }
            at = at + pattern.len();
        } else {
            proof {
                if pattern@.len() > 0 && rest.len() >= pattern@.len() {
                    assert(rest.subrange(0, pattern@.len() as int) =~= chars@.subrange(
                        at as int,
                        at + pattern@.len(),
                    ));
                }
                assert(rest.drop_first() =~= chars@.skip(at + 1));
                assert(rest[0] == chars@[at as int]);
                if pattern@.len() == 0 || rest.len() < pattern@.len() {
                    lemma_without_short(rest, pattern@);
                    lemma_without_short(rest.drop_first(), pattern@);
                }
                assert(kept@ + (seq![rest[0]] + without(rest.drop_first(), pattern@)) =~= kept@.push(
                    rest[0],
                ) + without(rest.drop_first(), pattern@));
            }
            kept.push(chars[at]);
            at = at + 1;
        }
    }
    proof {
        assert(chars@.skip(at as int) =~= Seq::<char>::empty());
        lemma_without_short(Seq::<char>::empty(), pattern@);
        assert(kept@ + Seq::<char>::empty() =~= kept@);
    }
    kept
}

/// `text` split at every line feed. The line feeds are left out; whatever
/// else stands at the end of a line stays. A text without line feed is one
/// line.
pub open spec fn split_lines(text: Seq<char>) -> Seq<Seq<char>>
    decreases text.len(),
{
    if text.len() == 0 {
        seq![Seq::empty()]
    } else if text.last() == '\n' {
        split_lines(text.drop_last()).push(Seq::empty())
    } else {
        let earlier = split_lines(text.drop_last());
        earlier.drop_last().push(earlier.last().push(text.last()))
    }
}

/// The lines of `chars`.
pub fn lines_of(chars: &Vec<char>) -> (lines: Vec<Vec<char>>)
    ensures
        lines@.len() == split_lines(chars@).len(),
        forall|i: int| 0 <= i < lines@.len() ==> (#[trigger] lines@[i])@ == split_lines(chars@)[i],
{
    let mut lines: Vec<Vec<char>> = Vec::new();
    let mut current: Vec<char> = Vec::new();
    let mut i: usize = 0;
    assert(chars@.take(0) =~= Seq::<char>::empty());
    while i < chars.len()
        invariant
            i <= chars@.len(),
            split_lines(chars@.take(i as int)).len() == lines@.len() + 1,
            forall|k: int|
                0 <= k < lines@.len() ==> (#[trigger] lines@[k])@ == split_lines(
                    chars@.take(i as int),
                )[k],
            current@ == split_lines(chars@.take(i as int)).last(),
        decreases chars@.len() - i,
    {
        let c: char = chars[i];
        let ghost before = split_lines(chars@.take(i as int));
        assert(chars@.take(i + 1).drop_last() =~= chars@.take(i as int));
        assert(chars@.take(i + 1).last() == c);
        if c == '\n' {
            lines.push(current);
            current = Vec::new();
        } else {
            current.push(c);
        }
        i = i + 1;
    }
    assert(chars@.take(chars@.len() as int) =~= chars@);
    lines.push(current);
    lines
}

/// The decimal digit for a value below ten.
pub open spec fn digit_char(value: nat) -> char {
    if value == 0 {
        '0'
    } else if value == 1 {
        '1'
    } else if value == 2 {
        '2'
    } else if value == 3 {
        '3'
    } else if value == 4 {
        '4'
    } else if value == 5 {
        '5'
    } else if value == 6 {
        '6'
    } else if value == 7 {
        '7'
    } else if value == 8 {
        '8'
    } else {
        '9'
    }
}

/// The decimal digit for a value below ten, as text.
fn digit_text(value: usize) -> (text: &'static str)
    requires
        value < 10,
    ensures
        text@ == seq![digit_char(value as nat)],
{
    proof {
        reveal_strlit("0");
        reveal_strlit("1");
        reveal_strlit("2");
        reveal_strlit("3");
        reveal_strlit("4");
        reveal_strlit("5");
        reveal_strlit("6");
        reveal_strlit("7");
        reveal_strlit("8");
        reveal_strlit("9");
    }
    let text: &'static str = if value == 0 {
        "0"
    } else if value == 1 {
        "1"
    } else if value == 2 {
        "2"
    } else if value == 3 {
        "3"
    } else if value == 4 {
        "4"
    } else if value == 5 {
        "5"
    } else if value == 6 {
        "6"
    } else if value == 7 {
        "7"
    } else if value == 8 {
        "8"
    } else {
        "9"
    };
    assert(text@ =~= seq![digit_char(value as nat)]);
    text
}

/// `value` written in decimal.
pub open spec fn decimal_text(value: nat) -> Seq<char>
    decreases value,
{
    if value < 10 {
        seq![digit_char(value)]
    } else {
        decimal_text(value / 10).push(digit_char(value % 10))
    }
}

/// `value` written in decimal.
pub fn decimal(value: usize) -> (text: String)
    ensures
        text@ == decimal_text(value as nat),
    decreases value,
{
    if value < 10 {
        digit_text(value).to_owned()
    } else {
        let mut text: String = decimal(value / 10);
        text.append(digit_text(value % 10));
        text
    }
}

} // verus!
