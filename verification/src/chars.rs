//! Text as a sequence of characters: white space, trimming, searching and
//! splitting into lines and words.

use vstd::prelude::*;
use vstd::slice::slice_subrange;

verus! {

/// The lower-case form of a text, as `str::to_lowercase` defines it.
pub uninterp spec fn lowercase(text: Seq<char>) -> Seq<char>;

/// Calls `str::to_lowercase`: the result is the lower-case form of `text`.
#[verifier::external_body]
pub(crate) fn to_lowercase(text: &str) -> (lowered: String)
    ensures
        lowered@ == lowercase(text@),
{
    text.to_lowercase()
}

/// Calls `String::push`: appends one character to the text.
#[verifier::external_body]
pub(crate) fn push_char(text: &mut String, c: char)
    ensures
        final(text)@ == old(text)@.push(c),
{
    text.push(c)
}

/// The characters of `text`, in order.
pub fn chars_of(text: &str) -> (chars: Vec<char>)
    ensures
        chars@ == text@,
{
    broadcast use vstd::string::group_string_axioms;

    let mut chars: Vec<char> = Vec::new();
    for c in it: text.chars()
        invariant
            it.seq() == text@,
            chars@ == it.seq().take(it.index() as int),
    {
        chars.push(c);
        assert(it.seq().take(it.index() + 1) =~= it.seq().take(it.index() as int).push(c));
    }
    assert(text@.take(text@.len() as int) =~= text@);
    chars
}

/// The text that `chars` spell.
pub fn string_of(chars: &[char]) -> (text: String)
    ensures
        text@ == chars@,
{
    let mut text = String::new();
    let mut i: usize = 0;
    while i < chars.len()
        invariant
            i <= chars.len(),
            text@ == chars@.take(i as int),
        decreases chars.len() - i,
    {
        push_char(&mut text, chars[i]);
        assert(chars@.take(i + 1) =~= chars@.take(i as int).push(chars@[i as int]));
        i += 1;
    }
    assert(chars@.take(chars.len() as int) =~= chars@);
    text
}

/// `c` is white space: a character with the Unicode property `White_Space`.
pub open spec fn is_whitespace(c: char) -> bool {
    ||| '\u{9}' <= c <= '\u{D}'
    ||| c == ' '
    ||| c == '\u{85}'
    ||| c == '\u{A0}'
    ||| c == '\u{1680}'
    ||| '\u{2000}' <= c <= '\u{200A}'
    ||| c == '\u{2028}'
    ||| c == '\u{2029}'
    ||| c == '\u{202F}'
    ||| c == '\u{205F}'
    ||| c == '\u{3000}'
}

/// The number of white-space characters at the start of `text`.
pub open spec fn leading_space(text: Seq<char>) -> int
    decreases text.len(),
{
    if text.len() > 0 && is_whitespace(text[0]) {
        1 + leading_space(text.skip(1))
    } else {
        0
    }
}

/// The number of white-space characters at the end of `text`.
pub open spec fn trailing_space(text: Seq<char>) -> int
    decreases text.len(),
{
    if text.len() > 0 && is_whitespace(text.last()) {
        1 + trailing_space(text.drop_last())
    } else {
        0
    }
}

/// `text` without the white space at its start.
pub open spec fn trimmed_start(text: Seq<char>) -> Seq<char> {
    text.skip(leading_space(text))
}

/// `text` without the white space at its end.
pub open spec fn trimmed_end(text: Seq<char>) -> Seq<char> {
    text.take(text.len() - trailing_space(text))
}

/// `text` without the white space at its start and at its end.
pub open spec fn trimmed(text: Seq<char>) -> Seq<char> {
    trimmed_end(trimmed_start(text))
}

/// The position of the first `c` in `text`, or the length of `text` if it
/// holds none.
pub open spec fn index_of(text: Seq<char>, c: char) -> int
    decreases text.len(),
{
    if text.len() == 0 || text[0] == c {
        0
    } else {
        1 + index_of(text.skip(1), c)
    }
}

/// The length of the first word of `text`: the number of characters before
/// its first white space.
pub open spec fn word_length(text: Seq<char>) -> int
    decreases text.len(),
{
    if text.len() == 0 || is_whitespace(text[0]) {
        0
    } else {
        1 + word_length(text.skip(1))
    }
}

/// The words of `text`: its runs of characters that are not white space, in
/// order.
pub open spec fn words_of(text: Seq<char>) -> Seq<Seq<char>>
    decreases text.len(),
{
    let rest = trimmed_start(text);
    if rest.len() == 0 {
        Seq::empty()
    } else {
        let n = word_length(rest);
        if n <= 0 || n > rest.len() || rest.len() > text.len() {
            Seq::empty()
        } else {
            seq![rest.take(n)] + words_of(rest.skip(n))
        }
    }
}

/// A line without its line ending: a line feed, with the carriage return
/// before it if there is one. A piece without a line feed is kept whole.
pub open spec fn without_line_ending(piece: Seq<char>) -> Seq<char> {
    if piece.len() > 0 && piece.last() == '\n' {
        let line = piece.drop_last();
        if line.len() > 0 && line.last() == '\r' {
            line.drop_last()
        } else {
            line
        }
    } else {
        piece
    }
}

/// The lines of `text`. A line ends with a line feed, or with the text; the
/// line feed and a carriage return directly before it belong to no line. A
/// text that ends with a line feed has no empty line after it.
pub open spec fn lines_of(text: Seq<char>) -> Seq<Seq<char>>
    decreases text.len(),
{
    if text.len() == 0 {
        Seq::empty()
    } else {
        let n = index_of(text, '\n');
        if n < 0 || n >= text.len() {
            seq![text]
        } else {
            seq![without_line_ending(text.take(n + 1))] + lines_of(text.skip(n + 1))
        }
    }
}

/// Leading white space never reaches past the text.
pub proof fn lemma_leading_space_bounds(text: Seq<char>)
    ensures
        0 <= leading_space(text) <= text.len(),
        forall|i: int| 0 <= i < leading_space(text) ==> is_whitespace(#[trigger] text[i]),
        leading_space(text) < text.len() ==> !is_whitespace(text[leading_space(text)]),
    decreases text.len(),
{
    if text.len() > 0 && is_whitespace(text[0]) {
        let rest = text.skip(1);
        lemma_leading_space_bounds(rest);
        assert forall|i: int| 0 <= i < leading_space(text) implies is_whitespace(
            #[trigger] text[i],
        ) by {
            if i > 0 {
                assert(text[i] == rest[i - 1]);
            }
        }
        if leading_space(text) < text.len() {
            assert(text[leading_space(text)] == rest[leading_space(rest)]);
        }
    }
}

/// Trailing white space never reaches past the text.
pub proof fn lemma_trailing_space_bounds(text: Seq<char>)
    ensures
        0 <= trailing_space(text) <= text.len(),
        forall|i: int|
            text.len() - trailing_space(text) <= i < text.len() ==> is_whitespace(
                #[trigger] text[i],
            ),
        trailing_space(text) < text.len() ==> !is_whitespace(
            text[text.len() - trailing_space(text) - 1],
        ),
    decreases text.len(),
{
    if text.len() > 0 && is_whitespace(text.last()) {
        let rest = text.drop_last();
        lemma_trailing_space_bounds(rest);
        assert forall|i: int|
            text.len() - trailing_space(text) <= i < text.len() implies is_whitespace(
            #[trigger] text[i],
        ) by {
            if i < text.len() - 1 {
                assert(text[i] == rest[i]);
            }
        }
        if trailing_space(text) < text.len() {
            assert(text[text.len() - trailing_space(text) - 1] == rest[rest.len() - trailing_space(
                rest,
            ) - 1]);
        }
    }
}

/// The first `c` is where no earlier character is `c`.
pub proof fn lemma_index_of_bounds(text: Seq<char>, c: char)
    ensures
        0 <= index_of(text, c) <= text.len(),
        forall|i: int| 0 <= i < index_of(text, c) ==> #[trigger] text[i] != c,
        index_of(text, c) < text.len() ==> text[index_of(text, c)] == c,
    decreases text.len(),
{
    if !(text.len() == 0 || text[0] == c) {
        let rest = text.skip(1);
        lemma_index_of_bounds(rest, c);
        assert forall|i: int| 0 <= i < index_of(text, c) implies #[trigger] text[i] != c by {
            if i > 0 {
                assert(text[i] == rest[i - 1]);
            }
        }
        if index_of(text, c) < text.len() {
            assert(text[index_of(text, c)] == rest[index_of(rest, c)]);
        }
    }
}

/// A position before which no character is `c`, and which holds `c` or is
/// the end, is the position of the first `c`.
pub proof fn lemma_index_of_is(text: Seq<char>, c: char, at: int)
    requires
        0 <= at <= text.len(),
        forall|i: int| 0 <= i < at ==> #[trigger] text[i] != c,
        at < text.len() ==> text[at] == c,
    ensures
        index_of(text, c) == at,
{
    lemma_index_of_bounds(text, c);
    let found = index_of(text, c);
    if found < at {
        assert(text[found] == c);
    } else if found > at {
        assert(text[at] != c);
    }
}

/// A run of white space at the start that ends at a character which is
/// none, or at the end, is all the leading white space.
pub proof fn lemma_leading_space_is(text: Seq<char>, count: int)
    requires
        0 <= count <= text.len(),
        forall|i: int| 0 <= i < count ==> is_whitespace(#[trigger] text[i]),
        count < text.len() ==> !is_whitespace(text[count]),
    ensures
        leading_space(text) == count,
{
    lemma_leading_space_bounds(text);
    let found = leading_space(text);
    if found < count {
        assert(is_whitespace(text[found]));
    } else if found > count {
        assert(is_whitespace(text[count]));
    }
}

/// A run of white space at the end that starts after a character which is
/// none, or at the start, is all the trailing white space.
pub proof fn lemma_trailing_space_is(text: Seq<char>, count: int)
    requires
        0 <= count <= text.len(),
        forall|i: int| text.len() - count <= i < text.len() ==> is_whitespace(#[trigger] text[i]),
        count < text.len() ==> !is_whitespace(text[text.len() - count - 1]),
    ensures
        trailing_space(text) == count,
{
    lemma_trailing_space_bounds(text);
    let found = trailing_space(text);
    if found < count {
        assert(is_whitespace(text[text.len() - found - 1]));
    } else if found > count {
        assert(is_whitespace(text[text.len() - count - 1]));
    }
}

/// The first word ends at the first white space.
pub proof fn lemma_word_length_bounds(text: Seq<char>)
    ensures
        0 <= word_length(text) <= text.len(),
        forall|i: int| 0 <= i < word_length(text) ==> !is_whitespace(#[trigger] text[i]),
        word_length(text) < text.len() ==> is_whitespace(text[word_length(text)]),
    decreases text.len(),
{
    if !(text.len() == 0 || is_whitespace(text[0])) {
        let rest = text.skip(1);
        lemma_word_length_bounds(rest);
        assert forall|i: int| 0 <= i < word_length(text) implies !is_whitespace(
            #[trigger] text[i],
        ) by {
            if i > 0 {
                assert(text[i] == rest[i - 1]);
            }
        }
        if word_length(text) < text.len() {
            assert(text[word_length(text)] == rest[word_length(rest)]);
        }
    }
}

/// A run of other characters at the start that ends at white space, or at
/// the end, is the first word.
pub proof fn lemma_word_length_is(text: Seq<char>, count: int)
    requires
        0 <= count <= text.len(),
        forall|i: int| 0 <= i < count ==> !is_whitespace(#[trigger] text[i]),
        count < text.len() ==> is_whitespace(text[count]),
    ensures
        word_length(text) == count,
{
    lemma_word_length_bounds(text);
    let found = word_length(text);
    if found < count {
        assert(!is_whitespace(text[found]));
    } else if found > count {
        assert(!is_whitespace(text[count]));
    }
}

/// Whether `chars` spell `text`.
pub fn spells(chars: &[char], text: &str) -> (yes: bool)
    ensures
        yes == (chars@ == text@),
{
    let spelled = string_of(chars);
    let wanted = String::from_str(text);
    spelled == wanted
}

/// The lower-case form of `chars`.
pub fn lowered(chars: &[char]) -> (lower: String)
    ensures
        lower@ == lowercase(chars@),
{
    let text = string_of(chars);
    to_lowercase(text.as_str())
}

/// Whether `c` is white space.
pub fn char_is_whitespace(c: char) -> (yes: bool)
    ensures
        yes == is_whitespace(c),
{
    ('\u{9}' <= c && c <= '\u{D}') || c == ' ' || c == '\u{85}' || c == '\u{A0}' || c == '\u{1680}'
        || ('\u{2000}' <= c && c <= '\u{200A}') || c == '\u{2028}' || c == '\u{2029}' || c
        == '\u{202F}' || c == '\u{205F}' || c == '\u{3000}'
}

/// The position of the first `c` in `text`, or the length of `text` if it
/// holds none.
pub fn find_char(text: &[char], c: char) -> (at: usize)
    ensures
        at == index_of(text@, c),
        at <= text.len(),
{
    let mut at: usize = 0;
    while at < text.len() && text[at] != c
        invariant
            at <= text.len(),
            forall|i: int| 0 <= i < at ==> #[trigger] text[i] != c,
        decreases text.len() - at,
    {
        at += 1;
    }
    proof {
        lemma_index_of_is(text@, c, at as int);
    }
    at
}

/// `text` without the white space at its start.
pub fn trim_start(text: &[char]) -> (rest: &[char])
    ensures
        rest@ == trimmed_start(text@),
{
    let mut count: usize = 0;
    while count < text.len() && char_is_whitespace(text[count])
        invariant
            count <= text.len(),
            forall|i: int| 0 <= i < count ==> is_whitespace(#[trigger] text[i]),
        decreases text.len() - count,
    {
        count += 1;
    }
    proof {
        lemma_leading_space_is(text@, count as int);
    }
    let rest = slice_subrange(text, count, text.len());
    assert(rest@ =~= trimmed_start(text@));
    rest
}

/// `text` without the white space at its end.
pub fn trim_end(text: &[char]) -> (rest: &[char])
    ensures
        rest@ == trimmed_end(text@),
{
    let mut count: usize = 0;
    while count < text.len() && char_is_whitespace(text[text.len() - count - 1])
        invariant
            count <= text.len(),
            forall|i: int|
                text.len() - count <= i < text.len() ==> is_whitespace(#[trigger] text[i]),
        decreases text.len() - count,
    {
        count += 1;
    }
    proof {
        lemma_trailing_space_is(text@, count as int);
    }
    let rest = slice_subrange(text, 0, text.len() - count);
    assert(rest@ =~= trimmed_end(text@));
    rest
}

/// `text` without the white space at its start and at its end.
pub fn trim(text: &[char]) -> (rest: &[char])
    ensures
        rest@ == trimmed(text@),
{
    trim_end(trim_start(text))
}

/// The length of the first word of `text`.
pub fn first_word_length(text: &[char]) -> (count: usize)
    ensures
        count == word_length(text@),
        count <= text.len(),
{
    let mut count: usize = 0;
    while count < text.len() && !char_is_whitespace(text[count])
        invariant
            count <= text.len(),
            forall|i: int| 0 <= i < count ==> !is_whitespace(#[trigger] text[i]),
        decreases text.len() - count,
    {
        count += 1;
    }
    proof {
        lemma_word_length_is(text@, count as int);
    }
    count
}

/// The words of `text`, in order.
pub fn split_words(text: &[char]) -> (words: Vec<Vec<char>>)
    ensures
        words.len() == words_of(text@).len(),
        forall|k: int| 0 <= k < words.len() ==> (#[trigger] words[k])@ == words_of(text@)[k],
{
    let mut words: Vec<Vec<char>> = Vec::new();
    let mut rest = text;
    let ghost mut found: Seq<Seq<char>> = Seq::empty();
    loop
        invariant_except_break
            words_of(text@) == found + words_of(rest@),
        invariant
            words.len() == found.len(),
            forall|k: int| 0 <= k < words.len() ==> (#[trigger] words[k])@ == found[k],
        ensures
            words.len() == found.len(),
            forall|k: int| 0 <= k < words.len() ==> (#[trigger] words[k])@ == found[k],
            words_of(text@) == found,
        decreases rest.len(),
    {
        let ghost before = rest@;
        let start = trim_start(rest);
        if start.len() == 0 {
            assert(words_of(before) =~= Seq::<Seq<char>>::empty());
            assert(found + Seq::<Seq<char>>::empty() =~= found);
            break;
        }
        let n = first_word_length(start);
        proof {
            lemma_leading_space_bounds(before);
            lemma_word_length_bounds(start@);
            assert(start@.len() <= before.len());
            assert(n > 0) by {
                if n == 0 {
                    assert(is_whitespace(start@[0]));
                    assert(start@[0] == before[leading_space(before)]);
                }
            }
        }
        let word = slice_subrange(start, 0, n);
        words.push(vstd::slice::slice_to_vec(word));
        rest = slice_subrange(start, n, start.len());
        proof {
            assert(word@ =~= start@.take(n as int));
            assert(rest@ =~= start@.skip(n as int));
            assert(words_of(before) == seq![start@.take(n as int)] + words_of(rest@));
            let longer = found.push(word@);
            assert(longer + words_of(rest@) =~= found + words_of(before));
            found = longer;
        }
    }
    words
}

/// The lines of `text`, in order.
pub fn split_lines(text: &[char]) -> (lines: Vec<Vec<char>>)
    ensures
        lines.len() == lines_of(text@).len(),
        forall|k: int| 0 <= k < lines.len() ==> (#[trigger] lines[k])@ == lines_of(text@)[k],
{
    let mut lines: Vec<Vec<char>> = Vec::new();
    let mut rest = text;
    let ghost mut found: Seq<Seq<char>> = Seq::empty();
    loop
        invariant_except_break
            lines_of(text@) == found + lines_of(rest@),
        invariant
            lines.len() == found.len(),
            forall|k: int| 0 <= k < lines.len() ==> (#[trigger] lines[k])@ == found[k],
        ensures
            lines.len() == found.len(),
            forall|k: int| 0 <= k < lines.len() ==> (#[trigger] lines[k])@ == found[k],
            lines_of(text@) == found,
        decreases rest.len(),
    {
        let ghost before = rest@;
        if rest.len() == 0 {
            assert(found + Seq::<Seq<char>>::empty() =~= found);
            break;
        }
        let n = find_char(rest, '\n');
        if n >= rest.len() {
            lines.push(vstd::slice::slice_to_vec(rest));
            proof {
                let longer = found.push(before);
                assert(longer =~= found + seq![before]);
                found = longer;
            }
            break;
        }
        let end: usize = if n > 0 && rest[n - 1] == '\r' {
            n - 1
        } else {
            n
        };
        let line = slice_subrange(rest, 0, end);
        lines.push(vstd::slice::slice_to_vec(line));
        rest = slice_subrange(rest, n + 1, rest.len());
        proof {
            lemma_index_of_bounds(before, '\n');
            let piece = before.take(n + 1);
            assert(piece.last() == '\n');
            assert(piece.drop_last() =~= before.take(n as int));
            if n > 0 {
                assert(before.take(n as int).last() == before[n - 1]);
                assert(before.take(n as int).drop_last() =~= before.take(n - 1));
            }
            assert(line@ =~= without_line_ending(piece));
            assert(rest@ =~= before.skip(n + 1));
            let longer = found.push(line@);
            assert(longer + lines_of(rest@) =~= found + lines_of(before));
            found = longer;
        }
    }
    lines
}

} // verus!
