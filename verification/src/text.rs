//! Lines and whitespace-separated fields of a text, over its characters.
use vstd::prelude::*;
use vstd::std_specs::iter::IteratorSpec;

verus! {

/// `String::push` appends the character to the end of the string.
pub assume_specification[ String::push ](s: &mut String, ch: char)
    ensures
        final(s)@ == old(s)@.push(ch),
;

/// The text that `String::from_utf8_lossy` makes of the bytes: their UTF-8
/// decoding, with U+FFFD in place of what is no valid UTF-8.
pub uninterp spec fn utf8_lossy(bytes: Seq<u8>) -> Seq<char>;

/// Calls `String::from_utf8_lossy` and takes the result as a `String`.
///
/// Believed of it: the text depends on the bytes alone.  Nothing is claimed
/// of what the text is on given bytes.
#[verifier::external_body]
pub(crate) fn lossy_text(bytes: &[u8]) -> (text: String)
    ensures
        text@ == utf8_lossy(bytes@),
{
    String::from_utf8_lossy(bytes).into_owned()
}

/// The whitespace of ASCII: space, tab, line feed, form feed, carriage return.
pub open spec fn spec_is_space(c: char) -> bool {
    c == ' ' || c == '\t' || c == '\n' || c == '\x0C' || c == '\r'
}

/// Whether the character is whitespace of ASCII.
#[verifier::when_used_as_spec(spec_is_space)]
pub fn is_space(c: char) -> (b: bool)
    ensures
        b == spec_is_space(c),
{
    c == ' ' || c == '\t' || c == '\n' || c == '\x0C' || c == '\r'
}

/// The position of the first line feed at or after `from`, or the end of
/// the text where there is none.
pub open spec fn line_end(s: Seq<char>, from: int) -> int
    decreases s.len() - from,
{
    if from < 0 || from >= s.len() || s[from] == '\n' {
        from
    } else {
        line_end(s, from + 1)
    }
}

/// Where the text of the line that starts at `from` stops: before its
/// line feed, and before the carriage return in front of that line feed.
pub open spec fn line_stop(s: Seq<char>, from: int) -> int {
    let end = line_end(s, from);
    if end < s.len() && from < end && s[end - 1] == '\r' {
        end - 1
    } else {
        end
    }
}

/// A line ends within the text, at a line feed or at the end of the text,
/// and holds no line feed.
pub proof fn lemma_line_end_bounds(s: Seq<char>, from: int)
    requires
        0 <= from <= s.len(),
    ensures
        from <= line_end(s, from) <= s.len(),
        line_end(s, from) < s.len() ==> s[line_end(s, from)] == '\n',
        forall|i: int| from <= i < line_end(s, from) ==> s[i] != '\n',
    decreases s.len() - from,
{
    if from < s.len() && s[from] != '\n' {
        lemma_line_end_bounds(s, from + 1);
    }
}

/// The lines of the text from position `from` on.  A line ends at a line
/// feed or at the end of the text; a final line feed opens no further line.
pub open spec fn lines_from(s: Seq<char>, from: int) -> Seq<Seq<char>>
    decreases s.len() - from,
{
    if from < 0 || from >= s.len() {
        Seq::empty()
    } else {
        proof {
            lemma_line_end_bounds(s, from);
        }
        let line = s.subrange(from, line_stop(s, from));
        if line_end(s, from) >= s.len() {
            seq![line]
        } else {
            seq![line] + lines_from(s, line_end(s, from) + 1)
        }
    }
}

/// The lines of the text, without their line endings.
pub open spec fn lines(s: Seq<char>) -> Seq<Seq<char>> {
    lines_from(s, 0)
}

/// The first position at or after `i` that holds no whitespace.
pub open spec fn skip_spaces(s: Seq<char>, i: int) -> int
    decreases s.len() - i,
{
    if 0 <= i < s.len() && is_space(s[i]) {
        skip_spaces(s, i + 1)
    } else {
        i
    }
}

/// The first position at or after `i` that holds whitespace.
pub open spec fn skip_word(s: Seq<char>, i: int) -> int
    decreases s.len() - i,
{
    if 0 <= i < s.len() && !is_space(s[i]) {
        skip_word(s, i + 1)
    } else {
        i
    }
}

/// Skipping whitespace passes whitespace only and stops within the text,
/// at a character that is none.
pub proof fn lemma_skip_spaces(s: Seq<char>, i: int)
    requires
        0 <= i <= s.len(),
    ensures
        i <= skip_spaces(s, i) <= s.len(),
        skip_spaces(s, i) < s.len() ==> !is_space(s[skip_spaces(s, i)]),
        forall|j: int| i <= j < skip_spaces(s, i) ==> is_space(s[j]),
    decreases s.len() - i,
{
    if i < s.len() && is_space(s[i]) {
        lemma_skip_spaces(s, i + 1);
    }
}

/// Skipping a word passes no whitespace and stops within the text, at
/// whitespace; it moves on where it starts at a character that is none.
pub proof fn lemma_skip_word(s: Seq<char>, i: int)
    requires
        0 <= i <= s.len(),
    ensures
        i <= skip_word(s, i) <= s.len(),
        skip_word(s, i) < s.len() ==> is_space(s[skip_word(s, i)]),
        forall|j: int| i <= j < skip_word(s, i) ==> !is_space(s[j]),
        i < s.len() && !is_space(s[i]) ==> i < skip_word(s, i),
    decreases s.len() - i,
{
    if i < s.len() && !is_space(s[i]) {
        lemma_skip_word(s, i + 1);
    }
}

/// The fields of the text from position `i` on: its maximal runs of
/// characters that are no whitespace, in order.
pub open spec fn fields_from(s: Seq<char>, i: int) -> Seq<Seq<char>>
    decreases s.len() - i,
{
    let start = skip_spaces(s, i);
    if i < 0 || i > s.len() || start >= s.len() {
        Seq::empty()
    } else {
        proof {
            lemma_skip_spaces(s, i);
            lemma_skip_word(s, start);
        }
        seq![s.subrange(start, skip_word(s, start))] + fields_from(s, skip_word(s, start))
    }
}

/// The fields of the text: what is left when it is split at whitespace.
pub open spec fn fields(s: Seq<char>) -> Seq<Seq<char>> {
    fields_from(s, 0)
}

/// The characters of a string.
pub fn chars_of(s: &str) -> (chars: Vec<char>)
    ensures
        chars@ == s@,
{
    let mut chars: Vec<char> = Vec::new();
    for c in it: s.chars()
        invariant
            chars@ == it.seq().take(it.index() as int),
            it.seq() == s@,
    {
        chars.push(c);
    }
    chars
}

/// The string made of the characters from `from` up to `to`.
pub fn string_of(chars: &[char], from: usize, to: usize) -> (s: String)
    requires
        from <= to <= chars@.len(),
    ensures
        s@ == chars@.subrange(from as int, to as int),
{
    let mut s = String::new();
    let mut i: usize = from;
    while i < to
        invariant
            from <= i <= to <= chars@.len(),
            s@ == chars@.subrange(from as int, i as int),
        decreases to - i,
    {
        s.push(chars[i]);
        i += 1;
    }
    s
}

/// The end of the line that starts at `from`.
pub fn find_line_end(chars: &[char], from: usize) -> (end: usize)
    requires
        from <= chars@.len(),
    ensures
        end == line_end(chars@, from as int),
        from <= end <= chars@.len(),
{
    let mut i: usize = from;
    while i < chars.len() && chars[i] != '\n'
        invariant
            from <= i <= chars@.len(),
            line_end(chars@, from as int) == line_end(chars@, i as int),
        decreases chars@.len() - i,
    {
        i += 1;
    }
    i
}

/// Where the text of the line from `from` to its end `end` stops.
pub fn find_line_stop(chars: &[char], from: usize, end: usize) -> (stop: usize)
    requires
        from <= chars@.len(),
        end == line_end(chars@, from as int),
    ensures
        stop == line_stop(chars@, from as int),
        from <= stop <= end,
{
    proof {
        lemma_line_end_bounds(chars@, from as int);
    }
    if end < chars.len() && from < end && chars[end - 1] == '\r' {
        end - 1
    } else {
        end
    }
}

/// The bounds of the first field at or after `i`, if there is one.
pub fn next_field(chars: &[char], i: usize) -> (field: Option<(usize, usize)>)
    requires
        i <= chars@.len(),
    ensures
        match field {
            Some((start, end)) => {
                &&& start == skip_spaces(chars@, i as int)
                &&& end == skip_word(chars@, start as int)
                &&& i <= start < end <= chars@.len()
            },
            None => skip_spaces(chars@, i as int) >= chars@.len(),
        },
{
    let mut start: usize = i;
    while start < chars.len() && is_space(chars[start])
        invariant
            i <= start <= chars@.len(),
            skip_spaces(chars@, i as int) == skip_spaces(chars@, start as int),
        decreases chars@.len() - start,
    {
        start += 1;
    }
    if start >= chars.len() {
        return None;
    }
    let mut end: usize = start + 1;
    assert(skip_word(chars@, start as int) == skip_word(chars@, start + 1));
    while end < chars.len() && !is_space(chars[end])
        invariant
            start < end <= chars@.len(),
            skip_word(chars@, start as int) == skip_word(chars@, end as int),
        decreases chars@.len() - end,
    {
        end += 1;
    }
    Some((start, end))
}

} // verus!
