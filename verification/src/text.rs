//! Texts as sequences of characters: lines, words, and what the standard
//! library is trusted for.

use vstd::prelude::*;

verus! {

/// What `char::is_numeric` answers for a character: whether Unicode gives
/// it one of the general categories for numbers.
pub uninterp spec fn numeric_in_unicode(c: char) -> bool;

/// Whether a character is numeric. Among the ASCII characters these are the
/// digits; beyond them Unicode decides.
pub open spec fn char_is_numeric(c: char) -> bool {
    if c <= '\u{7f}' {
        '0' <= c <= '9'
    } else {
        numeric_in_unicode(c)
    }
}

/// Whether a character is white space: whether it has the property
/// White_Space of Unicode. These are the tab, the line feed, the vertical
/// tab, the form feed, the carriage return, the space, the next line, the
/// no-break space, and the spaces and separators beyond Latin.
pub open spec fn char_is_whitespace(c: char) -> bool {
    ||| '\u{9}' <= c <= '\u{d}'
    ||| c == ' '
    ||| c == '\u{85}'
    ||| c == '\u{a0}'
    ||| c == '\u{1680}'
    ||| '\u{2000}' <= c <= '\u{200a}'
    ||| c == '\u{2028}'
    ||| c == '\u{2029}'
    ||| c == '\u{202f}'
    ||| c == '\u{205f}'
    ||| c == '\u{3000}'
}

/// `char::is_numeric` of the standard library. Trusted: its answer depends
/// on the character alone, and among the ASCII characters it is given for
/// the digits and for no other.
pub assume_specification[ char::is_numeric ](c: char) -> (r: bool)
    ensures
        r == numeric_in_unicode(c),
        c <= '\u{7f}' ==> r == ('0' <= c && c <= '9'),
;

/// `char::is_whitespace` of the standard library. Trusted: it tells
/// whether the character has the property White_Space of Unicode.
pub assume_specification[ char::is_whitespace ](c: char) -> (r: bool)
    ensures
        r == char_is_whitespace(c),
;

/// `String::push` of the standard library. Trusted: it appends the
/// character to the end of the string.
pub assume_specification[ String::push ](s: &mut String, c: char)
    ensures
        final(s)@ == old(s)@.push(c),
;

/// The characters of a text, one by one.
pub fn chars_of(text: &str) -> (chars: Vec<char>)
    ensures
        chars@ == text@,
{
    let mut chars: Vec<char> = Vec::new();
    for c in it: text.chars()
        invariant
            it.seq() == text@,
            chars@ == it.seq().take(it.index()),
    {
        chars.push(c);
    }
    chars
}

/// The text made of the characters from `from` up to `to`.
pub fn string_of(chars: &Vec<char>, from: usize, to: usize) -> (text: String)
    requires
        from <= to <= chars.len(),
    ensures
        text@ == chars@.subrange(from as int, to as int),
{
    let mut text = String::new();
    let mut i: usize = from;
    while i < to
        invariant
            from <= i <= to <= chars.len(),
            text@ == chars@.subrange(from as int, i as int),
        decreases to - i,
    {
        text.push(chars[i]);
        proof {
            assert(chars@.subrange(from as int, i as int).push(chars@[i as int])
                =~= chars@.subrange(from as int, i + 1));
        }
        i = i + 1;
    }
    text
}

/// The number of characters at the start of `s` before the first one that
/// `stop` holds of: all of them, if it holds of none.
pub open spec fn span(s: Seq<char>, stop: spec_fn(char) -> bool) -> int
    decreases s.len(),
{
    if s.len() == 0 || stop(s[0]) {
        0
    } else {
        1 + span(s.skip(1), stop)
    }
}

/// A span ends within the text, before the first character that stops it
/// and not earlier.
pub proof fn lemma_span(s: Seq<char>, stop: spec_fn(char) -> bool)
    ensures
        0 <= span(s, stop) <= s.len(),
        forall|i: int| 0 <= i < span(s, stop) ==> !stop(#[trigger] s[i]),
        span(s, stop) < s.len() ==> stop(s[span(s, stop)]),
    decreases s.len(),
{
    if s.len() > 0 && !stop(s[0]) {
        let rest = s.skip(1);
        lemma_span(rest, stop);
        assert forall|i: int| 0 <= i < span(s, stop) implies !stop(#[trigger] s[i]) by {
            if i > 0 {
                assert(s[i] == rest[i - 1]);
            }
        }
    }
}

/// The span is the one length at which the text stops for the first time.
pub proof fn lemma_span_is(s: Seq<char>, stop: spec_fn(char) -> bool, n: int)
    requires
        0 <= n <= s.len(),
        forall|i: int| 0 <= i < n ==> !stop(#[trigger] s[i]),
        n < s.len() ==> stop(s[n]),
    ensures
        span(s, stop) == n,
    decreases s.len(),
{
    if n > 0 {
        let rest = s.skip(1);
        assert forall|i: int| 0 <= i < n - 1 implies !stop(#[trigger] rest[i]) by {
            assert(rest[i] == s[i + 1]);
        }
        lemma_span_is(rest, stop, n - 1);
    }
}

/// The length of the first line of a text, without its line feed.
pub open spec fn line_len(s: Seq<char>) -> int {
    span(s, |c: char| c == '\n')
}

/// A line without the carriage return at its end, if it has one.
pub open spec fn strip_cr(line: Seq<char>) -> Seq<char> {
    if line.len() > 0 && line.last() == '\r' {
        line.drop_last()
    } else {
        line
    }
}

/// The lines of a text. A line ends with a line feed, or with a carriage
/// return and a line feed, neither of which belongs to it; the last line
/// needs no line ending.
pub open spec fn lines_of(s: Seq<char>) -> Seq<Seq<char>>
    decreases s.len(),
{
    if s.len() == 0 {
        Seq::empty()
    } else {
        let n = line_len(s);
        if n < s.len() {
            proof {
                lemma_span(s, |c: char| c == '\n');
            }
            seq![strip_cr(s.take(n))] + lines_of(s.skip(n + 1))
        } else {
            seq![s]
        }
    }
}

/// The length of the word that a text starts with: the characters before
/// the first white space.
pub open spec fn word_len(s: Seq<char>) -> int {
    span(s, |c: char| char_is_whitespace(c))
}

/// The words of a text: what stands between white space.
pub open spec fn words_of(s: Seq<char>) -> Seq<Seq<char>>
    decreases s.len(),
{
    if s.len() == 0 {
        Seq::empty()
    } else if char_is_whitespace(s[0]) {
        words_of(s.skip(1))
    } else {
        let n = word_len(s);
        proof {
            lemma_span(s, |c: char| char_is_whitespace(c));
        }
        seq![s.take(n)] + words_of(s.skip(n))
    }
}

/// Where the line that starts at `from` ends, and where the next one
/// starts.
pub fn next_line(chars: &Vec<char>, from: usize) -> (r: (usize, usize))
    requires
        from < chars.len(),
    ensures
        from <= r.0 <= r.1 <= chars.len(),
        from < r.1,
        lines_of(chars@.skip(from as int)) == seq![chars@.subrange(from as int, r.0 as int)]
            + lines_of(chars@.skip(r.1 as int)),
{
    let ghost rest = chars@.skip(from as int);
    let ghost stop = |c: char| c == '\n';
    let mut end: usize = from;
    while end < chars.len() && chars[end] != '\n'
        invariant
            from <= end <= chars.len(),
            forall|i: int| from <= i < end ==> chars@[i] != '\n',
        decreases chars.len() - end,
    {
        end = end + 1;
    }
    proof {
        assert forall|i: int| 0 <= i < end - from implies !stop(#[trigger] rest[i]) by {
            assert(rest[i] == chars@[from + i]);
        }
        lemma_span_is(rest, stop, end - from);
        assert(rest.take(end - from) =~= chars@.subrange(from as int, end as int));
    }
    if end == chars.len() {
        proof {
            assert(rest =~= chars@.subrange(from as int, end as int));
            assert(chars@.skip(end as int).len() == 0);
            assert(seq![rest] + Seq::<Seq<char>>::empty() =~= seq![rest]);
        }
        (end, end)
    } else {
        proof {
            assert(rest.skip(end - from + 1) =~= chars@.skip(end + 1));
        }
        let next = end + 1;
        if end > from && chars[end - 1] == '\r' {
            proof {
                let line = chars@.subrange(from as int, end as int);
                assert(line.last() == '\r');
                assert(line.drop_last() =~= chars@.subrange(from as int, end - 1));
            }
            (end - 1, next)
        } else {
            (end, next)
        }
    }
}

/// The next word at or after `from`: where it starts and where it ends.
/// `None` if only white space is left.
pub fn next_word(chars: &Vec<char>, from: usize) -> (r: Option<(usize, usize)>)
    requires
        from <= chars.len(),
    ensures
        match r {
            Some((start, end)) => {
                &&& from <= start < end <= chars.len()
                &&& words_of(chars@.skip(from as int)) == seq![
                    chars@.subrange(start as int, end as int),
                ] + words_of(chars@.skip(end as int))
            },
            None => words_of(chars@.skip(from as int)).len() == 0,
        },
{
    let mut start: usize = from;
    while start < chars.len() && chars[start].is_whitespace()
        invariant
            from <= start <= chars.len(),
            words_of(chars@.skip(from as int)) == words_of(chars@.skip(start as int)),
        decreases chars.len() - start,
    {
        proof {
            assert(chars@.skip(start as int).skip(1) =~= chars@.skip(start + 1));
        }
        start = start + 1;
    }
    if start == chars.len() {
        return None;
    }
    let ghost rest = chars@.skip(start as int);
    let ghost stop = |c: char| char_is_whitespace(c);
    let mut end: usize = start + 1;
    while end < chars.len() && !chars[end].is_whitespace()
        invariant
            start < end <= chars.len(),
            forall|i: int| start <= i < end ==> !char_is_whitespace(chars@[i]),
        decreases chars.len() - end,
    {
        end = end + 1;
    }
    proof {
        assert forall|i: int| 0 <= i < end - start implies !stop(#[trigger] rest[i]) by {
            assert(rest[i] == chars@[start + i]);
        }
        lemma_span_is(rest, stop, end - start);
        assert(rest.take(end - start) =~= chars@.subrange(start as int, end as int));
        assert(rest.skip(end - start) =~= chars@.skip(end as int));
    }
    Some((start, end))
}

} // verus!
