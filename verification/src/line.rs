//! Command lines: a name followed by arguments, separated by whitespace.
//!
//! There is no quoting and no escaping: an argument cannot contain whitespace.

use vstd::prelude::*;

verus! {

/// The characters that separate the words of a line: tab, line feed, form
/// feed, carriage return and space.
pub open spec fn is_separator(c: char) -> bool {
    c == '\t' || c == '\n' || c == '\x0C' || c == '\r' || c == ' '
}

/// The characters that are trimmed from both ends of a line: those with the
/// Unicode property White_Space. Every separator is one of them.
pub open spec fn is_blank(c: char) -> bool {
    ||| ('\t' <= c && c <= '\r')
    ||| c == ' '
    ||| c == '\u{85}'
    ||| c == '\u{A0}'
    ||| c == '\u{1680}'
    ||| ('\u{2000}' <= c && c <= '\u{200A}')
    ||| c == '\u{2028}'
    ||| c == '\u{2029}'
    ||| c == '\u{202F}'
    ||| c == '\u{205F}'
    ||| c == '\u{3000}'
}

/// The line without the blank characters at its start.
pub open spec fn trim_start(s: Seq<char>) -> Seq<char>
    decreases s.len(),
{
    if s.len() > 0 && is_blank(s.first()) {
        trim_start(s.drop_first())
    } else {
        s
    }
}

/// The line without the blank characters at its end.
pub open spec fn trim_end(s: Seq<char>) -> Seq<char>
    decreases s.len(),
{
    if s.len() > 0 && is_blank(s.last()) {
        trim_end(s.drop_last())
    } else {
        s
    }
}

/// The line without the blank characters at either end.
pub open spec fn trim(s: Seq<char>) -> Seq<char> {
    trim_end(trim_start(s))
}

/// The length of the longest prefix of `s` that holds no separator.
pub open spec fn word_len(s: Seq<char>) -> nat
    decreases s.len(),
{
    if s.len() == 0 || is_separator(s.first()) {
        0
    } else {
        1 + word_len(s.drop_first())
    }
}

/// The words of `s`: its maximal runs of characters that are not separators,
/// from left to right.
pub open spec fn words(s: Seq<char>) -> Seq<Seq<char>>
    decreases s.len(),
    via words_decreases
{
    if s.len() == 0 {
        Seq::empty()
    } else if is_separator(s.first()) {
        words(s.drop_first())
    } else {
        seq![s.take(word_len(s) as int)] + words(s.skip(word_len(s) as int))
    }
}

#[via_fn]
proof fn words_decreases(s: Seq<char>) {
    lemma_word_len(s);
}

/// The words of a command line: those of the trimmed line.
pub open spec fn line_words(line: Seq<char>) -> Seq<Seq<char>> {
    words(trim(line))
}

/// The characters of each string of a list.
pub open spec fn texts(strings: Seq<String>) -> Seq<Seq<char>> {
    strings.map_values(|s: String| s@)
}

/// `word_len` stays within the sequence, is positive where the sequence
/// starts with a character of a word, and stops at a separator or at the end.
pub proof fn lemma_word_len(s: Seq<char>)
    ensures
        word_len(s) <= s.len(),
        s.len() > 0 && !is_separator(s.first()) ==> word_len(s) > 0,
        forall|i: int| 0 <= i < word_len(s) ==> !is_separator(#[trigger] s[i]),
        word_len(s) < s.len() ==> is_separator(s[word_len(s) as int]),
    decreases s.len(),
{
    if s.len() == 0 || is_separator(s.first()) {
    } else {
        let rest = s.drop_first();
        lemma_word_len(rest);
        assert forall|i: int| 0 <= i < word_len(s) implies !is_separator(#[trigger] s[i]) by {
            if i > 0 {
                assert(s[i] == rest[i - 1]);
            }
        }
        if word_len(s) < s.len() {
            assert(s[word_len(s) as int] == rest[word_len(s) - 1]);
        }
    }
}

/// A run of `n` characters that are not separators, followed by a separator
/// or by the end, is the first word.
proof fn lemma_word_len_is(s: Seq<char>, n: int)
    requires
        0 <= n <= s.len(),
        forall|i: int| 0 <= i < n ==> !is_separator(#[trigger] s[i]),
        n < s.len() ==> is_separator(s[n]),
    ensures
        word_len(s) == n,
    decreases n,
{
    if n > 0 {
        let rest = s.drop_first();
        assert forall|i: int| 0 <= i < n - 1 implies !is_separator(#[trigger] rest[i]) by {
            assert(rest[i] == s[i + 1]);
        }
        lemma_word_len_is(rest, n - 1);
    }
}

/// Blank characters in front do not change what is left after trimming.
proof fn lemma_trim_start_skip(s: Seq<char>, n: int)
    requires
        0 <= n <= s.len(),
        forall|i: int| 0 <= i < n ==> is_blank(#[trigger] s[i]),
    ensures
        trim_start(s) == trim_start(s.skip(n)),
    decreases n,
{
    if n == 0 {
        assert(s.skip(0) =~= s);
    } else {
        let rest = s.drop_first();
        assert forall|i: int| 0 <= i < n - 1 implies is_blank(#[trigger] rest[i]) by {
            assert(rest[i] == s[i + 1]);
        }
        lemma_trim_start_skip(rest, n - 1);
        assert(rest.skip(n - 1) =~= s.skip(n));
    }
}

/// Blank characters at the end do not change what is left after trimming.
proof fn lemma_trim_end_take(s: Seq<char>, n: int)
    requires
        0 <= n <= s.len(),
        forall|i: int| n <= i < s.len() ==> is_blank(#[trigger] s[i]),
    ensures
        trim_end(s) == trim_end(s.take(n)),
    decreases s.len() - n,
{
    if n == s.len() {
        assert(s.take(n) =~= s);
    } else {
        let rest = s.drop_last();
        lemma_trim_end_take(rest, n);
        assert(rest.take(n) =~= s.take(n));
    }
}

/// What a word is: at least one character, none of them a separator.
pub open spec fn is_word(w: Seq<char>) -> bool {
    w.len() > 0 && forall|i: int| 0 <= i < w.len() ==> !is_separator(#[trigger] w[i])
}

/// A sequence has no words exactly when it holds nothing but separators.
proof fn lemma_no_words(s: Seq<char>)
    ensures
        words(s).len() == 0 <==> forall|i: int| 0 <= i < s.len() ==> is_separator(#[trigger] s[i]),
    decreases s.len(),
{
    if s.len() == 0 {
    } else if is_separator(s.first()) {
        let rest = s.drop_first();
        lemma_no_words(rest);
        if words(s).len() == 0 {
            assert forall|i: int| 0 <= i < s.len() implies is_separator(#[trigger] s[i]) by {
                if i > 0 {
                    assert(s[i] == rest[i - 1]);
                }
            }
        } else {
            let i = choose|i: int| 0 <= i < rest.len() && !is_separator(#[trigger] rest[i]);
            assert(s[i + 1] == rest[i]);
        }
    } else {
        assert(!is_separator(s[0]));
    }
}

/// What is left after trimming is a stretch of the line that neither starts
/// nor ends with a blank character, with nothing but blank characters
/// before and after it.
proof fn lemma_trim(s: Seq<char>) -> (bounds: (int, int))
    ensures
        0 <= bounds.0 <= bounds.1 <= s.len(),
        trim(s) == s.subrange(bounds.0, bounds.1),
        forall|i: int| 0 <= i < bounds.0 ==> is_blank(#[trigger] s[i]),
        forall|i: int| bounds.1 <= i < s.len() ==> is_blank(#[trigger] s[i]),
        bounds.0 < bounds.1 ==> !is_blank(s[bounds.0]) && !is_blank(s[bounds.1 - 1]),
{
    let from = lemma_trim_start(s);
    let rest = s.skip(from);
    let len = lemma_trim_end(rest);
    assert(rest.take(len) =~= s.subrange(from, from + len));
    assert forall|i: int| from + len <= i < s.len() implies is_blank(#[trigger] s[i]) by {
        assert(s[i] == rest[i - from]);
    }
    if len > 0 {
        assert(rest[len - 1] == s[from + len - 1]);
        assert(rest[0] == s[from]);
    }
    (from, from + len)
}

proof fn lemma_trim_start(s: Seq<char>) -> (from: int)
    ensures
        0 <= from <= s.len(),
        trim_start(s) == s.skip(from),
        forall|i: int| 0 <= i < from ==> is_blank(#[trigger] s[i]),
        from < s.len() ==> !is_blank(s[from]),
    decreases s.len(),
{
    if s.len() > 0 && is_blank(s.first()) {
        let rest = s.drop_first();
        let from = lemma_trim_start(rest);
        assert(rest.skip(from) =~= s.skip(from + 1));
        assert forall|i: int| 0 <= i < from + 1 implies is_blank(#[trigger] s[i]) by {
            if i > 0 {
                assert(s[i] == rest[i - 1]);
            }
        }
        if from + 1 < s.len() {
            assert(s[from + 1] == rest[from]);
        }
        from + 1
    } else {
        assert(s.skip(0) =~= s);
        0
    }
}

proof fn lemma_trim_end(s: Seq<char>) -> (len: int)
    ensures
        0 <= len <= s.len(),
        trim_end(s) == s.take(len),
        forall|i: int| len <= i < s.len() ==> is_blank(#[trigger] s[i]),
        len > 0 ==> !is_blank(s[len - 1]),
    decreases s.len(),
{
    if s.len() > 0 && is_blank(s.last()) {
        let rest = s.drop_last();
        let len = lemma_trim_end(rest);
        assert(rest.take(len) =~= s.take(len));
        assert forall|i: int| len <= i < s.len() implies is_blank(#[trigger] s[i]) by {
            if i < rest.len() {
                assert(s[i] == rest[i]);
            }
        }
        len
    } else {
        assert(s.take(s.len() as int) =~= s);
        s.len() as int
    }
}

/// A line has no words exactly when it holds nothing but blank characters.
pub proof fn lemma_blank_line(line: Seq<char>)
    ensures
        line_words(line).len() == 0 <==> forall|i: int|
            0 <= i < line.len() ==> is_blank(#[trigger] line[i]),
{
    let (from, to) = lemma_trim(line);
    let kept = line.subrange(from, to);
    lemma_no_words(kept);
    if from < to {
        assert(kept[0] == line[from]);
        assert(!is_separator(kept[0]));
        assert(!is_blank(line[from]));
    } else {
        assert(kept.len() == 0);
    }
}

/// Whether `c` separates words.
pub fn is_separator_char(c: char) -> (separates: bool)
    ensures
        separates == is_separator(c),
{
    c == '\t' || c == '\n' || c == '\x0C' || c == '\r' || c == ' '
}

/// Whether `c` is trimmed from the ends of a line.
pub fn is_blank_char(c: char) -> (blank: bool)
    ensures
        blank == is_blank(c),
{
    if c <= ' ' {
        ('\t' <= c && c <= '\r') || c == ' '
    } else if c <= '\u{1FFF}' {
        c == '\u{85}' || c == '\u{A0}' || c == '\u{1680}'
    } else if c <= '\u{200A}' {
        true
    } else {
        c == '\u{2028}' || c == '\u{2029}' || c == '\u{202F}' || c == '\u{205F}' || c
            == '\u{3000}'
    }
}

/// Splits a line into its words.
pub fn split_line(line: &str) -> (tokens: Vec<String>)
    ensures
        texts(tokens@) == line_words(line@),
{
    let len = line.unicode_len();
    let mut start: usize = 0;
    while start < len && is_blank_char(line.get_char(start))
        invariant
            start <= len == line@.len(),
            forall|i: int| 0 <= i < start ==> is_blank(#[trigger] line@[i]),
        decreases len - start,
    {
        start += 1;
    }
    let mut end: usize = len;
    while end > start && is_blank_char(line.get_char(end - 1))
        invariant
            start <= end <= len == line@.len(),
            forall|i: int| end <= i < len ==> is_blank(#[trigger] line@[i]),
        decreases end,
    {
        end -= 1;
    }
    let ghost kept = line@.subrange(start as int, end as int);
    proof {
        let rest = line@.skip(start as int);
        lemma_trim_start_skip(line@, start as int);
        assert(trim_start(rest) == rest) by {
            if rest.len() > 0 {
                assert(rest.first() == line@[start as int]);
            }
        }
        assert forall|i: int| end - start <= i < rest.len() implies is_blank(#[trigger] rest[i]) by {
            assert(rest[i] == line@[i + start]);
        }
        lemma_trim_end_take(rest, end - start);
        assert(rest.take(end - start) =~= kept);
        assert(trim_end(kept) == kept) by {
            if kept.len() > 0 {
                assert(kept.last() == line@[end - 1]);
            }
        }
        assert(trim(line@) == kept);
    }
    let mut tokens: Vec<String> = Vec::new();
    let mut i: usize = start;
    proof {
        assert(line@.subrange(i as int, end as int) =~= kept);
        assert(texts(tokens@) =~= Seq::<Seq<char>>::empty());
        assert(texts(tokens@) + words(kept) =~= words(kept));
    }
    while i < end
        invariant
            start <= i <= end <= len == line@.len(),
            words(kept) == texts(tokens@) + words(line@.subrange(i as int, end as int)),
        decreases end - i,
    {
        let ghost here = line@.subrange(i as int, end as int);
        if is_separator_char(line.get_char(i)) {
            proof {
                assert(here.first() == line@[i as int]);
                assert(here.drop_first() =~= line@.subrange(i + 1, end as int));
            }
            i += 1;
        } else {
            let mut j: usize = i + 1;
            while j < end && !is_separator_char(line.get_char(j))
                invariant
                    i < j <= end <= len == line@.len(),
                    forall|k: int| i <= k < j ==> !is_separator(#[trigger] line@[k]),
                decreases end - j,
            {
                j += 1;
            }
            let word = line.substring_char(i, j).to_owned();
            proof {
                assert(here.first() == line@[i as int]);
                assert forall|k: int| 0 <= k < j - i implies !is_separator(#[trigger] here[k]) by {
                    assert(here[k] == line@[i + k]);
                }
                if j - i < here.len() {
                    assert(here[j - i] == line@[j as int]);
                }
                lemma_word_len_is(here, j - i);
                assert(here.take(j - i) =~= line@.subrange(i as int, j as int));
                assert(here.skip(j - i) =~= line@.subrange(j as int, end as int));
                assert(texts(tokens@.push(word)) =~= texts(tokens@) + seq![word@]);
                assert(texts(tokens@) + (seq![word@] + words(here.skip(j - i))) =~= texts(
                    tokens@.push(word),
                ) + words(here.skip(j - i)));
            }
            tokens.push(word);
            i = j;
        }
    }
    proof {
        assert(line@.subrange(end as int, end as int) =~= Seq::<char>::empty());
        assert(texts(tokens@) + Seq::<Seq<char>>::empty() =~= texts(tokens@));
    }
    tokens
}

/// A command line taken apart: the command's name and its arguments.
pub struct CommandLine {
    pub name: String,
    pub args: Vec<String>,
}

impl CommandLine {
    /// The words that the line was made of: the name, then the arguments.
    pub open spec fn tokens(self) -> Seq<Seq<char>> {
        seq![self.name@] + texts(self.args@)
    }
}

/// Reads a command line: its first word is the command's name, the words
/// after it are the arguments. A line without words holds no command.
pub fn parse_line(line: &str) -> (parsed: Option<CommandLine>)
    ensures
        line_words(line@).len() == 0 ==> parsed is None,
        line_words(line@).len() > 0 ==> parsed is Some && parsed->0.tokens() == line_words(line@),
{
    let mut tokens = split_line(line);
    if tokens.len() == 0 {
        return None;
    }
    let ghost all = tokens@;
    let name = tokens.remove(0);
    proof {
        assert(seq![name@] + texts(tokens@) =~= texts(all));
    }
    Some(CommandLine { name, args: tokens })
}

} // verus!
