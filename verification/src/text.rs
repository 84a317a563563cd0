//! Text as sequences of characters: searching, trimming and splitting.
//!
//! Every position in this module counts characters, not bytes.

use vstd::prelude::*;
use vstd::string::StrSliceExecFns;

verus! {

/// The characters that carry the Unicode property `White_Space`.
pub open spec fn is_whitespace_char(c: char) -> bool {
    ||| '\u{9}' <= c <= '\u{d}'
    ||| c == ' '
    ||| c == '\u{85}'
    ||| c == '\u{a0}'
    ||| c == '\u{1680}'
    ||| '\u{2000}' <= c <= '\u{200a}'
    ||| c == '\u{2028}'
    ||| c == '\u{2029}'
    ||| c == '\u{202f}'
    ||| c == '\u{205f}'
    ||| c == '\u{3000}'
}

/// Whether `c` is a white-space character.
pub fn is_whitespace(c: char) -> (b: bool)
    ensures
        b == is_whitespace_char(c),
{
    ('\u{9}' <= c && c <= '\u{d}') || c == ' ' || c == '\u{85}' || c == '\u{a0}' || c == '\u{1680}'
        || ('\u{2000}' <= c && c <= '\u{200a}') || c == '\u{2028}' || c == '\u{2029}' || c
        == '\u{202f}' || c == '\u{205f}' || c == '\u{3000}'
}

/// The characters of `s`, in order.
pub fn to_chars(s: &str) -> (v: Vec<char>)
    ensures
        v@ == s@,
{
    let mut v: Vec<char> = Vec::new();
    for c in it: s.chars()
        invariant
            v@ == it.seq().take(it.index() as int),
    {
        v.push(c);
    }
    v
}

/// Whether the two texts hold the same characters.
pub fn same_text(a: &str, b: &str) -> (same: bool)
    ensures
        same == (a@ == b@),
{
    let x = to_chars(a);
    let y = to_chars(b);
    if x.len() != y.len() {
        return false;
    }
    let mut i: usize = 0;
    while i < x.len()
        invariant
            i <= x.len(),
            x.len() == y.len(),
            x@ == a@,
            y@ == b@,
            forall|j: int| 0 <= j < i ==> x@[j] == y@[j],
        decreases x.len() - i,
    {
        if x[i] != y[i] {
            return false;
        }
        i += 1;
    }
    assert(x@ =~= y@);
    true
}

/// `text` without its leading white space.
pub open spec fn trim_start_text(text: Seq<char>) -> Seq<char>
    decreases text.len(),
{
    if text.len() > 0 && is_whitespace_char(text[0]) {
        trim_start_text(text.skip(1))
    } else {
        text
    }
}

/// `text` without its trailing white space.
pub open spec fn trim_end_text(text: Seq<char>) -> Seq<char>
    decreases text.len(),
{
    if text.len() > 0 && is_whitespace_char(text.last()) {
        trim_end_text(text.drop_last())
    } else {
        text
    }
}

/// `text` without the white space at either end.
pub open spec fn trim_text(text: Seq<char>) -> Seq<char> {
    trim_end_text(trim_start_text(text))
}

/// Removes the white space at both ends of `text`.
pub fn trim<'a>(text: &'a str) -> (trimmed: &'a str)
    ensures
        trimmed@ == trim_text(text@),
{
    let chars = to_chars(text);
    let n: usize = chars.len();
    let mut lo: usize = 0;
    assert(chars@.skip(0) =~= chars@);
    while lo < n && is_whitespace(chars[lo])
        invariant
            lo <= n,
            n == chars.len(),
            trim_start_text(chars@) == trim_start_text(chars@.skip(lo as int)),
        decreases n - lo,
    {
        assert(chars@.skip(lo as int).skip(1) =~= chars@.skip(lo + 1));
        lo += 1;
    }
    assert(trim_start_text(chars@) == chars@.skip(lo as int));
    let mut hi: usize = n;
    assert(chars@.skip(lo as int) =~= chars@.subrange(lo as int, hi as int));
    while hi > lo && is_whitespace(chars[hi - 1])
        invariant
            lo <= hi <= n,
            n == chars.len(),
            trim_text(chars@) == trim_end_text(chars@.subrange(lo as int, hi as int)),
        decreases hi - lo,
    {
        assert(chars@.subrange(lo as int, hi as int).drop_last() =~= chars@.subrange(
            lo as int,
            hi - 1,
        ));
        hi -= 1;
    }
    text.substring_char(lo, hi)
}

/// Whether `pattern` stands in `text` at position `i`.
pub open spec fn matches_at(text: Seq<char>, pattern: Seq<char>, i: int) -> bool {
    0 <= i && i + pattern.len() <= text.len() && text.subrange(i, i + pattern.len()) == pattern
}

/// Whether `pattern` stands somewhere in `text`.
pub open spec fn occurs_in(text: Seq<char>, pattern: Seq<char>) -> bool {
    exists|i: int| matches_at(text, pattern, i)
}

/// Whether `i` is the leftmost position at which `pattern` stands in `text`.
pub open spec fn is_first_match(text: Seq<char>, pattern: Seq<char>, i: int) -> bool {
    matches_at(text, pattern, i) && forall|j: int| 0 <= j < i ==> !matches_at(text, pattern, j)
}

/// The leftmost position at which `pattern` stands in `text`, if there is one.
pub open spec fn first_match(text: Seq<char>, pattern: Seq<char>) -> Option<int> {
    if occurs_in(text, pattern) {
        Some(choose|i: int| is_first_match(text, pattern, i))
    } else {
        None
    }
}

/// A leftmost match is the value of `first_match`.
pub proof fn lemma_first_match_is(text: Seq<char>, pattern: Seq<char>, i: int)
    requires
        is_first_match(text, pattern, i),
    ensures
        first_match(text, pattern) == Some(i),
{
    let j = choose|j: int| is_first_match(text, pattern, j);
    assert(is_first_match(text, pattern, j));
    if j < i {
        assert(!matches_at(text, pattern, j));
    }
    if i < j {
        assert(!matches_at(text, pattern, i));
    }
}

fn matches_here(text: &Vec<char>, pattern: &Vec<char>, i: usize) -> (b: bool)
    requires
        i + pattern.len() <= text.len(),
    ensures
        b == matches_at(text@, pattern@, i as int),
{
    let m: usize = pattern.len();
    let mut k: usize = 0;
    while k < m
        invariant
            k <= m,
            m == pattern.len(),
            i + m <= text.len(),
            forall|j: int| 0 <= j < k ==> text@[i + j] == pattern@[j],
        decreases m - k,
    {
        if text[i + k] != pattern[k] {
            assert(text@.subrange(i as int, i + m)[k as int] == text@[i + k]);
            return false;
        }
        k += 1;
    }
    assert(text@.subrange(i as int, i + m) =~= pattern@);
    true
}

/// The position of the first occurrence of `pattern` in `text`.
pub fn first_index_of(text: &str, pattern: &str) -> (found: Option<usize>)
    ensures
        match found {
            Some(i) => first_match(text@, pattern@) == Some(i as int),
            None => first_match(text@, pattern@) is None,
        },
{
    let chars = to_chars(text);
    let pat = to_chars(pattern);
    let n: usize = chars.len();
    let m: usize = pat.len();
    if m > n {
        return None;
    }
    let mut i: usize = 0;
    while n - i >= m
        invariant
            m <= n,
            n == chars.len(),
            m == pat.len(),
            i <= n,
            chars@ == text@,
            pat@ == pattern@,
            forall|j: int| 0 <= j < i ==> !matches_at(chars@, pat@, j),
        decreases n - i,
    {
        if matches_here(&chars, &pat, i) {
            proof {
                lemma_first_match_is(chars@, pat@, i as int);
            }
            return Some(i);
        }
        assert(m > 0) by {
            if m == 0 {
                assert(chars@.subrange(i as int, i + m) =~= pat@);
            }
        }
        i += 1;
    }
    None
}

/// Whether `pattern` stands somewhere in `text`.
pub fn contains(text: &str, pattern: &str) -> (found: bool)
    ensures
        found == occurs_in(text@, pattern@),
{
    first_index_of(text, pattern).is_some()
}

/// `text` with every leading repetition of `prefix` removed.
pub open spec fn strip_prefixes(text: Seq<char>, prefix: Seq<char>) -> Seq<char>
    decreases text.len(),
{
    if prefix.len() > 0 && matches_at(text, prefix, 0) {
        strip_prefixes(text.skip(prefix.len() as int), prefix)
    } else {
        text
    }
}

/// Removes every leading repetition of `prefix` from `text`.
pub fn trim_start_matches<'a>(text: &'a str, prefix: &str) -> (rest: &'a str)
    ensures
        rest@ == strip_prefixes(text@, prefix@),
{
    let chars = to_chars(text);
    let pat = to_chars(prefix);
    let n: usize = chars.len();
    let m: usize = pat.len();
    if m == 0 {
        return text;
    }
    let mut lo: usize = 0;
    assert(chars@.skip(0) =~= chars@);
    while n - lo >= m
        invariant
            lo <= n,
            n == chars.len(),
            0 < m == pat.len(),
            chars@ == text@,
            pat@ == prefix@,
            strip_prefixes(chars@, pat@) == strip_prefixes(chars@.skip(lo as int), pat@),
        decreases n - lo,
    {
        let ghost rest = chars@.skip(lo as int);
        assert(rest.subrange(0, m as int) =~= chars@.subrange(lo as int, lo + m));
        if !matches_here(&chars, &pat, lo) {
            assert(!matches_at(rest, pat@, 0));
            assert(rest =~= chars@.subrange(lo as int, n as int));
            return text.substring_char(lo, n);
        }
        assert(matches_at(rest, pat@, 0));
        assert(rest.skip(m as int) =~= chars@.skip(lo + m));
        lo += m;
    }
    assert(chars@.skip(lo as int) =~= chars@.subrange(lo as int, n as int));
    text.substring_char(lo, n)
}

/// `text` up to the first occurrence of `pattern`, trimmed; `text` itself
/// where `pattern` does not occur.
pub open spec fn cut_before(text: Seq<char>, pattern: Seq<char>) -> Seq<char> {
    match first_match(text, pattern) {
        Some(i) => trim_text(text.take(i)),
        None => text,
    }
}

/// `text` cut before each of `patterns` in turn.
pub open spec fn trim_left_text(text: Seq<char>, patterns: Seq<Seq<char>>) -> Seq<char>
    decreases patterns.len(),
{
    if patterns.len() == 0 {
        text
    } else {
        cut_before(trim_left_text(text, patterns.drop_last()), patterns.last())
    }
}

/// The character sequences of a list of strings.
pub open spec fn string_texts(strings: Seq<String>) -> Seq<Seq<char>> {
    Seq::new(strings.len(), |i: int| strings[i]@)
}

/// Keeps what stands before the first occurrence of `pattern`, trimmed.
/// A text without the pattern comes back unchanged, untrimmed.
pub fn cut<'a>(text: &'a str, pattern: &str) -> (kept: &'a str)
    ensures
        kept@ == cut_before(text@, pattern@),
{
    match first_index_of(text, pattern) {
        Some(i) => {
            assert(matches_at(text@, pattern@, i as int)) by {
                lemma_first_match_found(text@, pattern@);
            }
            let head = text.substring_char(0, i);
            assert(head@ =~= text@.take(i as int));
            trim(head)
        },
        None => text,
    }
}

/// The value of `first_match`, where there is one, is a leftmost match.
pub proof fn lemma_first_match_found(text: Seq<char>, pattern: Seq<char>)
    requires
        first_match(text, pattern) is Some,
    ensures
        is_first_match(text, pattern, first_match(text, pattern)->0),
{
    let w = choose|i: int| matches_at(text, pattern, i);
    lemma_leftmost_exists(text, pattern, w);
}

proof fn lemma_leftmost_exists(text: Seq<char>, pattern: Seq<char>, w: int)
    requires
        matches_at(text, pattern, w),
    ensures
        exists|i: int| is_first_match(text, pattern, i),
    decreases w,
{
    if exists|j: int| 0 <= j < w && matches_at(text, pattern, j) {
        let j = choose|j: int| 0 <= j < w && matches_at(text, pattern, j);
        lemma_leftmost_exists(text, pattern, j);
    } else {
        assert(is_first_match(text, pattern, w));
    }
}

/// Cuts `text` before the first occurrence of each pattern in turn, trimming
/// the white space around what is kept after each cut.
pub fn trim_left(text: &str, patterns: Vec<String>) -> (ret: String)
    ensures
        ret@ == trim_left_text(text@, string_texts(patterns@)),
{
    let mut ret: &str = text;
    let mut k: usize = 0;
    while k < patterns.len()
        invariant
            k <= patterns.len(),
            ret@ == trim_left_text(text@, string_texts(patterns@).take(k as int)),
        decreases patterns.len() - k,
    {
        let ghost all = string_texts(patterns@);
        assert(all.take(k + 1).drop_last() =~= all.take(k as int));
        assert(all.take(k + 1).last() == patterns@[k as int]@);
        ret = cut(ret, patterns[k].as_str());
        k += 1;
    }
    assert(string_texts(patterns@).take(k as int) =~= string_texts(patterns@));
    ret.to_owned()
}

/// What an optional string slice stands for in contracts.
pub open spec fn option_text(text: Option<&str>) -> Option<Seq<char>> {
    match text {
        Some(t) => Some(t@),
        None => None,
    }
}

/// The sequences of characters that a list of string slices holds.
pub open spec fn slice_texts(pieces: Seq<&str>) -> Seq<Seq<char>> {
    Seq::new(pieces.len(), |i: int| pieces[i]@)
}

/// The position of the first character of `text` that is one of
/// `separators`; the length of `text` where there is none.
pub open spec fn first_separator(text: Seq<char>, separators: Seq<char>) -> int
    decreases text.len(),
{
    if text.len() == 0 || separators.contains(text[0]) {
        0
    } else {
        1 + first_separator(text.skip(1), separators)
    }
}

/// The pieces of `text` between its separator characters, in order. A text
/// with `n` separators has `n + 1` pieces, some of them possibly empty.
pub open spec fn split_text(text: Seq<char>, separators: Seq<char>) -> Seq<Seq<char>>
    decreases text.len(),
{
    let p = first_separator(text, separators);
    if 0 <= p < text.len() {
        seq![text.take(p)] + split_text(text.skip(p + 1), separators)
    } else {
        seq![text]
    }
}

/// `first_separator` is the one position before which no separator stands
/// and at which one does, or the text ends.
pub proof fn lemma_first_separator(text: Seq<char>, separators: Seq<char>, k: int)
    requires
        0 <= k <= text.len(),
        forall|j: int| 0 <= j < k ==> !separators.contains(text[j]),
        k < text.len() ==> separators.contains(text[k]),
    ensures
        first_separator(text, separators) == k,
    decreases k,
{
    if k > 0 {
        let rest = text.skip(1);
        assert forall|j: int| 0 <= j < k - 1 implies !separators.contains(rest[j]) by {
            assert(rest[j] == text[j + 1]);
        }
        lemma_first_separator(rest, separators, k - 1);
    }
}

fn is_one_of(c: char, set: &Vec<char>) -> (b: bool)
    ensures
        b == set@.contains(c),
{
    let mut i: usize = 0;
    while i < set.len()
        invariant
            i <= set.len(),
            forall|j: int| 0 <= j < i ==> set@[j] != c,
        decreases set.len() - i,
    {
        if set[i] == c {
            return true;
        }
        i += 1;
    }
    false
}

/// Splits `text` at every character that occurs in `separators`.
pub fn split<'a>(text: &'a str, separators: &str) -> (pieces: Vec<&'a str>)
    ensures
        slice_texts(pieces@) == split_text(text@, separators@),
        pieces.len() >= 1,
{
    let chars = to_chars(text);
    let seps = to_chars(separators);
    let n: usize = chars.len();
    let mut pieces: Vec<&'a str> = Vec::new();
    let mut start: usize = 0;
    let mut i: usize = 0;
    assert(chars@.skip(0) =~= chars@);
    assert(slice_texts(pieces@) =~= Seq::<Seq<char>>::empty());
    while i < n
        invariant
            start <= i <= n,
            n == chars.len(),
            chars@ == text@,
            seps@ == separators@,
            forall|j: int| start <= j < i ==> !seps@.contains(chars@[j]),
            slice_texts(pieces@) + split_text(chars@.skip(start as int), seps@) == split_text(
                chars@,
                seps@,
            ),
        decreases n - i,
    {
        if is_one_of(chars[i], &seps) {
            let ghost rest = chars@.skip(start as int);
            let ghost before = slice_texts(pieces@);
            proof {
                lemma_first_separator(rest, seps@, i - start);
                assert(rest.take(i - start) =~= chars@.subrange(start as int, i as int));
                assert(rest.skip(i - start + 1) =~= chars@.skip(i + 1));
            }
            let piece = text.substring_char(start, i);
            pieces.push(piece);
            proof {
                assert(slice_texts(pieces@) =~= before + seq![piece@]);
                assert((before + seq![piece@]) + split_text(chars@.skip(i + 1), seps@) =~= before
                    + (seq![piece@] + split_text(chars@.skip(i + 1), seps@)));
            }
            start = i + 1;
        }
        i += 1;
    }
    let ghost rest = chars@.skip(start as int);
    let ghost before = slice_texts(pieces@);
    proof {
        lemma_first_separator(rest, seps@, n - start);
        assert(rest =~= chars@.subrange(start as int, n as int));
    }
    let piece = text.substring_char(start, n);
    pieces.push(piece);
    assert(slice_texts(pieces@) =~= before + seq![piece@]);
    pieces
}

/// `line` without one carriage return at its end.
pub open spec fn without_carriage_return(line: Seq<char>) -> Seq<char> {
    if line.len() > 0 && line.last() == '\r' {
        line.drop_last()
    } else {
        line
    }
}

/// The lines of `text`. A line ends at a line feed; the line feed and a
/// carriage return just before it are not part of the line. What follows the
/// last line feed is a line only if it is not empty, and keeps a carriage
/// return at its end.
pub open spec fn lines_text(text: Seq<char>) -> Seq<Seq<char>>
    decreases text.len(),
{
    let p = first_separator(text, seq!['\n']);
    if text.len() == 0 {
        Seq::empty()
    } else if 0 <= p < text.len() {
        seq![without_carriage_return(text.take(p))] + lines_text(text.skip(p + 1))
    } else {
        seq![text]
    }
}

/// The lines of `text`.
pub fn lines<'a>(text: &'a str) -> (found: Vec<&'a str>)
    ensures
        slice_texts(found@) == lines_text(text@),
{
    let chars = to_chars(text);
    let n: usize = chars.len();
    let ghost feed = seq!['\n'];
    let mut found: Vec<&'a str> = Vec::new();
    let mut start: usize = 0;
    let mut i: usize = 0;
    assert(chars@.skip(0) =~= chars@);
    assert(slice_texts(found@) =~= Seq::<Seq<char>>::empty());
    while i < n
        invariant
            start <= i <= n,
            n == chars.len(),
            chars@ == text@,
            feed == seq!['\n'],
            forall|j: int| start <= j < i ==> chars@[j] != '\n',
            slice_texts(found@) + lines_text(chars@.skip(start as int)) == lines_text(chars@),
        decreases n - i,
    {
        if chars[i] == '\n' {
            let ghost rest = chars@.skip(start as int);
            let ghost before = slice_texts(found@);
            proof {
                assert(feed[0] == '\n');
                assert forall|j: int| 0 <= j < i - start implies !feed.contains(rest[j]) by {
                    assert(rest[j] == chars@[start + j]);
                }
                assert(feed.contains(rest[i - start]));
                lemma_first_separator(rest, feed, i - start);
                assert(rest.take(i - start) =~= chars@.subrange(start as int, i as int));
                assert(rest.skip(i - start + 1) =~= chars@.skip(i + 1));
            }
            let end: usize = if i > start && chars[i - 1] == '\r' {
                i - 1
            } else {
                i
            };
            proof {
                let line = chars@.subrange(start as int, i as int);
                if i > start {
                    assert(line.last() == chars@[i - 1]);
                }
                assert(without_carriage_return(line) =~= chars@.subrange(
                    start as int,
                    end as int,
                ));
            }
            let piece = text.substring_char(start, end);
            found.push(piece);
            proof {
                assert(slice_texts(found@) =~= before + seq![piece@]);
                assert((before + seq![piece@]) + lines_text(chars@.skip(i + 1)) =~= before + (
                seq![piece@] + lines_text(chars@.skip(i + 1))));
            }
            start = i + 1;
        }
        i += 1;
    }
    if start < n {
        let ghost rest = chars@.skip(start as int);
        let ghost before = slice_texts(found@);
        proof {
            assert(feed[0] == '\n');
            assert forall|j: int| 0 <= j < n - start implies !feed.contains(rest[j]) by {
                assert(rest[j] == chars@[start + j]);
            }
            lemma_first_separator(rest, feed, n - start);
            assert(rest =~= chars@.subrange(start as int, n as int));
        }
        let piece = text.substring_char(start, n);
        found.push(piece);
        assert(slice_texts(found@) =~= before + seq![piece@]);
    } else {
        assert(lines_text(chars@.skip(start as int)) =~= Seq::<Seq<char>>::empty());
        assert(slice_texts(found@) + Seq::<Seq<char>>::empty() =~= slice_texts(found@));
    }
    found
}

/// A text that holds `c` nowhere is not cut before `c`.
pub proof fn lemma_cut_without_char(text: Seq<char>, c: char)
    requires
        forall|i: int| 0 <= i < text.len() ==> text[i] != c,
    ensures
        cut_before(text, seq![c]) == text,
{
    assert forall|i: int| !matches_at(text, seq![c], i) by {
        if matches_at(text, seq![c], i) {
            assert(text.subrange(i, i + 1)[0] == seq![c][0]);
        }
    }
}

/// A text without a separator is its own single piece.
pub proof fn lemma_split_without_separator(text: Seq<char>, separators: Seq<char>)
    requires
        forall|i: int| 0 <= i < text.len() ==> !separators.contains(text[i]),
    ensures
        split_text(text, separators) == seq![text],
{
    lemma_first_separator(text, separators, text.len() as int);
}

/// The first piece of a text ends at its first separator, and the other
/// pieces are those of what follows the separator.
pub proof fn lemma_split_at_first_separator(
    head: Seq<char>,
    separator: char,
    tail: Seq<char>,
    separators: Seq<char>,
)
    requires
        forall|i: int| 0 <= i < head.len() ==> !separators.contains(head[i]),
        separators.contains(separator),
    ensures
        split_text(head + seq![separator] + tail, separators) == seq![head] + split_text(
            tail,
            separators,
        ),
{
    let text = head + seq![separator] + tail;
    assert(text[head.len() as int] == separator);
    assert forall|j: int| 0 <= j < head.len() implies !separators.contains(text[j]) by {
        assert(text[j] == head[j]);
    }
    lemma_first_separator(text, separators, head.len() as int);
    assert(text.take(head.len() as int) =~= head);
    assert(text.skip(head.len() as int + 1) =~= tail);
}

} // verus!
