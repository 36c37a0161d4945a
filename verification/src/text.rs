//! Text as sequences of characters: conversion between strings and character
//! vectors, searching, replacing, line splitting and joining.
//!
//! Every executable function here is specified by a spec function over
//! `Seq<char>`, so that callers can state their own contracts over the views
//! of the strings they handle.

use vstd::prelude::*;

verus! {

/// `String::push` appends one character to the end of the string.
pub assume_specification[ String::push ](s: &mut String, ch: char)
    ensures
        final(s)@ == old(s)@.push(ch),
;

/// The characters of `s`, in order.
pub fn to_chars(s: &str) -> (v: Vec<char>)
    ensures
        v@ == s@,
{
    let mut v: Vec<char> = Vec::new();
    let it = s.chars();
    for c in iter: it
        invariant
            v@ == iter.seq().take(iter.index()),
    {
        v.push(c);
    }
    v
}

/// The string made of the characters of `v`, in order.
pub fn from_chars(v: &Vec<char>) -> (s: String)
    ensures
        s@ == v@,
{
    let mut s = String::new();
    let mut i: usize = 0;
    while i < v.len()
        invariant
            i <= v.len(),
            s@ == v@.take(i as int),
        decreases v.len() - i,
    {
        s.push(v[i]);
        i = i + 1;
    }
    s
}

/// The text of a string that may be missing.
pub open spec fn opt_view(s: Option<String>) -> Option<Seq<char>> {
    match s {
        Some(s) => Some(s@),
        None => None,
    }
}

/// The text of `a` followed by the text of `b`.
pub fn append(a: &str, b: &str) -> (s: String)
    ensures
        s@ == a@ + b@,
{
    let mut out = to_chars(a);
    let tail = to_chars(b);
    extend(&mut out, &tail);
    from_chars(&out)
}

/// Appends the characters of `src` to `dst`.
pub fn extend(dst: &mut Vec<char>, src: &Vec<char>)
    ensures
        final(dst)@ == old(dst)@ + src@,
{
    let mut i: usize = 0;
    while i < src.len()
        invariant
            i <= src.len(),
            dst@ == old(dst)@ + src@.take(i as int),
        decreases src.len() - i,
    {
        dst.push(src[i]);
        i = i + 1;
    }
}

/// A copy of `src`.
pub fn copy(src: &Vec<char>) -> (out: Vec<char>)
    ensures
        out@ == src@,
{
    let mut out: Vec<char> = Vec::new();
    extend(&mut out, src);
    out
}

/// Whether the two texts hold the same characters.
pub fn same(a: &Vec<char>, b: &Vec<char>) -> (r: bool)
    ensures
        r == (a@ == b@),
{
    if a.len() != b.len() {
        return false;
    }
    let mut i: usize = 0;
    while i < a.len()
        invariant
            i <= a.len(),
            a.len() == b.len(),
            a@.take(i as int) == b@.take(i as int),
        decreases a.len() - i,
    {
        if a[i] != b[i] {
            return false;
        }
        assert(a@.take(i + 1) == a@.take(i as int).push(a@[i as int]));
        assert(b@.take(i + 1) == b@.take(i as int).push(b@[i as int]));
        i = i + 1;
    }
    assert(a@ == a@.take(a.len() as int));
    assert(b@ == b@.take(b.len() as int));
    true
}

/// `needle` occurs in `hay` starting at index `i`.
pub open spec fn matches_at(hay: Seq<char>, needle: Seq<char>, i: int) -> bool {
    0 <= i && i + needle.len() <= hay.len() && hay.subrange(i, i + needle.len()) == needle
}

/// `needle` occurs somewhere in `hay`.
pub open spec fn contains(hay: Seq<char>, needle: Seq<char>) -> bool {
    exists|i: int| matches_at(hay, needle, i)
}

/// `hay` begins with `prefix`.
pub open spec fn starts_with(hay: Seq<char>, prefix: Seq<char>) -> bool {
    matches_at(hay, prefix, 0)
}

/// Decides whether `needle` occurs in `hay` at index `i`.
pub fn occurs_at(hay: &Vec<char>, needle: &Vec<char>, i: usize) -> (r: bool)
    ensures
        r == matches_at(hay@, needle@, i as int),
{
    if i > hay.len() || needle.len() > hay.len() - i {
        return false;
    }
    let mut k: usize = 0;
    while k < needle.len()
        invariant
            k <= needle.len(),
            i + needle.len() <= hay.len(),
            hay@.subrange(i as int, i + k) == needle@.take(k as int),
        decreases needle.len() - k,
    {
        if hay[i + k] != needle[k] {
            assert(hay@.subrange(i as int, i + needle.len())[k as int] != needle@[k as int]);
            return false;
        }
        assert(hay@.subrange(i as int, i + k + 1) == hay@.subrange(i as int, i + k).push(
            hay@[i + k],
        ));
        assert(needle@.take(k + 1) == needle@.take(k as int).push(needle@[k as int]));
        k = k + 1;
    }
    assert(needle@.take(needle.len() as int) == needle@);
    true
}

/// Finds the first occurrence of `needle` in `hay`.
pub fn find(hay: &Vec<char>, needle: &Vec<char>) -> (r: Option<usize>)
    ensures
        r is Some <==> contains(hay@, needle@),
        r matches Some(i) ==> matches_at(hay@, needle@, i as int) && forall|j: int|
            0 <= j < i ==> !matches_at(hay@, needle@, j),
{
    if needle.len() > hay.len() {
        return None;
    }
    let last: usize = hay.len() - needle.len();
    let mut i: usize = 0;
    loop
        invariant
            i <= last,
            last == hay.len() - needle.len(),
            forall|j: int| 0 <= j < i ==> !matches_at(hay@, needle@, j),
        decreases last - i,
    {
        if occurs_at(hay, needle, i) {
            return Some(i);
        }
        if i == last {
            return None;
        }
        i = i + 1;
    }
}

/// Decides whether `needle` occurs in `hay`.
pub fn has(hay: &Vec<char>, needle: &Vec<char>) -> (r: bool)
    ensures
        r == contains(hay@, needle@),
{
    find(hay, needle).is_some()
}

/// `hay` with every occurrence of `from` replaced by `to`, scanning from the
/// left and never matching inside text that was matched before. With an
/// empty `from`, `to` is put before every character and at the end.
pub open spec fn replace_all(hay: Seq<char>, from: Seq<char>, to: Seq<char>) -> Seq<char>
    decreases hay.len(),
{
    if hay.len() == 0 {
        if from.len() == 0 {
            to
        } else {
            hay
        }
    } else if from.len() == 0 {
        to + seq![hay[0]] + replace_all(hay.skip(1), from, to)
    } else if starts_with(hay, from) {
        to + replace_all(hay.skip(from.len() as int), from, to)
    } else {
        seq![hay[0]] + replace_all(hay.skip(1), from, to)
    }
}

/// Replaces every occurrence of `from` in `hay` by `to`.
pub fn replace(hay: &Vec<char>, from: &Vec<char>, to: &Vec<char>) -> (out: Vec<char>)
    ensures
        out@ == replace_all(hay@, from@, to@),
{
    let mut out: Vec<char> = Vec::new();
    let mut i: usize = 0;
    assert(hay@.skip(0) == hay@);
    while i < hay.len()
        invariant
            i <= hay.len(),
            replace_all(hay@, from@, to@) == out@ + replace_all(hay@.skip(i as int), from@, to@),
        decreases hay.len() - i,
    {
        let ghost rest = hay@.skip(i as int);
        if from.len() == 0 {
            assert(rest.skip(1) == hay@.skip(i + 1));
            extend(&mut out, to);
            out.push(hay[i]);
            i = i + 1;
        } else if occurs_at(hay, from, i) {
            assert(rest.subrange(0, from@.len() as int) == hay@.subrange(
                i as int,
                i + from@.len(),
            ));
            assert(rest.skip(from@.len() as int) == hay@.skip(i + from@.len()));
            extend(&mut out, to);
            i = i + from.len();
        } else {
            assert(rest.len() >= from@.len() ==> rest.subrange(0, from@.len() as int)
                == hay@.subrange(i as int, i + from@.len()));
            assert(rest.skip(1) == hay@.skip(i + 1));
            out.push(hay[i]);
            i = i + 1;
        }
    }
    if from.len() == 0 {
        extend(&mut out, to);
    }
    out
}

/// The index of the first `c` in `s`, or the length of `s` where there is
/// none.
pub open spec fn index_of(s: Seq<char>, c: char) -> int
    decreases s.len(),
{
    if s.len() == 0 {
        0
    } else if s[0] == c {
        0
    } else {
        1 + index_of(s.skip(1), c)
    }
}

/// `index_of` lies within the text, points at `c` where it is inside, and
/// nothing before it is `c`.
pub proof fn lemma_index_of(s: Seq<char>, c: char)
    ensures
        0 <= index_of(s, c) <= s.len(),
        index_of(s, c) < s.len() ==> s[index_of(s, c)] == c,
        forall|j: int| 0 <= j < index_of(s, c) ==> s[j] != c,
    decreases s.len(),
{
    if s.len() > 0 && s[0] != c {
        lemma_index_of(s.skip(1), c);
        assert forall|j: int| 0 <= j < index_of(s, c) implies s[j] != c by {
            if j > 0 {
                assert(s.skip(1)[j - 1] == s[j]);
            }
        }
    }
}

/// An index that holds `c` and before which no `c` stands is the first
/// one; so is the length of a text without `c`.
pub proof fn lemma_index_of_unique(s: Seq<char>, c: char, k: int)
    requires
        0 <= k <= s.len(),
        k < s.len() ==> s[k] == c,
        forall|j: int| 0 <= j < k ==> s[j] != c,
    ensures
        index_of(s, c) == k,
{
    lemma_index_of(s, c);
}

/// The ending of a line that was cut off before its line feed: a carriage
/// return and a line feed where the line ends in a carriage return, and a
/// line feed alone otherwise.
pub open spec fn line_ending(line: Seq<char>) -> Seq<char> {
    if line.len() > 0 && line.last() == '\r' {
        seq!['\r', '\n']
    } else {
        seq!['\n']
    }
}

/// A line without the carriage return that may end it.
pub open spec fn strip_cr(line: Seq<char>) -> Seq<char> {
    if line.len() > 0 && line.last() == '\r' {
        line.drop_last()
    } else {
        line
    }
}

/// The lines of a text. A line ends at a line feed, or at a carriage return
/// directly followed by a line feed; neither belongs to the line. A carriage
/// return elsewhere is part of its line. The end of the last line need not be
/// marked: a text that ends in a line ending has the same lines as the text
/// without it, and the empty text has no lines.
pub open spec fn split_lines(text: Seq<char>) -> Seq<Seq<char>>
    decreases text.len(),
{
    if text.len() == 0 {
        Seq::empty()
    } else {
        let k = index_of(text, '\n');
        if 0 <= k < text.len() {
            seq![strip_cr(text.take(k))] + split_lines(text.skip(k + 1))
        } else {
            seq![text]
        }
    }
}

/// The view of a vector of texts.
pub open spec fn texts(v: Seq<Vec<char>>) -> Seq<Seq<char>> {
    v.map_values(|t: Vec<char>| t@)
}

/// The characters of `text` from `from` up to `to`.
pub fn slice(text: &Vec<char>, from: usize, to: usize) -> (out: Vec<char>)
    requires
        from <= to <= text.len(),
    ensures
        out@ == text@.subrange(from as int, to as int),
{
    let mut out: Vec<char> = Vec::new();
    let mut i: usize = from;
    while i < to
        invariant
            from <= i <= to,
            to <= text.len(),
            out@ == text@.subrange(from as int, i as int),
        decreases to - i,
    {
        out.push(text[i]);
        i = i + 1;
    }
    out
}

/// Splits a text into its lines.
pub fn lines(text: &Vec<char>) -> (out: Vec<Vec<char>>)
    ensures
        texts(out@) == split_lines(text@),
{
    let mut out: Vec<Vec<char>> = Vec::new();
    let mut start: usize = 0;
    let mut i: usize = 0;
    proof {
        assert(text@.skip(0) == text@);
        lemma_index_of(text@, '\n');
        assert(texts(out@) == Seq::<Seq<char>>::empty());
    }
    while i < text.len()
        invariant
            start <= i <= text.len(),
            index_of(text@.skip(start as int), '\n') >= i - start,
            split_lines(text@) == texts(out@) + split_lines(text@.skip(start as int)),
        decreases text.len() - i,
    {
        let ghost rest = text@.skip(start as int);
        proof {
            lemma_index_of(rest, '\n');
        }
        if text[i] == '\n' {
            let end: usize = if i > start && text[i - 1] == '\r' {
                i - 1
            } else {
                i
            };
            let line = slice(text, start, end);
            proof {
                assert(rest[i - start] == '\n');
                assert(index_of(rest, '\n') == i - start);
                assert(rest.take(i - start) == text@.subrange(start as int, i as int));
                assert(line@ == strip_cr(rest.take(i - start)));
                assert(rest.skip(i - start + 1) == text@.skip(i + 1));
                assert(texts(out@.push(line)) == texts(out@) + seq![line@]);
            }
            out.push(line);
            i = i + 1;
            start = i;
            proof {
                lemma_index_of(text@.skip(start as int), '\n');
            }
        } else {
            proof {
                if index_of(rest, '\n') == i - start {
                    assert(rest[i - start] == text@[i as int]);
                }
            }
            i = i + 1;
        }
    }
    if start < text.len() {
        let line = slice(text, start, text.len());
        proof {
            let rest = text@.skip(start as int);
            lemma_index_of(rest, '\n');
            assert(line@ == rest);
            assert(texts(out@.push(line)) == texts(out@) + seq![line@]);
        }
        out.push(line);
    }
    out
}

/// The index of the last `c` in `s`, or -1 where there is none.
pub open spec fn last_index_of(s: Seq<char>, c: char) -> int
    decreases s.len(),
{
    if s.len() == 0 {
        -1
    } else if s.last() == c {
        s.len() - 1
    } else {
        last_index_of(s.drop_last(), c)
    }
}

/// `last_index_of` points at `c` where it is not -1, and nothing after it is
/// `c`.
pub proof fn lemma_last_index_of(s: Seq<char>, c: char)
    ensures
        -1 <= last_index_of(s, c) < s.len(),
        last_index_of(s, c) >= 0 ==> s[last_index_of(s, c)] == c,
        forall|j: int| last_index_of(s, c) < j < s.len() ==> s[j] != c,
    decreases s.len(),
{
    if s.len() > 0 && s.last() != c {
        let front = s.drop_last();
        lemma_last_index_of(front, c);
        assert forall|j: int| last_index_of(s, c) < j < s.len() implies s[j] != c by {
            if j < front.len() {
                assert(front[j] == s[j]);
            }
        }
    }
}

/// An index that holds `c` and after which no `c` follows is the last one.
pub proof fn lemma_last_index_of_unique(s: Seq<char>, c: char, i: int)
    requires
        -1 <= i < s.len(),
        i >= 0 ==> s[i] == c,
        forall|j: int| i < j < s.len() ==> s[j] != c,
    ensures
        last_index_of(s, c) == i,
{
    lemma_last_index_of(s, c);
}

/// The last `c` of a text made of two parts is the last `c` of the second
/// part, or else the last `c` of the first.
pub proof fn lemma_last_index_of_add(front: Seq<char>, back: Seq<char>, c: char)
    ensures
        last_index_of(front + back, c) == (if last_index_of(back, c) >= 0 {
            front.len() + last_index_of(back, c)
        } else {
            last_index_of(front, c)
        }),
{
    let whole = front + back;
    lemma_last_index_of(front, c);
    lemma_last_index_of(back, c);
    if last_index_of(back, c) >= 0 {
        let i = front.len() + last_index_of(back, c);
        assert(whole[i] == back[last_index_of(back, c)]);
        assert forall|j: int| i < j < whole.len() implies whole[j] != c by {
            assert(whole[j] == back[j - front.len()]);
        }
        lemma_last_index_of_unique(whole, c, i);
    } else {
        let i = last_index_of(front, c);
        assert forall|j: int| i < j < whole.len() implies whole[j] != c by {
            if j < front.len() {
                assert(whole[j] == front[j]);
            } else {
                assert(whole[j] == back[j - front.len()]);
            }
        }
        if i >= 0 {
            assert(whole[i] == front[i]);
        }
        lemma_last_index_of_unique(whole, c, i);
    }
}

/// Finds the last `c` in `s`.
pub fn rfind(s: &Vec<char>, c: char) -> (r: Option<usize>)
    ensures
        r is None <==> last_index_of(s@, c) == -1,
        r matches Some(i) ==> i as int == last_index_of(s@, c) && i < s.len(),
{
    let mut i: usize = s.len();
    while i > 0
        invariant
            i <= s.len(),
            forall|j: int| i <= j < s.len() ==> s@[j] != c,
        decreases i,
    {
        i = i - 1;
        if s[i] == c {
            proof {
                lemma_last_index_of_unique(s@, c, i as int);
            }
            return Some(i);
        }
    }
    proof {
        lemma_last_index_of_unique(s@, c, -1);
    }
    None
}

/// The decimal digit for `d`.
pub open spec fn digit_char(d: int) -> char {
    seq!['0', '1', '2', '3', '4', '5', '6', '7', '8', '9'][d]
}

/// The number `n` in decimal digits.
pub open spec fn digits(n: nat) -> Seq<char>
    decreases n,
{
    if n < 10 {
        seq![digit_char(n as int)]
    } else {
        digits(n / 10).push(digit_char((n % 10) as int))
    }
}

/// The decimal digit for `d`.
fn digit(d: usize) -> (c: char)
    requires
        d < 10,
    ensures
        c == digit_char(d as int),
{
    if d == 0 {
        '0'
    } else if d == 1 {
        '1'
    } else if d == 2 {
        '2'
    } else if d == 3 {
        '3'
    } else if d == 4 {
        '4'
    } else if d == 5 {
        '5'
    } else if d == 6 {
        '6'
    } else if d == 7 {
        '7'
    } else if d == 8 {
        '8'
    } else {
        '9'
    }
}

/// Writes `n` in decimal digits.
pub fn decimal(n: usize) -> (out: Vec<char>)
    ensures
        out@ == digits(n as nat),
    decreases n,
{
    if n < 10 {
        let mut out: Vec<char> = Vec::new();
        out.push(digit(n));
        assert(out@ =~= seq![digit_char(n as int)]);
        out
    } else {
        let mut out = decimal(n / 10);
        out.push(digit(n % 10));
        out
    }
}

} // verus!
