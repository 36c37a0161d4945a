//! File paths as text: segments separated by `/`.
//!
//! The file name of a path is what follows its last `/`. Its extension is
//! what follows the last `.` of the file name, unless the file name has no
//! `.`, begins with its only `.`, or is `..`.
//!
//! A path is taken as it is written, and is expected in the form in which
//! a walk of a directory or a file system watcher hands it out: without a
//! `/` at its end, and without segments `.` or `..` in its middle. A path
//! that ends in `/` has an empty file name here and no extension, and a
//! segment `.` counts as a name like any other.

use crate::text;
use vstd::prelude::*;

verus! {

/// The index at which the file name of `path` begins.
pub open spec fn name_start(path: Seq<char>) -> int {
    text::last_index_of(path, '/') + 1
}

/// The file name of `path`.
pub open spec fn file_name(path: Seq<char>) -> Seq<char> {
    path.skip(name_start(path))
}

/// The text `..`.
pub open spec fn dot_dot() -> Seq<char> {
    seq!['.', '.']
}

/// The index of the `.` that begins the extension of `path`, or the length
/// of `path` where it has no extension.
pub open spec fn extension_dot(path: Seq<char>) -> int {
    let dot = text::last_index_of(path, '.');
    if dot > name_start(path) && file_name(path) != dot_dot() {
        dot
    } else {
        path.len() as int
    }
}

/// The extension of `path`, without its `.`.
pub open spec fn extension(path: Seq<char>) -> Option<Seq<char>> {
    if extension_dot(path) < path.len() {
        Some(path.skip(extension_dot(path) + 1))
    } else {
        None
    }
}

/// `extension_dot` lies within the file name or at the end of the path.
pub proof fn lemma_extension_dot(path: Seq<char>)
    ensures
        name_start(path) <= extension_dot(path) <= path.len(),
        0 <= name_start(path) <= path.len(),
        extension_dot(path) < path.len() ==> path[extension_dot(path)] == '.'
            && name_start(path) < extension_dot(path),
{
    text::lemma_last_index_of(path, '/');
    text::lemma_last_index_of(path, '.');
}

/// Behind a directory, a path keeps its file name and its extension:
/// where `dir` ends in `/`, the file name of `dir + rest` is that of `rest`,
/// and its extension begins where that of `rest` begins.
pub proof fn lemma_extension_dot_below(dir: Seq<char>, rest: Seq<char>)
    requires
        dir.len() > 0,
        dir.last() == '/',
    ensures
        name_start(dir + rest) == dir.len() + name_start(rest),
        file_name(dir + rest) == file_name(rest),
        extension_dot(dir + rest) == dir.len() + extension_dot(rest),
{
    let whole = dir + rest;
    text::lemma_last_index_of_add(dir, rest, '/');
    text::lemma_last_index_of_add(dir, rest, '.');
    text::lemma_last_index_of(dir, '/');
    text::lemma_last_index_of(dir, '.');
    text::lemma_last_index_of(rest, '/');
    text::lemma_last_index_of(rest, '.');
    assert(text::last_index_of(dir, '/') == dir.len() - 1);
    assert(name_start(whole) == dir.len() + name_start(rest));
    assert(file_name(whole) =~= file_name(rest));
}

/// Finds where the file name of `path` begins.
pub fn find_name_start(path: &Vec<char>) -> (start: usize)
    ensures
        start as int == name_start(path@),
        start <= path.len(),
{
    proof {
        text::lemma_last_index_of(path@, '/');
    }
    match text::rfind(path, '/') {
        Some(i) => i + 1,
        None => 0,
    }
}

/// Decides whether `name` is the text `..`.
pub fn is_dot_dot(name: &Vec<char>) -> (r: bool)
    ensures
        r == (name@ == dot_dot()),
{
    let r = name.len() == 2 && name[0] == '.' && name[1] == '.';
    proof {
        if r {
            assert(name@ =~= dot_dot());
        } else if name.len() == 2 {
            assert(dot_dot()[0] == '.' && dot_dot()[1] == '.');
        } else {
            assert(name@.len() != dot_dot().len());
        }
    }
    r
}

/// Finds where the extension of `path` begins.
pub fn find_extension_dot(path: &Vec<char>) -> (dot: usize)
    ensures
        dot as int == extension_dot(path@),
{
    proof {
        text::lemma_last_index_of(path@, '.');
    }
    let start = find_name_start(path);
    match text::rfind(path, '.') {
        Some(d) => {
            let name = text::slice(path, start, path.len());
            assert(name@ == file_name(path@));
            if d > start && !is_dot_dot(&name) {
                d
            } else {
                path.len()
            }
        },
        None => path.len(),
    }
}

/// The extension of `path`, if it has one.
pub fn extension_of(path: &str) -> (ext: Option<String>)
    ensures
        ext is Some <==> extension(path@) is Some,
        ext matches Some(e) ==> extension(path@) == Some(e@),
{
    let chars = text::to_chars(path);
    let dot = find_extension_dot(&chars);
    if dot < chars.len() {
        let ext = text::slice(&chars, dot + 1, chars.len());
        Some(text::from_chars(&ext))
    } else {
        None
    }
}

/// Whether the extension of `path` is `ext`.
pub fn has_extension(path: &str, ext: &str) -> (r: bool)
    ensures
        r == (extension(path@) == Some(ext@)),
{
    let chars = text::to_chars(path);
    let wanted = text::to_chars(ext);
    let dot = find_extension_dot(&chars);
    if dot < chars.len() {
        let found = text::slice(&chars, dot + 1, chars.len());
        text::same(&found, &wanted)
    } else {
        false
    }
}

/// The directory that holds the file at `path`: what stands before the
/// file name, or `.` where nothing does.
pub open spec fn spec_parent(path: Seq<char>) -> Seq<char> {
    if name_start(path) == 0 {
        seq!['.']
    } else {
        path.take(name_start(path))
    }
}

/// The directory that holds the file at `path`.
pub fn parent(path: &str) -> (dir: String)
    ensures
        dir@ == spec_parent(path@),
{
    let chars = text::to_chars(path);
    let start = find_name_start(&chars);
    let mut dir = text::slice(&chars, 0, start);
    if start == 0 {
        dir.push('.');
        assert(dir@ =~= seq!['.']);
    }
    text::from_chars(&dir)
}

/// `base` followed by `rel`. A `rel` that begins with `/` stands alone;
/// otherwise a `/` is put between the two unless `base` is empty or ends
/// with one.
pub open spec fn spec_join(base: Seq<char>, rel: Seq<char>) -> Seq<char> {
    if rel.len() > 0 && rel[0] == '/' {
        rel
    } else if base.len() == 0 || base.last() == '/' {
        base + rel
    } else {
        base + seq!['/'] + rel
    }
}

/// Joins `rel` onto `base`.
pub fn join(base: &str, rel: &str) -> (out: String)
    ensures
        out@ == spec_join(base@, rel@),
{
    let b = text::to_chars(base);
    let r = text::to_chars(rel);
    if r.len() > 0 && r[0] == '/' {
        return text::from_chars(&r);
    }
    let mut out = text::copy(&b);
    if b.len() > 0 && b[b.len() - 1] != '/' {
        out.push('/');
    }
    text::extend(&mut out, &r);
    text::from_chars(&out)
}

/// `s` without the `/` characters that it begins with.
pub open spec fn trim_slashes(s: Seq<char>) -> Seq<char>
    decreases s.len(),
{
    if s.len() > 0 && s[0] == '/' {
        trim_slashes(s.skip(1))
    } else {
        s
    }
}

/// The number of `/` characters that `s` begins with.
pub open spec fn leading_slashes(s: Seq<char>) -> int
    decreases s.len(),
{
    if s.len() > 0 && s[0] == '/' {
        1 + leading_slashes(s.skip(1))
    } else {
        0
    }
}

/// `trim_slashes` drops the leading `/` characters and nothing else: what
/// is left is empty or begins with another character.
pub proof fn lemma_trim_slashes(s: Seq<char>)
    ensures
        0 <= leading_slashes(s) <= s.len(),
        trim_slashes(s) == s.skip(leading_slashes(s)),
        forall|j: int| 0 <= j < leading_slashes(s) ==> s[j] == '/',
        leading_slashes(s) < s.len() ==> s[leading_slashes(s)] != '/',
    decreases s.len(),
{
    if s.len() > 0 && s[0] == '/' {
        let rest = s.skip(1);
        lemma_trim_slashes(rest);
        assert(rest.skip(leading_slashes(rest)) == s.skip(leading_slashes(s)));
        assert forall|j: int| 0 <= j < leading_slashes(s) implies s[j] == '/' by {
            if j > 0 {
                assert(rest[j - 1] == s[j]);
            }
        }
        if leading_slashes(s) < s.len() {
            assert(rest[leading_slashes(rest)] == s[leading_slashes(s)]);
        }
    } else {
        assert(s.skip(0) == s);
    }
}

/// A text that is made of `/` characters up to `k`, and goes on with
/// another character or ends there, begins with exactly `k` of them.
pub proof fn lemma_leading_slashes_unique(s: Seq<char>, k: int)
    requires
        0 <= k <= s.len(),
        forall|j: int| 0 <= j < k ==> s[j] == '/',
        k < s.len() ==> s[k] != '/',
    ensures
        leading_slashes(s) == k,
{
    lemma_trim_slashes(s);
}

/// Whether `path` lies at or below `base`: it is `base` itself, or begins
/// with `base` and goes on behind a `/`.
pub open spec fn is_under(path: Seq<char>, base: Seq<char>) -> bool {
    text::starts_with(path, base) && (base.len() == 0 || base.last() == '/' || path.len()
        == base.len() || path[base.len() as int] == '/')
}

/// `path` relative to `base`: what follows `base` in it, without leading
/// `/` characters.
pub open spec fn spec_strip_prefix(path: Seq<char>, base: Seq<char>) -> Option<Seq<char>> {
    if is_under(path, base) {
        if base.len() == 0 {
            Some(path)
        } else {
            Some(trim_slashes(path.skip(base.len() as int)))
        }
    } else {
        None
    }
}

/// A path below a directory is the directory, the `/` characters behind
/// it, and the relative path. Where `path` relative to a `base` that is
/// not empty is the text `rel`, and `rel` is not empty, `path` is made of a
/// part that begins with `base` and ends in `/`, and of `rel`, which does
/// not begin with `/`.
pub proof fn lemma_strip_prefix_splits(path: Seq<char>, base: Seq<char>)
    requires
        base.len() > 0,
        spec_strip_prefix(path, base) matches Some(rel) && rel.len() > 0,
    ensures
        ({
            let rel = spec_strip_prefix(path, base).unwrap();
            let dir = path.take(path.len() - rel.len());
            &&& path == dir + rel
            &&& base.len() <= dir.len() <= path.len()
            &&& dir.take(base.len() as int) == base
            &&& dir.last() == '/'
            &&& forall|j: int| base.len() <= j < dir.len() ==> dir[j] == '/'
            &&& rel[0] != '/'
        }),
{
    let tail = path.skip(base.len() as int);
    lemma_trim_slashes(tail);
    let k = leading_slashes(tail);
    let rel = tail.skip(k);
    let dir = path.take(base.len() + k);
    assert(rel == spec_strip_prefix(path, base).unwrap());
    assert(path.len() - rel.len() == base.len() + k);
    assert(rel[0] == tail[k]);
    assert(path =~= dir + rel);
    assert(dir.take(base.len() as int) =~= base) by {
        assert(path.subrange(0, base.len() as int) == base);
    }
    assert forall|j: int| base.len() <= j < dir.len() implies dir[j] == '/' by {
        assert(dir[j] == tail[j - base.len()]);
    }
    assert(dir.last() == '/') by {
        if k == 0 {
            assert(path.len() != base.len());
            assert(path[base.len() as int] == tail[0]);
            assert(dir =~= base);
        }
    }
}

/// A file below a directory has the extension of its relative path: where
/// `path` relative to `base` is a text that is not empty, the extension of
/// `path` is the extension of that text.
pub proof fn lemma_extension_of_relative(path: Seq<char>, base: Seq<char>)
    requires
        spec_strip_prefix(path, base) matches Some(rel) && rel.len() > 0,
    ensures
        extension(path) == extension(spec_strip_prefix(path, base).unwrap()),
{
    if base.len() > 0 {
        lemma_strip_prefix_splits(path, base);
        let rel = spec_strip_prefix(path, base).unwrap();
        let dir = path.take(path.len() - rel.len());
        lemma_extension_dot_below(dir, rel);
        lemma_extension_dot(rel);
        if extension_dot(rel) < rel.len() {
            assert((dir + rel).skip(dir.len() + extension_dot(rel) + 1) =~= rel.skip(
                extension_dot(rel) + 1,
            ));
        }
    }
}

/// Makes `path` relative to `base`, if it lies at or below it.
pub fn strip_prefix(path: &str, base: &str) -> (rel: Option<String>)
    ensures
        rel is Some <==> spec_strip_prefix(path@, base@) is Some,
        rel matches Some(r) ==> spec_strip_prefix(path@, base@) == Some(r@),
{
    let p = text::to_chars(path);
    let b = text::to_chars(base);
    if !text::occurs_at(&p, &b, 0) {
        return None;
    }
    if b.len() == 0 {
        return Some(text::from_chars(&p));
    }
    if !(b[b.len() - 1] == '/' || p.len() == b.len() || p[b.len()] == '/') {
        return None;
    }
    let mut i: usize = b.len();
    while i < p.len() && p[i] == '/'
        invariant
            b.len() <= i <= p.len(),
            trim_slashes(p@.skip(b.len() as int)) == trim_slashes(p@.skip(i as int)),
        decreases p.len() - i,
    {
        assert(p@.skip(i as int).skip(1) == p@.skip(i + 1));
        i = i + 1;
    }
    let rest = text::slice(&p, i, p.len());
    Some(text::from_chars(&rest))
}

/// `path` with its file name replaced by `name`.
pub open spec fn spec_with_file_name(path: Seq<char>, name: Seq<char>) -> Seq<char> {
    path.take(name_start(path)) + name
}

/// Replaces the file name of `path` by `name`.
pub fn with_file_name(path: &str, name: &str) -> (out: String)
    ensures
        out@ == spec_with_file_name(path@, name@),
{
    let chars = text::to_chars(path);
    let start = find_name_start(&chars);
    let mut out = text::slice(&chars, 0, start);
    text::extend(&mut out, &text::to_chars(name));
    text::from_chars(&out)
}

/// The file name of `path`.
pub fn file_name_of(path: &str) -> (name: String)
    ensures
        name@ == file_name(path@),
{
    let chars = text::to_chars(path);
    let start = find_name_start(&chars);
    text::from_chars(&text::slice(&chars, start, chars.len()))
}

/// `s` without the `/` characters that it begins with.
pub fn trim_leading_slashes(s: &str) -> (out: String)
    ensures
        out@ == trim_slashes(s@),
{
    let chars = text::to_chars(s);
    let mut i: usize = 0;
    assert(chars@.skip(0) == chars@);
    while i < chars.len() && chars[i] == '/'
        invariant
            i <= chars.len(),
            trim_slashes(chars@) == trim_slashes(chars@.skip(i as int)),
        decreases chars.len() - i,
    {
        assert(chars@.skip(i as int).skip(1) == chars@.skip(i + 1));
        i = i + 1;
    }
    text::from_chars(&text::slice(&chars, i, chars.len()))
}

} // verus!
