//! Fingerprinting the assets of a build.
//!
//! Every file of the output directory is an asset with a URI. Its hashed
//! name carries the first characters of the digest of its content, put
//! before the extension. A pass over a project first rewrites the source
//! files so that they speak of the hashed URIs, then has the project built
//! again, and at last renames the asset files to their hashed names.

use crate::paths;
use crate::project_info::ProjectInfo;
use crate::text;
use crate::util::file_util;
use crate::util::file_util::{replacement_of, FileData, FileDataView, Replacement};
use sha2::Digest;
use sha2::Sha256;
use vstd::prelude::*;

pub mod pass;

verus! {

/// Where the sources and the output of a project lie.
#[derive(Debug, Clone, PartialEq, Eq)]
pub struct Config {
    pub core_project_path_src: String,
    pub web_project_path_src: String,
    pub dist_path: String,
}

impl Config {
    /// The settings for the project `project_info`.
    pub fn from_project_info(project_info: &ProjectInfo) -> (c: Config)
        ensures
            c.core_project_path_src@ == paths::spec_join(project_info.core_project_path@, "src"@),
            c.web_project_path_src@ == paths::spec_join(project_info.web_project_path@, "src"@),
            c.dist_path@ == project_info.dist_path@,
    {
        Config {
            core_project_path_src: project_info.core_project_path_src(),
            web_project_path_src: project_info.web_project_path_src(),
            dist_path: project_info.dist_path.clone(),
        }
    }
}

/// Why a pass failed: what could not be done, the path of the file it
/// could not be done to, and the reason.
#[derive(Debug, PartialEq, Eq)]
pub enum Error {
    ReadFile(String, String),
    OpenAssetFile(String, String),
    HashAssetFile(String, String),
    RenameAssetFile(String, String),
    WriteSourceFile(String, String),
    /// The path does not lie below the output directory.
    StripPathPrefix(String),
    /// The project could not be built again; the text is the reason.
    Rebuild(String),
    /// The asset at this path cannot be renamed: another asset has the
    /// same path, or its hashed path is the path of an asset.
    HashedNameTaken(String),
}

/// An error as plain values.
pub enum ErrorView {
    ReadFile(Seq<char>, Seq<char>),
    OpenAssetFile(Seq<char>, Seq<char>),
    HashAssetFile(Seq<char>, Seq<char>),
    RenameAssetFile(Seq<char>, Seq<char>),
    WriteSourceFile(Seq<char>, Seq<char>),
    StripPathPrefix(Seq<char>),
    Rebuild(Seq<char>),
    HashedNameTaken(Seq<char>),
}

impl View for Error {
    type V = ErrorView;

    open spec fn view(&self) -> ErrorView {
        match self {
            Error::ReadFile(path, reason) => ErrorView::ReadFile(path@, reason@),
            Error::OpenAssetFile(path, reason) => ErrorView::OpenAssetFile(path@, reason@),
            Error::HashAssetFile(path, reason) => ErrorView::HashAssetFile(path@, reason@),
            Error::RenameAssetFile(path, reason) => ErrorView::RenameAssetFile(path@, reason@),
            Error::WriteSourceFile(path, reason) => ErrorView::WriteSourceFile(path@, reason@),
            Error::StripPathPrefix(path) => ErrorView::StripPathPrefix(path@),
            Error::Rebuild(reason) => ErrorView::Rebuild(reason@),
            Error::HashedNameTaken(path) => ErrorView::HashedNameTaken(path@),
        }
    }
}

impl Clone for Error {
    fn clone(&self) -> (e: Error)
        ensures
            e@ == self@,
    {
        match self {
            Error::ReadFile(path, reason) => Error::ReadFile(path.clone(), reason.clone()),
            Error::OpenAssetFile(path, reason) => Error::OpenAssetFile(
                path.clone(),
                reason.clone(),
            ),
            Error::HashAssetFile(path, reason) => Error::HashAssetFile(
                path.clone(),
                reason.clone(),
            ),
            Error::RenameAssetFile(path, reason) => Error::RenameAssetFile(
                path.clone(),
                reason.clone(),
            ),
            Error::WriteSourceFile(path, reason) => Error::WriteSourceFile(
                path.clone(),
                reason.clone(),
            ),
            Error::StripPathPrefix(path) => Error::StripPathPrefix(path.clone()),
            Error::Rebuild(reason) => Error::Rebuild(reason.clone()),
            Error::HashedNameTaken(path) => Error::HashedNameTaken(path.clone()),
        }
    }
}

/// The number of characters of a digest that a hashed name carries.
pub const SHORT_HASH_LEN: usize = 7;

/// The number of characters of a digest.
pub const HASH_LEN: usize = 64;

/// The SHA-256 digest of `data`.
pub uninterp spec fn sha256(data: Seq<u8>) -> Seq<u8>;

/// The hexadecimal digit for `n`, in lower case.
pub open spec fn hex_digit(n: int) -> char {
    seq!['0', '1', '2', '3', '4', '5', '6', '7', '8', '9', 'a', 'b', 'c', 'd', 'e', 'f'][n]
}

/// The bytes written as hexadecimal digits in lower case, two for each
/// byte, the high half first.
pub open spec fn hex_lower(bytes: Seq<u8>) -> Seq<char> {
    Seq::new(
        2 * bytes.len(),
        |i: int|
            if i % 2 == 0 {
                hex_digit(bytes[i / 2] as int / 16)
            } else {
                hex_digit(bytes[i / 2] as int % 16)
            },
    )
}

/// Whether `c` is a hexadecimal digit in lower case.
pub open spec fn is_hex_digit(c: char) -> bool {
    ('0' <= c && c <= '9') || ('a' <= c && c <= 'f')
}

/// Whether `hash` has the form of a digest: `HASH_LEN` hexadecimal digits
/// in lower case.
pub open spec fn is_digest(hash: Seq<char>) -> bool {
    hash.len() == HASH_LEN && forall|i: int| 0 <= i < hash.len() ==> is_hex_digit(#[trigger] hash[i])
}

/// `sha2::Sha256`, fed with `data` and finalized: the SHA-256 digest of
/// `data`, which is 32 bytes long.
#[verifier::external_body]
fn sha256_digest(data: &[u8]) -> (digest: Vec<u8>)
    ensures
        digest@ == sha256(data@),
        digest@.len() == 32,
{
    let mut hasher = Sha256::new();
    hasher.update(data);
    hasher.finalize().to_vec()
}

/// `data_encoding::HEXLOWER.encode`: the bytes as hexadecimal digits in
/// lower case. The encoder refuses input of more than `usize::MAX / 512`
/// bytes.
#[verifier::external_body]
fn hex_encode(bytes: &Vec<u8>) -> (hex: String)
    requires
        bytes@.len() <= usize::MAX / 512,
    ensures
        hex@ == hex_lower(bytes@),
{
    data_encoding::HEXLOWER.encode(bytes)
}

/// The hexadecimal form of a digest of 32 bytes has the form of a digest.
pub proof fn lemma_hex_of_digest(bytes: Seq<u8>)
    requires
        bytes.len() == 32,
    ensures
        is_digest(hex_lower(bytes)),
{
    let hex = hex_lower(bytes);
    assert forall|i: int| 0 <= i < hex.len() implies is_hex_digit(#[trigger] hex[i]) by {
        let b = bytes[i / 2] as int;
        assert(0 <= b / 16 < 16);
        assert(0 <= b % 16 < 16);
        let n = if i % 2 == 0 {
            b / 16
        } else {
            b % 16
        };
        assert(hex[i] == hex_digit(n));
        assert(is_hex_digit(hex_digit(n))) by {
            assert(n == 0 || n == 1 || n == 2 || n == 3 || n == 4 || n == 5 || n == 6 || n == 7
                || n == 8 || n == 9 || n == 10 || n == 11 || n == 12 || n == 13 || n == 14 || n
                == 15);
        }
    }
}

/// `name` with `.` and the first `SHORT_HASH_LEN` characters of `hash` put
/// before its extension, or at its end where it has no extension.
pub open spec fn with_hash(name: Seq<char>, hash: Seq<char>) -> Seq<char> {
    let at = paths::extension_dot(name);
    name.take(at) + seq!['.'] + hash.take(SHORT_HASH_LEN as int) + name.skip(at)
}

/// A file of the output directory: the URI under which it is served, and
/// its path.
#[derive(Debug, PartialEq, Eq, Hash)]
pub struct Asset {
    uri: String,
    path: String,
}

/// An asset as plain values.
pub struct AssetView {
    pub uri: Seq<char>,
    pub path: Seq<char>,
}

impl View for Asset {
    type V = AssetView;

    closed spec fn view(&self) -> AssetView {
        AssetView { uri: self.uri@, path: self.path@ }
    }
}

impl Clone for Asset {
    fn clone(&self) -> (a: Asset)
        ensures
            a@ == self@,
    {
        Asset { uri: self.uri.clone(), path: self.path.clone() }
    }
}

impl Asset {
    /// The asset at `path` that is served under `uri`.
    pub fn new(uri: String, path: String) -> (a: Asset)
        ensures
            a@ == (AssetView { uri: uri@, path: path@ }),
    {
        Asset { uri, path }
    }

    /// The URI under which the asset is served.
    pub fn uri(&self) -> (uri: &String)
        ensures
            uri@ == self@.uri,
    {
        &self.uri
    }

    /// The path of the asset's file.
    pub fn path(&self) -> (path: &String)
        ensures
            path@ == self@.path,
    {
        &self.path
    }
}

/// An asset together with the digest of its content.
#[derive(Debug, PartialEq, Eq, Hash)]
pub struct HashedAsset {
    asset: Asset,
    hash: String,
}

/// A hashed asset as plain values.
pub struct HashedAssetView {
    pub uri: Seq<char>,
    pub path: Seq<char>,
    pub hash: Seq<char>,
}

impl HashedAssetView {
    /// The digest has the form of one.
    pub open spec fn wf(self) -> bool {
        is_digest(self.hash)
    }

    /// The characters of the digest that the hashed names carry.
    pub open spec fn short_hash(self) -> Seq<char> {
        self.hash.take(SHORT_HASH_LEN as int)
    }

    /// The URI under which the asset is served once it is renamed.
    pub open spec fn uri_with_hash(self) -> Seq<char> {
        with_hash(self.uri, self.hash)
    }

    /// The path of the asset's file once it is renamed.
    pub open spec fn path_with_hash(self) -> Seq<char> {
        with_hash(self.path, self.hash)
    }
}

impl View for HashedAsset {
    type V = HashedAssetView;

    closed spec fn view(&self) -> HashedAssetView {
        HashedAssetView { uri: self.asset.uri@, path: self.asset.path@, hash: self.hash@ }
    }
}

impl Clone for HashedAsset {
    fn clone(&self) -> (h: HashedAsset)
        ensures
            h@ == self@,
    {
        proof {
            use_type_invariant(self);
        }
        HashedAsset { asset: self.asset.clone(), hash: self.hash.clone() }
    }
}

/// Decides whether `hash` has the form of a digest.
fn check_digest(hash: &Vec<char>) -> (r: bool)
    ensures
        r == is_digest(hash@),
{
    if hash.len() != HASH_LEN {
        return false;
    }
    let mut i: usize = 0;
    while i < hash.len()
        invariant
            i <= hash.len(),
            hash.len() == HASH_LEN,
            forall|j: int| 0 <= j < i ==> is_hex_digit(#[trigger] hash@[j]),
        decreases hash.len() - i,
    {
        let c = hash[i];
        if !(('0' <= c && c <= '9') || ('a' <= c && c <= 'f')) {
            return false;
        }
        i = i + 1;
    }
    true
}

/// Puts `.` and `short` before the extension of `name`.
fn insert_before_extension(name: &str, short: &Vec<char>) -> (out: String)
    ensures
        out@ == name@.take(paths::extension_dot(name@)) + seq!['.'] + short@ + name@.skip(
            paths::extension_dot(name@),
        ),
{
    let chars = text::to_chars(name);
    proof {
        paths::lemma_extension_dot(chars@);
    }
    let at = paths::find_extension_dot(&chars);
    let mut out = text::slice(&chars, 0, at);
    out.push('.');
    text::extend(&mut out, short);
    let tail = text::slice(&chars, at, chars.len());
    text::extend(&mut out, &tail);
    text::from_chars(&out)
}

impl HashedAsset {
    #[verifier::type_invariant]
    spec fn inv(self) -> bool {
        is_digest(self.hash@)
    }

    /// The hashed asset for `asset` and the digest `hash`, or `None` where
    /// `hash` has not the form of a digest.
    pub fn new(asset: Asset, hash: String) -> (r: Option<HashedAsset>)
        ensures
            r is Some <==> is_digest(hash@),
            r matches Some(h) ==> h@ == (HashedAssetView {
                uri: asset@.uri,
                path: asset@.path,
                hash: hash@,
            }),
    {
        let chars = text::to_chars(hash.as_str());
        if check_digest(&chars) {
            Some(HashedAsset { asset, hash })
        } else {
            None
        }
    }

    /// The URI under which the asset is served.
    pub fn uri(&self) -> (uri: &String)
        ensures
            uri@ == self@.uri,
            self@.wf(),
    {
        proof {
            use_type_invariant(self);
        }
        &self.asset.uri
    }

    /// The path of the asset's file.
    pub fn path(&self) -> (path: &String)
        ensures
            path@ == self@.path,
            self@.wf(),
    {
        proof {
            use_type_invariant(self);
        }
        &self.asset.path
    }

    /// The digest of the asset's content.
    pub fn hash(&self) -> (hash: &String)
        ensures
            hash@ == self@.hash,
            self@.wf(),
    {
        proof {
            use_type_invariant(self);
        }
        &self.hash
    }

    /// The characters of the digest that the hashed names carry.
    pub fn short_hash(&self) -> (short: String)
        ensures
            short@ == self@.short_hash(),
            short@.len() == SHORT_HASH_LEN,
            self@.wf(),
    {
        proof {
            use_type_invariant(self);
        }
        let chars = text::to_chars(self.hash.as_str());
        let short = text::slice(&chars, 0, SHORT_HASH_LEN);
        text::from_chars(&short)
    }

    /// The URI under which the asset is served once it is renamed.
    pub fn uri_with_hash(&self) -> (uri: String)
        ensures
            uri@ == self@.uri_with_hash(),
            self@.wf(),
    {
        proof {
            use_type_invariant(self);
        }
        let short = text::to_chars(self.short_hash().as_str());
        insert_before_extension(self.asset.uri.as_str(), &short)
    }

    /// The path of the asset's file once it is renamed.
    pub fn path_with_hash(&self) -> (path: String)
        ensures
            path@ == self@.path_with_hash(),
            self@.wf(),
    {
        proof {
            use_type_invariant(self);
        }
        let short = text::to_chars(self.short_hash().as_str());
        insert_before_extension(self.asset.path.as_str(), &short)
    }
}

/// The views of a vector of hashed assets.
pub open spec fn asset_views(assets: Seq<HashedAsset>) -> Seq<HashedAssetView> {
    assets.map_values(|a: HashedAsset| a@)
}

/// Whether a line opts out of rewriting: it holds the marker `nohash`.
pub open spec fn spec_has_nohash(line: Seq<char>) -> bool {
    text::contains(line, "nohash"@)
}

/// Decides whether a line opts out of rewriting.
pub fn has_nohash(s: &str) -> (r: bool)
    ensures
        r == spec_has_nohash(s@),
{
    text::has(&text::to_chars(s), &text::to_chars("nohash"))
}

/// `acc` after the URIs of `assets` were replaced in it one asset after
/// the other, in the order of `assets`. The URI of an asset is replaced by
/// its hashed URI wherever it occurs in `acc`, if it occurs in `line`.
pub open spec fn replace_uris(
    line: Seq<char>,
    acc: Seq<char>,
    assets: Seq<HashedAssetView>,
) -> Seq<char>
    decreases assets.len(),
{
    if assets.len() == 0 {
        acc
    } else {
        let before = replace_uris(line, acc, assets.drop_last());
        let asset = assets.last();
        if text::contains(line, asset.uri) {
            text::replace_all(before, asset.uri, asset.uri_with_hash())
        } else {
            before
        }
    }
}

/// A source line after rewriting: the line itself where it opts out, and
/// else the line with the URIs of the assets replaced by their hashed URIs.
pub open spec fn rewrite_line(line: Seq<char>, assets: Seq<HashedAssetView>) -> Seq<char> {
    if spec_has_nohash(line) {
        line
    } else {
        replace_uris(line, line, assets)
    }
}

/// The text of a source file after rewriting: every line is rewritten, and
/// every line keeps the ending it had, so that a text without a line to
/// rewrite stays as it is. A line ends at a line feed; a carriage return
/// directly before the line feed belongs to the ending, not to the line.
pub open spec fn rewrite_text(content: Seq<char>, assets: Seq<HashedAssetView>) -> Seq<char>
    decreases content.len(),
{
    if content.len() == 0 {
        content
    } else {
        let k = text::index_of(content, '\n');
        if 0 <= k < content.len() {
            rewrite_line(text::strip_cr(content.take(k)), assets) + text::line_ending(
                content.take(k),
            ) + rewrite_text(content.skip(k + 1), assets)
        } else {
            rewrite_line(content, assets)
        }
    }
}

/// Rewrites one source line. `uris` and `hashed` hold the URI and the
/// hashed URI of each asset.
fn update_uris_in_line(
    line: &Vec<char>,
    uris: &Vec<Vec<char>>,
    hashed: &Vec<Vec<char>>,
    marker: &Vec<char>,
    Ghost(assets): Ghost<Seq<HashedAssetView>>,
) -> (out: Vec<char>)
    requires
        marker@ == "nohash"@,
        uris@.len() == assets.len(),
        hashed@.len() == assets.len(),
        forall|k: int| 0 <= k < assets.len() ==> (#[trigger] uris@[k])@ == assets[k].uri,
        forall|k: int|
            0 <= k < assets.len() ==> (#[trigger] hashed@[k])@ == assets[k].uri_with_hash(),
    ensures
        out@ == rewrite_line(line@, assets),
{
    if text::has(line, marker) {
        return text::copy(line);
    }
    let mut acc = text::copy(line);
    let mut k: usize = 0;
    while k < uris.len()
        invariant
            k <= uris.len(),
            uris@.len() == assets.len(),
            hashed@.len() == assets.len(),
            forall|k: int| 0 <= k < assets.len() ==> (#[trigger] uris@[k])@ == assets[k].uri,
            forall|k: int|
                0 <= k < assets.len() ==> (#[trigger] hashed@[k])@ == assets[k].uri_with_hash(),
            acc@ == replace_uris(line@, line@, assets.take(k as int)),
        decreases uris.len() - k,
    {
        proof {
            assert(assets.take(k + 1).drop_last() == assets.take(k as int));
            assert(assets.take(k + 1).last() == assets[k as int]);
        }
        if text::has(line, &uris[k]) {
            acc = text::replace(&acc, &uris[k], &hashed[k]);
        }
        k = k + 1;
    }
    assert(assets.take(uris.len() as int) == assets);
    acc
}

/// The text of a source file with the URIs of `assets` replaced by their
/// hashed URIs, line by line. Lines that hold the marker `nohash` stay as
/// they are, and every line keeps its ending.
pub fn rewrite_content(content: &str, assets: &Vec<HashedAsset>) -> (out: String)
    ensures
        out@ == rewrite_text(content@, asset_views(assets@)),
{
    let ghost views = asset_views(assets@);
    let mut uris: Vec<Vec<char>> = Vec::new();
    let mut hashed: Vec<Vec<char>> = Vec::new();
    let mut k: usize = 0;
    while k < assets.len()
        invariant
            k <= assets.len(),
            views == asset_views(assets@),
            uris@.len() == k,
            hashed@.len() == k,
            forall|j: int| 0 <= j < k ==> (#[trigger] uris@[j])@ == views[j].uri,
            forall|j: int| 0 <= j < k ==> (#[trigger] hashed@[j])@ == views[j].uri_with_hash(),
        decreases assets.len() - k,
    {
        let asset = &assets[k];
        uris.push(text::to_chars(asset.uri().as_str()));
        hashed.push(text::to_chars(asset.uri_with_hash().as_str()));
        k = k + 1;
    }
    let marker = text::to_chars("nohash");
    let chars = text::to_chars(content);
    let mut out: Vec<char> = Vec::new();
    let mut start: usize = 0;
    let mut i: usize = 0;
    proof {
        assert(chars@.skip(0) == chars@);
        text::lemma_index_of(chars@, '\n');
    }
    while i < chars.len()
        invariant
            start <= i <= chars.len(),
            chars@ == content@,
            marker@ == "nohash"@,
            uris@.len() == views.len(),
            hashed@.len() == views.len(),
            forall|j: int| 0 <= j < views.len() ==> (#[trigger] uris@[j])@ == views[j].uri,
            forall|j: int|
                0 <= j < views.len() ==> (#[trigger] hashed@[j])@ == views[j].uri_with_hash(),
            text::index_of(chars@.skip(start as int), '\n') >= i - start,
            rewrite_text(chars@, views) == out@ + rewrite_text(chars@.skip(start as int), views),
        decreases chars.len() - i,
    {
        let ghost rest = chars@.skip(start as int);
        proof {
            text::lemma_index_of(rest, '\n');
        }
        if chars[i] == '\n' {
            let with_cr = i > start && chars[i - 1] == '\r';
            let end: usize = if with_cr {
                i - 1
            } else {
                i
            };
            let line = text::slice(&chars, start, end);
            let new_line = update_uris_in_line(&line, &uris, &hashed, &marker, Ghost(views));
            proof {
                assert(rest[i - start] == '\n');
                assert(text::index_of(rest, '\n') == i - start);
                assert(rest.take(i - start) == chars@.subrange(start as int, i as int));
                assert(line@ == text::strip_cr(rest.take(i - start)));
                assert(rest.skip(i - start + 1) == chars@.skip(i + 1));
            }
            text::extend(&mut out, &new_line);
            if with_cr {
                out.push('\r');
            }
            out.push('\n');
            i = i + 1;
            start = i;
            proof {
                text::lemma_index_of(chars@.skip(start as int), '\n');
            }
        } else {
            proof {
                if text::index_of(rest, '\n') == i - start {
                    assert(rest[i - start] == chars@[i as int]);
                }
            }
            i = i + 1;
        }
    }
    if start < chars.len() {
        let line = text::slice(&chars, start, chars.len());
        proof {
            let rest = chars@.skip(start as int);
            text::lemma_index_of(rest, '\n');
            assert(line@ == rest);
        }
        let new_line = update_uris_in_line(&line, &uris, &hashed, &marker, Ghost(views));
        text::extend(&mut out, &new_line);
    }
    text::from_chars(&out)
}

/// The URI of the file at `path` in the output directory `dist`: `/` and
/// the path relative to `dist`. Only a file below `dist` has one: a path
/// outside `dist` has none, and neither has `dist` itself.
pub open spec fn dist_uri(dist: Seq<char>, path: Seq<char>) -> Option<Seq<char>> {
    match paths::spec_strip_prefix(path, dist) {
        Some(rel) => if rel.len() > 0 {
            Some(seq!['/'] + rel)
        } else {
            None
        },
        None => None,
    }
}

/// Whether `path` is a file below the output directory `dist`.
pub open spec fn lies_below(path: Seq<char>, dist: Seq<char>) -> bool {
    dist_uri(dist, path) is Some
}

/// The asset for the file at `path` in the output directory `dist`.
pub open spec fn asset_of(dist: Seq<char>, path: Seq<char>) -> AssetView {
    AssetView { uri: dist_uri(dist, path).unwrap(), path }
}

/// The content of a file, or why it could not be had.
#[derive(Debug, Clone, PartialEq, Eq)]
pub enum FileContent {
    /// The bytes of the file.
    Bytes(Vec<u8>),
    /// The file could not be opened; the text says why.
    OpenFailed(String),
    /// The file could not be read to its end; the text says why.
    ReadFailed(String),
}

/// A file of the output directory: its path, and what reading it gave.
#[derive(Debug, Clone, PartialEq, Eq)]
pub struct DistFile {
    pub path: String,
    pub content: FileContent,
}

/// The hashed asset for a file of the output directory, or the error for a
/// file that could not be read.
pub open spec fn hashed(asset: AssetView, content: FileContent) -> Result<
    HashedAssetView,
    ErrorView,
> {
    match content {
        FileContent::Bytes(bytes) => Ok(
            HashedAssetView { uri: asset.uri, path: asset.path, hash: hex_lower(sha256(bytes@)) },
        ),
        FileContent::OpenFailed(reason) => Err(ErrorView::OpenAssetFile(asset.path, reason@)),
        FileContent::ReadFailed(reason) => Err(ErrorView::HashAssetFile(asset.path, reason@)),
    }
}

/// The index of the first of `files` that is no file below `dist`, or
/// their number where all are.
pub open spec fn first_outside(dist: Seq<char>, files: Seq<Seq<char>>) -> int
    decreases files.len(),
{
    if files.len() == 0 {
        0
    } else if !lies_below(files[0], dist) {
        0
    } else {
        1 + first_outside(dist, files.skip(1))
    }
}

/// The index of the first of `files` that could not be read, or their
/// number where all could.
pub open spec fn first_unread(files: Seq<DistFile>) -> int
    decreases files.len(),
{
    if files.len() == 0 {
        0
    } else if !(files[0].content is Bytes) {
        0
    } else {
        1 + first_unread(files.skip(1))
    }
}

/// `first_outside` is an index of `files` or their number; the file at it
/// is no file below `dist`, and those before it are.
pub proof fn lemma_first_outside(dist: Seq<char>, files: Seq<Seq<char>>)
    ensures
        0 <= first_outside(dist, files) <= files.len(),
        first_outside(dist, files) < files.len() ==> !lies_below(
            files[first_outside(dist, files)],
            dist,
        ),
        forall|j: int|
            0 <= j < first_outside(dist, files) ==> lies_below(#[trigger] files[j], dist),
    decreases files.len(),
{
    if files.len() > 0 && lies_below(files[0], dist) {
        lemma_first_outside(dist, files.skip(1));
        assert forall|j: int| 0 <= j < first_outside(dist, files) implies lies_below(
            #[trigger] files[j],
            dist,
        ) by {
            if j > 0 {
                assert(files.skip(1)[j - 1] == files[j]);
            }
        }
    }
}

/// An index whose file is no file below `dist`, while those before it
/// are, is `first_outside`; so is the number of files where all are.
pub proof fn lemma_first_outside_unique(dist: Seq<char>, files: Seq<Seq<char>>, i: int)
    requires
        0 <= i <= files.len(),
        i < files.len() ==> !lies_below(files[i], dist),
        forall|j: int| 0 <= j < i ==> lies_below(#[trigger] files[j], dist),
    ensures
        first_outside(dist, files) == i,
{
    lemma_first_outside(dist, files);
}

/// `first_unread` is an index of `files` or their number; the file at it
/// could not be read and those before it could.
pub proof fn lemma_first_unread(files: Seq<DistFile>)
    ensures
        0 <= first_unread(files) <= files.len(),
        first_unread(files) < files.len() ==> !(files[first_unread(files)].content is Bytes),
        forall|j: int| 0 <= j < first_unread(files) ==> (#[trigger] files[j]).content is Bytes,
    decreases files.len(),
{
    if files.len() > 0 && files[0].content is Bytes {
        lemma_first_unread(files.skip(1));
        assert forall|j: int| 0 <= j < first_unread(files) implies (
        #[trigger] files[j]).content is Bytes by {
            if j > 0 {
                assert(files.skip(1)[j - 1] == files[j]);
            }
        }
    }
}

/// An index whose file could not be read, while those before it could, is
/// `first_unread`; so is the number of files where all could be read.
pub proof fn lemma_first_unread_unique(files: Seq<DistFile>, i: int)
    requires
        0 <= i <= files.len(),
        i < files.len() ==> !(files[i].content is Bytes),
        forall|j: int| 0 <= j < i ==> (#[trigger] files[j]).content is Bytes,
    ensures
        first_unread(files) == i,
{
    lemma_first_unread(files);
}

/// The paths of the files.
pub open spec fn dist_paths(files: Seq<DistFile>) -> Seq<Seq<char>> {
    files.map_values(|f: DistFile| f.path@)
}

/// The asset file that is renamed, and its new name.
#[derive(Debug, PartialEq, Eq)]
pub struct Rename {
    pub from: String,
    pub to: String,
}

/// A renaming as plain values.
pub struct RenameView {
    pub from: Seq<char>,
    pub to: Seq<char>,
}

impl View for Rename {
    type V = RenameView;

    open spec fn view(&self) -> RenameView {
        RenameView { from: self.from@, to: self.to@ }
    }
}

/// The renaming that gives `asset` its hashed name.
pub open spec fn rename_of(asset: HashedAssetView) -> RenameView {
    RenameView { from: asset.path, to: asset.path_with_hash() }
}

/// The fingerprinter of a project's assets.
#[derive(Debug, Clone, PartialEq, Eq)]
pub struct AssetHasher {
    config: Config,
}

impl AssetHasher {
    /// The settings of the fingerprinter.
    pub closed spec fn config(self) -> Config {
        self.config
    }

    /// A fingerprinter with the settings `config`.
    pub fn new(config: Config) -> (h: AssetHasher)
        ensures
            h.config() == config,
    {
        AssetHasher { config }
    }

    /// The URI of the file at `path` in the output directory `dist_path`.
    /// A path that is no file below that directory is refused.
    pub fn get_dist_uri(&self, dist_path: &str, path: &str) -> (r: Result<String, Error>)
        ensures
            match dist_uri(dist_path@, path@) {
                Some(uri) => r matches Ok(u) && u@ == uri,
                None => r matches Err(e) && e@ == ErrorView::StripPathPrefix(path@),
            },
    {
        proof {
            reveal_strlit("/");
            assert("/"@ =~= seq!['/']);
        }
        match paths::strip_prefix(path, dist_path) {
            Some(rel) => if rel.as_str().unicode_len() > 0 {
                Ok(text::append("/", rel.as_str()))
            } else {
                Err(Error::StripPathPrefix(path.to_owned()))
            },
            None => Err(Error::StripPathPrefix(path.to_owned())),
        }
    }

    /// The assets for the files `dist_files` of the output directory, in
    /// their order. The first path that is no file below the output
    /// directory is refused.
    pub fn collect_dist_assets(&self, dist_files: &Vec<String>) -> (r: Result<Vec<Asset>, Error>)
        ensures
            ({
                let dist = self.config().dist_path@;
                let files = dist_files@.map_values(|f: String| f@);
                let bad = first_outside(dist, files);
                if bad < files.len() {
                    r matches Err(e) && e@ == ErrorView::StripPathPrefix(files[bad])
                } else {
                    r matches Ok(assets) && assets@.map_values(|a: Asset| a@) == files.map_values(
                        |f: Seq<char>| asset_of(dist, f),
                    )
                }
            }),
    {
        let ghost dist = self.config().dist_path@;
        let ghost files = dist_files@.map_values(|f: String| f@);
        let mut assets: Vec<Asset> = Vec::new();
        let mut i: usize = 0;
        while i < dist_files.len()
            invariant
                i <= dist_files.len(),
                dist == self.config().dist_path@,
                files == dist_files@.map_values(|f: String| f@),
                assets@.len() == i,
                forall|j: int| 0 <= j < i ==> lies_below(#[trigger] files[j], dist),
                forall|j: int| 0 <= j < i ==> (#[trigger] assets@[j])@ == asset_of(dist, files[j]),
            decreases dist_files.len() - i,
        {
            let path = &dist_files[i];
            match self.get_dist_uri(self.config.dist_path.as_str(), path.as_str()) {
                Ok(uri) => {
                    assets.push(Asset::new(uri, path.clone()));
                },
                Err(err) => {
                    proof {
                        lemma_first_outside_unique(dist, files, i as int);
                    }
                    return Err(err);
                },
            }
            i = i + 1;
        }
        proof {
            lemma_first_outside_unique(dist, files, files.len() as int);
            assert(assets@.map_values(|a: Asset| a@) =~= files.map_values(
                |f: Seq<char>| asset_of(dist, f),
            ));
        }
        Ok(assets)
    }

    /// Those of `files` whose extension is `extension`, in their order.
    pub fn collect_files_by_ext(&self, files: &Vec<String>, extension: &str) -> (out: Vec<String>)
        ensures
            out@.map_values(|f: String| f@) == files@.map_values(|f: String| f@).filter(
                |f: Seq<char>| paths::extension(f) == Some(extension@),
            ),
    {
        let ghost all = files@.map_values(|f: String| f@);
        let ghost wanted = |f: Seq<char>| paths::extension(f) == Some(extension@);
        let mut out: Vec<String> = Vec::new();
        let mut i: usize = 0;
        proof {
            reveal(Seq::filter);
            assert(out@.map_values(|f: String| f@) =~= all.take(0).filter(wanted));
        }
        while i < files.len()
            invariant
                i <= files.len(),
                all == files@.map_values(|f: String| f@),
                wanted == |f: Seq<char>| paths::extension(f) == Some(extension@),
                out@.map_values(|f: String| f@) == all.take(i as int).filter(wanted),
            decreases files.len() - i,
        {
            proof {
                reveal(Seq::filter);
                assert(all.take(i + 1).drop_last() == all.take(i as int));
                assert(all.take(i + 1).last() == files@[i as int]@);
            }
            if paths::has_extension(files[i].as_str(), extension) {
                let file = files[i].clone();
                proof {
                    assert(out@.push(file).map_values(|f: String| f@) =~= out@.map_values(
                        |f: String| f@,
                    ).push(file@));
                }
                out.push(file);
            }
            i = i + 1;
        }
        assert(all.take(files.len() as int) == all);
        out
    }

    /// The hashed asset for `asset`, whose file gave `content` when it was
    /// read: the asset with the SHA-256 digest of the bytes, in hexadecimal
    /// digits. A file that could not be opened or read gives the error that
    /// names its path.
    pub fn hash_asset(&self, asset: Asset, content: &FileContent) -> (r: Result<HashedAsset, Error>)
        ensures
            match hashed(asset@, *content) {
                Ok(h) => r matches Ok(a) && a@ == h && h.wf(),
                Err(err) => r matches Err(e) && e@ == err,
            },
    {
        match content {
            FileContent::Bytes(bytes) => {
                let digest = sha256_digest(bytes.as_slice());
                let hash = hex_encode(&digest);
                proof {
                    lemma_hex_of_digest(digest@);
                }
                Ok(HashedAsset { asset, hash })
            },
            FileContent::OpenFailed(reason) => Err(
                Error::OpenAssetFile(asset.path.clone(), reason.clone()),
            ),
            FileContent::ReadFailed(reason) => Err(
                Error::HashAssetFile(asset.path.clone(), reason.clone()),
            ),
        }
    }

    /// The hashed assets for the files of the output directory, in their
    /// order. The first path that is no file below the output directory is
    /// refused; where all are, the first file that could not be read gives
    /// the error that names it.
    pub fn collect_hashed_dist_assets(&self, files: &Vec<DistFile>) -> (r: Result<
        Vec<HashedAsset>,
        Error,
    >)
        ensures
            ({
                let dist = self.config().dist_path@;
                let names = dist_paths(files@);
                let outside = first_outside(dist, names);
                let unread = first_unread(files@);
                if outside < files@.len() {
                    r matches Err(e) && e@ == ErrorView::StripPathPrefix(names[outside])
                } else if unread < files@.len() {
                    r matches Err(e) && Err::<HashedAssetView, ErrorView>(e@) == hashed(
                        asset_of(dist, names[unread]),
                        files@[unread].content,
                    )
                } else {
                    r matches Ok(assets) && assets@.len() == files@.len() && forall|i: int|
                        0 <= i < files@.len() ==> Ok::<HashedAssetView, ErrorView>(
                            (#[trigger] assets@[i])@,
                        ) == hashed(asset_of(dist, names[i]), files@[i].content)
                }
            }),
    {
        let ghost dist = self.config().dist_path@;
        let ghost names = dist_paths(files@);
        let mut paths_only: Vec<String> = Vec::new();
        let mut k: usize = 0;
        while k < files.len()
            invariant
                k <= files.len(),
                names == dist_paths(files@),
                paths_only@.len() == k,
                forall|j: int| 0 <= j < k ==> (#[trigger] paths_only@[j])@ == names[j],
            decreases files.len() - k,
        {
            paths_only.push(files[k].path.clone());
            k = k + 1;
        }
        assert(paths_only@.map_values(|f: String| f@) =~= names);
        let assets = match self.collect_dist_assets(&paths_only) {
            Ok(assets) => assets,
            Err(err) => {
                return Err(err);
            },
        };
        proof {
            lemma_first_outside(dist, names);
            assert(assets@.map_values(|a: Asset| a@).len() == names.len());
        }
        let mut out: Vec<HashedAsset> = Vec::new();
        let mut i: usize = 0;
        while i < files.len()
            invariant
                i <= files.len(),
                dist == self.config().dist_path@,
                names == dist_paths(files@),
                assets@.len() == files@.len(),
                first_outside(dist, names) == files@.len(),
                assets@.map_values(|a: Asset| a@) == names.map_values(
                    |f: Seq<char>| asset_of(dist, f),
                ),
                out@.len() == i,
                forall|j: int| 0 <= j < i ==> (#[trigger] files@[j]).content is Bytes,
                forall|j: int|
                    0 <= j < i ==> Ok::<HashedAssetView, ErrorView>((#[trigger] out@[j])@)
                        == hashed(asset_of(dist, names[j]), files@[j].content),
            decreases files.len() - i,
        {
            proof {
                assert(assets@.map_values(|a: Asset| a@)[i as int] == asset_of(
                    dist,
                    names[i as int],
                ));
            }
            match self.hash_asset(assets[i].clone(), &files[i].content) {
                Ok(asset) => {
                    out.push(asset);
                },
                Err(err) => {
                    proof {
                        lemma_first_unread_unique(files@, i as int);
                    }
                    return Err(err);
                },
            }
            i = i + 1;
        }
        proof {
            lemma_first_unread_unique(files@, files@.len() as int);
        }
        Ok(out)
    }

    /// The rewritten file for the source file at `file_path`, which gave
    /// `read` when it was read: its text with the URIs of `assets` replaced
    /// by their hashed URIs, under the permission bits it had, together
    /// with the directory in which the new file is made before it takes
    /// the place of the old. A text that holds no URI of an asset stays as
    /// it is, character for character. A file that could not be read gives
    /// the error that names it, with the reason.
    pub fn update_uris_in_file(
        &self,
        file_path: &str,
        read: Result<FileData, String>,
        assets: &Vec<HashedAsset>,
    ) -> (r: Result<Replacement, Error>)
        ensures
            match read {
                Ok(old_file) => r matches Ok(new_file) && new_file@ == replacement_of(
                    file_path@,
                    rewritten(old_file@, asset_views(assets@)),
                ),
                Err(reason) => r matches Err(e) && e@ == ErrorView::ReadFile(file_path@, reason@),
            },
    {
        match read {
            Ok(old_file) => {
                let new_file = FileData {
                    content: rewrite_content(old_file.content.as_str(), assets),
                    permissions: old_file.permissions,
                };
                Ok(file_util::write(file_path, new_file))
            },
            Err(reason) => Err(Error::ReadFile(file_path.to_owned(), reason)),
        }
    }

    /// The renaming that gives `asset` its hashed name.
    pub fn rename_asset(&self, asset: &HashedAsset) -> (r: Rename)
        ensures
            r@ == rename_of(asset@),
    {
        Rename { from: asset.path().clone(), to: asset.path_with_hash() }
    }

    /// The renamings that give `assets` their hashed names, in the order
    /// of `assets`.
    pub fn rename_assets(&self, assets: &Vec<HashedAsset>) -> (r: Vec<Rename>)
        ensures
            r@.map_values(|n: Rename| n@) == asset_views(assets@).map_values(
                |a: HashedAssetView| rename_of(a),
            ),
    {
        let mut out: Vec<Rename> = Vec::new();
        let mut i: usize = 0;
        while i < assets.len()
            invariant
                i <= assets.len(),
                out@.len() == i,
                forall|j: int| 0 <= j < i ==> (#[trigger] out@[j])@ == rename_of(assets@[j]@),
            decreases assets.len() - i,
        {
            out.push(self.rename_asset(&assets[i]));
            i = i + 1;
        }
        assert(out@.map_values(|n: Rename| n@) =~= asset_views(assets@).map_values(
            |a: HashedAssetView| rename_of(a),
        ));
        out
    }
}

/// A source file after rewriting: its text rewritten, its permission bits
/// kept.
pub open spec fn rewritten(file: FileDataView, assets: Seq<HashedAssetView>) -> FileDataView {
    FileDataView { content: rewrite_text(file.content, assets), permissions: file.permissions }
}

/// The hashed URI of an asset is a function of its URI and of the bytes of
/// its file: two hashed assets with the same URI, made from files with the
/// same bytes, have the same hashed URI.
pub proof fn lemma_hashed_uri_is_deterministic(
    first: HashedAssetView,
    second: HashedAssetView,
    first_bytes: Seq<u8>,
    second_bytes: Seq<u8>,
)
    requires
        first.uri == second.uri,
        first.hash == hex_lower(sha256(first_bytes)),
        second.hash == hex_lower(sha256(second_bytes)),
        first_bytes == second_bytes,
    ensures
        first.uri_with_hash() == second.uri_with_hash(),
{
}

/// The hashed name of `name` is `name` with a `.` and `SHORT_HASH_LEN`
/// characters of the digest put in where its extension begins: what stands
/// before and behind is kept.
pub proof fn lemma_with_hash_shape(name: Seq<char>, hash: Seq<char>)
    requires
        is_digest(hash),
    ensures
        ({
            let at = paths::extension_dot(name);
            let out = with_hash(name, hash);
            &&& 0 <= at <= name.len()
            &&& out.len() == name.len() + 1 + SHORT_HASH_LEN
            &&& out.take(at) == name.take(at)
            &&& out[at] == '.'
            &&& out.subrange(at + 1, at + 1 + SHORT_HASH_LEN) == hash.take(SHORT_HASH_LEN as int)
            &&& out.skip(at + 1 + SHORT_HASH_LEN) == name.skip(at)
        }),
{
    paths::lemma_extension_dot(name);
    let at = paths::extension_dot(name);
    let out = with_hash(name, hash);
    assert(out.take(at) =~= name.take(at));
    assert(out.subrange(at + 1, at + 1 + SHORT_HASH_LEN) =~= hash.take(SHORT_HASH_LEN as int));
    assert(out.skip(at + 1 + SHORT_HASH_LEN) =~= name.skip(at));
}

/// Whether rewriting has nothing to do in `line`: the line opts out, or
/// it holds the URI of none of the assets.
pub open spec fn untouched(line: Seq<char>, assets: Seq<HashedAssetView>) -> bool {
    spec_has_nohash(line) || forall|j: int|
        0 <= j < assets.len() ==> !text::contains(line, (#[trigger] assets[j]).uri)
}

/// Where `line` holds the URI of none of the assets, replacing the URIs
/// changes nothing.
pub proof fn lemma_replace_uris_without_match(
    line: Seq<char>,
    acc: Seq<char>,
    assets: Seq<HashedAssetView>,
)
    requires
        forall|j: int| 0 <= j < assets.len() ==> !text::contains(line, (#[trigger] assets[j]).uri),
    ensures
        replace_uris(line, acc, assets) == acc,
    decreases assets.len(),
{
    if assets.len() > 0 {
        let front = assets.drop_last();
        assert forall|j: int| 0 <= j < front.len() implies !text::contains(
            line,
            (#[trigger] front[j]).uri,
        ) by {
            assert(front[j] == assets[j]);
        }
        lemma_replace_uris_without_match(line, acc, front);
        assert(!text::contains(line, assets[assets.len() - 1].uri));
    }
}

/// A line with nothing to rewrite stays as it is. In particular a line
/// that holds the marker `nohash` is never rewritten, whatever URIs it
/// holds.
pub proof fn lemma_untouched_line_is_kept(line: Seq<char>, assets: Seq<HashedAssetView>)
    requires
        untouched(line, assets),
    ensures
        rewrite_line(line, assets) == line,
{
    if !spec_has_nohash(line) {
        lemma_replace_uris_without_match(line, line, assets);
    }
}

/// A line and its ending make up the text up to and with the line feed.
pub proof fn lemma_line_and_ending(line: Seq<char>)
    ensures
        text::strip_cr(line) + text::line_ending(line) == line + seq!['\n'],
{
    assert(text::strip_cr(line) + text::line_ending(line) =~= line + seq!['\n']);
}

/// A text with nothing to rewrite stays as it is, character for
/// character, with every line ending and with or without a last one: that
/// is so where each of its lines opts out or holds the URI of none of the
/// assets.
pub proof fn lemma_untouched_text_is_kept(content: Seq<char>, assets: Seq<HashedAssetView>)
    requires
        forall|i: int|
            0 <= i < text::split_lines(content).len() ==> untouched(
                #[trigger] text::split_lines(content)[i],
                assets,
            ),
    ensures
        rewrite_text(content, assets) == content,
    decreases content.len(),
{
    if content.len() > 0 {
        let lines = text::split_lines(content);
        let k = text::index_of(content, '\n');
        text::lemma_index_of(content, '\n');
        if k < content.len() {
            let line = content.take(k);
            let rest = content.skip(k + 1);
            assert(lines[0] == text::strip_cr(line));
            assert forall|i: int| 0 <= i < text::split_lines(rest).len() implies untouched(
                #[trigger] text::split_lines(rest)[i],
                assets,
            ) by {
                assert(text::split_lines(rest)[i] == lines[i + 1]);
            }
            lemma_untouched_text_is_kept(rest, assets);
            lemma_untouched_line_is_kept(text::strip_cr(line), assets);
            lemma_line_and_ending(line);
            assert(line + seq!['\n'] + rest =~= content);
        } else {
            assert(lines[0] == content);
            lemma_untouched_line_is_kept(content, assets);
        }
    }
}

/// Rewriting goes line by line: behind a text that is empty or ends in a
/// line feed, what follows is rewritten as if it stood alone.
pub proof fn lemma_rewrite_text_add(
    front: Seq<char>,
    back: Seq<char>,
    assets: Seq<HashedAssetView>,
)
    requires
        front.len() == 0 || front.last() == '\n',
    ensures
        rewrite_text(front + back, assets) == rewrite_text(front, assets) + rewrite_text(
            back,
            assets,
        ),
    decreases front.len(),
{
    if front.len() == 0 {
        assert(front + back =~= back);
        assert(rewrite_text(front, assets) + rewrite_text(back, assets) =~= rewrite_text(
            back,
            assets,
        ));
    } else {
        let whole = front + back;
        let k = text::index_of(front, '\n');
        text::lemma_index_of(front, '\n');
        assert(k < front.len()) by {
            if k >= front.len() {
                assert(front[front.len() - 1] == '\n');
            }
        }
        assert forall|j: int| 0 <= j < k implies whole[j] != '\n' by {
            assert(whole[j] == front[j]);
        }
        assert(whole[k] == front[k]);
        text::lemma_index_of_unique(whole, '\n', k);
        assert(whole.take(k) =~= front.take(k));
        let rest = front.skip(k + 1);
        assert(whole.skip(k + 1) =~= rest + back);
        if rest.len() > 0 {
            assert(rest.last() == front.last());
        }
        lemma_rewrite_text_add(rest, back, assets);
        assert(rewrite_text(whole, assets) =~= rewrite_text(front, assets) + rewrite_text(
            back,
            assets,
        ));
    }
}

/// A line that holds the marker `nohash` is never rewritten, whatever
/// URIs it holds: where a text has such a line, the rewritten text has the
/// same line at its place, with the ending it had, between what stands
/// before it and what stands behind it, each rewritten.
pub proof fn lemma_nohash_line_is_kept(
    before: Seq<char>,
    line: Seq<char>,
    after: Seq<char>,
    assets: Seq<HashedAssetView>,
)
    requires
        before.len() == 0 || before.last() == '\n',
        forall|j: int| 0 <= j < line.len() ==> line[j] != '\n',
        spec_has_nohash(text::strip_cr(line)),
    ensures
        rewrite_text(before + line + seq!['\n'] + after, assets) == rewrite_text(before, assets)
            + line + seq!['\n'] + rewrite_text(after, assets),
{
    let tail = line + seq!['\n'] + after;
    assert(before + line + seq!['\n'] + after =~= before + tail);
    lemma_rewrite_text_add(before, tail, assets);
    let k = line.len() as int;
    assert forall|j: int| 0 <= j < k implies tail[j] != '\n' by {
        assert(tail[j] == line[j]);
    }
    assert(tail[k] == '\n');
    text::lemma_index_of_unique(tail, '\n', k);
    assert(tail.take(k) =~= line);
    assert(tail.skip(k + 1) =~= after);
    lemma_line_and_ending(line);
    assert(rewrite_text(tail, assets) =~= line + seq!['\n'] + rewrite_text(after, assets));
    assert(rewrite_text(before, assets) + (line + seq!['\n'] + rewrite_text(after, assets))
        =~= rewrite_text(before, assets) + line + seq!['\n'] + rewrite_text(after, assets));
}

/// Behind a directory the hashed name is made from the rest alone: where
/// `dir` ends in `/`, the hashed name of `dir + rest` is `dir` and the
/// hashed name of `rest`.
pub proof fn lemma_with_hash_below(dir: Seq<char>, rest: Seq<char>, hash: Seq<char>)
    requires
        dir.len() > 0,
        dir.last() == '/',
    ensures
        with_hash(dir + rest, hash) == dir + with_hash(rest, hash),
{
    paths::lemma_extension_dot_below(dir, rest);
    paths::lemma_extension_dot(rest);
    let at = paths::extension_dot(rest);
    assert((dir + rest).take(dir.len() + at) =~= dir + rest.take(at));
    assert((dir + rest).skip(dir.len() + at) =~= rest.skip(at));
    assert(with_hash(dir + rest, hash) =~= dir + with_hash(rest, hash));
}

/// The hashed URI of an asset is the URI of its renamed file. For every
/// file below the output directory `dist`, renaming the file to its hashed
/// name gives a file below `dist` whose URI is the hashed URI of the
/// asset: a source that was rewritten to the hashed URI speaks of the
/// renamed file.
pub proof fn lemma_hashed_uri_names_renamed_file(
    dist: Seq<char>,
    path: Seq<char>,
    hash: Seq<char>,
)
    requires
        lies_below(path, dist),
    ensures
        dist_uri(dist, with_hash(path, hash)) == Some(
            with_hash(dist_uri(dist, path).unwrap(), hash),
        ),
{
    let slash = seq!['/'];
    let renamed = with_hash(path, hash);
    if dist.len() == 0 {
        lemma_with_hash_below(slash, path, hash);
        assert(renamed.subrange(0, 0) =~= dist);
    } else {
        paths::lemma_strip_prefix_splits(path, dist);
        let rel = paths::spec_strip_prefix(path, dist).unwrap();
        let dir = path.take(path.len() - rel.len());
        let k = dir.len() - dist.len();
        lemma_with_hash_below(dir, rel, hash);
        lemma_with_hash_below(slash, rel, hash);
        let hashed_rel = with_hash(rel, hash);
        paths::lemma_extension_dot(rel);
        assert(hashed_rel[0] != '/') by {
            if paths::extension_dot(rel) > 0 {
                assert(hashed_rel[0] == rel[0]);
            } else {
                assert(hashed_rel[0] == '.');
            }
        }
        assert(renamed == dir + hashed_rel);
        assert(renamed.subrange(0, dist.len() as int) =~= dist) by {
            assert(dir.take(dist.len() as int) == dist);
        }
        assert(paths::is_under(renamed, dist)) by {
            if dist.last() != '/' {
                assert(dir.last() == '/');
                assert(k > 0);
                assert(renamed[dist.len() as int] == dir[dist.len() as int]);
            }
        }
        let renamed_tail = renamed.skip(dist.len() as int);
        assert forall|j: int| 0 <= j < k implies renamed_tail[j] == '/' by {
            assert(renamed_tail[j] == dir[dist.len() + j]);
        }
        assert(renamed_tail[k] == hashed_rel[0]);
        paths::lemma_leading_slashes_unique(renamed_tail, k);
        paths::lemma_trim_slashes(renamed_tail);
        assert(renamed_tail.skip(k) =~= hashed_rel);
    }
}

/// The files of a directory after one of them was renamed: the file at
/// `from` is gone and there is a file at `to`. Where no file is at `from`,
/// nothing changes.
pub open spec fn renamed(files: Set<Seq<char>>, rename: RenameView) -> Set<Seq<char>> {
    if files.contains(rename.from) {
        files.remove(rename.from).insert(rename.to)
    } else {
        files
    }
}

/// The files of a directory after `renames` were carried out in order.
pub open spec fn renamed_all(files: Set<Seq<char>>, renames: Seq<RenameView>) -> Set<Seq<char>>
    decreases renames.len(),
{
    if renames.len() == 0 {
        files
    } else {
        renamed(renamed_all(files, renames.drop_last()), renames.last())
    }
}

/// Whether the assets can be renamed without one taking the place of
/// another: their paths differ, and no hashed path is the path of an asset.
pub open spec fn renames_apart(assets: Seq<HashedAssetView>) -> bool {
    &&& forall|i: int, j: int|
        0 <= i < assets.len() && 0 <= j < assets.len() && i != j ==> (#[trigger] assets[i]).path
            != (#[trigger] assets[j]).path
    &&& forall|i: int, j: int|
        0 <= i < assets.len() && 0 <= j < assets.len() ==> (
        #[trigger] assets[i]).path_with_hash() != (#[trigger] assets[j]).path
}

/// Whether asset `i` is in the way when the assets are renamed: another
/// asset has its path, or its hashed path is the path of an asset.
pub open spec fn collides(assets: Seq<HashedAssetView>, i: int) -> bool {
    exists|j: int|
        0 <= j < assets.len() && ((j != i && (#[trigger] assets[j]).path == assets[i].path)
            || assets[i].path_with_hash() == assets[j].path)
}

/// The index of the first asset from `from` on that is in the way, or the
/// number of assets where none is.
pub open spec fn first_collision_from(assets: Seq<HashedAssetView>, from: int) -> int
    decreases assets.len() - from,
{
    if from < 0 || from >= assets.len() {
        assets.len() as int
    } else if collides(assets, from) {
        from
    } else {
        first_collision_from(assets, from + 1)
    }
}

/// The index of the first asset that is in the way, or the number of
/// assets where none is.
pub open spec fn first_collision(assets: Seq<HashedAssetView>) -> int {
    first_collision_from(assets, 0)
}

/// `first_collision_from` is an index of the assets or their number; the
/// asset at it is in the way, and none from `from` up to it is.
pub proof fn lemma_first_collision_from(assets: Seq<HashedAssetView>, from: int)
    requires
        0 <= from <= assets.len(),
    ensures
        from <= first_collision_from(assets, from) <= assets.len(),
        first_collision_from(assets, from) < assets.len() ==> collides(
            assets,
            first_collision_from(assets, from),
        ),
        forall|a: int| from <= a < first_collision_from(assets, from) ==> !collides(assets, a),
    decreases assets.len() - from,
{
    if from < assets.len() && !collides(assets, from) {
        lemma_first_collision_from(assets, from + 1);
    }
}

/// An index whose asset is in the way, while none before it is, is
/// `first_collision`; so is the number of assets where none is in the
/// way.
pub proof fn lemma_first_collision_unique(assets: Seq<HashedAssetView>, k: int)
    requires
        0 <= k <= assets.len(),
        k < assets.len() ==> collides(assets, k),
        forall|a: int| 0 <= a < k ==> !collides(assets, a),
    ensures
        first_collision(assets) == k,
{
    lemma_first_collision_from(assets, 0);
}

/// Where no asset is in the way, the renamings keep apart, and the other
/// way round.
pub proof fn lemma_no_collision_keeps_apart(assets: Seq<HashedAssetView>)
    ensures
        first_collision(assets) == assets.len() <==> renames_apart(assets),
{
    lemma_first_collision_from(assets, 0);
    if first_collision(assets) == assets.len() {
        assert forall|i: int, j: int|
            0 <= i < assets.len() && 0 <= j < assets.len() && i != j implies (
        #[trigger] assets[i]).path != (#[trigger] assets[j]).path by {
            assert(!collides(assets, i));
        }
        assert forall|i: int, j: int| 0 <= i < assets.len() && 0 <= j < assets.len() implies (
        #[trigger] assets[i]).path_with_hash() != (#[trigger] assets[j]).path by {
            assert(!collides(assets, i));
        }
    } else {
        let k = first_collision(assets);
        assert(collides(assets, k));
    }
}

/// After the assets were renamed, the file of every hashed path is there.
/// This holds where the file of every asset is there before, and the
/// renamings keep apart.
pub proof fn lemma_renamed_files_exist(
    files: Set<Seq<char>>,
    assets: Seq<HashedAssetView>,
    count: int,
)
    requires
        forall|i: int| 0 <= i < assets.len() ==> files.contains((#[trigger] assets[i]).path),
        renames_apart(assets),
        0 <= count <= assets.len(),
    ensures
        ({
            let after = renamed_all(
                files,
                assets.take(count).map_values(|a: HashedAssetView| rename_of(a)),
            );
            &&& forall|i: int|
                0 <= i < count ==> after.contains((#[trigger] assets[i]).path_with_hash())
            &&& forall|i: int|
                count <= i < assets.len() ==> after.contains((#[trigger] assets[i]).path)
        }),
    decreases count,
{
    let renames = assets.take(count).map_values(|a: HashedAssetView| rename_of(a));
    if count > 0 {
        lemma_renamed_files_exist(files, assets, count - 1);
        let before = assets.take(count - 1).map_values(|a: HashedAssetView| rename_of(a));
        assert(renames.drop_last() =~= before);
        assert(renames.last() == rename_of(assets[count - 1]));
        let previous = renamed_all(files, before);
        let after = renamed_all(files, renames);
        assert(after == renamed(previous, rename_of(assets[count - 1])));
        assert(previous.contains(assets[count - 1].path));
        assert forall|i: int| 0 <= i < count implies after.contains(
            (#[trigger] assets[i]).path_with_hash(),
        ) by {
            if i < count - 1 {
                assert(previous.contains(assets[i].path_with_hash()));
                assert(assets[i].path_with_hash() != assets[count - 1].path);
            }
        }
        assert forall|i: int| count <= i < assets.len() implies after.contains(
            (#[trigger] assets[i]).path,
        ) by {
            assert(previous.contains(assets[i].path));
            assert(assets[i].path != assets[count - 1].path);
        }
    }
}

/// Once the assets are renamed, every hashed URI resolves to a file that
/// is there. Let the assets be files below the output directory `dist`,
/// each with the URI that its path gives, let the file of each be there,
/// and let the renamings keep apart. Then, once all assets are renamed,
/// there is for every asset a file whose URI is the hashed URI of the
/// asset, which is what the rewritten sources speak of.
pub proof fn lemma_hashed_uris_resolve(
    dist: Seq<char>,
    files: Set<Seq<char>>,
    assets: Seq<HashedAssetView>,
)
    requires
        forall|i: int| 0 <= i < assets.len() ==> files.contains((#[trigger] assets[i]).path),
        forall|i: int|
            0 <= i < assets.len() ==> dist_uri(dist, (#[trigger] assets[i]).path) == Some(
                assets[i].uri,
            ),
        renames_apart(assets),
    ensures
        forall|i: int|
            0 <= i < assets.len() ==> {
                let file = (#[trigger] assets[i]).path_with_hash();
                &&& renamed_all(
                    files,
                    assets.map_values(|a: HashedAssetView| rename_of(a)),
                ).contains(file)
                &&& dist_uri(dist, file) == Some(assets[i].uri_with_hash())
            },
{
    lemma_renamed_files_exist(files, assets, assets.len() as int);
    assert(assets.take(assets.len() as int) == assets);
    assert forall|i: int| 0 <= i < assets.len() implies dist_uri(
        dist,
        (#[trigger] assets[i]).path_with_hash(),
    ) == Some(assets[i].uri_with_hash()) by {
        lemma_hashed_uri_names_renamed_file(dist, assets[i].path, assets[i].hash);
    }
}

/// Finds the first asset that is in the way when the assets are renamed.
pub fn find_collision(assets: &Vec<HashedAsset>) -> (r: Option<usize>)
    ensures
        match r {
            Some(i) => i as int == first_collision(asset_views(assets@)) && i < assets@.len(),
            None => first_collision(asset_views(assets@)) == assets@.len(),
        },
        r is None <==> renames_apart(asset_views(assets@)),
{
    let ghost views = asset_views(assets@);
    proof {
        lemma_no_collision_keeps_apart(views);
    }
    let mut i: usize = 0;
    while i < assets.len()
        invariant
            i <= assets.len(),
            views == asset_views(assets@),
            forall|a: int| 0 <= a < i ==> !collides(views, a),
        decreases assets.len() - i,
    {
        let path = assets[i].path();
        let hashed_path = assets[i].path_with_hash();
        let mut j: usize = 0;
        while j < assets.len()
            invariant
                i < assets.len(),
                j <= assets.len(),
                views == asset_views(assets@),
                path@ == views[i as int].path,
                hashed_path@ == views[i as int].path_with_hash(),
                forall|a: int| 0 <= a < i ==> !collides(views, a),
                forall|b: int|
                    0 <= b < j ==> !((b != i && (#[trigger] views[b]).path == views[i as int].path)
                        || views[i as int].path_with_hash() == views[b].path),
            decreases assets.len() - j,
        {
            let other = assets[j].path();
            assert(other@ == views[j as int].path);
            if (i != j && *path == *other) || hashed_path == *other {
                proof {
                    assert(collides(views, i as int));
                    lemma_first_collision_unique(views, i as int);
                }
                return Some(i);
            }
            j = j + 1;
        }
        i = i + 1;
    }
    proof {
        lemma_first_collision_unique(views, views.len() as int);
    }
    None
}

} // verus!
