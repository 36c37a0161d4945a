//! Files as plain values, and how a file is replaced safely.

use crate::paths;
use vstd::prelude::*;

verus! {

/// A file's text and permission bits.
#[derive(Debug, PartialEq, Eq)]
pub struct FileData {
    pub content: String,
    pub permissions: u32,
}

/// A file's text and permission bits as plain values.
pub struct FileDataView {
    pub content: Seq<char>,
    pub permissions: u32,
}

impl View for FileData {
    type V = FileDataView;

    open spec fn view(&self) -> FileDataView {
        FileDataView { content: self.content@, permissions: self.permissions }
    }
}

impl Clone for FileData {
    fn clone(&self) -> (d: FileData)
        ensures
            d@ == self@,
    {
        FileData { content: self.content.clone(), permissions: self.permissions }
    }
}

/// How a file is replaced: `data` is written to a new file in the
/// directory `dir`, under a name that no file has; the new file carries
/// the permission bits of `data` and is then renamed to `path`. The file
/// at `path` is whole at every moment, and no other file is touched.
#[derive(Debug, PartialEq, Eq)]
pub struct Replacement {
    pub path: String,
    pub dir: String,
    pub data: FileData,
}

/// A replacement as plain values.
pub struct ReplacementView {
    pub path: Seq<char>,
    pub dir: Seq<char>,
    pub data: FileDataView,
}

impl View for Replacement {
    type V = ReplacementView;

    open spec fn view(&self) -> ReplacementView {
        ReplacementView { path: self.path@, dir: self.dir@, data: self.data@ }
    }
}

impl Clone for Replacement {
    fn clone(&self) -> (r: Replacement)
        ensures
            r@ == self@,
    {
        Replacement {
            path: self.path.clone(),
            dir: self.dir.clone(),
            data: self.data.clone(),
        }
    }
}

/// The replacement of the file at `path` by `data`.
pub open spec fn replacement_of(path: Seq<char>, data: FileDataView) -> ReplacementView {
    ReplacementView { path, dir: paths::spec_parent(path), data }
}

/// The replacement of the file at `path` by `file_data`.
pub fn write(path: &str, file_data: FileData) -> (r: Replacement)
    ensures
        r@ == replacement_of(path@, file_data@),
        r.data == file_data,
{
    Replacement {
        path: path.to_owned(),
        dir: paths::parent(path),
        data: file_data,
    }
}

} // verus!
