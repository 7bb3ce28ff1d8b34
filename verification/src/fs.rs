use std::path::PathBuf;
use vstd::prelude::*;

use crate::peano::Z;
use crate::traits::Construct;
use crate::usage::Usage;

verus! {

/// A file system path (`std::path::PathBuf`), carried through unread
#[verifier::external_type_specification]
#[verifier::external_body]
pub struct ExPathBuf(PathBuf);

/// Usage tag: the path of a file
pub enum FilePath {
    Tag,
}

/// Usage tag: the contents of a file, as bytes
pub enum FileBytes {
    Tag,
}

/// Usage tag: the contents of a file, as text
pub enum FileString {
    Tag,
}

pub type FilePathComponent = Usage<FilePath, PathBuf>;

pub type FileBytesComponent = Usage<FileBytes, Vec<u8>>;

pub type FileStringComponent = Usage<FileString, String>;

/// A file's path and its contents as bytes
pub struct FileBytesBundle {
    pub path: FilePathComponent,
    pub bytes: FileBytesComponent,
}

impl FileBytesBundle {
    pub fn new(path: PathBuf, bytes: Vec<u8>) -> (res: Self)
        ensures
            res.path.data == path,
            res.bytes.data == bytes,
    {
        let path = FilePathComponent::construct(path);
        let bytes = FileBytesComponent::construct(bytes);
        FileBytesBundle { path, bytes }
    }
}

/// A file's path and its contents as text
pub struct FileStringBundle {
    pub path: FilePathComponent,
    pub string: FileStringComponent,
}

impl FileStringBundle {
    pub fn new(path: PathBuf, string: String) -> (res: Self)
        ensures
            res.path.data == path,
            res.string.data == string,
    {
        let path = FilePathComponent::construct(path);
        let string = FileStringComponent::construct(string);
        FileStringBundle { path, string }
    }
}

/// The components of a text file entity
pub struct FileStringQuery<'a> {
    pub path: &'a FilePathComponent,
    pub string: &'a FileStringComponent,
}

/// The components of a binary file entity
pub struct FileBytesQuery<'a> {
    pub path: &'a FilePathComponent,
    pub string: &'a FileBytesComponent,
}

} // verus!
