use vstd::prelude::*;

verus! {

/// The three kinds of directory entry the loader distinguishes. The standard
/// library keeps file kinds behind an OS-specific mode word; the loader only
/// ever asks the two questions below, so the kind is computed from their
/// answers.
#[derive(Clone, Copy, Debug, PartialEq, Eq, Structural)]
pub enum FileType {
    File,
    Dir,
    SymLink,
}

impl FileType {
    /// Classifies an entry from its metadata answers: a regular file wins,
    /// then a directory, and anything else is treated as a symbolic link.
    pub fn from_meta(is_file: bool, is_dir: bool) -> (t: FileType)
        ensures
            t == (if is_file {
                FileType::File
            } else if is_dir {
                FileType::Dir
            } else {
                FileType::SymLink
            }),
    {
        if is_file {
            FileType::File
        } else if is_dir {
            FileType::Dir
        } else {
            FileType::SymLink
        }
    }
}

} // verus!
