//! Directory listings: the entries a traversal found.

use vstd::prelude::*;

verus! {

/// An entry of the tree: a path with what the traversal learned of it.
#[derive(Debug)]
pub struct FileEntry {
    pub path: String,
    pub is_dir: bool,
    pub is_file: bool,
    pub size: Option<u64>,
}

/// The listing of a tree.
#[derive(Debug)]
pub struct WalkResult {
    pub entries: Vec<FileEntry>,
    pub error: Option<String>,
}

/// An entry over mathematical values.
pub struct EntryModel {
    pub path: Seq<char>,
    pub is_dir: bool,
    pub is_file: bool,
    pub size: Option<u64>,
}

impl View for FileEntry {
    type V = EntryModel;

    open spec fn view(&self) -> EntryModel {
        EntryModel {
            path: self.path@,
            is_dir: self.is_dir,
            is_file: self.is_file,
            size: self.size,
        }
    }
}

/// The entries held in `entries`, each as its model.
pub open spec fn entries_view(entries: Seq<FileEntry>) -> Seq<EntryModel> {
    Seq::new(entries.len(), |k: int| entries[k]@)
}

/// The entry for a path: a size is kept for regular files only.
pub open spec fn entry_of(path: Seq<char>, is_dir: bool, is_file: bool, len: Option<u64>) -> EntryModel {
    EntryModel {
        path,
        is_dir,
        is_file,
        size: if is_file {
            len
        } else {
            None
        },
    }
}

/// The entries among the first `count` things found, in their order. What the
/// traversal failed on is left out.
pub open spec fn listed(found: Seq<Option<FileEntry>>, count: int) -> Seq<EntryModel>
    decreases count,
{
    if count <= 0 {
        Seq::empty()
    } else {
        match found[count - 1] {
            Some(entry) => listed(found, count - 1).push(entry@),
            None => listed(found, count - 1),
        }
    }
}

impl FileEntry {
    /// Makes the entry for a path from what the traversal learned of it.
    pub fn new(path: &str, is_dir: bool, is_file: bool, len: Option<u64>) -> (entry: FileEntry)
        ensures
            entry@ == entry_of(path@, is_dir, is_file, len),
    {
        FileEntry {
            path: path.to_owned(),
            is_dir,
            is_file,
            size: if is_file {
                len
            } else {
                None
            },
        }
    }
}

/// Lists a tree from what a traversal found, in the order in which it found
/// it: an entry, or `None` where it failed on one.
///
/// Every entry is listed; a failure on one entry leaves the others standing
/// and sets no error.
pub fn walk_directory(found: &Vec<Option<FileEntry>>) -> (result: WalkResult)
    ensures
        entries_view(result.entries@) == listed(found@, found@.len() as int),
        result.error is None,
{
    let mut entries: Vec<FileEntry> = Vec::new();
    let mut i: usize = 0;
    assert(entries_view(entries@) == listed(found@, 0));
    while i < found.len()
        invariant
            i <= found@.len(),
            entries_view(entries@) == listed(found@, i as int),
        decreases found@.len() - i,
    {
        match &found[i] {
            Some(entry) => {
                let copy = FileEntry {
                    path: entry.path.clone(),
                    is_dir: entry.is_dir,
                    is_file: entry.is_file,
                    size: entry.size,
                };
                assert(entries_view(entries@.push(copy)) == entries_view(entries@).push(entry@));
                entries.push(copy);
            },
            None => {},
        }
        i += 1;
    }
    WalkResult { entries, error: None }
}

} // verus!
