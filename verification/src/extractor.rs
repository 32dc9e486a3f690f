use vstd::prelude::*;
use vstd::string::*;
use crate::archive::entry_views;
use crate::archive::EntryView;
use crate::archive::PackedEntry;

verus! {

/// What an entry becomes when it is written out.
#[derive(Clone, Copy, Debug, PartialEq, Eq, Structural)]
pub enum EntryKind {
    /// A directory to create, with every missing ancestor.
    Directory,
    /// A file to write, after its missing ancestors are created.
    File,
}

/// A name stands for a directory when it ends with the path separator.
pub open spec fn names_directory(name: Seq<char>) -> bool {
    name.len() > 0 && name.last() == '/'
}

/// The kind of the entry of the given name.
pub open spec fn kind_of(name: Seq<char>) -> EntryKind {
    if names_directory(name) {
        EntryKind::Directory
    } else {
        EntryKind::File
    }
}

/// The number of entries that are files, not directories.
pub open spec fn file_count(entries: Seq<EntryView>) -> nat
    decreases entries.len(),
{
    if entries.len() == 0 {
        0
    } else {
        file_count(entries.drop_last()) + if names_directory(entries.last().name) {
            0nat
        } else {
            1nat
        }
    }
}

/// Tells whether `name` stands for a directory.
pub fn is_directory_name(name: &str) -> (answer: bool)
    ensures
        answer == names_directory(name@),
{
    let len = name.unicode_len();
    len > 0 && name.get_char(len - 1) == '/'
}

/// Gives, for each entry in order, what it becomes when written out.
pub fn entry_kinds(entries: &Vec<PackedEntry>) -> (kinds: Vec<EntryKind>)
    ensures
        kinds.len() == entries.len(),
        forall|i: int| 0 <= i < entries.len() ==> #[trigger] kinds[i] == kind_of(entries[i].name@),
{
    let mut kinds: Vec<EntryKind> = Vec::new();
    let mut i: usize = 0;
    while i < entries.len()
        invariant
            i <= entries.len(),
            kinds.len() == i,
            forall|k: int| 0 <= k < i ==> #[trigger] kinds[k] == kind_of(entries[k].name@),
        decreases entries.len() - i,
    {
        let kind = if is_directory_name(entries[i].name.as_str()) {
            EntryKind::Directory
        } else {
            EntryKind::File
        };
        kinds.push(kind);
        i += 1;
    }
    kinds
}

/// Counts the entries that are files, leaving directories out.
pub fn count_files_in_zip(entries: &Vec<PackedEntry>) -> (count: usize)
    ensures
        count == file_count(entry_views(entries@)),
{
    let ghost views = entry_views(entries@);
    let mut count: usize = 0;
    let mut i: usize = 0;
    assert(views.subrange(0, 0) =~= Seq::<EntryView>::empty());
    while i < entries.len()
        invariant
            i <= entries.len(),
            views == entry_views(entries@),
            count == file_count(views.subrange(0, i as int)),
            count <= i,
        decreases entries.len() - i,
    {
        proof {
            let upto = views.subrange(0, i + 1);
            assert(upto.drop_last() =~= views.subrange(0, i as int));
            assert(upto.last().name == entries[i as int].name@);
        }
        if !is_directory_name(entries[i].name.as_str()) {
            count += 1;
        }
        i += 1;
    }
    assert(views.subrange(0, i as int) =~= views);
    count
}

/// No archive holds more files than entries.
pub proof fn lemma_file_count_bounded(entries: Seq<EntryView>)
    ensures
        file_count(entries) <= entries.len(),
    decreases entries.len(),
{
    if entries.len() > 0 {
        lemma_file_count_bounded(entries.drop_last());
    }
}

} // verus!
