//! The skip guard: a directory that already holds as many plain files as
//! there are attachments is taken to be complete. Only the number is
//! compared, not what the files are.

use vstd::prelude::*;

verus! {

/// What a directory entry is.
#[derive(Clone, Copy, Debug, PartialEq, Eq, Structural)]
pub enum Entry {
    /// A plain file.
    File,
    /// A directory, or anything else that is no plain file.
    Other,
}

/// The number of plain files among the entries of a directory.
pub open spec fn plain_files(entries: Seq<Entry>) -> nat {
    entries.filter(|entry: Entry| entry == Entry::File).len()
}

/// The number of plain files directly inside a directory. A directory that
/// is missing or cannot be read has no entries and so no files.
pub open spec fn files_in(listing: Option<&Vec<Entry>>) -> nat {
    match listing {
        Some(entries) => plain_files(entries@),
        None => 0,
    }
}

/// Counts the plain files directly inside a directory, given its entries, or
/// nothing where it could not be read.
pub fn count_files(listing: Option<&Vec<Entry>>) -> (count: usize)
    ensures
        count == files_in(listing),
{
    let entries = match listing {
        Some(entries) => entries,
        None => {
            return 0;
        },
    };
    let ghost is_file = |entry: Entry| entry == Entry::File;
    let mut count: usize = 0;
    let mut i: usize = 0;
    proof {
        reveal(Seq::filter);
    }
    while i < entries.len()
        invariant
            i <= entries.len(),
            count <= i,
            is_file == |entry: Entry| entry == Entry::File,
            count == entries@.take(i as int).filter(is_file).len(),
        decreases entries.len() - i,
    {
        proof {
            reveal(Seq::filter);
            assert(entries@.take(i + 1).drop_last() == entries@.take(i as int));
        }
        match entries[i] {
            Entry::File => {
                count += 1;
            },
            Entry::Other => {},
        }
        i += 1;
    }
    assert(entries@.take(entries.len() as int) == entries@);
    count
}

/// Whether a directory with `files` plain files is complete for `expected`
/// attachments: exactly when the two numbers are equal.
pub fn already_complete(files: usize, expected: usize) -> (complete: bool)
    ensures
        complete == (files == expected),
{
    files == expected
}

} // verus!
