//! What is removed after a cancelled download.

use crate::text::{
    after_last_index, contains, copy_range, file_name_of, file_stem, has_substring, stem_len,
    to_chars,
};
use vstd::prelude::*;

verus! {

/// What to remove once a download has ended.
#[derive(Clone, Copy, Debug, PartialEq, Eq, Structural)]
pub enum CleanupAction {
    /// Nothing: the download was not cancelled, or it left no file behind.
    Nothing,
    /// The destination folder of a playlist, with all that it holds.
    RemoveFolder,
    /// The file at this index of the folder's listing.
    RemoveFile(usize),
}

/// The base name of a destination path: its last component without the
/// extension.
pub open spec fn base_name(path: Seq<char>, separator: char) -> Seq<char> {
    file_stem(file_name_of(path, separator))
}

/// The file `name` belongs to the download with base name `base`: its name
/// without the extension contains `base`.
pub open spec fn belongs_to(name: Seq<char>, base: Seq<char>) -> bool {
    contains(file_stem(name), base)
}

/// The index of the first name of `listing` that belongs to `base`.
pub open spec fn first_belonging(listing: Seq<String>, base: Seq<char>) -> Option<int>
    decreases listing.len(),
{
    if listing.len() == 0 {
        None
    } else {
        match first_belonging(listing.drop_last(), base) {
            Some(i) => Some(i),
            None => if belongs_to(listing.last()@, base) {
                Some(listing.len() - 1)
            } else {
                None
            },
        }
    }
}

/// What is removed at the end of a download into `path`, given the names of
/// the files in the download folder.
pub open spec fn cleanup_of(
    cancelled: bool,
    is_playlist: bool,
    path: Seq<char>,
    separator: char,
    listing: Seq<String>,
) -> CleanupAction {
    if !cancelled {
        CleanupAction::Nothing
    } else if is_playlist {
        CleanupAction::RemoveFolder
    } else {
        match first_belonging(listing, base_name(path, separator)) {
            Some(i) => CleanupAction::RemoveFile(i as usize),
            None => CleanupAction::Nothing,
        }
    }
}

/// The first belonging name is in the listing and belongs; no name before
/// it does. Where there is none, no name of the listing belongs.
pub proof fn lemma_first_belonging(listing: Seq<String>, base: Seq<char>)
    ensures
        match first_belonging(listing, base) {
            Some(i) => {
                &&& 0 <= i < listing.len()
                &&& belongs_to(listing[i]@, base)
                &&& forall|j: int| 0 <= j < i ==> !belongs_to(#[trigger] listing[j]@, base)
            },
            None => forall|j: int|
                0 <= j < listing.len() ==> !belongs_to(#[trigger] listing[j]@, base),
        },
    decreases listing.len(),
{
    if listing.len() > 0 {
        let rest = listing.drop_last();
        lemma_first_belonging(rest, base);
        assert forall|j: int| 0 <= j < rest.len() implies rest[j] == listing[j] by {}
    }
}

/// The base name of a destination path.
pub fn base_name_of(path: &str, separator: char) -> (r: Vec<char>)
    ensures
        r@ == base_name(path@, separator),
{
    let chars = to_chars(path);
    let start = after_last_index(chars.as_slice(), separator);
    let name = copy_range(chars.as_slice(), start, chars.len());
    let k = stem_len(name.as_slice());
    copy_range(name.as_slice(), 0, k)
}

/// Whether the file `name` belongs to the download with base name `base`.
pub fn file_belongs(name: &str, base: &[char]) -> (r: bool)
    ensures
        r == belongs_to(name@, base@),
{
    let chars = to_chars(name);
    let k = stem_len(chars.as_slice());
    let stem = copy_range(chars.as_slice(), 0, k);
    has_substring(stem.as_slice(), base)
}

/// Decides what to remove at the end of a download into `path`. After a
/// cancelled playlist the whole destination folder goes; after a cancelled
/// single item, the first file of the listing whose name without extension
/// contains the destination's base name.
pub fn cleanup_action(
    cancelled: bool,
    is_playlist: bool,
    path: &str,
    separator: char,
    listing: &Vec<String>,
) -> (r: CleanupAction)
    ensures
        r == cleanup_of(cancelled, is_playlist, path@, separator, listing@),
        match r {
            CleanupAction::RemoveFile(i) => {
                &&& cancelled && !is_playlist
                &&& i < listing@.len()
                &&& belongs_to(listing@[i as int]@, base_name(path@, separator))
                &&& forall|j: int|
                    0 <= j < i ==> !belongs_to(
                        #[trigger] listing@[j]@,
                        base_name(path@, separator),
                    )
            },
            CleanupAction::RemoveFolder => cancelled && is_playlist,
            CleanupAction::Nothing => !cancelled || (!is_playlist && forall|j: int|
                0 <= j < listing@.len() ==> !belongs_to(
                    #[trigger] listing@[j]@,
                    base_name(path@, separator),
                )),
        },
{
    if !cancelled {
        return CleanupAction::Nothing;
    }
    if is_playlist {
        return CleanupAction::RemoveFolder;
    }
    let base = base_name_of(path, separator);
    let mut i: usize = 0;
    proof {
        lemma_first_belonging(listing@, base@);
        assert(listing@.subrange(0, 0) =~= Seq::<String>::empty());
    }
    while i < listing.len()
        invariant
            i <= listing.len(),
            cancelled,
            !is_playlist,
            base@ == base_name(path@, separator),
            first_belonging(listing@.subrange(0, i as int), base@) is None,
        decreases listing.len() - i,
    {
        let ghost next = listing@.subrange(0, i + 1);
        proof {
            assert(next.drop_last() =~= listing@.subrange(0, i as int));
            assert(next.last() == listing@[i as int]);
        }
        if file_belongs(listing[i].as_str(), base.as_slice()) {
            proof {
                lemma_first_belonging(next, base@);
                lemma_first_belonging(listing@, base@);
                assert(first_belonging(next, base@) == Some(i as int));
                assert forall|j: int| 0 <= j < i implies !belongs_to(
                    #[trigger] listing@[j]@,
                    base@,
                ) by {
                    assert(next[j] == listing@[j]);
                }
                assert(belongs_to(listing@[i as int]@, base@));
                assert(first_belonging(listing@, base@) == Some(i as int));
            }
            return CleanupAction::RemoveFile(i);
        }
        i += 1;
    }
    proof {
        assert(listing@.subrange(0, i as int) =~= listing@);
    }
    CleanupAction::Nothing
}

} // verus!
