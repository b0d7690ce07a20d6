//! Collecting image files, ordering them by sort key, and naming the copies.

use std::path::PathBuf;

use itertools::Itertools;
use vstd::prelude::*;
use vstd::string::StrSliceExecFns;
use vstd::string::StringExecFns;

use crate::error::TimestampError;
use crate::metadata::get_date_time;
use crate::metadata::sort_key_of;
use crate::order::text_le;
use crate::stable::lemma_sort_keeps_entries;
use crate::timestamp::is_sort_key;

verus! {

/// A path of the standard library. An entry carries it from where the
/// image was found to where it is copied; nothing here looks into it.
#[verifier::external_type_specification]
#[verifier::external_body]
pub struct ExPathBuf(PathBuf);

/// One image file that is to be copied.
#[derive(Debug)]
pub struct ImageEntry {
    /// The file's name in its folder.
    pub name: String,
    /// Where the file is.
    pub path: PathBuf,
    /// The sort key derived from the file's metadata.
    pub sort_key: String,
}

impl ImageEntry {
    /// Whether the entry's sort key has the shape of one.
    pub open spec fn well_formed(&self) -> bool {
        is_sort_key(self.sort_key@)
    }
}

/// The test that an entry's sort key is `key`.
pub open spec fn has_key(key: Seq<char>) -> spec_fn(ImageEntry) -> bool {
    |image: ImageEntry| image.sort_key@ == key
}

/// The entries of `entries` whose sort key is `key`, in their order.
pub open spec fn with_key(entries: Seq<ImageEntry>, key: Seq<char>) -> Seq<ImageEntry> {
    entries.filter(has_key(key))
}

/// Whether the sort keys of `entries` ascend in the order of text.
pub open spec fn ordered_by_key(entries: Seq<ImageEntry>) -> bool {
    forall|i: int, j: int|
        0 <= i < j < entries.len() ==> text_le(
            #[trigger] entries[i].sort_key@,
            #[trigger] entries[j].sort_key@,
        )
}

/// Whether `sorted` is `entries` sorted by sort key and stably: the same
/// entries, keys ascending, and entries of one key in the order they had.
pub open spec fn is_stable_sort(sorted: Seq<ImageEntry>, entries: Seq<ImageEntry>) -> bool {
    &&& sorted.to_multiset() == entries.to_multiset()
    &&& ordered_by_key(sorted)
    &&& forall|key: Seq<char>| #[trigger] with_key(sorted, key) == with_key(entries, key)
}

/// The file that an image is copied to: in `dest_dir`, named by the sort
/// key, an underscore and the image's own name.
pub open spec fn destination_text(dest_dir: Seq<char>, sort_key: Seq<char>, name: Seq<char>) -> Seq<
    char,
> {
    dest_dir + seq!['/'] + sort_key + seq!['_'] + name
}

/// The index of the last `.` in `name`, or -1 where there is none.
pub open spec fn last_dot(name: Seq<char>) -> int
    decreases name.len(),
{
    if name.len() == 0 {
        -1
    } else if name.last() == '.' {
        name.len() - 1
    } else {
        last_dot(name.drop_last())
    }
}

/// The extension of a file name: what follows its last `.`, unless that `.`
/// is the name's first character or there is none.
pub open spec fn extension(name: Seq<char>) -> Option<Seq<char>> {
    if last_dot(name) > 0 {
        Some(name.skip(last_dot(name) + 1))
    } else {
        None
    }
}

/// Whether a file of this name is taken for an image: it has an extension,
/// and the extension is not empty.
pub open spec fn is_image_name(name: Seq<char>) -> bool {
    extension(name) matches Some(ext) && ext.len() > 0
}

/// Tells whether a folder entry called `name` is taken for an image file.
pub fn has_extension(name: &str) -> (b: bool)
    ensures
        b == is_image_name(name@),
{
    let len = name.unicode_len();
    let mut end: usize = len;
    proof {
        assert(name@.take(len as int) == name@);
    }
    while end > 0 && name.get_char(end - 1) != '.'
        invariant
            end <= len,
            len == name@.len(),
            last_dot(name@) == last_dot(name@.take(end as int)),
        decreases end,
    {
        proof {
            assert(name@.take(end as int).drop_last() == name@.take(end - 1));
        }
        end -= 1;
    }
    1 < end && end < len
}

/// Sorts with itertools' `Itertools::sorted_by_key`, the key being each
/// entry's `sort_key`.
///
/// Trusted: the call sorts a `Vec` of the entries with the stable
/// `slice::sort_by_key`, and `String` keys compare in the order of text.
#[verifier::external_body]
fn sorted_by_sort_key(entries: Vec<ImageEntry>) -> (sorted: Vec<ImageEntry>)
    ensures
        is_stable_sort(sorted@, entries@),
{
    entries.into_iter().sorted_by_key(|image| image.sort_key.clone()).collect()
}

impl ImageEntry {
    /// Makes the entry of the image file `name` at `path`, whose content is
    /// `image`, deriving its sort key from the metadata.
    pub fn from_image(
        name: String,
        path: PathBuf,
        image: &[u8],
        default_timezone_offset: &str,
    ) -> (entry: Result<ImageEntry, TimestampError>)
        ensures
            match entry {
                Ok(made) => made.name == name && made.path == path && made.well_formed()
                    && sort_key_of(image@, default_timezone_offset@) == Ok::<_, TimestampError>(
                    made.sort_key@,
                ),
                Err(e) => sort_key_of(image@, default_timezone_offset@) == Err::<Seq<char>, _>(e),
            },
    {
        match get_date_time(image, default_timezone_offset) {
            Ok(sort_key) => Ok(ImageEntry { name, path, sort_key }),
            Err(e) => Err(e),
        }
    }
}

/// Sorts the entries by sort key, ascending; entries of one key keep the
/// order in which they were collected.
pub fn sort_entries(entries: Vec<ImageEntry>) -> (sorted: Vec<ImageEntry>)
    ensures
        is_stable_sort(sorted@, entries@),
        sorted@.len() == entries@.len(),
        (forall|i: int| 0 <= i < entries@.len() ==> (#[trigger] entries@[i]).well_formed())
            ==> forall|a: int| 0 <= a < sorted@.len() ==> (#[trigger] sorted@[a]).well_formed(),
{
    let sorted = sorted_by_sort_key(entries);
    proof {
        lemma_sort_keeps_entries(entries@, sorted@);
    }
    sorted
}

/// Names the file that `image` is copied to in `dest_dir`.
pub fn destination_path(dest_dir: &str, image: &ImageEntry) -> (path: String)
    ensures
        path@ == destination_text(dest_dir@, image.sort_key@, image.name@),
{
    let mut path = String::from_str(dest_dir);
    path.append("/");
    path.append(image.sort_key.as_str());
    path.append("_");
    path.append(image.name.as_str());
    proof {
        reveal_strlit("/");
        reveal_strlit("_");
        assert(path@ == destination_text(dest_dir@, image.sort_key@, image.name@));
    }
    path
}

} // verus!
