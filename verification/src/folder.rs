//! A model folder as the server sees it, and the files it looks for there.

use vstd::prelude::*;
use vstd::slice::slice_subrange;

use crate::names;
use crate::names::find_name;
use crate::number;
use crate::number::decimal_usize;
use crate::status::{Code, Status, StatusView};
use crate::text;
use crate::text::{cat2, cat3, cat4, chars_of, is_word};

verus! {

/// An entry of a folder.
#[derive(Debug)]
pub struct FolderEntry {
    /// The file name, without the folder's path.
    pub name: String,
    /// The path that the entry is opened under.
    pub path: String,
    pub is_file: bool,
}

/// A model folder: the well-known names that are regular files or directories
/// in it, and the listing of its entries. Where the listing, or one entry of it,
/// could not be read, the reason stands in its place.
#[derive(Debug)]
pub struct Folder {
    pub files: Vec<String>,
    pub dirs: Vec<String>,
    pub listing: Result<Vec<Result<FolderEntry, String>>, String>,
}

/// How many characters stand up to and with the last `c`; zero where there is
/// none.
pub open spec fn past_last(s: Seq<char>, c: char) -> nat
    decreases s.len(),
{
    if s.len() == 0 || s.last() == c {
        s.len()
    } else {
        past_last(s.drop_last(), c)
    }
}

/// The extension of a file name: what follows its last dot. A name without a
/// dot, or whose only dot is its first character, has none.
pub open spec fn extension(name: Seq<char>) -> Option<Seq<char>> {
    let n = past_last(name, '.');
    if n <= 1 || name == ".."@ {
        None
    } else {
        Some(name.skip(n as int))
    }
}

/// Whether a file name has the extension `ext`.
pub fn has_extension(name: &str, ext: &str) -> (r: bool)
    ensures
        r == (extension(name@) == Some(ext@)),
{
    let all = chars_of(name);
    let s = all.as_slice();
    if is_word(s, "..") {
        return false;
    }
    let mut n: usize = s.len();
    assert(s@.take(n as int) =~= s@);
    while n > 0 && s[n - 1] != '.'
        invariant
            n <= s@.len(),
            past_last(s@, '.') == past_last(s@.take(n as int), '.'),
        decreases n,
    {
        assert(s@.take(n as int).drop_last() =~= s@.take(n - 1));
        n = n - 1;
    }
    if n <= 1 {
        return false;
    }
    let tail = slice_subrange(s, n, s.len());
    assert(tail@ =~= s@.skip(n as int));
    is_word(tail, ext)
}

impl Folder {
    /// Whether a regular file of that name is there.
    pub open spec fn file_there(self, name: Seq<char>) -> bool {
        names::position(text::texts(self.files@), name) < self.files@.len()
    }

    /// Whether a directory of that name is there.
    pub open spec fn dir_there(self, name: Seq<char>) -> bool {
        names::position(text::texts(self.dirs@), name) < self.dirs@.len()
    }

    /// Whether some entry that could be read has the extension.
    pub open spec fn ext_there(self, ext: Seq<char>) -> bool {
        self.listing matches Ok(entries) && exists|i: int|
            0 <= i < entries@.len() && ((#[trigger] entries@[i]) matches Ok(entry) && extension(
                entry.name@,
            ) == Some(ext))
    }

    /// Decides [`Self::file_there`].
    pub fn has_file(&self, name: &str) -> (r: bool)
        ensures
            r == self.file_there(name@),
    {
        find_name(&self.files, name) < self.files.len()
    }

    /// Decides [`Self::dir_there`].
    pub fn has_dir(&self, name: &str) -> (r: bool)
        ensures
            r == self.dir_there(name@),
    {
        find_name(&self.dirs, name) < self.dirs.len()
    }

    /// Decides [`Self::ext_there`].
    pub fn has_ext(&self, ext: &str) -> (r: bool)
        ensures
            r == self.ext_there(ext@),
    {
        match &self.listing {
            Err(_) => false,
            Ok(entries) => {
                let mut i: usize = 0;
                while i < entries.len()
                    invariant
                        i <= entries@.len(),
                        self.listing == Ok::<Vec<Result<FolderEntry, String>>, String>(*entries),
                        forall|k: int|
                            0 <= k < i ==> !((#[trigger] entries@[k]) matches Ok(entry)
                                && extension(entry.name@) == Some(ext@)),
                    decreases entries@.len() - i,
                {
                    if let Ok(entry) = &entries[i] {
                        if has_extension(entry.name.as_str(), ext) {
                            return true;
                        }
                    }
                    i = i + 1;
                }
                false
            },
        }
    }
}

/// The paths of the regular files with the extension among the entries, or the
/// reason why an entry could not be read: that of the first such entry.
pub open spec fn files_with_ext(entries: Seq<Result<FolderEntry, String>>, ext: Seq<char>) -> Result<
    Seq<Seq<char>>,
    Seq<char>,
>
    decreases entries.len(),
{
    if entries.len() == 0 {
        Ok(Seq::empty())
    } else {
        match files_with_ext(entries.drop_last(), ext) {
            Err(e) => Err(e),
            Ok(before) => match entries.last() {
                Err(e) => Err(e@),
                Ok(entry) => if entry.is_file && extension(entry.name@) == Some(ext) {
                    Ok(before.push(entry.path@))
                } else {
                    Ok(before)
                },
            },
        }
    }
}

proof fn lemma_files_with_ext_fault(
    entries: Seq<Result<FolderEntry, String>>,
    ext: Seq<char>,
    k: int,
)
    requires
        0 <= k <= entries.len(),
        files_with_ext(entries.take(k), ext) is Err,
    ensures
        files_with_ext(entries, ext) == files_with_ext(entries.take(k), ext),
    decreases entries.len() - k,
{
    if k == entries.len() {
        assert(entries.take(k) =~= entries);
    } else {
        assert(entries.take(k + 1).drop_last() =~= entries.take(k));
        lemma_files_with_ext_fault(entries, ext, k + 1);
    }
}

/// The path of the one regular file with the extension in a folder, or why there
/// is not exactly one.
pub open spec fn the_only_file(folder: Folder, ext: Seq<char>) -> Result<Seq<char>, StatusView> {
    match folder.listing {
        Err(e) => Err((Code::Internal, "failed to read model directory: "@ + e@)),
        Ok(entries) => match files_with_ext(entries@, ext) {
            Err(e) => Err((Code::Internal, "failed to read model entry: "@ + e)),
            Ok(paths) => if paths.len() == 1 {
                Ok(paths[0])
            } else if paths.len() == 0 {
                Err(
                    (
                        Code::FailedPrecondition,
                        "model must contain exactly one ."@ + ext + " file; found none"@,
                    ),
                )
            } else {
                Err(
                    (
                        Code::FailedPrecondition,
                        "model must contain exactly one ."@ + ext + " file; found "@
                            + number::decimal(paths.len() as int),
                    ),
                )
            },
        },
    }
}

fn list_with_ext(entries: &Vec<Result<FolderEntry, String>>, ext: &str) -> (r: Result<
    Vec<String>,
    String,
>)
    ensures
        match r {
            Ok(paths) => files_with_ext(entries@, ext@) == Ok::<Seq<Seq<char>>, Seq<char>>(
                text::texts(paths@),
            ),
            Err(e) => files_with_ext(entries@, ext@) == Err::<Seq<Seq<char>>, Seq<char>>(e@),
        },
{
    let mut paths: Vec<String> = Vec::new();
    let mut i: usize = 0;
    assert(entries@.take(0) =~= Seq::empty());
    assert(text::texts(paths@) =~= Seq::empty());
    while i < entries.len()
        invariant
            i <= entries@.len(),
            files_with_ext(entries@.take(i as int), ext@) == Ok::<Seq<Seq<char>>, Seq<char>>(
                text::texts(paths@),
            ),
        decreases entries@.len() - i,
    {
        proof {
            assert(entries@.take(i + 1).drop_last() =~= entries@.take(i as int));
            assert(entries@.take(i + 1).last() == entries@[i as int]);
        }
        match &entries[i] {
            Err(e) => {
                proof {
                    lemma_files_with_ext_fault(entries@, ext@, i + 1);
                }
                return Err(e.clone());
            },
            Ok(entry) => {
                if entry.is_file && has_extension(entry.name.as_str(), ext) {
                    let path = entry.path.clone();
                    assert(text::texts(paths@.push(path)) =~= text::texts(paths@).push(path@));
                    paths.push(path);
                }
            },
        }
        i = i + 1;
    }
    assert(entries@.take(i as int) =~= entries@);
    Ok(paths)
}

/// Finds the one regular file with the extension in a model folder.
pub fn find_exactly_one(folder: &Folder, ext: &str) -> (r: Result<String, Status>)
    ensures
        match r {
            Ok(path) => the_only_file(*folder, ext@) == Ok::<Seq<char>, StatusView>(path@),
            Err(e) => the_only_file(*folder, ext@) == Err::<Seq<char>, StatusView>(e@),
        },
{
    match &folder.listing {
        Err(e) => Err(Status::internal(cat2("failed to read model directory: ", e.as_str()))),
        Ok(entries) => match list_with_ext(entries, ext) {
            Err(e) => Err(Status::internal(cat2("failed to read model entry: ", e.as_str()))),
            Ok(paths) => {
                assert(text::texts(paths@).len() == paths@.len());
                if paths.len() == 1 {
                    let mut paths = paths;
                    assert(text::texts(paths@)[0] == paths@[0]@);
                    Ok(paths.remove(0))
                } else if paths.len() == 0 {
                    Err(
                        Status::failed_precondition(
                            cat3("model must contain exactly one .", ext, " file; found none"),
                        ),
                    )
                } else {
                    let count = decimal_usize(paths.len());
                    Err(
                        Status::failed_precondition(
                            cat4(
                                "model must contain exactly one .",
                                ext,
                                " file; found ",
                                count.as_str(),
                            ),
                        ),
                    )
                }
            },
        },
    }
}

} // verus!
