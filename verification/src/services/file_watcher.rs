//! Deciding which files are taken in, and where they go when they are done.
//!
//! The watcher never looks into a path: `P` is the caller's type of paths, and
//! the extension of a path is handed in as a text.
use vstd::prelude::*;
use vstd::string::*;

use crate::numbers::{decimal, decimal_of, lemma_decimal};
use crate::text::{lower, optional_str, same_text, to_lower};

verus! {

/// The folder into which files are moved when they are done.
pub const PROCESSED_FOLDER: &'static str = "data/processed";

/// The extension, in lower case, is that of a workbook.
pub open spec fn is_workbook(small: Seq<char>) -> bool {
    small == "xls"@ || small == "xlsx"@
}

/// The extension, in lower case, is that of a file that is taken in.
pub open spec fn is_taken_in(small: Seq<char>) -> bool {
    small == "csv"@ || is_workbook(small)
}

/// Whether the extension, in lower case, is that of a workbook.
pub fn is_workbook_extension(small: &str) -> (yes: bool)
    ensures
        yes == is_workbook(small@),
{
    same_text(small, "xls") || same_text(small, "xlsx")
}

/// Whether the extension, in lower case, is that of a file that is taken in.
pub fn is_watched_extension(small: &str) -> (yes: bool)
    ensures
        yes == is_taken_in(small@),
{
    same_text(small, "csv") || is_workbook_extension(small)
}

/// The extension is that of a workbook, in capitals or not.
pub open spec fn names_workbook(extension: Option<Seq<char>>) -> bool {
    match extension {
        Some(text) => is_workbook(lower(text)),
        None => false,
    }
}

/// The extension is that of a file that is taken in, in capitals or not.
pub open spec fn names_watched(extension: Option<Seq<char>>) -> bool {
    match extension {
        Some(text) => is_taken_in(lower(text)),
        None => false,
    }
}

/// The file that arrived last, once a file has arrived or changed: this one where it
/// is taken in and lies in the watched folder itself, else the same as before.
pub open spec fn latest_after<P>(
    latest: Option<P>,
    path: P,
    extension: Option<Seq<char>>,
    in_folder: bool,
) -> Option<P> {
    if names_watched(extension) && in_folder {
        Some(path)
    } else {
        latest
    }
}

/// The name under which a file is kept when it is done: the time, in seconds, then
/// its own name.
pub open spec fn processed_name(timestamp: nat, own: Seq<char>) -> Seq<char> {
    decimal(timestamp) + "_"@ + own
}

/// A file with this extension counts when the folder is searched.
pub open spec fn counts_in_scan(extension: Option<Seq<char>>) -> bool {
    extension == Some("csv"@)
}

/// A continuous watch passes over a folder, and over a file without an extension or
/// with the extension "tmp".
pub open spec fn passes_over(is_dir: bool, extension: Option<Seq<char>>) -> bool {
    is_dir || match extension {
        Some(text) => text == "tmp"@,
        None => true,
    }
}

/// A path whose file has no name.
#[derive(Debug)]
pub struct InvalidFilename;

/// The watcher of a folder.
#[derive(Debug)]
pub struct FileWatcher<P> {
    pub watch_path: P,
    latest_file: Option<P>,
    processed_files: Vec<P>,
}

impl<P> FileWatcher<P> {
    /// The watched folder.
    pub closed spec fn folder(self) -> P {
        self.watch_path
    }

    /// The file that arrived last.
    pub closed spec fn latest(self) -> Option<P> {
        self.latest_file
    }

    /// The files that are done.
    pub closed spec fn processed(self) -> Set<P> {
        self.processed_files@.to_set()
    }

    /// The watcher of a folder, before any file has arrived.
    pub fn new(watch_path: P) -> (watcher: Self)
        ensures
            watcher.folder() == watch_path,
            watcher.latest() is None,
            watcher.processed() == Set::<P>::empty(),
    {
        let watcher = FileWatcher { watch_path, latest_file: None, processed_files: Vec::new() };
        assert(watcher.processed_files@.to_set() =~= Set::<P>::empty());
        watcher
    }

    /// Whether a file with this extension is a workbook.
    pub fn is_excel_file(extension: Option<&str>) -> (yes: bool)
        ensures
            yes == names_workbook(optional_str(extension)),
    {
        match extension {
            Some(text) => {
                let small = to_lower(text);
                is_workbook_extension(small.as_str())
            },
            None => false,
        }
    }

    /// Whether a file with this extension is taken in when it arrives.
    pub fn is_watched_file(extension: Option<&str>) -> (yes: bool)
        ensures
            yes == names_watched(optional_str(extension)),
    {
        match extension {
            Some(text) => {
                let small = to_lower(text);
                is_watched_extension(small.as_str())
            },
            None => false,
        }
    }

    /// Notes that a file has arrived or changed; `in_folder` says whether it lies
    /// in the watched folder itself. Other files, and files of other kinds, leave
    /// the watcher as it is.
    pub fn notice(&mut self, path: P, extension: Option<&str>, in_folder: bool)
        ensures
            final(self).folder() == old(self).folder(),
            final(self).processed() == old(self).processed(),
            final(self).latest() == latest_after(
                old(self).latest(),
                path,
                optional_str(extension),
                in_folder,
            ),
    {
        if Self::is_watched_file(extension) && in_folder {
            self.latest_file = Some(path);
        }
    }

    /// The file that arrived last.
    pub fn get_latest_file(&self) -> (latest: Option<&P>)
        ensures
            match latest {
                Some(path) => self.latest() == Some(*path),
                None => self.latest() is None,
            },
    {
        match &self.latest_file {
            Some(path) => Some(path),
            None => None,
        }
    }

    /// Forgets the file that arrived last.
    pub fn clear_latest(&mut self)
        ensures
            final(self).folder() == old(self).folder(),
            final(self).processed() == old(self).processed(),
            final(self).latest() is None,
    {
        self.latest_file = None;
    }

    /// Notes that a file is done.
    pub fn mark_processed(&mut self, path: P)
        ensures
            final(self).folder() == old(self).folder(),
            final(self).latest() == old(self).latest(),
            final(self).processed() == old(self).processed().insert(path),
    {
        let ghost before = self.processed_files@;
        self.processed_files.push(path);
        proof {
            let after = self.processed_files@;
            assert forall|p: P| after.contains(p) == (before.contains(p) || p == path) by {
                if before.contains(p) {
                    let i = choose|i: int| 0 <= i < before.len() && before[i] == p;
                    assert(after[i] == p);
                }
                assert(after[before.len() as int] == path);
                if after.contains(p) {
                    let i = choose|i: int| 0 <= i < after.len() && after[i] == p;
                    if i < before.len() {
                        assert(before[i] == p);
                    }
                }
            }
            assert(after.to_set() =~= before.to_set().insert(path));
        }
    }

    /// The name under which a file is kept when it is done, in the folder
    /// `PROCESSED_FOLDER`: the time, in seconds, then its own name.
    pub fn move_to_processed(file_name: Option<&str>, timestamp: u64) -> (name: Result<
        String,
        InvalidFilename,
    >)
        ensures
            match name {
                Ok(name) => file_name matches Some(own) && name@ == processed_name(
                    timestamp as nat,
                    own@,
                ),
                Err(_) => file_name is None,
            },
    {
        match file_name {
            Some(own) => {
                let mut name = decimal_of(timestamp);
                name.append("_");
                name.append(own);
                Ok(name)
            },
            None => Err(InvalidFilename),
        }
    }

    /// Whether a file with this extension counts when the folder is searched.
    pub fn is_scanned(extension: Option<&str>) -> (yes: bool)
        ensures
            yes == counts_in_scan(optional_str(extension)),
    {
        match extension {
            Some(text) => same_text(text, "csv"),
            None => false,
        }
    }

    /// The first of the files that changed last. `times` are the times at which
    /// the files changed.
    pub fn scan_for_latest(times: &Vec<i128>) -> (latest: Option<usize>)
        ensures
            match latest {
                Some(i) => {
                    &&& i < times@.len()
                    &&& forall|j: int| 0 <= j < times@.len() ==> #[trigger] times@[j]
                        <= times@[i as int]
                    &&& forall|j: int| 0 <= j < i ==> #[trigger] times@[j] < times@[i as int]
                },
                None => times@.len() == 0,
            },
    {
        if times.len() == 0 {
            return None;
        }
        let mut best: usize = 0;
        for i in 1..times.len()
            invariant
                best < i,
                i <= times@.len(),
                forall|j: int| 0 <= j < i ==> #[trigger] times@[j] <= times@[best as int],
                forall|j: int| 0 <= j < best ==> #[trigger] times@[j] < times@[best as int],
        {
            if times[i] > times[best] {
                best = i;
            }
        }
        Some(best)
    }

    /// Whether a continuous watch passes over a path: a folder, and a file
    /// without an extension or with the extension "tmp".
    pub fn is_passed_over(is_dir: bool, extension: Option<&str>) -> (yes: bool)
        ensures
            yes == passes_over(is_dir, optional_str(extension)),
    {
        is_dir || match extension {
            Some(text) => same_text(text, "tmp"),
            None => true,
        }
    }
}

/// Every workbook is taken in.
pub proof fn law_workbooks_are_watched(extension: Option<Seq<char>>)
    requires
        names_workbook(extension),
    ensures
        names_watched(extension),
{
}

/// Files that are done at different times, or have different names, are kept
/// under different names.
pub proof fn law_processed_names_differ(t1: u64, t2: u64, a: Seq<char>, b: Seq<char>)
    requires
        processed_name(t1 as nat, a) == processed_name(t2 as nat, b),
    ensures
        t1 == t2,
        a == b,
{
    reveal_strlit("_");
    let left = decimal(t1 as nat);
    let right = decimal(t2 as nat);
    let whole = left + "_"@ + a;
    lemma_decimal(t1 as nat);
    lemma_decimal(t2 as nat);
    assert(whole[left.len() as int] == '_');
    assert((right + "_"@ + b)[right.len() as int] == '_');
    if left.len() < right.len() {
        assert((right + "_"@ + b)[left.len() as int] == right[left.len() as int]);
    }
    if right.len() < left.len() {
        assert(whole[right.len() as int] == left[right.len() as int]);
    }
    assert(left =~= whole.take(left.len() as int));
    assert(right =~= (right + "_"@ + b).take(right.len() as int));
    assert(a =~= whole.skip(left.len() as int + 1));
    assert(b =~= (right + "_"@ + b).skip(right.len() as int + 1));
}

/// Workbooks are the files with the extension "xls" or "xlsx", and those with
/// "csv" are taken in too; case does not matter, and a file without an extension is
/// none of these.
pub proof fn law_extensions(extension: Seq<char>)
    ensures
        names_workbook(Some(extension)) <==> lower(extension) == "xls"@ || lower(extension)
            == "xlsx"@,
        names_watched(Some(extension)) <==> lower(extension) == "xls"@ || lower(extension)
            == "xlsx"@ || lower(extension) == "csv"@,
        !names_workbook(None),
        !names_watched(None),
{
}

/// Whatever arrived before, a file that is taken in and lies in the watched folder is
/// the latest once it arrives; a file of another kind, or in another folder, changes
/// nothing.
pub proof fn law_latest_file_counts<P>(
    latest: Option<P>,
    path: P,
    extension: Seq<char>,
    in_folder: bool,
)
    ensures
        ({
            let small = lower(extension);
            let kind = small == "csv"@ || small == "xls"@ || small == "xlsx"@;
            let after = latest_after(latest, path, Some(extension), in_folder);
            &&& kind && in_folder ==> after == Some(path)
            &&& !kind || !in_folder ==> after == latest
            &&& latest_after(latest, path, None, in_folder) == latest
        }),
{
}

/// A file that is done keeps its own name, behind the time and an underscore.
pub proof fn law_processed_files_keep_their_names(timestamp: nat, own: Seq<char>)
    ensures
        processed_name(timestamp, own) == decimal(timestamp) + "_"@ + own,
{
}

/// A search of the folder counts price files in small letters alone; a continuous
/// watch takes every file with an extension but one that is still being written.
pub proof fn law_searched_and_watched_files(extension: Seq<char>)
    ensures
        counts_in_scan(Some(extension)) <==> extension == "csv"@,
        !counts_in_scan(None),
        passes_over(false, Some(extension)) <==> extension == "tmp"@,
        passes_over(true, Some(extension)),
        passes_over(false, None),
        passes_over(true, None),
{
}

} // verus!
