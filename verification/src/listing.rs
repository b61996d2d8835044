//! From the files of the entries directory to the entries of the main page.
//!
//! Whoever lists the directory hands over one [`FileRecord`] per directory
//! item. Each regular file becomes one [`BlogEntry`]; a file without text,
//! without a title or without a creation time fails the whole listing.

use vstd::prelude::*;
use vstd::string::StringExecFns;
use crate::entry_name::ENTRIES_PREFIX;
use crate::error::BlogError;
use crate::title::{extract_title, title_of};

verus! {

/// What is known of one item of the entries directory.
#[derive(Clone, Debug, PartialEq, Eq)]
pub struct FileRecord {
    /// The item's name inside the directory.
    pub file_name: String,
    /// The item's path as the file system gives it.
    pub file_path: String,
    /// Whether the item is a regular file. Only regular files are entries.
    pub is_file: bool,
    /// The text of the file, or `None` where it could not be read as text.
    pub content: Option<String>,
    /// When the file was created, in nanoseconds since the Unix epoch, or
    /// `None` where the storage does not record it.
    pub created_at: Option<i128>,
}

/// A [`FileRecord`] as plain mathematical values.
pub ghost struct FileRecordView {
    pub file_name: Seq<char>,
    pub file_path: Seq<char>,
    pub is_file: bool,
    pub content: Option<Seq<char>>,
    pub created_at: Option<int>,
}

impl View for FileRecord {
    type V = FileRecordView;

    open spec fn view(&self) -> FileRecordView {
        FileRecordView {
            file_name: self.file_name@,
            file_path: self.file_path@,
            is_file: self.is_file,
            content: match self.content {
                Some(text) => Some(text@),
                None => None,
            },
            created_at: match self.created_at {
                Some(t) => Some(t as int),
                None => None,
            },
        }
    }
}

/// One entry of the blog, as the main page lists it.
#[derive(Clone, Debug, PartialEq, Eq)]
pub struct BlogEntry {
    /// The title, taken from the first line of the file.
    pub title: String,
    /// The description: the path of the file.
    pub description: String,
    /// The path under which the entry is requested: `entries/` and the file's name.
    pub path: String,
    /// When the file was created, in nanoseconds since the Unix epoch. The
    /// listing is ordered by it; the page does not show it.
    pub created_at: i128,
}

/// A [`BlogEntry`] as plain mathematical values.
pub ghost struct BlogEntryView {
    pub title: Seq<char>,
    pub description: Seq<char>,
    pub path: Seq<char>,
    pub created_at: int,
}

impl View for BlogEntry {
    type V = BlogEntryView;

    open spec fn view(&self) -> BlogEntryView {
        BlogEntryView {
            title: self.title@,
            description: self.description@,
            path: self.path@,
            created_at: self.created_at as int,
        }
    }
}

/// The views of a sequence of records, in the same order.
pub open spec fn record_views(records: Seq<FileRecord>) -> Seq<FileRecordView> {
    records.map_values(|r: FileRecord| r@)
}

/// The views of a sequence of entries, in the same order.
pub open spec fn entry_views(entries: Seq<BlogEntry>) -> Seq<BlogEntryView> {
    entries.map_values(|e: BlogEntry| e@)
}

/// The entry that a regular file stands for, or why it stands for none.
///
/// A file that could not be read is an I/O failure. A file that was read
/// and holds no text has no title. A file with a title and no creation
/// time cannot be placed in the listing.
pub open spec fn entry_of(record: FileRecordView) -> Result<BlogEntryView, BlogError> {
    match record.content {
        None => Err(BlogError::Io),
        Some(text) => {
            if text.len() == 0 {
                Err(BlogError::MissingTitle)
            } else {
                match record.created_at {
                    None => Err(BlogError::Metadata),
                    Some(t) => Ok(
                        BlogEntryView {
                            title: title_of(text),
                            description: record.file_path,
                            path: ENTRIES_PREFIX@ + record.file_name,
                            created_at: t,
                        },
                    ),
                }
            }
        },
    }
}

/// Whether `made` is what [`entry_of`] says of `record`.
pub open spec fn is_entry_of(made: Result<BlogEntry, BlogError>, record: FileRecordView) -> bool {
    match made {
        Ok(entry) => entry_of(record) == Ok::<BlogEntryView, BlogError>(entry@),
        Err(e) => entry_of(record) == Err::<BlogEntryView, BlogError>(e),
    }
}

/// Makes the entry that a regular file stands for.
pub fn read_entry(record: &FileRecord) -> (made: Result<BlogEntry, BlogError>)
    ensures
        is_entry_of(made, record@),
{
    let text = match &record.content {
        None => {
            return Err(BlogError::Io);
        },
        Some(text) => text,
    };
    let title = match extract_title(text.as_str()) {
        Err(_) => {
            return Err(BlogError::MissingTitle);
        },
        Ok(title) => title,
    };
    let created_at: i128 = match record.created_at {
        None => {
            return Err(BlogError::Metadata);
        },
        Some(t) => t,
    };
    let mut path = String::from_str(ENTRIES_PREFIX);
    path.append(record.file_name.as_str());
    Ok(BlogEntry { title, description: record.file_path.clone(), path, created_at })
}

/// Whether the item at `i` is a regular file that stands for no entry.
pub open spec fn fails_at(records: Seq<FileRecordView>, i: int) -> bool {
    0 <= i < records.len() && records[i].is_file && entry_of(records[i]) is Err
}

/// Whether the item at `i` is the first, in directory order, that fails.
pub open spec fn is_first_failure(records: Seq<FileRecordView>, i: int) -> bool {
    fails_at(records, i) && forall|j: int| 0 <= j < i ==> !fails_at(records, j)
}

/// The entries of a directory in which no file fails: one for each regular
/// file, in directory order. Items that are no regular files are passed over.
pub open spec fn entries_of(records: Seq<FileRecordView>) -> Seq<BlogEntryView> {
    records.filter(|r: FileRecordView| r.is_file).map_values(
        |r: FileRecordView| entry_of(r)->Ok_0,
    )
}

/// Whether `scan` is the outcome of scanning `records`: the entries of all
/// regular files where none fails, else the failure of the first that does.
pub open spec fn is_scan_of(
    scan: Result<Seq<BlogEntryView>, BlogError>,
    records: Seq<FileRecordView>,
) -> bool {
    match scan {
        Ok(entries) => {
            &&& forall|i: int| !fails_at(records, i)
            &&& entries == entries_of(records)
        },
        Err(e) => exists|i: int|
            is_first_failure(records, i) && entry_of(records[i]) == Err::<BlogEntryView, BlogError>(
                e,
            ),
    }
}

/// The entries of a directory that grew by one item: the item adds its
/// entry where it is a regular file, and nothing where it is not.
pub proof fn lemma_entries_of_push(records: Seq<FileRecordView>, record: FileRecordView)
    ensures
        entries_of(records.push(record)) == if record.is_file {
            entries_of(records).push(entry_of(record)->Ok_0)
        } else {
            entries_of(records)
        },
{
    records.lemma_filter_push(record, |r: FileRecordView| r.is_file);
    if record.is_file {
        assert(entries_of(records.push(record)) =~= entries_of(records).push(
            entry_of(record)->Ok_0,
        ));
    }
}

/// Scans the items of the entries directory: makes one entry of each
/// regular file, in directory order.
///
/// No file is skipped and no partial result is given: where a file fails,
/// the scan fails, with the failure of the first such file.
pub fn scan_entries(records: &Vec<FileRecord>) -> (scan: Result<Vec<BlogEntry>, BlogError>)
    ensures
        is_scan_of(
            match scan {
                Ok(entries) => Ok(entry_views(entries@)),
                Err(e) => Err(e),
            },
            record_views(records@),
        ),
{
    let ghost all = record_views(records@);
    let mut entries: Vec<BlogEntry> = Vec::new();
    let mut i: usize = 0;
    assert(entry_views(entries@) =~= entries_of(all.take(0))) by {
        reveal_with_fuel(Seq::filter, 1);
    }
    while i < records.len()
        invariant
            all == record_views(records@),
            i <= records.len(),
            forall|j: int| 0 <= j < i ==> !fails_at(all, j),
            entry_views(entries@) == entries_of(all.take(i as int)),
        decreases records.len() - i,
    {
        let record = &records[i];
        proof {
            assert(all[i as int] == record@);
            assert(all.take(i + 1) =~= all.take(i as int).push(record@));
            lemma_entries_of_push(all.take(i as int), record@);
        }
        if record.is_file {
            match read_entry(record) {
                Err(e) => {
                    assert(is_first_failure(all, i as int));
                    return Err(e);
                },
                Ok(entry) => {
                    assert(entry_views(entries@.push(entry)) =~= entry_views(entries@).push(
                        entry@,
                    ));
                    entries.push(entry);
                },
            }
        }
        i += 1;
    }
    assert(all.take(i as int) =~= all);
    Ok(entries)
}

} // verus!
