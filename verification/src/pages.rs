//! The two pages of the blog, as functions of what the file system gave.
//!
//! The main page lists every entry, newest first. An entry's page is the
//! entry's markdown rendered as HTML. Reading the directory or the file is
//! the caller's part: it hands over what it read, or that it could not.

use vstd::prelude::*;
use crate::error::BlogError;
use crate::listing::{
    entries_of, entry_of, entry_views, fails_at, is_first_failure, record_views, scan_entries,
    BlogEntry, BlogEntryView, FileRecord, FileRecordView,
};
use crate::markdown::{commonmark_html, render_markdown};
use crate::order::{
    is_listing_of, lemma_listing_is_rearrangement, lemma_listing_is_unique, newest_first,
};

verus! {

/// What the template of the main page is filled with.
#[derive(Clone, Debug, PartialEq, Eq)]
pub struct MainPageContext {
    /// The entries, newest first.
    pub entries: Vec<BlogEntry>,
}

impl View for MainPageContext {
    type V = Seq<BlogEntryView>;

    open spec fn view(&self) -> Seq<BlogEntryView> {
        entry_views(self.entries@)
    }
}

/// What reading the file of a requested entry gave.
#[derive(Clone, Debug, PartialEq, Eq)]
pub enum FileRead {
    /// The text of the file.
    Text(String),
    /// There is no such file.
    Missing,
    /// The file is there and could not be read as text.
    Unreadable,
}

/// Whether `page` is the main page for a directory with the items `records`.
///
/// Where no regular file fails, the page lists the entries of all of them,
/// newest first. Where one fails, the page fails as the first of them does.
pub open spec fn is_main_page_of(
    page: Result<Seq<BlogEntryView>, BlogError>,
    records: Seq<FileRecordView>,
) -> bool {
    match page {
        Ok(listing) => {
            &&& forall|i: int| !fails_at(records, i)
            &&& is_listing_of(listing, entries_of(records))
        },
        Err(e) => exists|i: int|
            is_first_failure(records, i) && entry_of(records[i]) == Err::<BlogEntryView, BlogError>(
                e,
            ),
    }
}

/// Builds the main page from the items of the entries directory, or from
/// `None` where the directory could not be listed.
///
/// A directory that could not be listed is an I/O failure. Otherwise every
/// regular file becomes one entry, and the entries are put newest first;
/// the first file that fails, in directory order, fails the page.
pub fn main_page(directory: Option<Vec<FileRecord>>) -> (page: Result<MainPageContext, BlogError>)
    ensures
        match directory {
            None => page matches Err(e) && e == BlogError::Io,
            Some(records) => is_main_page_of(
                match page {
                    Ok(context) => Ok(context@),
                    Err(e) => Err(e),
                },
                record_views(records@),
            ),
        },
        page matches Ok(context) ==> directory matches Some(records) && context@.to_multiset()
            == entries_of(record_views(records@)).to_multiset(),
{
    match directory {
        None => Err(BlogError::Io),
        Some(records) => {
            match scan_entries(&records) {
                Err(e) => Err(e),
                Ok(entries) => {
                    let ghost scanned = entry_views(entries@);
                    let listing = newest_first(entries);
                    proof {
                        lemma_listing_is_rearrangement(entry_views(listing@), scanned);
                    }
                    Ok(MainPageContext { entries: listing })
                },
            }
        },
    }
}

/// The main page lists each regular file of the directory exactly once: it
/// holds the entries of the files, each as often as the directory gives it,
/// and so as many entries as there are regular files.
pub proof fn lemma_main_page_lists_each_file_once(
    listing: Seq<BlogEntryView>,
    records: Seq<FileRecordView>,
)
    requires
        is_main_page_of(Ok(listing), records),
    ensures
        listing.to_multiset() == entries_of(records).to_multiset(),
        listing.len() == records.filter(|r: FileRecordView| r.is_file).len(),
{
    lemma_listing_is_rearrangement(listing, entries_of(records));
}

/// The items of the directory decide the main page: the entries and their
/// order where it is built, the failure where it is not.
pub proof fn lemma_main_page_is_unique(
    first: Result<Seq<BlogEntryView>, BlogError>,
    second: Result<Seq<BlogEntryView>, BlogError>,
    records: Seq<FileRecordView>,
)
    requires
        is_main_page_of(first, records),
        is_main_page_of(second, records),
    ensures
        first == second,
{
    match (first, second) {
        (Ok(a), Ok(b)) => {
            lemma_listing_is_unique(a, b, entries_of(records));
        },
        (Err(e), Err(f)) => {
            let i = choose|i: int|
                is_first_failure(records, i) && entry_of(records[i]) == Err::<
                    BlogEntryView,
                    BlogError,
                >(e);
            let j = choose|j: int|
                is_first_failure(records, j) && entry_of(records[j]) == Err::<
                    BlogEntryView,
                    BlogError,
                >(f);
            assert(i == j) by {
                if i < j {
                    assert(!fails_at(records, i));
                }
                if j < i {
                    assert(!fails_at(records, j));
                }
            }
        },
        (Ok(_), Err(f)) => {
            let j = choose|j: int|
                is_first_failure(records, j) && entry_of(records[j]) == Err::<
                    BlogEntryView,
                    BlogError,
                >(f);
            assert(fails_at(records, j));
        },
        (Err(e), Ok(_)) => {
            let i = choose|i: int|
                is_first_failure(records, i) && entry_of(records[i]) == Err::<
                    BlogEntryView,
                    BlogError,
                >(e);
            assert(fails_at(records, i));
        },
    }
}

/// The main page of a directory without any item is built, and lists nothing.
pub proof fn lemma_empty_directory_lists_nothing(page: Result<Seq<BlogEntryView>, BlogError>)
    requires
        is_main_page_of(page, Seq::<FileRecordView>::empty()),
    ensures
        page == Ok::<Seq<BlogEntryView>, BlogError>(Seq::empty()),
{
    let records = Seq::<FileRecordView>::empty();
    match page {
        Ok(listing) => {
            reveal_with_fuel(Seq::filter, 1);
            assert(entries_of(records) =~= Seq::<BlogEntryView>::empty());
            lemma_listing_is_rearrangement(listing, entries_of(records));
            assert(listing =~= Seq::<BlogEntryView>::empty());
        },
        Err(e) => {
            let i = choose|i: int|
                is_first_failure(records, i) && entry_of(records[i]) == Err::<
                    BlogEntryView,
                    BlogError,
                >(e);
            assert(fails_at(records, i));
        },
    }
}

/// Whether `page` is the page of an entry whose file was read as `read`.
pub open spec fn is_entry_page_of(page: Result<Seq<char>, BlogError>, read: FileRead) -> bool {
    match read {
        FileRead::Text(markdown) => page == Ok::<Seq<char>, BlogError>(
            commonmark_html(markdown@),
        ),
        FileRead::Missing => page == Err::<Seq<char>, BlogError>(BlogError::NotFound),
        FileRead::Unreadable => page == Err::<Seq<char>, BlogError>(BlogError::Io),
    }
}

/// Builds the page of an entry from what reading its file gave.
///
/// The text of the file is rendered as HTML, the whole of it. A file that
/// is not there is answered as not found, one that could not be read as
/// an I/O failure.
pub fn entry_page(read: FileRead) -> (page: Result<String, BlogError>)
    ensures
        is_entry_page_of(
            match page {
                Ok(html) => Ok(html@),
                Err(e) => Err(e),
            },
            read,
        ),
{
    match read {
        FileRead::Text(markdown) => Ok(render_markdown(markdown.as_str())),
        FileRead::Missing => Err(BlogError::NotFound),
        FileRead::Unreadable => Err(BlogError::Io),
    }
}

} // verus!
