use mdblog::error::BlogError;
use mdblog::listing::{read_entry, scan_entries, BlogEntry, FileRecord};
use mdblog::order::newest_first;
use mdblog::pages::{main_page, MainPageContext};

fn file(name: &str, content: &str, created_at: i128) -> FileRecord {
    FileRecord {
        file_name: name.to_string(),
        file_path: format!("entries/{}", name),
        is_file: true,
        content: Some(content.to_string()),
        created_at: Some(created_at),
    }
}

fn directory(name: &str) -> FileRecord {
    FileRecord {
        file_name: name.to_string(),
        file_path: format!("entries/{}", name),
        is_file: false,
        content: None,
        created_at: None,
    }
}

fn entry(title: &str, name: &str, created_at: i128) -> BlogEntry {
    BlogEntry {
        title: title.to_string(),
        description: format!("entries/{}", name),
        path: format!("entries/{}", name),
        created_at,
    }
}

fn titles(entries: &[BlogEntry]) -> Vec<&str> {
    entries.iter().map(|e| e.title.as_str()).collect()
}

#[test]
fn entry_takes_title_description_and_path_from_the_file() {
    let record = FileRecord {
        file_name: "hello.md".to_string(),
        file_path: "/srv/blog/entries/hello.md".to_string(),
        is_file: true,
        content: Some("# Hello World\nBody text".to_string()),
        created_at: Some(1_600_000_000_000_000_000),
    };
    assert_eq!(
        read_entry(&record),
        Ok(BlogEntry {
            title: "Hello World".to_string(),
            description: "/srv/blog/entries/hello.md".to_string(),
            path: "entries/hello.md".to_string(),
            created_at: 1_600_000_000_000_000_000,
        })
    );
}

#[test]
fn unreadable_file_is_an_io_failure() {
    let mut record = file("a.md", "# A", 1);
    record.content = None;
    assert_eq!(read_entry(&record), Err(BlogError::Io));
    record.created_at = None;
    assert_eq!(read_entry(&record), Err(BlogError::Io));
}

#[test]
fn empty_file_fails_the_scan_with_missing_title() {
    assert_eq!(read_entry(&file("a.md", "", 1)), Err(BlogError::MissingTitle));
    assert_eq!(scan_entries(&vec![file("a.md", "", 1)]), Err(BlogError::MissingTitle));
    assert_eq!(main_page(Some(vec![file("a.md", "", 1)])), Err(BlogError::MissingTitle));
    let mut record = file("a.md", "", 1);
    record.created_at = None;
    assert_eq!(read_entry(&record), Err(BlogError::MissingTitle));
}

#[test]
fn file_without_creation_time_is_a_metadata_failure() {
    let mut record = file("a.md", "# A", 1);
    record.created_at = None;
    assert_eq!(read_entry(&record), Err(BlogError::Metadata));
}

#[test]
fn entry_before_the_epoch_keeps_its_negative_time() {
    assert_eq!(read_entry(&file("old.md", "# Old", -5)), Ok(entry("Old", "old.md", -5)));
    assert_eq!(
        read_entry(&file("old.md", "# Old", i128::MIN)),
        Ok(entry("Old", "old.md", i128::MIN))
    );
}

#[test]
fn scan_of_an_empty_directory_is_an_empty_listing() {
    assert_eq!(scan_entries(&Vec::new()), Ok(Vec::new()));
    assert_eq!(main_page(Some(Vec::new())), Ok(MainPageContext { entries: Vec::new() }));
}

#[test]
fn scan_keeps_directory_order_and_passes_over_what_is_no_file() {
    let records = vec![
        file("b.md", "# B", 2),
        directory("drafts"),
        file("a.md", "# A", 1),
        directory("images"),
        file("c.md", "# C", 3),
    ];
    assert_eq!(
        scan_entries(&records),
        Ok(vec![entry("B", "b.md", 2), entry("A", "a.md", 1), entry("C", "c.md", 3)])
    );
}

#[test]
fn directory_with_only_subdirectories_lists_nothing() {
    assert_eq!(scan_entries(&vec![directory("x"), directory("y")]), Ok(Vec::new()));
}

#[test]
fn first_failing_file_decides_the_failure() {
    let mut unreadable = file("u.md", "# U", 1);
    unreadable.content = None;
    let mut timeless = file("t.md", "# T", 1);
    timeless.created_at = None;
    let empty = file("e.md", "", 1);
    let good = file("g.md", "# G", 1);

    let records = vec![good.clone(), timeless.clone(), empty.clone(), unreadable.clone()];
    assert_eq!(scan_entries(&records), Err(BlogError::Metadata));
    let records = vec![good.clone(), empty.clone(), unreadable.clone(), timeless.clone()];
    assert_eq!(scan_entries(&records), Err(BlogError::MissingTitle));
    let records = vec![unreadable.clone(), timeless.clone(), empty.clone(), good.clone()];
    assert_eq!(scan_entries(&records), Err(BlogError::Io));
    let records = vec![directory("d"), good.clone(), timeless.clone()];
    assert_eq!(main_page(Some(records)), Err(BlogError::Metadata));
}

#[test]
fn unlistable_directory_is_an_io_failure() {
    assert_eq!(main_page(None), Err(BlogError::Io));
}

#[test]
fn newest_entry_comes_first() {
    let listing = newest_first(vec![
        entry("B", "b.md", 20),
        entry("D", "d.md", 40),
        entry("A", "a.md", 10),
        entry("C", "c.md", 30),
    ]);
    assert_eq!(titles(&listing), vec!["D", "C", "B", "A"]);
}

#[test]
fn entries_of_one_time_keep_their_order() {
    let listing = newest_first(vec![
        entry("first at 5", "a.md", 5),
        entry("first at 9", "b.md", 9),
        entry("second at 5", "c.md", 5),
        entry("second at 9", "d.md", 9),
        entry("third at 5", "e.md", 5),
        entry("only at 7", "f.md", 7),
    ]);
    assert_eq!(
        titles(&listing),
        vec!["first at 9", "second at 9", "only at 7", "first at 5", "second at 5", "third at 5"]
    );
}

#[test]
fn sorting_handles_the_ends_of_the_time_range() {
    let listing = newest_first(vec![
        entry("min", "a.md", i128::MIN),
        entry("zero", "b.md", 0),
        entry("max", "c.md", i128::MAX),
        entry("minus one", "d.md", -1),
    ]);
    assert_eq!(titles(&listing), vec!["max", "zero", "minus one", "min"]);
}

#[test]
fn sorting_nothing_or_one_entry_changes_nothing() {
    assert_eq!(newest_first(Vec::new()), Vec::new());
    assert_eq!(newest_first(vec![entry("A", "a.md", 1)]), vec![entry("A", "a.md", 1)]);
}

#[test]
fn sorting_agrees_with_a_stable_sort() {
    let mut entries = Vec::new();
    let mut seed: u64 = 0x2545F4914F6CDD1D;
    for i in 0..200 {
        seed ^= seed << 13;
        seed ^= seed >> 7;
        seed ^= seed << 17;
        let t = (seed % 23) as i128 - 11;
        entries.push(entry(&format!("entry {}", i), &format!("{}.md", i), t));
    }
    let mut expected = entries.clone();
    expected.sort_by(|a, b| b.created_at.cmp(&a.created_at));
    assert_eq!(newest_first(entries), expected);
}

#[test]
fn main_page_lists_every_file_once_newest_first() {
    let records = vec![
        file("one.md", "# One\ntext", 100),
        directory("static"),
        file("two.md", "Two #2\ntext", 300),
        file("three.md", "### Three ###", 200),
        file("twin.md", "# One\ntext", 100),
    ];
    let page = main_page(Some(records)).unwrap();
    assert_eq!(
        page.entries,
        vec![
            entry("Two 2", "two.md", 300),
            entry("Three", "three.md", 200),
            entry("One", "one.md", 100),
            entry("One", "twin.md", 100),
        ]
    );
    let mut paths: Vec<&str> = page.entries.iter().map(|e| e.path.as_str()).collect();
    paths.sort();
    assert_eq!(
        paths,
        vec!["entries/one.md", "entries/three.md", "entries/twin.md", "entries/two.md"]
    );
}

#[test]
fn later_entry_stands_before_earlier_one_and_only_then() {
    let records: Vec<FileRecord> = [7, 3, 9, 3, 1, 9, 5]
        .iter()
        .enumerate()
        .map(|(i, t)| file(&format!("{}.md", i), &format!("# {}", i), *t))
        .collect();
    let page = main_page(Some(records)).unwrap();
    let listing = &page.entries;
    assert_eq!(listing.len(), 7);
    for i in 0..listing.len() {
        for j in 0..listing.len() {
            if listing[i].created_at != listing[j].created_at {
                assert_eq!(i < j, listing[i].created_at > listing[j].created_at);
            }
        }
    }
}
