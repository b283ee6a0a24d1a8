use caravan::config::ConflictPolicy;
use caravan::conflict::{conflicts_from_listings, destination_parent_groups, ListedEntry};
use caravan::workflow::batch_flow::{decide_batch_copy, CopyDecision};
use caravan::models::batch::Batch;
use caravan::models::file_entry::FileEntry;

fn file(path: &str, size: u64) -> FileEntry {
    FileEntry { relative_path: path.to_string(), size_bytes: size, modified_time: None }
}

fn batch(files: Vec<FileEntry>) -> Batch {
    let total = files.iter().map(|f| f.size_bytes).sum();
    Batch { id: "batch-000001".to_string(), file_count: files.len(), total_bytes: total, files }
}

fn entry(name: &str, is_file: bool, is_symlink: bool) -> ListedEntry {
    ListedEntry { name: name.to_string(), is_file, is_symlink }
}

#[test]
fn groups_are_first_file_per_directory_in_path_order() {
    let b = batch(vec![
        file("z/one.txt", 1),
        file("a/two.txt", 2),
        file("z/three.txt", 3),
        file("top.txt", 4),
        file("a/b/four.txt", 5),
    ]);
    // Directories: /d (top.txt), /d/a, /d/a/b, /d/z, in path order.
    assert_eq!(destination_parent_groups(&b, "/d"), vec![3, 1, 4, 0]);
}

#[test]
fn files_without_a_name_form_no_group() {
    let b = batch(vec![file("..", 1), file("x/..", 1), file("", 1)]);
    // "/d/" has the name "d" and lands in "/".
    assert_eq!(destination_parent_groups(&b, "/d"), vec![2]);
}

#[test]
fn conflicts_follow_directory_order_then_batch_order() {
    let b = batch(vec![file("z/one.txt", 1), file("a/two.txt", 2), file("z/three.txt", 3)]);
    let groups = destination_parent_groups(&b, "/d");
    assert_eq!(groups, vec![1, 0]);
    let listings = vec![
        Some(vec![entry("two.txt", true, false)]),
        Some(vec![entry("three.txt", true, false), entry("one.txt", true, false)]),
    ];
    let sizes = vec![Some(1), Some(9), Some(3)];
    let r = conflicts_from_listings(&b, "/d", true, &groups, &listings, &sizes);
    assert_eq!(
        r.existing_files,
        vec!["/d/a/two.txt".to_string(), "/d/z/one.txt".to_string(), "/d/z/three.txt".to_string()]
    );
    assert_eq!(r.size_mismatches, vec![("/d/a/two.txt".to_string(), 2, 9)]);
    assert_eq!(r.total_conflicts, 3);
    assert!(r.has_conflicts);
    assert_eq!(r.scanned_parent_directories, 2);
}

#[test]
fn unreadable_directories_are_skipped_but_counted() {
    let b = batch(vec![file("a/x.txt", 1), file("b/y.txt", 1)]);
    let groups = destination_parent_groups(&b, "/d");
    let listings = vec![None, Some(vec![entry("y.txt", true, false)])];
    let r = conflicts_from_listings(&b, "/d", true, &groups, &listings, &vec![None, Some(1)]);
    assert_eq!(r.existing_files, vec!["/d/b/y.txt".to_string()]);
    assert!(r.size_mismatches.is_empty());
    assert_eq!(r.scanned_parent_directories, 2);
}

#[test]
fn links_and_directories_conflict_without_size_check() {
    let b = batch(vec![file("a.txt", 1), file("b", 1)]);
    let groups = destination_parent_groups(&b, "/d");
    let listings = vec![Some(vec![entry("a.txt", true, true), entry("b", false, false)])];
    let r = conflicts_from_listings(&b, "/d", true, &groups, &listings, &vec![Some(50), Some(4096)]);
    assert_eq!(r.existing_files, vec!["/d/a.txt".to_string(), "/d/b".to_string()]);
    assert!(r.size_mismatches.is_empty());
}

#[test]
fn the_last_listed_entry_of_a_name_decides() {
    let b = batch(vec![file("a.txt", 1)]);
    let groups = destination_parent_groups(&b, "/d");
    let listings = vec![Some(vec![entry("a.txt", false, true), entry("a.txt", true, false)])];
    let r = conflicts_from_listings(&b, "/d", true, &groups, &listings, &vec![Some(7)]);
    assert_eq!(r.size_mismatches, vec![("/d/a.txt".to_string(), 1, 7)]);
}

#[test]
fn missing_destination_root_has_no_conflicts() {
    let b = batch(vec![file("a.txt", 1)]);
    let groups = destination_parent_groups(&b, "/d");
    let listings = vec![Some(vec![entry("a.txt", true, false)])];
    let r = conflicts_from_listings(&b, "/d", false, &groups, &listings, &vec![Some(7)]);
    assert!(r.existing_files.is_empty());
    assert!(!r.has_conflicts);
    assert_eq!(r.scanned_parent_directories, 0);
}

#[test]
fn found_destinations_are_left_out_of_the_copy() {
    let b = batch(vec![file("a/keep.txt", 1), file("a/taken.txt", 2), file("b/new.txt", 3)]);
    let groups = destination_parent_groups(&b, "/d");
    let listings = vec![Some(vec![entry("taken.txt", true, false)]), Some(Vec::new())];
    let r = conflicts_from_listings(&b, "/d", true, &groups, &listings, &vec![None, Some(2), None]);
    assert!(r.has_conflicts);
    match decide_batch_copy(&b, "/d", &r, ConflictPolicy::SkipFile) {
        CopyDecision::CopySubset(subset) => {
            let paths: Vec<&str> = subset.files.iter().map(|f| f.relative_path.as_str()).collect();
            assert_eq!(paths, vec!["a/keep.txt", "b/new.txt"]);
            assert_eq!(subset.total_bytes, 4);
        }
        other => panic!("unexpected decision: {other:?}"),
    }
    assert_eq!(decide_batch_copy(&b, "/d", &r, ConflictPolicy::SkipBatch), CopyDecision::SkipForConflicts);
}
