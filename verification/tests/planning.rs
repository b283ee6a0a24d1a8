use caravan::models::file_entry::FileEntry;
use caravan::models::state::PlannedBatch;
use caravan::plan::batching::{build_plan_from_entries, plan_batches, validate_plan_options};
use caravan::plan::loading::load_batch_definition;
use caravan::plan::manifest::{ensure_manifest_matches_snapshot, planned_batches_from_snapshot};
use caravan::plan::types::PlanOptions;

fn entry(path: &str, size: u64) -> FileEntry {
    FileEntry {
        relative_path: path.to_string(),
        size_bytes: size,
        modified_time: None,
    }
}

fn options(batch_size_bytes: u64, max_files: Option<usize>) -> PlanOptions {
    PlanOptions {
        batch_size_bytes,
        max_files,
    }
}

#[test]
fn plan_batches_orders_by_parent_then_path_and_cuts_by_size() {
    let entries = vec![
        entry("b/two.bin", 60),
        entry("a.bin", 30),
        entry("b/one.bin", 50),
        entry("c.bin", 10),
    ];
    let batches = plan_batches(entries, &options(100, None)).expect("valid options");
    let ids: Vec<&str> = batches.iter().map(|b| b.id.as_str()).collect();
    assert_eq!(ids, vec!["batch-000001", "batch-000002"]);
    let first: Vec<&str> = batches[0].files.iter().map(|f| f.relative_path.as_str()).collect();
    assert_eq!(first, vec!["a.bin", "c.bin", "b/one.bin"]);
    assert_eq!(batches[0].total_bytes, 90);
    assert_eq!(batches[1].files[0].relative_path, "b/two.bin");
    assert_eq!(batches[1].file_count, 1);
}

#[test]
fn oversized_files_get_their_own_batch() {
    let entries = vec![entry("a", 10), entry("b", 500), entry("c", 10)];
    let batches = plan_batches(entries, &options(100, None)).expect("valid options");
    assert_eq!(batches.len(), 3);
    assert_eq!(batches[1].total_bytes, 500);
}

#[test]
fn file_limit_cuts_batches() {
    let entries = vec![entry("a", 1), entry("b", 1), entry("c", 1)];
    let batches = plan_batches(entries, &options(100, Some(2))).expect("valid options");
    assert_eq!(batches.len(), 2);
    assert_eq!(batches[0].file_count, 2);
    assert_eq!(batches[1].file_count, 1);
}

#[test]
fn invalid_plan_options_are_rejected() {
    let err = validate_plan_options(&options(0, None)).expect_err("zero size");
    assert_eq!(err.to_string(), "invalid arguments: batch-size must be greater than zero");
    let err = validate_plan_options(&options(10, Some(0))).expect_err("zero files");
    assert_eq!(
        err.to_string(),
        "invalid arguments: max-files must be greater than zero when provided"
    );
}

#[test]
fn plan_snapshot_totals_the_source() {
    let plan = build_plan_from_entries(vec![entry("x", 3), entry("y", 4)], &options(100, None))
        .expect("plan");
    assert_eq!(plan.source_file_count, 2);
    assert_eq!(plan.source_total_bytes, 7);
    assert_eq!(plan.batches.len(), 1);
}

#[test]
fn recorded_manifest_matches_its_own_plan() {
    let plan = build_plan_from_entries(
        vec![entry("a", 60), entry("b", 60), entry("c", 60)],
        &options(100, None),
    )
    .expect("plan");
    let manifest = planned_batches_from_snapshot(&plan);
    assert_eq!(manifest.len(), 3);
    ensure_manifest_matches_snapshot(&manifest, &plan).expect("no drift");
}

#[test]
fn manifest_drift_is_reported() {
    let plan = build_plan_from_entries(vec![entry("a", 60), entry("b", 60)], &options(100, None))
        .expect("plan");
    let mut manifest = planned_batches_from_snapshot(&plan);

    manifest[1].total_bytes = 61;
    let err = ensure_manifest_matches_snapshot(&manifest, &plan).expect_err("metadata drift");
    assert_eq!(
        err.to_string(),
        "invalid arguments: source drift detected for batch-000002: batch metadata changed (files 1->1, bytes 61->60)"
    );

    let mut manifest = planned_batches_from_snapshot(&plan);
    manifest[1].files[0].size_bytes = 61;
    manifest[1].total_bytes = 60;
    let err = ensure_manifest_matches_snapshot(&manifest, &plan).expect_err("size drift");
    assert_eq!(
        err.to_string(),
        "invalid arguments: source drift detected for batch-000002 at b: size changed (state=61, current=60)"
    );

    let mut manifest = planned_batches_from_snapshot(&plan);
    manifest[0].files[0].relative_path = "z".to_string();
    let err = ensure_manifest_matches_snapshot(&manifest, &plan).expect_err("path drift");
    assert_eq!(
        err.to_string(),
        "invalid arguments: source drift detected for batch-000001 at file #0: path changed (state='z', current='a')"
    );

    let mut manifest = planned_batches_from_snapshot(&plan);
    manifest.pop();
    let err = ensure_manifest_matches_snapshot(&manifest, &plan).expect_err("count drift");
    assert_eq!(
        err.to_string(),
        "invalid arguments: source drift detected: planned manifest batch count changed (state=1, current=2)"
    );

    let mut manifest = planned_batches_from_snapshot(&plan);
    manifest[1].batch_id = "batch-000009".to_string();
    let err = ensure_manifest_matches_snapshot(&manifest, &plan).expect_err("unknown id");
    assert_eq!(
        err.to_string(),
        "invalid arguments: source drift detected: current plan contains unknown batch id batch-000002"
    );
}

#[test]
fn duplicated_manifest_ids_leave_a_stale_entry() {
    let plan = build_plan_from_entries(vec![entry("a", 60)], &options(100, None)).expect("plan");
    let mut manifest = planned_batches_from_snapshot(&plan);
    let copy: PlannedBatch = manifest[0].clone();
    manifest.push(copy);
    let err = ensure_manifest_matches_snapshot(&manifest, &plan).expect_err("count differs");
    assert!(err.to_string().contains("batch count changed"));
}

#[test]
fn load_batch_definition_finds_a_batch_again() {
    let entries = vec![entry("a", 60), entry("b", 60)];
    let batch = load_batch_definition(entries, "batch-000002", 100, None).expect("found");
    assert_eq!(batch.files[0].relative_path, "b");

    let entries = vec![entry("a", 60)];
    let err = load_batch_definition(entries, "batch-000007", 100, None).expect_err("missing");
    assert_eq!(
        err.to_string(),
        "invalid arguments: Could not locate batch batch-000007 in source directory"
    );
}

#[test]
fn planning_order_is_unique_whatever_the_input_order() {
    let forward = vec![entry("a.bin", 1), entry("b/x.bin", 2), entry("b/y.bin", 3), entry("c.bin", 4)];
    let backward: Vec<FileEntry> = forward.iter().rev().cloned().collect();
    let p1 = plan_batches(forward, &options(100, None)).expect("valid options");
    let p2 = plan_batches(backward, &options(100, None)).expect("valid options");
    assert_eq!(p1, p2);
    let paths: Vec<&str> = p1[0].files.iter().map(|f| f.relative_path.as_str()).collect();
    assert_eq!(paths, vec!["a.bin", "c.bin", "b/x.bin", "b/y.bin"]);
}

#[test]
fn equal_planning_keys_keep_their_input_order() {
    let mut first = entry("same.bin", 1);
    first.modified_time = Some(1);
    let mut second = entry("same.bin", 1);
    second.modified_time = Some(2);
    let batches = plan_batches(vec![first, second], &options(100, None)).expect("valid options");
    let times: Vec<Option<u64>> = batches[0].files.iter().map(|f| f.modified_time).collect();
    assert_eq!(times, vec![Some(1), Some(2)]);
}

#[test]
fn recorded_paths_are_compared_as_paths() {
    let snapshot = build_plan_from_entries(vec![entry("a/b.txt", 5)], &options(100, None)).expect("valid");
    let mut manifest = planned_batches_from_snapshot(&snapshot);
    manifest[0].files[0].relative_path = "a//b.txt".to_string();
    assert!(ensure_manifest_matches_snapshot(&manifest, &snapshot).is_ok());
    manifest[0].files[0].relative_path = "a/./b.txt".to_string();
    assert!(ensure_manifest_matches_snapshot(&manifest, &snapshot).is_ok());
    manifest[0].files[0].relative_path = "a/c.txt".to_string();
    assert!(ensure_manifest_matches_snapshot(&manifest, &snapshot).is_err());
}

#[test]
fn a_recorded_manifest_in_another_order_still_matches() {
    let entries = vec![entry("a.bin", 60), entry("b.bin", 60), entry("c.bin", 60)];
    let snapshot = build_plan_from_entries(entries, &options(100, None)).expect("valid");
    let mut manifest = planned_batches_from_snapshot(&snapshot);
    manifest.reverse();
    assert!(ensure_manifest_matches_snapshot(&manifest, &snapshot).is_ok());
}
