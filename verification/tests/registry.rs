use caravan::migration_registry::{
    default_registry_path, generate_state_filename, state_dir_in_source, state_file_in_source,
    state_filename_from_digest, MigrationRegistry, MigrationStatus,
};
use caravan::workflow::registry_ops::{find_active_migration_id_for_state, register_or_reuse_migration};

#[test]
fn register_or_reuse_migration_reuses_active_entry() {
    let mut registry = MigrationRegistry::new();

    let first = register_or_reuse_migration(&mut registry, "/src", "/dst", "staging", "state-a.json");
    let second = register_or_reuse_migration(&mut registry, "/src", "/dst", "staging", "state-b.json");

    assert_eq!(first.0, second.0);
    assert!(first.1, "first call should create");
    assert!(!second.1, "second call should reuse");
}

#[test]
fn completed_migrations_are_not_reused() {
    let mut registry = MigrationRegistry::new();
    let (first, _) = register_or_reuse_migration(&mut registry, "/src", "/dst", "staging", "a.json");
    registry.update_status(first, MigrationStatus::Completed).expect("known id");
    let (second, created) =
        register_or_reuse_migration(&mut registry, "/src", "/dst", "staging", "b.json");
    assert!(created);
    assert_ne!(first, second);
}

#[test]
fn find_active_migration_prefers_exact_state_file_match() {
    let mut registry = MigrationRegistry::new();
    let first_id = registry.add_migration("/src", "/dst", "staging", "state-old.json");
    let second_id = registry.add_migration("/src", "/dst", "staging", "state-new.json");
    assert_ne!(first_id, second_id);

    let match_id = find_active_migration_id_for_state(
        &registry,
        "/src",
        "/dst",
        "staging",
        Some("state-old.json"),
    );
    assert_eq!(match_id, Some(first_id));

    let latest = find_active_migration_id_for_state(&registry, "/src", "/dst", "staging", None);
    assert_eq!(latest, Some(second_id));
}

#[test]
fn status_transitions_go_through_an_intent() {
    let mut registry = MigrationRegistry::new();
    let id = registry.add_migration("/src", "/dst", "migrate", "s.json");
    registry
        .begin_status_transition(id, MigrationStatus::Verifying)
        .expect("known id");
    let entry = registry.find_by_id(id).expect("entry");
    assert_eq!(entry.status, MigrationStatus::NotStarted);
    assert_eq!(entry.effective_status(), MigrationStatus::Verifying);

    registry.commit_status_transition(id).expect("known id");
    let entry = registry.find_by_id(id).expect("entry");
    assert_eq!(entry.status, MigrationStatus::Verifying);
    assert_eq!(entry.pending_status, None);

    let err = registry.update_status(99, MigrationStatus::Failed).expect_err("unknown id");
    assert_eq!(err.to_string(), "state corruption: migration with id 99 not found");
}

#[test]
fn find_first_incomplete_skips_finished_migrations() {
    let mut registry = MigrationRegistry::new();
    let a = registry.add_migration("/a", "/x", "staging", "a.json");
    let b = registry.add_migration("/b", "/x", "staging", "b.json");
    registry.update_status(a, MigrationStatus::Failed).expect("known id");
    assert_eq!(registry.find_first_incomplete().map(|e| e.id), Some(b));
    assert!(registry.find_by_source_dest("/a", "/x", "staging").is_none());
}

#[test]
fn state_file_names_are_derived_from_a_digest() {
    let digest: Vec<u8> = (0u8..32).collect();
    assert_eq!(state_filename_from_digest(&digest), "migration_0001020304050607.json");
    let digest = vec![0xab; 32];
    assert_eq!(state_filename_from_digest(&digest), "migration_abababababababab.json");
}

#[test]
fn state_file_names_depend_on_both_paths() {
    let name = generate_state_filename("/src", "/dst");
    assert!(name.starts_with("migration_") && name.ends_with(".json"));
    assert_eq!(name.len(), "migration_".len() + 16 + ".json".len());
    assert_eq!(name, generate_state_filename("\\src", "\\dst"));
    assert_ne!(name, generate_state_filename("/dst", "/src"));
    let expected_hash = blake3::hash(b"/src\0/dst").to_hex();
    assert_eq!(name, format!("migration_{}.json", &expected_hash[..16]));
}

#[test]
fn state_paths_live_in_the_source() {
    assert_eq!(default_registry_path(), ".caravan/migrations.json");
    assert_eq!(state_dir_in_source("/data/src"), "/data/src/.caravan");
    let file = state_file_in_source("/data/src", "/data/dst");
    assert_eq!(
        file,
        format!("/data/src/.caravan/{}", generate_state_filename("/data/src", "/data/dst"))
    );
}
