use caravan::config::{ConflictPolicy, CopyStrategy, Mode, TransferConfig};
use caravan::error::CaravanError;
use caravan::models::batch::Batch;
use caravan::models::file_entry::FileEntry;
use caravan::plan::types::PlanningSnapshot;
use caravan::preflight::{
    analyze_migrate_preflight_with_probe, analyze_staging_preflight_with_probe,
    analyze_transfer_preflight_with_probes, enforce_transfer_preflight_policy,
    migrate_preflight_report, staging_preflight_report, DestinationFlags, DestinationProbe,
    DestinationSpaceSnapshot, FilesystemTypeProbe, PreflightWarningCode,
};

fn config(mode: Mode, dest: &str) -> TransferConfig {
    TransferConfig {
        mode,
        source: "/src".to_string(),
        dest: dest.to_string(),
        batch_size_bytes: 1024,
        max_files: None,
        snapshot_every: None,
        snapshot_dir: None,
        interactive: false,
        log_level: "info".to_string(),
        skip_conflicts: false,
        conflict_policy: ConflictPolicy::SkipFile,
        recover_failed: false,
        allow_unsafe_filesystems: false,
        copy_strategy: CopyStrategy::Auto,
    }
}

fn plan(paths: &[&str]) -> PlanningSnapshot {
    let files: Vec<FileEntry> = paths
        .iter()
        .map(|p| FileEntry { relative_path: p.to_string(), size_bytes: 1, modified_time: None })
        .collect();
    PlanningSnapshot {
        source_file_count: files.len(),
        source_total_bytes: files.len() as u64,
        batches: vec![Batch {
            id: "batch-000001".to_string(),
            file_count: files.len(),
            total_bytes: files.len() as u64,
            files,
        }],
    }
}

struct FakeDestination {
    flags: DestinationFlags,
    space: Option<DestinationSpaceSnapshot>,
}

impl DestinationProbe for FakeDestination {
    fn destination_flags(&self, _destination: &str) -> Result<DestinationFlags, CaravanError> {
        Ok(self.flags)
    }

    fn destination_space(&self, _destination: &str) -> Result<Option<DestinationSpaceSnapshot>, CaravanError> {
        Ok(self.space)
    }
}

struct FakeFilesystems {
    source: Option<&'static str>,
    dest: Option<&'static str>,
}

impl FilesystemTypeProbe for FakeFilesystems {
    fn filesystem_type(&self, path: &str) -> Result<Option<String>, CaravanError> {
        let found = if path == "/src" { self.source } else { self.dest };
        Ok(found.map(|s| s.to_string()))
    }
}

#[test]
fn staging_report_flags_case_collisions_and_destination_attributes() {
    let snapshot = plan(&["Movies/A.mkv", "movies/a.mkv", "movies/a.mkv", "b.txt"]);
    let flags = DestinationFlags { is_compressed: true, is_reparse_point: false };
    let report = staging_preflight_report("/dst", &snapshot.batches, flags, None);
    let codes: Vec<PreflightWarningCode> = report.warnings.iter().map(|w| w.code).collect();
    assert_eq!(codes, vec![PreflightWarningCode::DestinationCompressed, PreflightWarningCode::CaseCollisionRisk]);
    assert_eq!(report.case_collision_count, 2);
    assert_eq!(
        report.warnings[1].message,
        "planned paths contain 2 case-collision pair(s) on case-insensitive filesystems; samples: 'Movies/A.mkv' vs 'movies/a.mkv', 'Movies/A.mkv' vs 'movies/a.mkv'"
    );
    assert_eq!(report.max_estimated_destination_path_len, "/dst/Movies/A.mkv".len());
}

#[test]
fn windows_style_destinations_get_space_and_length_checks() {
    let long_name = "x".repeat(240);
    let snapshot = plan(&[long_name.as_str()]);
    let space = DestinationSpaceSnapshot {
        total_bytes: 100 * 1024 * 1024 * 1024,
        available_bytes: 10 * 1024 * 1024 * 1024,
        volume_free_bytes: 40 * 1024 * 1024 * 1024,
    };
    let flags = DestinationFlags { is_compressed: false, is_reparse_point: false };
    let report = staging_preflight_report("D:\\media", &snapshot.batches, flags, Some(space));
    let codes: Vec<PreflightWarningCode> = report.warnings.iter().map(|w| w.code).collect();
    assert_eq!(codes, vec![PreflightWarningCode::SpaceAccountingDivergence, PreflightWarningCode::PathLengthPressure]);
    assert_eq!(report.max_estimated_destination_path_len, 8 + 1 + 240);

    let extended = staging_preflight_report("\\\\?\\D:\\media", &snapshot.batches, flags, None);
    assert!(extended.warnings.is_empty());
}

#[test]
fn staging_checks_ask_for_space_only_for_windows_style_destinations() {
    let snapshot = plan(&["a"]);
    let probe = FakeDestination {
        flags: DestinationFlags { is_compressed: false, is_reparse_point: true },
        space: Some(DestinationSpaceSnapshot { total_bytes: 0, available_bytes: 0, volume_free_bytes: 1 << 40 }),
    };
    let report = analyze_staging_preflight_with_probe(&config(Mode::Staging, "/dst"), &snapshot, &probe)
        .expect("probe succeeds");
    let codes: Vec<PreflightWarningCode> = report.warnings.iter().map(|w| w.code).collect();
    assert_eq!(codes, vec![PreflightWarningCode::DestinationReparsePoint]);

    let none = analyze_staging_preflight_with_probe(&config(Mode::Migrate, "/dst"), &snapshot, &probe)
        .expect("not staging");
    assert!(none.warnings.is_empty());
}

#[test]
fn migrate_checks_expect_ntfs_source_and_btrfs_destination() {
    let report = migrate_preflight_report("/src", "/dst", Some("NTFS3".to_string()), Some("BtrFS".to_string()));
    assert!(report.warnings.is_empty());

    let report = migrate_preflight_report("/src", "/dst", Some("ext4".to_string()), None);
    assert_eq!(report.warnings.len(), 2);
    assert_eq!(
        report.warnings[0].message,
        "source '/src' appears to be 'ext4' (expected NTFS-like: ntfs, ntfs3, fuseblk); verify staging mount before migration"
    );
    assert_eq!(report.warnings[1].code, PreflightWarningCode::DestinationFilesystemUnknown);
}

#[test]
fn unsafe_migrations_are_blocked_unless_allowed() {
    let probe = FakeFilesystems { source: Some("ext4"), dest: Some("xfs") };
    let cfg = config(Mode::Migrate, "/dst");
    let report = analyze_migrate_preflight_with_probe(&cfg, &probe).expect("probe succeeds");
    let err = enforce_transfer_preflight_policy(&cfg, &report).expect_err("blocked");
    assert_eq!(
        err.to_string(),
        "invalid arguments: migrate preflight blocked due to unsafe filesystem topology (source_filesystem_not_ntfs_like, destination_filesystem_not_btrfs); verify source/destination mounts or re-run with --allow-unsafe-filesystems"
    );

    let mut allowed = cfg.clone();
    allowed.allow_unsafe_filesystems = true;
    enforce_transfer_preflight_policy(&allowed, &report).expect("allowed");

    let staging = config(Mode::Staging, "/dst");
    enforce_transfer_preflight_policy(&staging, &report).expect("staging is never blocked");
}

#[test]
fn transfer_preflight_merges_both_checks() {
    let dest = FakeDestination { flags: DestinationFlags { is_compressed: false, is_reparse_point: false }, space: None };
    let fs = FakeFilesystems { source: Some("ntfs"), dest: Some("btrfs") };
    let report = analyze_transfer_preflight_with_probes(&config(Mode::Migrate, "/dst"), &plan(&["a"]), &dest, &fs)
        .expect("probes succeed");
    assert!(report.warnings.is_empty());
    assert_eq!(PreflightWarningCode::SpaceAccountingDivergence.as_str(), "space_accounting_divergence");
}
