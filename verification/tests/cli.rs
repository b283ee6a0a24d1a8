use caravan::cli::args::{format_size_error, parse_batch_size, parse_size_with_label};
use caravan::cli::config_builder::{to_config, validate_transfer_args};
use caravan::cli::{Cli, Command, ConflictPolicyArg, CopyStrategyArg, MigrateArgs, OutputFormatArg, ResumeArgs, StateArgs, TransferArgs};
use caravan::config::{Config, CopyStrategy, Mode, OutputFormat};
use caravan::detection::{
    check_state_file_compatibility, detect_state_file, parse_batch_size_input, state_file_candidates,
};
use caravan::models::state::MigrationState;
use caravan::size::{parse_size, SizeParseError};

fn transfer_args(source: &str, dest: &str) -> TransferArgs {
    TransferArgs {
        source: source.to_string(),
        dest: dest.to_string(),
        batch_size: 1024,
        max_files: None,
        interactive: false,
        skip_conflicts: false,
        recover_failed: false,
        allow_unsafe_filesystems: false,
        copy_strategy: CopyStrategyArg::Native,
        conflict_policy: ConflictPolicyArg::SkipFile,
    }
}

fn cli(command: Option<Command>) -> Cli {
    Cli { log_level: "info".to_string(), command }
}

#[test]
fn sizes_accept_binary_units_in_any_case() {
    assert_eq!(parse_size("512"), Ok(512));
    assert_eq!(parse_size(" 64 MiB "), Ok(64 * 1024 * 1024));
    assert_eq!(parse_size("2gib"), Ok(2 * 1024 * 1024 * 1024));
    assert_eq!(parse_size("1TiB"), Ok(1 << 40));
    assert_eq!(parse_size("7 b"), Ok(7));
}

#[test]
fn sizes_report_each_kind_of_error() {
    assert_eq!(parse_size("   "), Err(SizeParseError::Empty));
    assert_eq!(parse_size("MiB"), Err(SizeParseError::MissingDigits));
    assert_eq!(parse_size("99999999999999999999"), Err(SizeParseError::InvalidNumericPart));
    assert_eq!(parse_size("10 MB"), Err(SizeParseError::UnsupportedUnit));
    assert_eq!(parse_size("20000000 TiB"), Err(SizeParseError::TooLarge));
    assert_eq!(parse_size("18446744073709551615"), Ok(u64::MAX));
}

#[test]
fn size_errors_name_the_option() {
    assert_eq!(format_size_error("batch-size", SizeParseError::Empty), "batch-size cannot be empty");
    assert_eq!(
        parse_batch_size("12 PB"),
        Err("unsupported batch-size unit; use B, KiB, MiB, GiB, or TiB".to_string())
    );
    assert_eq!(parse_size_with_label("x", "buffer"), Err("buffer must start with digits".to_string()));
    let err = parse_batch_size_input("").expect_err("empty");
    assert_eq!(err.to_string(), "invalid arguments: batch-size cannot be empty");
    assert_eq!(parse_batch_size_input("1 KiB").expect("valid"), 1024);
}

#[test]
fn transfer_args_need_a_size_and_distinct_paths() {
    let mut args = transfer_args("/a/b", "/a/b/");
    let err = validate_transfer_args(&args).expect_err("same path");
    assert_eq!(err.to_string(), "invalid arguments: source and destination must differ");
    args.dest = "/a/c".to_string();
    validate_transfer_args(&args).expect("distinct");
    args.batch_size = 0;
    let err = validate_transfer_args(&args).expect_err("zero size");
    assert_eq!(err.to_string(), "invalid arguments: batch-size must be greater than zero");
}

#[test]
fn command_lines_become_configurations() {
    let config = to_config(cli(Some(Command::Staging(transfer_args("/s", "/d"))))).expect("valid");
    match config {
        Config::Staging(t) => {
            assert_eq!(t.mode, Mode::Staging);
            assert_eq!(t.copy_strategy, CopyStrategy::Native);
            assert_eq!(t.batch_size_bytes, 1024);
        }
        other => panic!("unexpected {other:?}"),
    }

    let status = to_config(cli(Some(Command::Status(StateArgs { state: "s.json".to_string(), output: OutputFormatArg::Json }))))
        .expect("valid");
    assert_eq!(
        status,
        Config::Status { state: "s.json".to_string(), log_level: "info".to_string(), output: OutputFormat::Json }
    );

    let resume = to_config(cli(Some(Command::Resume(ResumeArgs {
        state: "s.json".to_string(),
        recover_failed: true,
        inspect_failed: false,
        output: OutputFormatArg::Human,
    }))))
    .expect("valid");
    assert!(matches!(resume, Config::Resume { recover_failed: true, .. }));

    let err = to_config(cli(None)).expect_err("no subcommand");
    assert_eq!(err.to_string(), "invalid arguments: missing subcommand");
}

#[test]
fn migrate_options_are_checked() {
    let mut args = MigrateArgs { base: transfer_args("/s", "/d"), snapshot_every: Some(0), snapshot_dir: None };
    let err = to_config(cli(Some(Command::Migrate(args.clone())))).expect_err("zero cadence");
    assert_eq!(err.to_string(), "invalid arguments: snapshot-every must be greater than zero when provided");

    args.snapshot_every = None;
    args.snapshot_dir = Some("/snaps".to_string());
    let err = to_config(cli(Some(Command::Migrate(args.clone())))).expect_err("dir without cadence");
    assert_eq!(err.to_string(), "invalid arguments: snapshot-dir requires snapshot-every");

    args.snapshot_every = Some(2);
    args.base.max_files = Some(0);
    let err = to_config(cli(Some(Command::Migrate(args.clone())))).expect_err("zero files");
    assert_eq!(err.to_string(), "invalid arguments: max-files must be greater than zero");

    args.base.max_files = Some(3);
    match to_config(cli(Some(Command::Migrate(args)))).expect("valid") {
        Config::Migrate(t) => {
            assert_eq!(t.snapshot_every, Some(2));
            assert_eq!(t.snapshot_dir.as_deref(), Some("/snaps"));
            assert_eq!(t.max_files, Some(3));
        }
        other => panic!("unexpected {other:?}"),
    }
}

#[test]
fn state_files_are_looked_for_in_order() {
    assert_eq!(
        state_file_candidates("/s", "/d"),
        vec!["/s/.caravan/state.json".to_string(), "/d/.caravan/state.json".to_string(), ".caravan/state.json".to_string()]
    );
    assert_eq!(detect_state_file("/s", "/d", &vec![false, true, true]), Some("/d/.caravan/state.json".to_string()));
    assert_eq!(detect_state_file("/s", "/d", &vec![false, false, false]), None);
}

#[test]
fn state_batch_size_must_agree_with_the_command_line() {
    let mut state = MigrationState::new("staging", "/s", "/d");
    check_state_file_compatibility(state.clone(), 10).expect("no recorded size");
    state.batch_size_bytes = 10;
    check_state_file_compatibility(state.clone(), 10).expect("same size");
    let err = check_state_file_compatibility(state, 20).expect_err("different size");
    assert_eq!(
        err.to_string(),
        "invalid arguments: Batch size mismatch: state has 10 bytes, CLI specifies 20 bytes"
    );
}

#[test]
fn conflict_policy_option_selects_the_policy() {
    let mut args = transfer_args("/s", "/d");
    match to_config(cli(Some(Command::Staging(args.clone())))).expect("valid") {
        Config::Staging(t) => assert_eq!(t.conflict_policy, caravan::config::ConflictPolicy::SkipFile),
        other => panic!("unexpected {other:?}"),
    }
    args.conflict_policy = ConflictPolicyArg::SkipBatch;
    match to_config(cli(Some(Command::Staging(args)))).expect("valid") {
        Config::Staging(t) => assert_eq!(t.conflict_policy, caravan::config::ConflictPolicy::SkipBatch),
        other => panic!("unexpected {other:?}"),
    }
}
