//! Turning a parsed command line into a run configuration, with its checks.

use vstd::prelude::*;

use crate::cli::{conflict_policy_of, copy_strategy_of, output_format_of, Cli, Command, TransferArgs};
use crate::config::{Config, Mode, TransferConfig};
use crate::error::CaravanError;
use crate::paths::{components, same_path};
use crate::plan::batching::is_invalid_args;

verus! {

/// The error, if any, for transfer options that cannot be used.
pub open spec fn transfer_args_error(args: TransferArgs) -> Option<Seq<char>> {
    if args.batch_size == 0 {
        Some("batch-size must be greater than zero"@)
    } else if components(args.source@) == components(args.dest@) {
        Some("source and destination must differ"@)
    } else {
        None
    }
}

/// Rejects a zero batch size and a destination that is the source.
pub fn validate_transfer_args(args: &TransferArgs) -> (r: Result<(), CaravanError>)
    ensures
        match transfer_args_error(*args) {
            Some(t) => r is Err && is_invalid_args(r->Err_0, t),
            None => r is Ok,
        },
{
    if args.batch_size == 0 {
        return Err(CaravanError::InvalidArguments(String::from_str("batch-size must be greater than zero")));
    }
    if same_path(args.source.as_str(), args.dest.as_str()) {
        return Err(CaravanError::InvalidArguments(String::from_str("source and destination must differ")));
    }
    Ok(())
}

/// The configuration of a transfer run built from its options.
pub open spec fn transfer_config_of(
    c: TransferConfig,
    mode: Mode,
    args: TransferArgs,
    snapshot_every: Option<u32>,
    snapshot_dir: Option<String>,
    log_level: String,
) -> bool {
    &&& c.mode == mode
    &&& c.source == args.source
    &&& c.dest == args.dest
    &&& c.batch_size_bytes == args.batch_size
    &&& c.max_files == args.max_files
    &&& c.snapshot_every == snapshot_every
    &&& c.snapshot_dir == snapshot_dir
    &&& c.interactive == args.interactive
    &&& c.log_level == log_level
    &&& c.skip_conflicts == args.skip_conflicts
    &&& c.conflict_policy == conflict_policy_of(args.conflict_policy)
    &&& c.recover_failed == args.recover_failed
    &&& c.allow_unsafe_filesystems == args.allow_unsafe_filesystems
    &&& c.copy_strategy == copy_strategy_of(args.copy_strategy)
}

/// Builds the configuration of a transfer run from its options.
pub fn build_transfer_config(
    mode: Mode,
    args: TransferArgs,
    snapshot_every: Option<u32>,
    snapshot_dir: Option<String>,
    log_level: String,
) -> (r: TransferConfig)
    ensures
        transfer_config_of(r, mode, args, snapshot_every, snapshot_dir, log_level),
{
    TransferConfig {
        mode,
        source: args.source,
        dest: args.dest,
        batch_size_bytes: args.batch_size,
        max_files: args.max_files,
        snapshot_every,
        snapshot_dir,
        interactive: args.interactive,
        log_level,
        skip_conflicts: args.skip_conflicts,
        conflict_policy: args.conflict_policy.into(),
        recover_failed: args.recover_failed,
        allow_unsafe_filesystems: args.allow_unsafe_filesystems,
        copy_strategy: args.copy_strategy.into(),
    }
}

/// The error, if any, for a command line that cannot run.
pub open spec fn cli_error(cli: Cli) -> Option<Seq<char>> {
    match cli.command {
        Some(Command::Staging(args)) => match transfer_args_error(args) {
            Some(t) => Some(t),
            None => if args.max_files == Some(0u64) {
                Some("max-files must be greater than zero"@)
            } else {
                None
            },
        },
        Some(Command::Migrate(args)) => match transfer_args_error(args.base) {
            Some(t) => Some(t),
            None => if args.snapshot_every == Some(0u32) {
                Some("snapshot-every must be greater than zero when provided"@)
            } else if args.snapshot_dir is Some && args.snapshot_every is None {
                Some("snapshot-dir requires snapshot-every"@)
            } else if args.base.max_files == Some(0u64) {
                Some("max-files must be greater than zero"@)
            } else {
                None
            },
        },
        Some(Command::Status(_)) => None,
        Some(Command::Resume(_)) => None,
        None => Some("missing subcommand"@),
    }
}

/// The configuration that a valid command line selects.
pub open spec fn config_of(cli: Cli, c: Config) -> bool {
    match cli.command {
        Some(Command::Staging(args)) => c matches Config::Staging(t) && transfer_config_of(
            t,
            Mode::Staging,
            args,
            None,
            None,
            cli.log_level,
        ),
        Some(Command::Migrate(args)) => c matches Config::Migrate(t) && transfer_config_of(
            t,
            Mode::Migrate,
            args.base,
            args.snapshot_every,
            args.snapshot_dir,
            cli.log_level,
        ),
        Some(Command::Status(args)) => c == Config::Status {
            state: args.state,
            log_level: cli.log_level,
            output: output_format_of(args.output),
        },
        Some(Command::Resume(args)) => c == Config::Resume {
            state: args.state,
            log_level: cli.log_level,
            recover_failed: args.recover_failed,
            inspect_failed: args.inspect_failed,
            output: output_format_of(args.output),
        },
        None => false,
    }
}

fn invalid(text: &str) -> (r: CaravanError)
    ensures
        is_invalid_args(r, text@),
{
    CaravanError::InvalidArguments(String::from_str(text))
}

/// Checks a parsed command line and turns it into a run configuration.
pub fn to_config(cli: Cli) -> (r: Result<Config, CaravanError>)
    ensures
        match cli_error(cli) {
            Some(t) => r is Err && is_invalid_args(r->Err_0, t),
            None => r is Ok && config_of(cli, r->Ok_0),
        },
{
    let Cli { log_level, command } = cli;
    match command {
        Some(Command::Staging(args)) => {
            match validate_transfer_args(&args) {
                Err(e) => {
                    return Err(e);
                },
                Ok(()) => {},
            }
            if args.max_files == Some(0u64) {
                return Err(invalid("max-files must be greater than zero"));
            }
            let transfer = build_transfer_config(Mode::Staging, args, None, None, log_level);
            Ok(Config::Staging(transfer))
        },
        Some(Command::Migrate(args)) => {
            match validate_transfer_args(&args.base) {
                Err(e) => {
                    return Err(e);
                },
                Ok(()) => {},
            }
            if args.snapshot_every == Some(0u32) {
                return Err(invalid("snapshot-every must be greater than zero when provided"));
            }
            if args.snapshot_dir.is_some() && args.snapshot_every.is_none() {
                return Err(invalid("snapshot-dir requires snapshot-every"));
            }
            if args.base.max_files == Some(0u64) {
                return Err(invalid("max-files must be greater than zero"));
            }
            let transfer = build_transfer_config(
                Mode::Migrate,
                args.base,
                args.snapshot_every,
                args.snapshot_dir,
                log_level,
            );
            Ok(Config::Migrate(transfer))
        },
        Some(Command::Status(args)) => Ok(
            Config::Status { state: args.state, log_level, output: args.output.into() },
        ),
        Some(Command::Resume(args)) => Ok(
            Config::Resume {
                state: args.state,
                log_level,
                recover_failed: args.recover_failed,
                inspect_failed: args.inspect_failed,
                output: args.output.into(),
            },
        ),
        None => Err(invalid("missing subcommand")),
    }
}

} // verus!
