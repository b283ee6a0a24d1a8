//! Registering a run in the migration registry, and finding the registered run of a state.

use vstd::prelude::*;

use crate::migration_registry::{matches_route, new_entry, MigrationEntry, MigrationRegistry, MigrationStatus};
use crate::text::str_eq;

verus! {

/// Whether some registered migration is an active one of this route.
pub open spec fn has_active_route(reg: MigrationRegistry, source: Seq<char>, dest: Seq<char>, mode: Seq<char>) -> bool {
    exists|k: int|
        0 <= k < reg.migrations@.len() && matches_route(#[trigger] reg.migrations@[k], source, dest, mode)
}

/// What registering a route does: with an active migration of the route, the first one is
/// reused and the registry is unchanged; otherwise a new entry with the next identifier is
/// appended and reported as created.
pub open spec fn registration(
    before: MigrationRegistry,
    after: MigrationRegistry,
    source: Seq<char>,
    dest: Seq<char>,
    mode: Seq<char>,
    state_file: Seq<char>,
    r: (u64, bool),
) -> bool {
    &&& has_active_route(before, source, dest, mode) ==> {
        &&& !r.1
        &&& after == before
        &&& exists|k: int|
            0 <= k < before.migrations@.len() && (#[trigger] before.migrations@[k]).id == r.0 && matches_route(
                before.migrations@[k],
                source,
                dest,
                mode,
            ) && forall|j: int| 0 <= j < k ==> !matches_route(#[trigger] before.migrations@[j], source, dest, mode)
    }
    &&& !has_active_route(before, source, dest, mode) ==> {
        &&& r.1
        &&& r.0 == before.next_id
        &&& after.next_id == before.next_id + 1
        &&& after.migrations@.drop_last() == before.migrations@
        &&& after.migrations@.len() == before.migrations@.len() + 1
        &&& exists|now: u64| new_entry(r.0, source, dest, mode, state_file, now, #[trigger] after.migrations@.last())
    }
}

/// Registering the same route a second time reuses the first registration: the same
/// identifier comes back, reported as not created, and the registry is left as it was.
pub proof fn lemma_register_again_reuses(
    r0: MigrationRegistry,
    r1: MigrationRegistry,
    r2: MigrationRegistry,
    source: Seq<char>,
    dest: Seq<char>,
    mode: Seq<char>,
    file1: Seq<char>,
    file2: Seq<char>,
    first: (u64, bool),
    second: (u64, bool),
)
    requires
        registration(r0, r1, source, dest, mode, file1, first),
        registration(r1, r2, source, dest, mode, file2, second),
    ensures
        second.0 == first.0,
        !second.1,
        r2 == r1,
{
    if has_active_route(r0, source, dest, mode) {
        let k = choose|k: int|
            0 <= k < r0.migrations@.len() && (#[trigger] r0.migrations@[k]).id == first.0 && matches_route(
                r0.migrations@[k],
                source,
                dest,
                mode,
            ) && forall|j: int| 0 <= j < k ==> !matches_route(#[trigger] r0.migrations@[j], source, dest, mode);
        assert(has_active_route(r1, source, dest, mode));
        let k2 = choose|k: int|
            0 <= k < r1.migrations@.len() && (#[trigger] r1.migrations@[k]).id == second.0 && matches_route(
                r1.migrations@[k],
                source,
                dest,
                mode,
            ) && forall|j: int| 0 <= j < k ==> !matches_route(#[trigger] r1.migrations@[j], source, dest, mode);
        if k2 < k {
            assert(!matches_route(r0.migrations@[k2], source, dest, mode));
        } else if k < k2 {
            assert(!matches_route(r1.migrations@[k], source, dest, mode));
        }
    } else {
        let n = r0.migrations@.len();
        let last = r1.migrations@.last();
        let now = choose|now: u64| new_entry(first.0, source, dest, mode, file1, now, #[trigger] r1.migrations@.last());
        assert(r1.migrations@[n as int] == last);
        assert(matches_route(last, source, dest, mode));
        assert(has_active_route(r1, source, dest, mode));
        let k2 = choose|k: int|
            0 <= k < r1.migrations@.len() && (#[trigger] r1.migrations@[k]).id == second.0 && matches_route(
                r1.migrations@[k],
                source,
                dest,
                mode,
            ) && forall|j: int| 0 <= j < k ==> !matches_route(#[trigger] r1.migrations@[j], source, dest, mode);
        if k2 < n {
            assert(r1.migrations@[k2] == r1.migrations@.drop_last()[k2]);
            assert(has_active_route(r0, source, dest, mode));
        } else {
            assert(!matches_route(r1.migrations@[n as int], source, dest, mode) || k2 == n);
        }
    }
}

/// Reuses the first active migration of this route, or registers a new one (stamped with the
/// current time). Returns its identifier and whether it was created.
pub fn register_or_reuse_migration(
    registry: &mut MigrationRegistry,
    source: &str,
    destination: &str,
    mode: &str,
    state_filename: &str,
) -> (r: (u64, bool))
    requires
        has_active_route(*old(registry), source@, destination@, mode@) || old(registry).next_id < u64::MAX,
    ensures
        registration(*old(registry), *final(registry), source@, destination@, mode@, state_filename@, r),
{
    match registry.find_by_source_dest(source, destination, mode) {
        Some(existing) => {
            return (existing.id, false);
        },
        None => {},
    }
    let id = registry.add_migration(source, destination, mode, state_filename);
    (id, true)
}

/// The last position, below `n`, of an entry satisfying the route (and, when `file` is given,
/// recorded with that state file), or -1.
pub open spec fn last_match(
    entries: Seq<MigrationEntry>,
    n: int,
    source: Seq<char>,
    dest: Seq<char>,
    mode: Seq<char>,
    file: Option<Seq<char>>,
) -> int
    decreases n,
{
    if n <= 0 {
        -1
    } else if matches_route(entries[n - 1], source, dest, mode) && match file {
        Some(f) => entries[n - 1].state_file@ == f,
        None => true,
    } {
        n - 1
    } else {
        last_match(entries, n - 1, source, dest, mode, file)
    }
}

fn find_last(
    registry: &MigrationRegistry,
    source: &str,
    destination: &str,
    mode: &str,
    file: Option<&str>,
) -> (r: Option<u64>)
    ensures
        ({
            let fv = match file {
                Some(f) => Some(f@),
                None => None,
            };
            let k = last_match(registry.migrations@, registry.migrations@.len() as int, source@, destination@, mode@, fv);
            &&& k < 0 ==> r is None
            &&& k >= 0 ==> r == Some(registry.migrations@[k].id)
        }),
{
    let ghost fv = match file {
        Some(f) => Some(f@),
        None => None,
    };
    let mut n: usize = registry.migrations.len();
    while n > 0
        invariant
            n <= registry.migrations@.len(),
            fv == (match file {
                Some(f) => Some(f@),
                None => None,
            }),
            last_match(registry.migrations@, registry.migrations@.len() as int, source@, destination@, mode@, fv)
                == last_match(registry.migrations@, n as int, source@, destination@, mode@, fv),
        decreases n,
    {
        let e = &registry.migrations[n - 1];
        let status = e.effective_status();
        let route = str_eq(e.source.as_str(), source) && str_eq(e.destination.as_str(), destination) && str_eq(
            e.mode.as_str(),
            mode,
        ) && status != MigrationStatus::Completed && status != MigrationStatus::Failed;
        let file_ok = match file {
            Some(f) => str_eq(e.state_file.as_str(), f),
            None => true,
        };
        if route && file_ok {
            return Some(e.id);
        }
        n = n - 1;
    }
    None
}

/// The registered migration of a state: the latest active migration of this route recorded
/// with the state's file name, else the latest active migration of this route.
pub fn find_active_migration_id_for_state(
    registry: &MigrationRegistry,
    source: &str,
    destination: &str,
    mode: &str,
    requested_state_file: Option<&str>,
) -> (r: Option<u64>)
    ensures
        ({
            let entries = registry.migrations@;
            let n = entries.len() as int;
            let exact = match requested_state_file {
                Some(f) => last_match(entries, n, source@, destination@, mode@, Some(f@)),
                None => -1,
            };
            let any = last_match(entries, n, source@, destination@, mode@, None);
            &&& exact >= 0 ==> r == Some(entries[exact].id)
            &&& exact < 0 && any >= 0 ==> r == Some(entries[any].id)
            &&& exact < 0 && any < 0 ==> r is None
        }),
{
    match requested_state_file {
        Some(f) => {
            match find_last(registry, source, destination, mode, Some(f)) {
                Some(id) => {
                    return Some(id);
                },
                None => {},
            }
        },
        None => {},
    }
    find_last(registry, source, destination, mode, None)
}

} // verus!
