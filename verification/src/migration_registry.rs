//! The registry of migrations: their identifiers, paths, status, and the
//! two-step (intent, then commit) protocol for recoverable status changes.

use vstd::prelude::*;

use crate::clock::now_unix_secs;
use crate::error::CaravanError;
use crate::paths::{join, join_paths};
use crate::text::{chars_of, concat, decimal, owned, push_decimal_str, push_str, string_from_chars};

verus! {

/// Where a registered migration stands.
#[derive(Debug, Clone, Copy, PartialEq, Eq, Structural)]
pub enum MigrationStatus {
    NotStarted,
    Running,
    Verifying,
    AwaitingDeletion,
    Completed,
    Failed,
}

/// One registered migration.
#[derive(Debug, Clone, PartialEq, Eq)]
pub struct MigrationEntry {
    pub id: u64,
    pub source: String,
    pub destination: String,
    /// `staging` or `migrate`.
    pub mode: String,
    pub status: MigrationStatus,
    /// A status change that was announced but not yet committed.
    pub pending_status: Option<MigrationStatus>,
    pub created_at: u64,
    pub updated_at: u64,
    /// The state file name, such as `migration_<hash>.json`.
    pub state_file: String,
}

/// The status that counts: a pending (announced) status wins over the committed one.
pub open spec fn effective(e: MigrationEntry) -> MigrationStatus {
    match e.pending_status {
        Some(s) => s,
        None => e.status,
    }
}

/// Neither completed nor failed.
pub open spec fn is_active(s: MigrationStatus) -> bool {
    s != MigrationStatus::Completed && s != MigrationStatus::Failed
}

impl MigrationEntry {
    /// The pending status if one was announced, else the committed status.
    pub fn effective_status(&self) -> (r: MigrationStatus)
        ensures
            r == effective(*self),
    {
        match self.pending_status {
            Some(s) => s,
            None => self.status,
        }
    }
}

/// All registered migrations and the next identifier to hand out.
#[derive(Debug, Clone, PartialEq, Eq)]
pub struct MigrationRegistry {
    pub migrations: Vec<MigrationEntry>,
    pub next_id: u64,
}

/// The position of the first entry with identifier `id`, or -1.
pub open spec fn entry_index(entries: Seq<MigrationEntry>, id: u64) -> int
    decreases entries.len(),
{
    if entries.len() == 0 {
        -1
    } else {
        let r = entry_index(entries.drop_last(), id);
        if r >= 0 {
            r
        } else if entries.last().id == id {
            entries.len() - 1
        } else {
            -1
        }
    }
}

/// The position found for an identifier is in range and holds it, and no earlier entry does.
pub proof fn lemma_entry_index(entries: Seq<MigrationEntry>, id: u64)
    ensures
        -1 <= entry_index(entries, id) < entries.len(),
        entry_index(entries, id) >= 0 ==> entries[entry_index(entries, id)].id == id,
        forall|j: int|
            0 <= j < entries.len() && (entry_index(entries, id) < 0 || j < entry_index(entries, id))
                ==> (#[trigger] entries[j]).id != id,
    decreases entries.len(),
{
    if entries.len() > 0 {
        lemma_entry_index(entries.drop_last(), id);
        assert forall|j: int| 0 <= j < entries.len() - 1 implies entries.drop_last()[j] == entries[j] by {}
    }
}

/// The entry after announcing `target` at time `now`.
pub open spec fn begun(e: MigrationEntry, target: MigrationStatus, now: u64) -> MigrationEntry {
    MigrationEntry { pending_status: Some(target), updated_at: now, ..e }
}

/// The entry after committing its announced status (if any) at time `now`.
pub open spec fn committed(e: MigrationEntry, now: u64) -> MigrationEntry {
    MigrationEntry { status: effective(e), pending_status: None, updated_at: now, ..e }
}

/// The entry that `add_migration` registers.
pub open spec fn new_entry(
    id: u64,
    source: Seq<char>,
    destination: Seq<char>,
    mode: Seq<char>,
    state_file: Seq<char>,
    now: u64,
    e: MigrationEntry,
) -> bool {
    &&& e.id == id
    &&& e.source@ == source
    &&& e.destination@ == destination
    &&& e.mode@ == mode
    &&& e.status == MigrationStatus::NotStarted
    &&& e.pending_status is None
    &&& e.created_at == now
    &&& e.updated_at == now
    &&& e.state_file@ == state_file
}

/// The message when no migration has identifier `id`.
pub open spec fn id_not_found_text(id: u64) -> Seq<char> {
    "migration with id "@ + decimal(id as nat) + " not found"@
}

/// `e` is the error for a missing migration `id`.
pub open spec fn is_id_not_found(e: CaravanError, id: u64) -> bool {
    e matches CaravanError::StateCorrupt(m) && m@ == id_not_found_text(id)
}

/// Every registered identifier is below the next one to hand out.
pub open spec fn ids_below_next(reg: MigrationRegistry) -> bool {
    forall|k: int| 0 <= k < reg.migrations@.len() ==> (#[trigger] reg.migrations@[k]).id < reg.next_id
}

fn not_found(id: u64) -> (r: CaravanError)
    ensures
        is_id_not_found(r, id),
{
    let mut text = owned("migration with id ");
    push_decimal_str(&mut text, id);
    push_str(&mut text, " not found");
    CaravanError::StateCorrupt(text)
}

impl Default for MigrationRegistry {
    fn default() -> (r: Self)
        ensures
            r.migrations@.len() == 0,
            r.next_id == 1,
    {
        MigrationRegistry::new()
    }
}

impl MigrationRegistry {
    /// An empty registry whose first identifier will be 1.
    pub fn new() -> (r: Self)
        ensures
            r.migrations@.len() == 0,
            r.next_id == 1,
    {
        MigrationRegistry { migrations: Vec::new(), next_id: 1 }
    }

    fn position_of(&self, id: u64) -> (r: Option<usize>)
        ensures
            match r {
                Some(k) => k as int == entry_index(self.migrations@, id),
                None => entry_index(self.migrations@, id) == -1,
            },
    {
        let mut i: usize = 0;
        while i < self.migrations.len()
            invariant
                i <= self.migrations@.len(),
                entry_index(self.migrations@.take(i as int), id) == -1,
            decreases self.migrations.len() - i,
        {
            assert(self.migrations@.take(i + 1 as int).drop_last() =~= self.migrations@.take(i as int));
            if self.migrations[i].id == id {
                proof {
                    lemma_entry_index(self.migrations@, id);
                    lemma_entry_index(self.migrations@.take(i as int), id);
                    if entry_index(self.migrations@, id) != i {
                        assert(self.migrations@.take(i as int)[entry_index(self.migrations@, id)]
                            == self.migrations@[entry_index(self.migrations@, id)]);
                    }
                }
                return Some(i);
            }
            i = i + 1;
        }
        proof {
            lemma_entry_index(self.migrations@, id);
            lemma_entry_index(self.migrations@.take(i as int), id);
            assert(self.migrations@.take(i as int) =~= self.migrations@);
        }
        None
    }

    /// The first migration with identifier `id`, if any.
    pub fn find_by_id(&self, id: u64) -> (r: Option<&MigrationEntry>)
        ensures
            match r {
                Some(e) => entry_index(self.migrations@, id) >= 0 && *e == self.migrations@[entry_index(
                    self.migrations@,
                    id,
                )],
                None => entry_index(self.migrations@, id) == -1,
            },
    {
        proof {
            lemma_entry_index(self.migrations@, id);
        }
        match self.position_of(id) {
            Some(k) => Some(&self.migrations[k]),
            None => None,
        }
    }

    /// Mutable access to the first migration with identifier `id`, if any.
    pub fn find_by_id_mut(&mut self, id: u64) -> (r: Option<&mut MigrationEntry>)
        ensures
            final(self).next_id == old(self).next_id,
            match r {
                Some(e) => {
                    let k = entry_index(old(self).migrations@, id);
                    &&& k >= 0
                    &&& *e == old(self).migrations@[k]
                    &&& final(self).migrations@ == old(self).migrations@.update(k, *final(e))
                },
                None => entry_index(old(self).migrations@, id) == -1 && final(self).migrations@
                    == old(self).migrations@,
            },
    {
        match self.position_of(id) {
            Some(k) => {
                proof {
                    lemma_entry_index(self.migrations@, id);
                }
                Some(&mut self.migrations[k])
            },
            None => None,
        }
    }

    /// The first active (neither completed nor failed, by effective status) migration of
    /// `source` to `dest` in mode `mode`.
    pub fn find_by_source_dest(&self, source: &str, dest: &str, mode: &str) -> (r: Option<&MigrationEntry>)
        ensures
            match r {
                Some(e) => exists|k: int|
                    0 <= k < self.migrations@.len() && *e == (#[trigger] self.migrations@[k])
                        && matches_route(*e, source@, dest@, mode@) && forall|j: int|
                        0 <= j < k ==> !matches_route(#[trigger] self.migrations@[j], source@, dest@, mode@),
                None => forall|j: int|
                    0 <= j < self.migrations@.len() ==> !matches_route(
                        #[trigger] self.migrations@[j],
                        source@,
                        dest@,
                        mode@,
                    ),
            },
    {
        let mut i: usize = 0;
        while i < self.migrations.len()
            invariant
                i <= self.migrations@.len(),
                forall|j: int|
                    0 <= j < i ==> !matches_route(#[trigger] self.migrations@[j], source@, dest@, mode@),
            decreases self.migrations.len() - i,
        {
            let m = &self.migrations[i];
            let status = m.effective_status();
            if crate::text::str_eq(m.source.as_str(), source) && crate::text::str_eq(
                m.destination.as_str(),
                dest,
            ) && crate::text::str_eq(m.mode.as_str(), mode) && status != MigrationStatus::Completed
                && status != MigrationStatus::Failed {
                assert(matches_route(self.migrations@[i as int], source@, dest@, mode@));
                return Some(m);
            }
            i = i + 1;
        }
        None
    }

    /// The first migration that is still active by effective status.
    pub fn find_first_incomplete(&self) -> (r: Option<&MigrationEntry>)
        ensures
            match r {
                Some(e) => exists|k: int|
                    0 <= k < self.migrations@.len() && *e == (#[trigger] self.migrations@[k])
                        && is_active(effective(*e)) && forall|j: int|
                        0 <= j < k ==> !is_active(effective(#[trigger] self.migrations@[j])),
                None => forall|j: int|
                    0 <= j < self.migrations@.len() ==> !is_active(effective(#[trigger] self.migrations@[j])),
            },
    {
        let mut i: usize = 0;
        while i < self.migrations.len()
            invariant
                i <= self.migrations@.len(),
                forall|j: int| 0 <= j < i ==> !is_active(effective(#[trigger] self.migrations@[j])),
            decreases self.migrations.len() - i,
        {
            let m = &self.migrations[i];
            let status = m.effective_status();
            if status != MigrationStatus::Completed && status != MigrationStatus::Failed {
                return Some(m);
            }
            i = i + 1;
        }
        None
    }

    /// Registers a migration at time `now` under the next identifier, and returns that identifier.
    pub fn add_migration_at(
        &mut self,
        source: &str,
        destination: &str,
        mode: &str,
        state_file: &str,
        now: u64,
    ) -> (r: u64)
        requires
            old(self).next_id < u64::MAX,
        ensures
            r == old(self).next_id,
            final(self).next_id == old(self).next_id + 1,
            final(self).migrations@.len() == old(self).migrations@.len() + 1,
            final(self).migrations@.drop_last() == old(self).migrations@,
            new_entry(r, source@, destination@, mode@, state_file@, now, final(self).migrations@.last()),
    {
        let id = self.next_id;
        self.next_id = self.next_id + 1;
        let entry = MigrationEntry {
            id,
            source: owned(source),
            destination: owned(destination),
            mode: owned(mode),
            status: MigrationStatus::NotStarted,
            pending_status: None,
            created_at: now,
            updated_at: now,
            state_file: owned(state_file),
        };
        self.migrations.push(entry);
        assert(self.migrations@.drop_last() =~= old(self).migrations@);
        id
    }

    /// Registers a migration under the next identifier, stamped with the current time,
    /// and returns that identifier.
    pub fn add_migration(&mut self, source: &str, destination: &str, mode: &str, state_file: &str) -> (r: u64)
        requires
            old(self).next_id < u64::MAX,
        ensures
            r == old(self).next_id,
            final(self).next_id == old(self).next_id + 1,
            final(self).migrations@.len() == old(self).migrations@.len() + 1,
            final(self).migrations@.drop_last() == old(self).migrations@,
            exists|now: u64|
                new_entry(r, source@, destination@, mode@, state_file@, now, #[trigger] final(self).migrations@.last()),
    {
        let now = now_unix_secs();
        let id = self.add_migration_at(source, destination, mode, state_file, now);
        assert(new_entry(id, source@, destination@, mode@, state_file@, now, self.migrations@.last()));
        id
    }

    /// Announces `target_status` for migration `id` at time `now`: it becomes the pending
    /// status (and so the effective one) until committed.
    pub fn begin_status_transition_at(&mut self, id: u64, target_status: MigrationStatus, now: u64) -> (r: Result<
        (),
        CaravanError,
    >)
        ensures
            final(self).next_id == old(self).next_id,
            ({
                let k = entry_index(old(self).migrations@, id);
                if k >= 0 {
                    r is Ok && final(self).migrations@ == old(self).migrations@.update(
                        k,
                        begun(old(self).migrations@[k], target_status, now),
                    )
                } else {
                    r is Err && is_id_not_found(r->Err_0, id) && final(self).migrations@
                        == old(self).migrations@
                }
            }),
    {
        match self.find_by_id_mut(id) {
            Some(entry) => {
                entry.pending_status = Some(target_status);
                entry.updated_at = now;
                Ok(())
            },
            None => Err(not_found(id)),
        }
    }

    /// Announces `target_status` for migration `id`, stamped with the current time.
    pub fn begin_status_transition(&mut self, id: u64, target_status: MigrationStatus) -> (r: Result<
        (),
        CaravanError,
    >)
        ensures
            final(self).next_id == old(self).next_id,
            ({
                let k = entry_index(old(self).migrations@, id);
                if k >= 0 {
                    r is Ok && exists|now: u64|
                        final(self).migrations@ == old(self).migrations@.update(
                            k,
                            #[trigger] begun(old(self).migrations@[k], target_status, now),
                        )
                } else {
                    r is Err && is_id_not_found(r->Err_0, id) && final(self).migrations@
                        == old(self).migrations@
                }
            }),
    {
        let now = now_unix_secs();
        self.begin_status_transition_at(id, target_status, now)
    }

    /// Commits the announced status of migration `id` (if any) at time `now`, and clears it.
    pub fn commit_status_transition_at(&mut self, id: u64, now: u64) -> (r: Result<(), CaravanError>)
        ensures
            final(self).next_id == old(self).next_id,
            ({
                let k = entry_index(old(self).migrations@, id);
                if k >= 0 {
                    r is Ok && final(self).migrations@ == old(self).migrations@.update(
                        k,
                        committed(old(self).migrations@[k], now),
                    )
                } else {
                    r is Err && is_id_not_found(r->Err_0, id) && final(self).migrations@
                        == old(self).migrations@
                }
            }),
    {
        match self.find_by_id_mut(id) {
            Some(entry) => {
                match entry.pending_status {
                    Some(target) => {
                        entry.status = target;
                    },
                    None => {},
                }
                entry.pending_status = None;
                entry.updated_at = now;
                Ok(())
            },
            None => Err(not_found(id)),
        }
    }

    /// Commits the announced status of migration `id`, stamped with the current time.
    pub fn commit_status_transition(&mut self, id: u64) -> (r: Result<(), CaravanError>)
        ensures
            final(self).next_id == old(self).next_id,
            ({
                let k = entry_index(old(self).migrations@, id);
                if k >= 0 {
                    r is Ok && exists|now: u64|
                        final(self).migrations@ == old(self).migrations@.update(
                            k,
                            #[trigger] committed(old(self).migrations@[k], now),
                        )
                } else {
                    r is Err && is_id_not_found(r->Err_0, id) && final(self).migrations@
                        == old(self).migrations@
                }
            }),
    {
        let now = now_unix_secs();
        self.commit_status_transition_at(id, now)
    }

    /// Sets the status of migration `id`: announces it, then commits it.
    pub fn update_status(&mut self, id: u64, status: MigrationStatus) -> (r: Result<(), CaravanError>)
        ensures
            final(self).next_id == old(self).next_id,
            ({
                let k = entry_index(old(self).migrations@, id);
                if k >= 0 {
                    r is Ok && exists|t1: u64, t2: u64|
                        final(self).migrations@ == old(self).migrations@.update(
                            k,
                            #[trigger] committed(begun(old(self).migrations@[k], status, t1), t2),
                        )
                } else {
                    r is Err && is_id_not_found(r->Err_0, id) && final(self).migrations@
                        == old(self).migrations@
                }
            }),
    {
        let t1 = now_unix_secs();
        match self.begin_status_transition_at(id, status, t1) {
            Err(e) => {
                return Err(e);
            },
            Ok(()) => {},
        }
        let ghost mid = self.migrations@;
        let t2 = now_unix_secs();
        proof {
            lemma_entry_index(old(self).migrations@, id);
            lemma_entry_index(mid, id);
            let k = entry_index(old(self).migrations@, id);
            assert forall|j: int| 0 <= j < mid.len() implies (#[trigger] mid[j]).id == old(self).migrations@[j].id by {}
            if entry_index(mid, id) != k {
                if entry_index(mid, id) < 0 {
                    assert(mid[k].id == id);
                } else {
                    assert(old(self).migrations@[entry_index(mid, id)].id == id);
                }
            }
        }
        let r = self.commit_status_transition_at(id, t2);
        assert(r is Ok);
        r
    }
}

/// Whether `e` is an active migration of `source` to `dest` in mode `mode`.
pub open spec fn matches_route(e: MigrationEntry, source: Seq<char>, dest: Seq<char>, mode: Seq<char>) -> bool {
    &&& e.source@ == source
    &&& e.destination@ == dest
    &&& e.mode@ == mode
    &&& is_active(effective(e))
}

/// Announcing a status makes it the effective status at once, so that a crash before the
/// commit still leaves the intended status visible.
pub proof fn lemma_begin_sets_effective_status(e: MigrationEntry, target: MigrationStatus, now: u64)
    ensures
        effective(begun(e, target, now)) == target,
{
}

/// Committing never changes the effective status; it clears the pending status.
pub proof fn lemma_commit_keeps_effective_status(e: MigrationEntry, now: u64)
    ensures
        effective(committed(e, now)) == effective(e),
        committed(e, now).pending_status is None,
        committed(committed(e, now), now) == committed(e, now),
{
}

/// Announcing then committing a status leaves it as the committed status with nothing pending,
/// and keeps the identity, paths, mode, creation time and state file of the entry.
pub proof fn lemma_update_sets_status(e: MigrationEntry, target: MigrationStatus, t1: u64, t2: u64)
    ensures
        committed(begun(e, target, t1), t2).status == target,
        committed(begun(e, target, t1), t2).pending_status is None,
        committed(begun(e, target, t1), t2).id == e.id,
        committed(begun(e, target, t1), t2).source == e.source,
        committed(begun(e, target, t1), t2).destination == e.destination,
        committed(begun(e, target, t1), t2).mode == e.mode,
        committed(begun(e, target, t1), t2).created_at == e.created_at,
        committed(begun(e, target, t1), t2).state_file == e.state_file,
{
}

/// After registering a migration in a registry whose identifiers are all below the next one,
/// the identifiers stay below the next one, and looking up the returned identifier finds
/// the new entry.
pub proof fn lemma_added_migration_is_found(
    before: MigrationRegistry,
    after: MigrationRegistry,
    id: u64,
)
    requires
        ids_below_next(before),
        id == before.next_id,
        after.next_id == before.next_id + 1,
        after.migrations@.len() == before.migrations@.len() + 1,
        after.migrations@.drop_last() == before.migrations@,
        after.migrations@.last().id == id,
    ensures
        ids_below_next(after),
        entry_index(after.migrations@, id) == before.migrations@.len(),
{
    let s = after.migrations@;
    assert(s.drop_last() == before.migrations@);
    lemma_entry_index(before.migrations@, id);
    assert forall|k: int| 0 <= k < s.len() implies (#[trigger] s[k]).id < after.next_id by {
        if k < s.len() - 1 {
            assert(s[k] == before.migrations@[k]);
        }
    }
    if entry_index(before.migrations@, id) >= 0 {
        assert(before.migrations@[entry_index(before.migrations@, id)].id < before.next_id);
    }
}

/// The characters of `s` with every backslash turned into a forward slash.
pub open spec fn slashes_normalized(s: Seq<char>) -> Seq<char> {
    s.map_values(|c: char| if c == '\\' { '/' } else { c })
}

pub(crate) fn normalize_path_for_state_hash(path: &str) -> (r: String)
    ensures
        r@ == slashes_normalized(path@),
{
    let chars = chars_of(path);
    let mut out: Vec<char> = Vec::new();
    let mut i: usize = 0;
    while i < chars.len()
        invariant
            i <= chars@.len(),
            chars@ == path@,
            out@ =~= slashes_normalized(chars@.take(i as int)),
        decreases chars.len() - i,
    {
        let c = chars[i];
        if c == '\\' {
            out.push('/');
        } else {
            out.push(c);
        }
        i = i + 1;
        assert(chars@.take(i as int) =~= chars@.take(i - 1 as int).push(c));
    }
    assert(chars@.take(chars@.len() as int) =~= chars@);
    string_from_chars(&out)
}

/// The BLAKE3 digest of `data`.
pub uninterp spec fn blake3_digest(data: Seq<u8>) -> Seq<u8>;

/// Hashes `data` with `blake3::hash` and returns the 32 bytes of the digest
/// (`Hash::as_bytes`). The digest itself is named, not stated.
#[verifier::external_body]
fn blake3_hash(data: &[u8]) -> (r: Vec<u8>)
    ensures
        r@ == blake3_digest(data@),
        r@.len() == 32,
{
    blake3::hash(data).as_bytes().to_vec()
}

/// The lowercase hexadecimal digit for `v` below 16.
pub open spec fn hex_digit(v: nat) -> char {
    if v < 10 {
        (48 + v) as char
    } else {
        (87 + v) as char
    }
}

/// Each byte as two lowercase hexadecimal digits, high nibble first (as `Hash::to_hex` writes).
pub open spec fn hex_lower(bytes: Seq<u8>) -> Seq<char>
    decreases bytes.len(),
{
    if bytes.len() == 0 {
        Seq::empty()
    } else {
        hex_lower(bytes.drop_last()) + seq![
            hex_digit((bytes.last() / 16) as nat),
            hex_digit((bytes.last() % 16) as nat),
        ]
    }
}

fn hex_digit_exec(v: u8) -> (c: char)
    requires
        v < 16,
    ensures
        c == hex_digit(v as nat),
{
    if v < 10 {
        (48 + v) as char
    } else {
        (87 + v) as char
    }
}

/// The bytes hashed for a state file name: the normalized source path, a zero byte, and the
/// normalized destination path, each in UTF-8.
pub open spec fn state_hash_input(source: Seq<char>, dest: Seq<char>) -> Seq<u8> {
    vstd::utf8::encode_utf8(slashes_normalized(source)) + seq![0u8] + vstd::utf8::encode_utf8(
        slashes_normalized(dest),
    )
}

/// The state file name for a digest: `migration_`, the first 16 hexadecimal digits, `.json`.
pub open spec fn state_filename_text(digest: Seq<u8>) -> Seq<char> {
    "migration_"@ + hex_lower(digest.take(8)) + ".json"@
}

/// The state file name made from a digest: its first 8 bytes as 16 lowercase hexadecimal digits.
pub fn state_filename_from_digest(digest: &Vec<u8>) -> (r: String)
    requires
        digest@.len() >= 8,
    ensures
        r@ == state_filename_text(digest@),
{
    let mut hex: Vec<char> = Vec::new();
    let mut i: usize = 0;
    while i < 8
        invariant
            i <= 8,
            digest@.len() >= 8,
            hex@ == hex_lower(digest@.take(i as int)),
        decreases 8 - i,
    {
        let b = digest[i];
        hex.push(hex_digit_exec(b / 16));
        hex.push(hex_digit_exec(b % 16));
        assert(digest@.take(i + 1 as int).drop_last() =~= digest@.take(i as int));
        i = i + 1;
        assert(hex@ =~= hex_lower(digest@.take(i as int)));
    }
    let digits = string_from_chars(&hex);
    let mut out = concat("migration_", digits.as_str());
    push_str(&mut out, ".json");
    out
}

fn append_bytes(out: &mut Vec<u8>, bytes: &[u8])
    ensures
        final(out)@ == old(out)@ + bytes@,
{
    let mut i: usize = 0;
    while i < bytes.len()
        invariant
            i <= bytes@.len(),
            out@ == old(out)@ + bytes@.take(i as int),
        decreases bytes.len() - i,
    {
        out.push(bytes[i]);
        i = i + 1;
        assert(out@ =~= old(out)@ + bytes@.take(i as int));
    }
    assert(bytes@.take(bytes@.len() as int) =~= bytes@);
}

/// A deterministic state file name for a migration of `source` to `dest`: the BLAKE3 digest of
/// both paths (backslashes turned into slashes, separated by a zero byte), shortened.
pub fn generate_state_filename(source: &str, dest: &str) -> (r: String)
    ensures
        r@ == state_filename_text(blake3_digest(state_hash_input(source@, dest@))),
{
    let normalized_source = normalize_path_for_state_hash(source);
    let normalized_dest = normalize_path_for_state_hash(dest);
    let mut data: Vec<u8> = Vec::new();
    append_bytes(&mut data, normalized_source.as_str().as_bytes());
    data.push(0u8);
    append_bytes(&mut data, normalized_dest.as_str().as_bytes());
    assert(data@ =~= state_hash_input(source@, dest@));
    let digest = blake3_hash(data.as_slice());
    state_filename_from_digest(&digest)
}

/// The registry file in the current directory.
pub fn default_registry_path() -> (r: String)
    ensures
        r@ == ".caravan/migrations.json"@,
{
    owned(".caravan/migrations.json")
}

/// The state directory inside the source directory.
pub fn state_dir_in_source(source: &str) -> (r: String)
    ensures
        r@ == join(source@, ".caravan"@),
{
    join_paths(source, ".caravan")
}

/// The state file of a migration of `source` to `dest`, inside the source's state directory.
pub fn state_file_in_source(source: &str, dest: &str) -> (r: String)
    ensures
        r@ == join(
            join(source@, ".caravan"@),
            state_filename_text(blake3_digest(state_hash_input(source@, dest@))),
        ),
{
    let dir = state_dir_in_source(source);
    let name = generate_state_filename(source, dest);
    join_paths(dir.as_str(), name.as_str())
}

} // verus!
