//! Checks made before a transfer: destination flags and free-space accounting, case
//! collisions and lengths of the planned destination paths, filesystem types, and the
//! policy that blocks a migration onto an unsafe filesystem topology.

use vstd::prelude::*;

use crate::config::{Mode, TransferConfig};
use crate::error::CaravanError;
use crate::models::batch::Batch;
use crate::plan::batching::is_invalid_args;
use crate::plan::types::PlanningSnapshot;
use crate::platform::is_windows_build;
use crate::text::{
    ascii_lowercase, ascii_lowercase_chars, chars_eq, chars_of, contains_str, decimal, ends_with_str,
    has_infix, has_prefix, has_suffix, join_strings, join_texts, owned, push_decimal_str, push_str,
    starts_with_str, str_eq, string_from_chars,
};

pub mod mountinfo;

verus! {

/// Attributes of the destination directory that affect a transfer.
#[derive(Debug, Clone, Copy, PartialEq, Eq, Structural)]
pub struct DestinationFlags {
    pub is_compressed: bool,
    pub is_reparse_point: bool,
}

/// Free-space figures of the destination volume.
#[derive(Debug, Clone, Copy, PartialEq, Eq, Structural)]
pub struct DestinationSpaceSnapshot {
    pub total_bytes: u64,
    pub available_bytes: u64,
    pub volume_free_bytes: u64,
}

/// Tells the filesystem type of the mount that holds a path (`None` when unknown).
pub trait FilesystemTypeProbe {
    /// Whether `fs` is what this probe reported for `path`: each probe may say what its
    /// answers mean; by default nothing is said of them.
    open spec fn reports_filesystem(&self, path: Seq<char>, fs: Option<Seq<char>>) -> bool {
        true
    }

    /// The filesystem type of the mount that holds `path`, or the error met while reading it.
    fn filesystem_type(&self, path: &str) -> (r: Result<Option<String>, CaravanError>)
        ensures
            r is Ok ==> self.reports_filesystem(path@, opt_view(r->Ok_0)),
    ;
}

/// Tells the attributes and free space of the destination.
pub trait DestinationProbe {
    /// Whether `flags` are what this probe reported for `destination`: each probe may say what
    /// its answers mean; by default nothing is said of them.
    open spec fn reports_flags(&self, destination: Seq<char>, flags: DestinationFlags) -> bool {
        true
    }

    /// Whether `space` is a set of figures this probe reported for `destination`; by default
    /// nothing is said of them.
    open spec fn reports_space(&self, destination: Seq<char>, space: DestinationSpaceSnapshot) -> bool {
        true
    }

    /// The attributes of `destination`, or the error met while reading them.
    fn destination_flags(&self, destination: &str) -> (r: Result<DestinationFlags, CaravanError>)
        ensures
            r is Ok ==> self.reports_flags(destination@, r->Ok_0),
    ;

    /// The free-space figures, when the platform reports them; none by default.
    fn destination_space(&self, _destination: &str) -> (r: Result<Option<DestinationSpaceSnapshot>, CaravanError>)
        ensures
            r matches Ok(Some(space)) ==> self.reports_space(_destination@, space),
        default_ensures
            r == Ok::<Option<DestinationSpaceSnapshot>, CaravanError>(None),
    {
        Ok(None)
    }
}

/// What a preflight check found.
#[derive(Debug, Clone, Copy, PartialEq, Eq, Structural)]
pub enum PreflightWarningCode {
    DestinationCompressed,
    DestinationReparsePoint,
    PathLengthPressure,
    CaseCollisionRisk,
    SpaceAccountingDivergence,
    SourceFilesystemNotNtfsLike,
    DestinationFilesystemNotBtrfs,
    SourceFilesystemUnknown,
    DestinationFilesystemUnknown,
}

/// The stable identifier of a warning code.
pub open spec fn warning_code_text(code: PreflightWarningCode) -> Seq<char> {
    match code {
        PreflightWarningCode::DestinationCompressed => "destination_compressed"@,
        PreflightWarningCode::DestinationReparsePoint => "destination_reparse_point"@,
        PreflightWarningCode::PathLengthPressure => "path_length_pressure"@,
        PreflightWarningCode::CaseCollisionRisk => "case_collision_risk"@,
        PreflightWarningCode::SpaceAccountingDivergence => "space_accounting_divergence"@,
        PreflightWarningCode::SourceFilesystemNotNtfsLike => "source_filesystem_not_ntfs_like"@,
        PreflightWarningCode::DestinationFilesystemNotBtrfs => "destination_filesystem_not_btrfs"@,
        PreflightWarningCode::SourceFilesystemUnknown => "source_filesystem_unknown"@,
        PreflightWarningCode::DestinationFilesystemUnknown => "destination_filesystem_unknown"@,
    }
}

impl PreflightWarningCode {
    /// The stable identifier of this code.
    pub fn as_str(self) -> (r: &'static str)
        ensures
            r@ == warning_code_text(self),
    {
        match self {
            PreflightWarningCode::DestinationCompressed => "destination_compressed",
            PreflightWarningCode::DestinationReparsePoint => "destination_reparse_point",
            PreflightWarningCode::PathLengthPressure => "path_length_pressure",
            PreflightWarningCode::CaseCollisionRisk => "case_collision_risk",
            PreflightWarningCode::SpaceAccountingDivergence => "space_accounting_divergence",
            PreflightWarningCode::SourceFilesystemNotNtfsLike => "source_filesystem_not_ntfs_like",
            PreflightWarningCode::DestinationFilesystemNotBtrfs => "destination_filesystem_not_btrfs",
            PreflightWarningCode::SourceFilesystemUnknown => "source_filesystem_unknown",
            PreflightWarningCode::DestinationFilesystemUnknown => "destination_filesystem_unknown",
        }
    }
}

/// One finding of a preflight check.
#[derive(Debug, Clone, PartialEq, Eq)]
pub struct PreflightWarning {
    pub code: PreflightWarningCode,
    pub message: String,
}

/// All findings of the preflight checks.
#[derive(Debug, Clone, PartialEq, Eq)]
pub struct PreflightReport {
    pub warnings: Vec<PreflightWarning>,
    pub max_estimated_destination_path_len: usize,
    pub case_collision_count: usize,
}

/// The codes and messages of a list of warnings.
pub open spec fn warning_list(ws: Seq<PreflightWarning>) -> Seq<(PreflightWarningCode, Seq<char>)> {
    ws.map_values(|w: PreflightWarning| (w.code, w.message@))
}

/// A report with no finding.
pub open spec fn is_empty_report(r: PreflightReport) -> bool {
    r.warnings@.len() == 0 && r.max_estimated_destination_path_len == 0 && r.case_collision_count == 0
}

fn empty_report() -> (r: PreflightReport)
    ensures
        is_empty_report(r),
{
    PreflightReport { warnings: Vec::new(), max_estimated_destination_path_len: 0, case_collision_count: 0 }
}

fn warning(code: PreflightWarningCode, message: String) -> (r: PreflightWarning)
    ensures
        r.code == code,
        r.message@ == message@,
{
    PreflightWarning { code, message }
}

/// A destination path written the Windows way: with a drive (`:\`) or as a UNC path (`\\`).
pub open spec fn looks_windows_style(path: Seq<char>) -> bool {
    has_infix(path, ":\\"@) || has_prefix(path, "\\\\"@)
}

fn destination_looks_windows_style(path: &str) -> (r: bool)
    ensures
        r == looks_windows_style(path@),
{
    contains_str(path, ":\\") || starts_with_str(path, "\\\\")
}

fn destination_uses_extended_windows_prefix(path: &str) -> (r: bool)
    ensures
        r == has_prefix(path@, "\\\\?\\"@),
{
    starts_with_str(path, "\\\\?\\")
}

/// `a * b`, or `u64::MAX` when that overflows.
pub open spec fn sat_mul(a: u64, b: u64) -> nat {
    if a * b > u64::MAX {
        u64::MAX as nat
    } else {
        (a * b) as nat
    }
}

/// The volume reports at least 8 GiB more free space than is available to the caller,
/// and the available space is under 80% of the volume's free space.
pub open spec fn space_diverges(space: DestinationSpaceSnapshot) -> bool {
    &&& space.volume_free_bytes > space.available_bytes
    &&& space.volume_free_bytes - space.available_bytes >= 8589934592
    &&& sat_mul(space.available_bytes, 5) < sat_mul(space.volume_free_bytes, 4)
}

fn sat_mul_exec(a: u64, b: u64) -> (r: u64)
    ensures
        r == sat_mul(a, b),
{
    match a.checked_mul(b) {
        Some(v) => v,
        None => u64::MAX,
    }
}

fn suspicious_space_divergence(space: DestinationSpaceSnapshot) -> (r: bool)
    ensures
        r == space_diverges(space),
{
    if space.volume_free_bytes <= space.available_bytes {
        return false;
    }
    let delta = space.volume_free_bytes - space.available_bytes;
    let delta_threshold: u64 = 8 * 1024 * 1024 * 1024;
    delta >= delta_threshold && sat_mul_exec(space.available_bytes, 5) < sat_mul_exec(space.volume_free_bytes, 4)
}

/// The planned relative paths of all batches, batch after batch.
pub open spec fn planned_paths(batches: Seq<Batch>) -> Seq<Seq<char>>
    decreases batches.len(),
{
    if batches.len() == 0 {
        Seq::empty()
    } else {
        planned_paths(batches.drop_last()) + batches.last().files@.map_values(|f: crate::models::file_entry::FileEntry| f.relative_path@)
    }
}

/// What `str::to_lowercase` of std returns (Unicode lower-casing).
pub uninterp spec fn lowercase_text(s: Seq<char>) -> Seq<char>;

/// Lower-cases `s` with `str::to_lowercase` of std; the result is named, not stated.
#[verifier::external_body]
fn to_lowercase(s: &str) -> (r: String)
    ensures
        r@ == lowercase_text(s@),
{
    s.to_lowercase()
}

/// The original path recorded for the first entry with case key `key`, if any.
pub open spec fn seen_lookup(seen: Seq<(Seq<char>, Seq<char>)>, key: Seq<char>) -> Option<Seq<char>>
    decreases seen.len(),
{
    if seen.len() == 0 {
        None
    } else {
        match seen_lookup(seen.drop_last(), key) {
            Some(v) => Some(v),
            None => if seen.last().0 == key {
                Some(seen.last().1)
            } else {
                None
            },
        }
    }
}

/// Scanning the paths in order: the first path seen for each lower-cased key, and every later
/// path whose key was seen with a different spelling, paired with that first spelling.
pub open spec fn case_scan(paths: Seq<Seq<char>>) -> (Seq<(Seq<char>, Seq<char>)>, Seq<(Seq<char>, Seq<char>)>)
    decreases paths.len(),
{
    if paths.len() == 0 {
        (Seq::empty(), Seq::empty())
    } else {
        let prev = case_scan(paths.drop_last());
        let rel = paths.last();
        let key = lowercase_text(rel);
        match seen_lookup(prev.0, key) {
            Some(existing) => if existing != rel {
                (prev.0, prev.1.push((existing, rel)))
            } else {
                prev
            },
            None => (prev.0.push((key, rel)), prev.1),
        }
    }
}

/// The UTF-8 length of a text.
pub open spec fn utf8_len(s: Seq<char>) -> nat {
    vstd::utf8::encode_utf8(s).len()
}

/// The estimated length of the destination path of `rel` (capped at `usize::MAX`).
pub open spec fn path_estimate(dest_len: nat, separator: nat, rel: Seq<char>) -> nat {
    if dest_len + separator + utf8_len(rel) > usize::MAX {
        usize::MAX as nat
    } else {
        dest_len + separator + utf8_len(rel)
    }
}

/// The longest estimated destination path among `paths`, or 0 when there is none.
pub open spec fn max_estimate(paths: Seq<Seq<char>>, dest_len: nat, separator: nat) -> nat
    decreases paths.len(),
{
    if paths.len() == 0 {
        0
    } else {
        let prev = max_estimate(paths.drop_last(), dest_len, separator);
        let e = path_estimate(dest_len, separator, paths.last());
        if e > prev {
            e
        } else {
            prev
        }
    }
}

/// Whether a `/` or `\` goes between the destination and a relative path.
pub open spec fn separator_len(dest: Seq<char>) -> nat {
    if has_suffix(dest, "\\"@) || has_suffix(dest, "/"@) {
        0
    } else {
        1
    }
}

pub open spec fn compressed_text(dest: Seq<char>) -> Seq<char> {
    "destination '"@ + dest
        + "' is compressed; NTFS compression can reduce copy throughput for large media files"@
}

pub open spec fn reparse_text(dest: Seq<char>) -> Seq<char> {
    "destination '"@ + dest
        + "' is a reparse point; verify target volume and available space before continuing"@
}

pub open spec fn divergence_text(dest: Seq<char>, space: DestinationSpaceSnapshot) -> Seq<char> {
    "destination '"@ + dest + "' reports divergent free-space metrics: available_to_caller="@
        + decimal(space.available_bytes as nat) + " bytes, volume_free="@ + decimal(
        space.volume_free_bytes as nat,
    ) + " bytes, delta="@ + decimal((space.volume_free_bytes - space.available_bytes) as nat)
        + " bytes; caravan capacity checks use available_to_caller"@
}

/// One collision pair as shown in a sample list.
pub open spec fn pair_text(p: (Seq<char>, Seq<char>)) -> Seq<char> {
    "'"@ + p.0 + "' vs '"@ + p.1 + "'"@
}

pub open spec fn case_collision_text(pairs: Seq<(Seq<char>, Seq<char>)>) -> Seq<char> {
    "planned paths contain "@ + decimal(pairs.len()) + " case-collision pair(s) on case-insensitive filesystems; samples: "@
        + join_texts(pairs.take(if pairs.len() < 3 { pairs.len() as int } else { 3 }).map_values(|p: (Seq<char>, Seq<char>)| pair_text(p)), ", "@)
}

pub open spec fn path_length_text(len: nat) -> Seq<char> {
    "longest estimated destination path is "@ + decimal(len)
        + " chars; this is near legacy Windows path limits"@
}

/// The warning list of the staging checks, given the destination's flags and space figures.
pub open spec fn staging_warnings(
    dest: Seq<char>,
    batches: Seq<Batch>,
    flags: DestinationFlags,
    space: Option<DestinationSpaceSnapshot>,
) -> Seq<(PreflightWarningCode, Seq<char>)> {
    let windows = looks_windows_style(dest);
    let paths = planned_paths(batches);
    let pairs = case_scan(paths).1;
    let longest = max_estimate(paths, utf8_len(dest), separator_len(dest));
    (if flags.is_compressed {
        seq![(PreflightWarningCode::DestinationCompressed, compressed_text(dest))]
    } else {
        Seq::empty()
    }) + (if flags.is_reparse_point {
        seq![(PreflightWarningCode::DestinationReparsePoint, reparse_text(dest))]
    } else {
        Seq::empty()
    }) + (if windows && space is Some && space_diverges(space->0) {
        seq![(PreflightWarningCode::SpaceAccountingDivergence, divergence_text(dest, space->0))]
    } else {
        Seq::empty()
    }) + (if pairs.len() > 0 {
        seq![(PreflightWarningCode::CaseCollisionRisk, case_collision_text(pairs))]
    } else {
        Seq::empty()
    }) + (if windows && !has_prefix(dest, "\\\\?\\"@) && longest >= 240 {
        seq![(PreflightWarningCode::PathLengthPressure, path_length_text(longest))]
    } else {
        Seq::empty()
    })
}

/// `r` is the staging report for `dest` and `batches` with these flags and space figures.
pub open spec fn is_staging_report(
    r: PreflightReport,
    dest: Seq<char>,
    batches: Seq<Batch>,
    flags: DestinationFlags,
    space: Option<DestinationSpaceSnapshot>,
) -> bool {
    let paths = planned_paths(batches);
    &&& warning_list(r.warnings@) == staging_warnings(dest, batches, flags, space)
    &&& r.max_estimated_destination_path_len == max_estimate(paths, utf8_len(dest), separator_len(dest))
    &&& r.case_collision_count == case_scan(paths).1.len()
}

fn all_planned_paths(batches: &Vec<Batch>) -> (r: Vec<String>)
    ensures
        r.deep_view() == planned_paths(batches@),
{
    let mut out: Vec<String> = Vec::new();
    let mut b: usize = 0;
    while b < batches.len()
        invariant
            b <= batches@.len(),
            out.deep_view() == planned_paths(batches@.take(b as int)),
        decreases batches.len() - b,
    {
        let batch = &batches[b];
        let ghost base = out.deep_view();
        let mut f: usize = 0;
        while f < batch.files.len()
            invariant
                f <= batch.files@.len(),
                out.deep_view() == base + batch.files@.take(f as int).map_values(
                    |e: crate::models::file_entry::FileEntry| e.relative_path@,
                ),
            decreases batch.files.len() - f,
        {
            let ghost prev = out.deep_view();
            let p = batch.files[f].relative_path.clone();
            out.push(p);
            assert(out.deep_view() =~= prev.push(batch.files@[f as int].relative_path@));
            f = f + 1;
            assert(batch.files@.take(f as int) =~= batch.files@.take(f - 1 as int).push(batch.files@[f - 1]));
            assert(out.deep_view() =~= base + batch.files@.take(f as int).map_values(
                |e: crate::models::file_entry::FileEntry| e.relative_path@,
            ));
        }
        assert(batch.files@.take(batch.files@.len() as int) =~= batch.files@);
        assert(batches@.take(b + 1 as int).drop_last() =~= batches@.take(b as int));
        b = b + 1;
    }
    assert(batches@.take(batches@.len() as int) =~= batches@);
    out
}

fn lookup_seen(seen: &Vec<(String, String)>, key: &str) -> (r: Option<String>)
    ensures
        match r {
            Some(v) => seen_lookup(seen_view(seen@), key@) == Some(v@),
            None => seen_lookup(seen_view(seen@), key@) is None,
        },
{
    let mut i: usize = 0;
    while i < seen.len()
        invariant
            i <= seen@.len(),
            seen_lookup(seen_view(seen@).take(i as int), key@) is None,
        decreases seen.len() - i,
    {
        assert(seen_view(seen@).take(i + 1 as int).drop_last() =~= seen_view(seen@).take(i as int));
        assert(seen_view(seen@).take(i + 1 as int).last() == (seen@[i as int].0@, seen@[i as int].1@));
        if str_eq(seen[i].0.as_str(), key) {
            proof {
                lemma_seen_lookup_prefix(seen_view(seen@), key@, i + 1);
            }
            return Some(seen[i].1.clone());
        }
        i = i + 1;
    }
    assert(seen_view(seen@).take(seen@.len() as int) =~= seen_view(seen@));
    None
}

/// The views of a list of (key, original) pairs.
pub open spec fn seen_view(seen: Seq<(String, String)>) -> Seq<(Seq<char>, Seq<char>)> {
    seen.map_values(|p: (String, String)| (p.0@, p.1@))
}

proof fn lemma_seen_lookup_prefix(seen: Seq<(Seq<char>, Seq<char>)>, key: Seq<char>, n: int)
    requires
        0 <= n <= seen.len(),
        seen_lookup(seen.take(n), key) is Some,
    ensures
        seen_lookup(seen, key) == seen_lookup(seen.take(n), key),
    decreases seen.len() - n,
{
    if n < seen.len() {
        assert(seen.take(n + 1).drop_last() =~= seen.take(n));
        lemma_seen_lookup_prefix(seen, key, n + 1);
    } else {
        assert(seen.take(n) =~= seen);
    }
}

/// The case-collision pairs of `paths` (see [`case_scan`]).
fn case_collision_pairs(paths: &Vec<String>) -> (r: Vec<(String, String)>)
    ensures
        seen_view(r@) == case_scan(paths.deep_view()).1,
{
    let mut seen: Vec<(String, String)> = Vec::new();
    let mut pairs: Vec<(String, String)> = Vec::new();
    let mut i: usize = 0;
    while i < paths.len()
        invariant
            i <= paths@.len(),
            seen_view(seen@) == case_scan(paths.deep_view().take(i as int)).0,
            seen_view(pairs@) == case_scan(paths.deep_view().take(i as int)).1,
        decreases paths.len() - i,
    {
        let rel = &paths[i];
        assert(paths.deep_view().take(i + 1 as int).drop_last() =~= paths.deep_view().take(i as int));
        assert(paths.deep_view().take(i + 1 as int).last() == rel@);
        let key = to_lowercase(rel.as_str());
        match lookup_seen(&seen, key.as_str()) {
            Some(existing) => {
                if !str_eq(existing.as_str(), rel.as_str()) {
                    pairs.push((existing, rel.clone()));
                    assert(seen_view(pairs@) =~= case_scan(paths.deep_view().take(i + 1 as int)).1);
                }
            },
            None => {
                seen.push((key, rel.clone()));
                assert(seen_view(seen@) =~= case_scan(paths.deep_view().take(i + 1 as int)).0);
            },
        }
        i = i + 1;
    }
    assert(paths.deep_view().take(paths@.len() as int) =~= paths.deep_view());
    pairs
}

fn longest_estimate(paths: &Vec<String>, dest_len: usize, separator: usize) -> (r: usize)
    requires
        separator <= 1,
    ensures
        r == max_estimate(paths.deep_view(), dest_len as nat, separator as nat),
{
    let mut best: usize = 0;
    let mut i: usize = 0;
    while i < paths.len()
        invariant
            i <= paths@.len(),
            separator <= 1,
            best == max_estimate(paths.deep_view().take(i as int), dest_len as nat, separator as nat),
        decreases paths.len() - i,
    {
        assert(paths.deep_view().take(i + 1 as int).drop_last() =~= paths.deep_view().take(i as int));
        assert(paths.deep_view().take(i + 1 as int).last() == paths[i as int]@);
        let rel_len = paths[i].as_str().as_bytes().len();
        let estimated = dest_len.saturating_add(separator).saturating_add(rel_len);
        if estimated > best {
            best = estimated;
        }
        i = i + 1;
    }
    assert(paths.deep_view().take(paths@.len() as int) =~= paths.deep_view());
    best
}

fn pair_strings(pairs: &Vec<(String, String)>, n: usize) -> (r: Vec<String>)
    requires
        n <= pairs@.len(),
    ensures
        r.deep_view() == seen_view(pairs@).take(n as int).map_values(|p: (Seq<char>, Seq<char>)| pair_text(p)),
{
    let mut out: Vec<String> = Vec::new();
    let mut i: usize = 0;
    while i < n
        invariant
            i <= n <= pairs@.len(),
            out.deep_view() =~= seen_view(pairs@).take(i as int).map_values(|p: (Seq<char>, Seq<char>)| pair_text(p)),
        decreases n - i,
    {
        let mut t = owned("'");
        push_str(&mut t, pairs[i].0.as_str());
        push_str(&mut t, "' vs '");
        push_str(&mut t, pairs[i].1.as_str());
        push_str(&mut t, "'");
        let ghost prev = out.deep_view();
        assert(t@ =~= pair_text(seen_view(pairs@)[i as int]));
        out.push(t);
        assert(out.deep_view() =~= prev.push(pair_text(seen_view(pairs@)[i as int])));
        i = i + 1;
        assert(seen_view(pairs@).take(i as int) =~= seen_view(pairs@).take(i - 1 as int).push(seen_view(pairs@)[i - 1]));
        assert(out.deep_view() =~= seen_view(pairs@).take(i as int).map_values(|p: (Seq<char>, Seq<char>)| pair_text(p)));
    }
    out
}

/// The staging report for the planned batches, given the flags and (for a Windows-style
/// destination) the free-space figures that the destination probe reported.
pub fn staging_preflight_report(
    dest: &str,
    batches: &Vec<Batch>,
    flags: DestinationFlags,
    space: Option<DestinationSpaceSnapshot>,
) -> (r: PreflightReport)
    ensures
        is_staging_report(r, dest@, batches@, flags, space),
{
    let ghost d = dest@;
    let ghost paths_spec = planned_paths(batches@);
    let ghost pairs_spec = case_scan(paths_spec).1;
    let ghost longest_spec = max_estimate(paths_spec, utf8_len(d), separator_len(d));
    let ghost windows_spec = looks_windows_style(d);
    let ghost part1: Seq<(PreflightWarningCode, Seq<char>)> = if flags.is_compressed {
        seq![(PreflightWarningCode::DestinationCompressed, compressed_text(d))]
    } else {
        Seq::empty()
    };
    let ghost part2: Seq<(PreflightWarningCode, Seq<char>)> = if flags.is_reparse_point {
        seq![(PreflightWarningCode::DestinationReparsePoint, reparse_text(d))]
    } else {
        Seq::empty()
    };
    let ghost part3: Seq<(PreflightWarningCode, Seq<char>)> = if windows_spec && space is Some
        && space_diverges(space->0) {
        seq![(PreflightWarningCode::SpaceAccountingDivergence, divergence_text(d, space->0))]
    } else {
        Seq::empty()
    };
    let ghost part4: Seq<(PreflightWarningCode, Seq<char>)> = if pairs_spec.len() > 0 {
        seq![(PreflightWarningCode::CaseCollisionRisk, case_collision_text(pairs_spec))]
    } else {
        Seq::empty()
    };
    let ghost part5: Seq<(PreflightWarningCode, Seq<char>)> = if windows_spec && !has_prefix(
        d,
        "\\\\?\\"@,
    ) && longest_spec >= 240 {
        seq![(PreflightWarningCode::PathLengthPressure, path_length_text(longest_spec))]
    } else {
        Seq::empty()
    };
    let mut warnings: Vec<PreflightWarning> = Vec::new();
    if flags.is_compressed {
        let mut m = owned("destination '");
        push_str(&mut m, dest);
        push_str(&mut m, "' is compressed; NTFS compression can reduce copy throughput for large media files");
        assert(m@ =~= compressed_text(d));
        warnings.push(warning(PreflightWarningCode::DestinationCompressed, m));
    }
    assert(warning_list(warnings@) =~= part1);
    if flags.is_reparse_point {
        let mut m = owned("destination '");
        push_str(&mut m, dest);
        push_str(&mut m, "' is a reparse point; verify target volume and available space before continuing");
        assert(m@ =~= reparse_text(d));
        warnings.push(warning(PreflightWarningCode::DestinationReparsePoint, m));
    }
    assert(warning_list(warnings@) =~= part1 + part2);
    let windows = is_windows_build() || destination_looks_windows_style(dest);
    match space {
        Some(s) => {
            if windows && suspicious_space_divergence(s) {
                let delta = s.volume_free_bytes - s.available_bytes;
                let mut m = owned("destination '");
                push_str(&mut m, dest);
                push_str(&mut m, "' reports divergent free-space metrics: available_to_caller=");
                push_decimal_str(&mut m, s.available_bytes);
                push_str(&mut m, " bytes, volume_free=");
                push_decimal_str(&mut m, s.volume_free_bytes);
                push_str(&mut m, " bytes, delta=");
                push_decimal_str(&mut m, delta);
                push_str(&mut m, " bytes; caravan capacity checks use available_to_caller");
                assert(m@ =~= divergence_text(d, s));
                warnings.push(warning(PreflightWarningCode::SpaceAccountingDivergence, m));
            }
        },
        None => {},
    }
    assert(warning_list(warnings@) =~= part1 + part2 + part3);
    let paths = all_planned_paths(batches);
    let pairs = case_collision_pairs(&paths);
    let dest_len = dest.as_bytes().len();
    let separator: usize = if ends_with_str(dest, "\\") || ends_with_str(dest, "/") { 0 } else { 1 };
    let longest = longest_estimate(&paths, dest_len, separator);
    assert(longest == longest_spec);
    assert(seen_view(pairs@) == pairs_spec);
    if pairs.len() > 0 {
        let n: usize = if pairs.len() < 3 { pairs.len() } else { 3 };
        let samples = pair_strings(&pairs, n);
        let joined = join_strings(&samples, ", ");
        let mut m = owned("planned paths contain ");
        push_decimal_str(&mut m, pairs.len() as u64);
        push_str(&mut m, " case-collision pair(s) on case-insensitive filesystems; samples: ");
        push_str(&mut m, joined.as_str());
        assert(m@ =~= case_collision_text(pairs_spec));
        warnings.push(warning(PreflightWarningCode::CaseCollisionRisk, m));
    }
    assert(warning_list(warnings@) =~= part1 + part2 + part3 + part4);
    if windows && !destination_uses_extended_windows_prefix(dest) && longest >= 240 {
        let mut m = owned("longest estimated destination path is ");
        push_decimal_str(&mut m, longest as u64);
        push_str(&mut m, " chars; this is near legacy Windows path limits");
        assert(m@ =~= path_length_text(longest_spec));
        warnings.push(warning(PreflightWarningCode::PathLengthPressure, m));
    }
    assert(warning_list(warnings@) =~= part1 + part2 + part3 + part4 + part5);
    PreflightReport {
        warnings,
        max_estimated_destination_path_len: longest,
        case_collision_count: pairs.len(),
    }
}

/// Runs the staging checks (only in staging mode): asks the probe for the destination's flags
/// and, for a Windows-style destination, its free-space figures; a probe error is returned.
pub fn analyze_staging_preflight_with_probe<P: DestinationProbe + ?Sized>(
    config: &TransferConfig,
    snapshot: &PlanningSnapshot,
    probe: &P,
) -> (r: Result<PreflightReport, CaravanError>)
    ensures
        config.mode != Mode::Staging ==> r is Ok && is_empty_report(r->Ok_0),
        config.mode == Mode::Staging && r is Ok ==> exists|flags: DestinationFlags, space: Option<DestinationSpaceSnapshot>|
            probe_gave_staging(probe, config.dest@, flags, space) && #[trigger] is_staging_report(
                r->Ok_0,
                config.dest@,
                snapshot.batches@,
                flags,
                space,
            ),
{
    if config.mode != Mode::Staging {
        return Ok(empty_report());
    }
    let flags = match probe.destination_flags(config.dest.as_str()) {
        Ok(f) => f,
        Err(e) => {
            return Err(e);
        },
    };
    let windows = is_windows_build() || destination_looks_windows_style(config.dest.as_str());
    let space = if windows {
        match probe.destination_space(config.dest.as_str()) {
            Ok(s) => s,
            Err(e) => {
                return Err(e);
            },
        }
    } else {
        None
    };
    let report = staging_preflight_report(config.dest.as_str(), &snapshot.batches, flags, space);
    let r: Result<PreflightReport, CaravanError> = Ok(report);
    assert(probe_gave_staging(probe, config.dest@, flags, space));
    assert(is_staging_report(r->Ok_0, config.dest@, snapshot.batches@, flags, space));
    r
}

/// The flags are what `probe` reported for `dest`, and the space figures, when there are any,
/// too.
pub open spec fn probe_gave_staging<P: DestinationProbe + ?Sized>(
    probe: &P,
    dest: Seq<char>,
    flags: DestinationFlags,
    space: Option<DestinationSpaceSnapshot>,
) -> bool {
    &&& probe.reports_flags(dest, flags)
    &&& (space matches Some(s) ==> probe.reports_space(dest, s))
}

/// Whether a warning list holds an entry with this code.
pub open spec fn lists_code(wl: Seq<(PreflightWarningCode, Seq<char>)>, code: PreflightWarningCode) -> bool {
    exists|i: int| 0 <= i < wl.len() && #[trigger] wl[i].0 == code
}

proof fn lemma_staging_flag_codes(
    dest: Seq<char>,
    batches: Seq<Batch>,
    flags: DestinationFlags,
    space: Option<DestinationSpaceSnapshot>,
)
    ensures
        flags.is_compressed <==> lists_code(
            staging_warnings(dest, batches, flags, space),
            PreflightWarningCode::DestinationCompressed,
        ),
        flags.is_reparse_point <==> lists_code(
            staging_warnings(dest, batches, flags, space),
            PreflightWarningCode::DestinationReparsePoint,
        ),
        flags.is_compressed ==> staging_warnings(dest, batches, flags, space)[0] == (
            PreflightWarningCode::DestinationCompressed,
            compressed_text(dest),
        ),
{
    let wl = staging_warnings(dest, batches, flags, space);
    let windows = looks_windows_style(dest);
    let paths = planned_paths(batches);
    let pairs = case_scan(paths).1;
    let longest = max_estimate(paths, utf8_len(dest), separator_len(dest));
    let a: Seq<(PreflightWarningCode, Seq<char>)> = if flags.is_compressed {
        seq![(PreflightWarningCode::DestinationCompressed, compressed_text(dest))]
    } else {
        Seq::empty()
    };
    let b: Seq<(PreflightWarningCode, Seq<char>)> = if flags.is_reparse_point {
        seq![(PreflightWarningCode::DestinationReparsePoint, reparse_text(dest))]
    } else {
        Seq::empty()
    };
    let c: Seq<(PreflightWarningCode, Seq<char>)> = if windows && space is Some && space_diverges(space->0) {
        seq![(PreflightWarningCode::SpaceAccountingDivergence, divergence_text(dest, space->0))]
    } else {
        Seq::empty()
    };
    let d: Seq<(PreflightWarningCode, Seq<char>)> = if pairs.len() > 0 {
        seq![(PreflightWarningCode::CaseCollisionRisk, case_collision_text(pairs))]
    } else {
        Seq::empty()
    };
    let e: Seq<(PreflightWarningCode, Seq<char>)> = if windows && !has_prefix(dest, "\\\\?\\"@) && longest >= 240 {
        seq![(PreflightWarningCode::PathLengthPressure, path_length_text(longest))]
    } else {
        Seq::empty()
    };
    let rest = c + d + e;
    assert(wl =~= a + b + rest);
    assert forall|j: int| 0 <= j < rest.len() implies #[trigger] rest[j].0
        != PreflightWarningCode::DestinationCompressed && rest[j].0
        != PreflightWarningCode::DestinationReparsePoint by {
        if j < c.len() {
            assert(rest[j] == c[j]);
        } else if j < c.len() + d.len() {
            assert(rest[j] == d[j - c.len()]);
        } else {
            assert(rest[j] == e[j - c.len() - d.len()]);
        }
    }
    let ab = a.len() + b.len();
    assert forall|i: int| ab <= i < wl.len() implies #[trigger] wl[i].0
        != PreflightWarningCode::DestinationCompressed && wl[i].0
        != PreflightWarningCode::DestinationReparsePoint by {
        assert(wl[i] == rest[i - ab]);
    }
    if flags.is_compressed {
        assert(wl[0] == a[0]);
        assert(wl[0].0 == PreflightWarningCode::DestinationCompressed);
        assert(lists_code(wl, PreflightWarningCode::DestinationCompressed));
    } else {
        assert forall|i: int| 0 <= i < wl.len() implies #[trigger] wl[i].0
            != PreflightWarningCode::DestinationCompressed by {
            if i < ab {
                assert(wl[i] == b[i]);
            }
        }
        assert(!lists_code(wl, PreflightWarningCode::DestinationCompressed));
    }
    if flags.is_reparse_point {
        assert(wl[a.len() as int] == b[0]);
        assert(wl[a.len() as int].0 == PreflightWarningCode::DestinationReparsePoint);
        assert(lists_code(wl, PreflightWarningCode::DestinationReparsePoint));
    } else {
        assert forall|i: int| 0 <= i < wl.len() implies #[trigger] wl[i].0
            != PreflightWarningCode::DestinationReparsePoint by {
            if i < ab {
                assert(wl[i] == a[i]);
            }
        }
        assert(!lists_code(wl, PreflightWarningCode::DestinationReparsePoint));
    }
}

/// Whether `ws` holds a warning with this code.
pub open spec fn has_warning_code(ws: Seq<PreflightWarning>, code: PreflightWarningCode) -> bool {
    exists|i: int| 0 <= i < ws.len() && #[trigger] ws[i].code == code
}

/// Law: a staging report built from what a destination probe answered warns of compression
/// exactly when the probe reported the destination compressed, and of a reparse point exactly
/// when it reported one; the compression warning comes first and names the destination.
pub proof fn lemma_staging_warnings_follow_probe_flags<P: DestinationProbe + ?Sized>(
    probe: &P,
    dest: Seq<char>,
    batches: Seq<Batch>,
    report: PreflightReport,
)
    requires
        exists|flags: DestinationFlags, space: Option<DestinationSpaceSnapshot>|
            probe_gave_staging(probe, dest, flags, space) && #[trigger] is_staging_report(
                report,
                dest,
                batches,
                flags,
                space,
            ),
    ensures
        exists|flags: DestinationFlags|
            #![trigger probe.reports_flags(dest, flags)]
            {
                &&& probe.reports_flags(dest, flags)
                &&& flags.is_compressed <==> has_warning_code(
                    report.warnings@,
                    PreflightWarningCode::DestinationCompressed,
                )
                &&& flags.is_reparse_point <==> has_warning_code(
                    report.warnings@,
                    PreflightWarningCode::DestinationReparsePoint,
                )
                &&& flags.is_compressed ==> report.warnings@[0].code
                    == PreflightWarningCode::DestinationCompressed && report.warnings@[0].message@
                    == "destination '"@ + dest
                    + "' is compressed; NTFS compression can reduce copy throughput for large media files"@
            },
{
    let (flags, space) = choose|flags: DestinationFlags, space: Option<DestinationSpaceSnapshot>|
        probe_gave_staging(probe, dest, flags, space) && #[trigger] is_staging_report(
            report,
            dest,
            batches,
            flags,
            space,
        );
    let ws = report.warnings@;
    let wl = warning_list(ws);
    assert(wl.len() == ws.len());
    assert(forall|k: int| 0 <= k < ws.len() ==> #[trigger] wl[k] == (ws[k].code, ws[k].message@));
    lemma_staging_flag_codes(dest, batches, flags, space);
    if has_warning_code(ws, PreflightWarningCode::DestinationCompressed) {
        let i = choose|i: int| 0 <= i < ws.len() && #[trigger] ws[i].code == PreflightWarningCode::DestinationCompressed;
        assert(wl[i].0 == PreflightWarningCode::DestinationCompressed);
    }
    if flags.is_compressed {
        let i = choose|i: int| 0 <= i < wl.len() && #[trigger] wl[i].0 == PreflightWarningCode::DestinationCompressed;
        assert(ws[i].code == PreflightWarningCode::DestinationCompressed);
        assert(wl[0] == (ws[0].code, ws[0].message@));
    }
    if has_warning_code(ws, PreflightWarningCode::DestinationReparsePoint) {
        let i = choose|i: int| 0 <= i < ws.len() && #[trigger] ws[i].code == PreflightWarningCode::DestinationReparsePoint;
        assert(wl[i].0 == PreflightWarningCode::DestinationReparsePoint);
    }
    if flags.is_reparse_point {
        let i = choose|i: int| 0 <= i < wl.len() && #[trigger] wl[i].0 == PreflightWarningCode::DestinationReparsePoint;
        assert(ws[i].code == PreflightWarningCode::DestinationReparsePoint);
    }
    assert(probe.reports_flags(dest, flags));
}

proof fn lemma_lists_code_concat(x: Seq<(PreflightWarningCode, Seq<char>)>, y: Seq<(PreflightWarningCode, Seq<char>)>)
    ensures
        forall|code: PreflightWarningCode|
            #[trigger] lists_code(x + y, code) <==> lists_code(x, code) || lists_code(y, code),
{
    assert forall|code: PreflightWarningCode|
        #[trigger] lists_code(x + y, code) <==> lists_code(x, code) || lists_code(y, code) by {
        if lists_code(x + y, code) {
            let i = choose|i: int| 0 <= i < (x + y).len() && #[trigger] (x + y)[i].0 == code;
            if i < x.len() {
                assert(x[i] == (x + y)[i]);
            } else {
                assert(y[i - x.len()] == (x + y)[i]);
            }
        }
        if lists_code(x, code) {
            let i = choose|i: int| 0 <= i < x.len() && #[trigger] x[i].0 == code;
            assert((x + y)[i] == x[i]);
        }
        if lists_code(y, code) {
            let i = choose|i: int| 0 <= i < y.len() && #[trigger] y[i].0 == code;
            assert((x + y)[x.len() + i] == y[i]);
        }
    }
}

/// A warning list of one entry when `b` holds, else empty.
spec fn opt_part(b: bool, c: PreflightWarningCode, m: Seq<char>) -> Seq<(PreflightWarningCode, Seq<char>)> {
    if b {
        seq![(c, m)]
    } else {
        Seq::empty()
    }
}

proof fn lemma_lists_code_part(b: bool, c: PreflightWarningCode, m: Seq<char>)
    ensures
        forall|code: PreflightWarningCode| #[trigger] lists_code(opt_part(b, c, m), code) <==> b && c == code,
{
    let part = opt_part(b, c, m);
    assert forall|code: PreflightWarningCode| #[trigger] lists_code(part, code) <==> b && c == code by {
        if b && c == code {
            assert(part[0].0 == code);
        }
    }
}

proof fn lemma_has_code_iff_lists(ws: Seq<PreflightWarning>)
    ensures
        forall|code: PreflightWarningCode|
            #[trigger] has_warning_code(ws, code) <==> lists_code(warning_list(ws), code),
{
    let wl = warning_list(ws);
    assert(wl.len() == ws.len());
    assert(forall|k: int| 0 <= k < ws.len() ==> #[trigger] wl[k] == (ws[k].code, ws[k].message@));
    assert forall|code: PreflightWarningCode|
        #[trigger] has_warning_code(ws, code) <==> lists_code(wl, code) by {
        if has_warning_code(ws, code) {
            let i = choose|i: int| 0 <= i < ws.len() && #[trigger] ws[i].code == code;
            assert(wl[i].0 == code);
        }
        if lists_code(wl, code) {
            let i = choose|i: int| 0 <= i < wl.len() && #[trigger] wl[i].0 == code;
            assert(ws[i].code == code);
        }
    }
}

/// Law: what each staging warning is raised for. Compression and a reparse point come from
/// the destination's flags; case collisions whenever a colliding pair was counted; divergent
/// free-space figures and path-length pressure only for a Windows-style destination (a drive
/// path such as `C:\` or a `\\` share): the former when the volume's free space exceeds the
/// caller's by at least 8 GiB and by more than a quarter, the latter when the longest estimated
/// path reaches 240 characters and the destination does not use the `\\?\` prefix.
pub proof fn lemma_staging_warning_conditions(
    dest: Seq<char>,
    batches: Seq<Batch>,
    flags: DestinationFlags,
    space: Option<DestinationSpaceSnapshot>,
    report: PreflightReport,
)
    requires
        is_staging_report(report, dest, batches, flags, space),
    ensures
        has_warning_code(report.warnings@, PreflightWarningCode::DestinationCompressed) <==> flags.is_compressed,
        has_warning_code(report.warnings@, PreflightWarningCode::DestinationReparsePoint)
            <==> flags.is_reparse_point,
        has_warning_code(report.warnings@, PreflightWarningCode::CaseCollisionRisk)
            <==> report.case_collision_count > 0,
        has_warning_code(report.warnings@, PreflightWarningCode::SpaceAccountingDivergence) <==> {
            &&& has_infix(dest, ":\\"@) || has_prefix(dest, "\\\\"@)
            &&& space matches Some(s) && s.volume_free_bytes > s.available_bytes && s.volume_free_bytes
                - s.available_bytes >= 8589934592 && sat_mul(s.available_bytes, 5) < sat_mul(
                s.volume_free_bytes,
                4,
            )
        },
        has_warning_code(report.warnings@, PreflightWarningCode::PathLengthPressure) <==> {
            &&& has_infix(dest, ":\\"@) || has_prefix(dest, "\\\\"@)
            &&& !has_prefix(dest, "\\\\?\\"@)
            &&& report.max_estimated_destination_path_len >= 240
        },
{
    let windows = looks_windows_style(dest);
    let paths = planned_paths(batches);
    let pairs = case_scan(paths).1;
    let longest = max_estimate(paths, utf8_len(dest), separator_len(dest));
    let dest_c = PreflightWarningCode::DestinationCompressed;
    let dest_r = PreflightWarningCode::DestinationReparsePoint;
    let div = PreflightWarningCode::SpaceAccountingDivergence;
    let coll = PreflightWarningCode::CaseCollisionRisk;
    let plen = PreflightWarningCode::PathLengthPressure;
    let dv = windows && space is Some && space_diverges(space->0);
    let pl = windows && !has_prefix(dest, "\\\\?\\"@) && longest >= 240;
    let a = opt_part(flags.is_compressed, dest_c, compressed_text(dest));
    let b = opt_part(flags.is_reparse_point, dest_r, reparse_text(dest));
    let c = opt_part(dv, div, divergence_text(dest, space->0));
    let d = opt_part(pairs.len() > 0, coll, case_collision_text(pairs));
    let e = opt_part(pl, plen, path_length_text(longest));
    lemma_lists_code_part(flags.is_compressed, dest_c, compressed_text(dest));
    lemma_lists_code_part(flags.is_reparse_point, dest_r, reparse_text(dest));
    lemma_lists_code_part(dv, div, divergence_text(dest, space->0));
    lemma_lists_code_part(pairs.len() > 0, coll, case_collision_text(pairs));
    lemma_lists_code_part(pl, plen, path_length_text(longest));
    lemma_lists_code_concat(a, b);
    lemma_lists_code_concat(a + b, c);
    lemma_lists_code_concat(a + b + c, d);
    lemma_lists_code_concat(a + b + c + d, e);
    assert(staging_warnings(dest, batches, flags, space) == a + b + c + d + e);
    lemma_has_code_iff_lists(report.warnings@);
    assert(lists_code(a + b + c + d + e, dest_c) == flags.is_compressed);
    assert(lists_code(a + b + c + d + e, dest_r) == flags.is_reparse_point);
    assert(lists_code(a + b + c + d + e, div) == dv);
    assert(lists_code(a + b + c + d + e, coll) == (pairs.len() > 0));
    assert(lists_code(a + b + c + d + e, plen) == pl);
}

/// The filesystem types accepted as an NTFS-like staging source.
pub open spec fn is_ntfs_like(fs: Seq<char>) -> bool {
    let l = ascii_lowercase(fs);
    l == "ntfs"@ || l == "ntfs3"@ || l == "fuseblk"@ || l == "fuse.ntfs-3g"@ || l == "ntfs-3g"@
}

fn is_ntfs_like_filesystem(filesystem_type: &str) -> (r: bool)
    ensures
        r == is_ntfs_like(filesystem_type@),
{
    let lower = string_from_chars(&ascii_lowercase_chars(&chars_of(filesystem_type)));
    str_eq(lower.as_str(), "ntfs") || str_eq(lower.as_str(), "ntfs3") || str_eq(lower.as_str(), "fuseblk")
        || str_eq(lower.as_str(), "fuse.ntfs-3g") || str_eq(lower.as_str(), "ntfs-3g")
}

fn is_btrfs(filesystem_type: &str) -> (r: bool)
    ensures
        r == (ascii_lowercase(filesystem_type@) == "btrfs"@),
{
    let lower = string_from_chars(&ascii_lowercase_chars(&chars_of(filesystem_type)));
    str_eq(lower.as_str(), "btrfs")
}

pub open spec fn source_not_ntfs_text(source: Seq<char>, fs: Seq<char>) -> Seq<char> {
    "source '"@ + source + "' appears to be '"@ + fs
        + "' (expected NTFS-like: ntfs, ntfs3, fuseblk); verify staging mount before migration"@
}

pub open spec fn source_unknown_text(source: Seq<char>) -> Seq<char> {
    "could not determine source filesystem type for '"@ + source + "'; expected NTFS-like staging source"@
}

pub open spec fn dest_not_btrfs_text(dest: Seq<char>, fs: Seq<char>) -> Seq<char> {
    "destination '"@ + dest + "' appears to be '"@ + fs + "' (expected btrfs) for migrate mode safety features"@
}

pub open spec fn dest_unknown_text(dest: Seq<char>) -> Seq<char> {
    "could not determine destination filesystem type for '"@ + dest + "'; expected btrfs destination"@
}

/// The warning list of the migrate checks, given the filesystem types of source and destination.
pub open spec fn migrate_warnings(
    source: Seq<char>,
    dest: Seq<char>,
    source_fs: Option<Seq<char>>,
    dest_fs: Option<Seq<char>>,
) -> Seq<(PreflightWarningCode, Seq<char>)> {
    (match source_fs {
        Some(fs) => if is_ntfs_like(fs) {
            Seq::empty()
        } else {
            seq![(PreflightWarningCode::SourceFilesystemNotNtfsLike, source_not_ntfs_text(source, fs))]
        },
        None => seq![(PreflightWarningCode::SourceFilesystemUnknown, source_unknown_text(source))],
    }) + (match dest_fs {
        Some(fs) => if ascii_lowercase(fs) == "btrfs"@ {
            Seq::empty()
        } else {
            seq![(PreflightWarningCode::DestinationFilesystemNotBtrfs, dest_not_btrfs_text(dest, fs))]
        },
        None => seq![(PreflightWarningCode::DestinationFilesystemUnknown, dest_unknown_text(dest))],
    })
}

/// The view of an optional text.
pub open spec fn opt_view(o: Option<String>) -> Option<Seq<char>> {
    match o {
        Some(s) => Some(s@),
        None => None,
    }
}

/// `r` is the migrate report for these paths and filesystem types.
pub open spec fn is_migrate_report(
    r: PreflightReport,
    source: Seq<char>,
    dest: Seq<char>,
    source_fs: Option<Seq<char>>,
    dest_fs: Option<Seq<char>>,
) -> bool {
    &&& warning_list(r.warnings@) == migrate_warnings(source, dest, source_fs, dest_fs)
    &&& r.max_estimated_destination_path_len == 0
    &&& r.case_collision_count == 0
}

/// The migrate report, given the filesystem types that the probe reported for the source
/// and the destination.
pub fn migrate_preflight_report(
    source: &str,
    dest: &str,
    source_fs: Option<String>,
    dest_fs: Option<String>,
) -> (r: PreflightReport)
    ensures
        is_migrate_report(r, source@, dest@, opt_view(source_fs), opt_view(dest_fs)),
{
    let mut warnings: Vec<PreflightWarning> = Vec::new();
    match source_fs {
        Some(fs) => {
            if !is_ntfs_like_filesystem(fs.as_str()) {
                let mut m = owned("source '");
                push_str(&mut m, source);
                push_str(&mut m, "' appears to be '");
                push_str(&mut m, fs.as_str());
                push_str(&mut m, "' (expected NTFS-like: ntfs, ntfs3, fuseblk); verify staging mount before migration");
                assert(m@ =~= source_not_ntfs_text(source@, fs@));
                warnings.push(warning(PreflightWarningCode::SourceFilesystemNotNtfsLike, m));
            }
        },
        None => {
            let mut m = owned("could not determine source filesystem type for '");
            push_str(&mut m, source);
            push_str(&mut m, "'; expected NTFS-like staging source");
            assert(m@ =~= source_unknown_text(source@));
            warnings.push(warning(PreflightWarningCode::SourceFilesystemUnknown, m));
        },
    }
    let ghost first = warning_list(warnings@);
    match dest_fs {
        Some(fs) => {
            if !is_btrfs(fs.as_str()) {
                let mut m = owned("destination '");
                push_str(&mut m, dest);
                push_str(&mut m, "' appears to be '");
                push_str(&mut m, fs.as_str());
                push_str(&mut m, "' (expected btrfs) for migrate mode safety features");
                assert(m@ =~= dest_not_btrfs_text(dest@, fs@));
                warnings.push(warning(PreflightWarningCode::DestinationFilesystemNotBtrfs, m));
            }
        },
        None => {
            let mut m = owned("could not determine destination filesystem type for '");
            push_str(&mut m, dest);
            push_str(&mut m, "'; expected btrfs destination");
            assert(m@ =~= dest_unknown_text(dest@));
            warnings.push(warning(PreflightWarningCode::DestinationFilesystemUnknown, m));
        },
    }
    assert(warning_list(warnings@) =~= migrate_warnings(source@, dest@, opt_view(source_fs), opt_view(dest_fs)));
    PreflightReport { warnings, max_estimated_destination_path_len: 0, case_collision_count: 0 }
}

/// Runs the migrate checks (only in migrate mode): asks the probe for the filesystem types of
/// the source and of the destination; a probe error is returned.
pub fn analyze_migrate_preflight_with_probe<P: FilesystemTypeProbe + ?Sized>(config: &TransferConfig, probe: &P) -> (r: Result<
    PreflightReport,
    CaravanError,
>)
    ensures
        config.mode != Mode::Migrate ==> r is Ok && is_empty_report(r->Ok_0),
        config.mode == Mode::Migrate && r is Ok ==> exists|src_fs: Option<Seq<char>>, dst_fs: Option<Seq<char>>|
            probe_gave_filesystems(probe, config.source@, config.dest@, src_fs, dst_fs) && #[trigger] is_migrate_report(
                r->Ok_0,
                config.source@,
                config.dest@,
                src_fs,
                dst_fs,
            ),
        r is Ok ==> r->Ok_0.case_collision_count == 0,
{
    if config.mode != Mode::Migrate {
        return Ok(empty_report());
    }
    let source_fs = match probe.filesystem_type(config.source.as_str()) {
        Ok(v) => v,
        Err(e) => {
            return Err(e);
        },
    };
    let dest_fs = match probe.filesystem_type(config.dest.as_str()) {
        Ok(v) => v,
        Err(e) => {
            return Err(e);
        },
    };
    let ghost sv = opt_view(source_fs);
    let ghost dv = opt_view(dest_fs);
    let report = migrate_preflight_report(config.source.as_str(), config.dest.as_str(), source_fs, dest_fs);
    let r: Result<PreflightReport, CaravanError> = Ok(report);
    assert(probe_gave_filesystems(probe, config.source@, config.dest@, sv, dv));
    assert(is_migrate_report(r->Ok_0, config.source@, config.dest@, sv, dv));
    r
}

/// Law: any other source filesystem type is refused: the migrate report opens with a
/// warning that names the source and the type it appears to be.
pub proof fn lemma_other_source_filesystem_warned(
    source: Seq<char>,
    dest: Seq<char>,
    fs: Seq<char>,
    dest_fs: Option<Seq<char>>,
    report: PreflightReport,
)
    requires
        is_migrate_report(report, source, dest, Some(fs), dest_fs),
        ascii_lowercase(fs) != "ntfs"@,
        ascii_lowercase(fs) != "ntfs3"@,
        ascii_lowercase(fs) != "fuseblk"@,
        ascii_lowercase(fs) != "fuse.ntfs-3g"@,
        ascii_lowercase(fs) != "ntfs-3g"@,
    ensures
        report.warnings@.len() > 0,
        report.warnings@[0].code == PreflightWarningCode::SourceFilesystemNotNtfsLike,
        report.warnings@[0].message@ == "source '"@ + source + "' appears to be '"@ + fs
            + "' (expected NTFS-like: ntfs, ntfs3, fuseblk); verify staging mount before migration"@,
{
    let ws = report.warnings@;
    let wl = warning_list(ws);
    assert(wl.len() == ws.len());
    assert(!is_ntfs_like(fs));
    let tail = migrate_warnings(source, dest, Some(fs), dest_fs);
    assert(tail[0] == (PreflightWarningCode::SourceFilesystemNotNtfsLike, source_not_ntfs_text(source, fs)));
    assert(wl[0] == (ws[0].code, ws[0].message@));
}

/// The filesystem types are what `probe` reported for the source and for the destination.
pub open spec fn probe_gave_filesystems<P: FilesystemTypeProbe + ?Sized>(
    probe: &P,
    source: Seq<char>,
    dest: Seq<char>,
    source_fs: Option<Seq<char>>,
    dest_fs: Option<Seq<char>>,
) -> bool {
    &&& probe.reports_filesystem(source, source_fs)
    &&& probe.reports_filesystem(dest, dest_fs)
}

/// Law: the NTFS-like sources are `ntfs`, `ntfs3`, `fuseblk`, `fuse.ntfs-3g` and `ntfs-3g`, in
/// any ASCII case: for such a source the migrate report holds no source warning, and when the
/// destination is btrfs (in any ASCII case) it holds no warning at all and nothing blocks the
/// migration.
pub proof fn lemma_ntfs_like_source_passes(
    source: Seq<char>,
    dest: Seq<char>,
    fs: Seq<char>,
    dest_fs: Option<Seq<char>>,
    report: PreflightReport,
)
    requires
        is_migrate_report(report, source, dest, Some(fs), dest_fs),
        ascii_lowercase(fs) == "ntfs"@ || ascii_lowercase(fs) == "ntfs3"@ || ascii_lowercase(fs) == "fuseblk"@
            || ascii_lowercase(fs) == "fuse.ntfs-3g"@ || ascii_lowercase(fs) == "ntfs-3g"@,
    ensures
        forall|i: int|
            0 <= i < report.warnings@.len() ==> #[trigger] report.warnings@[i].code
                != PreflightWarningCode::SourceFilesystemNotNtfsLike && report.warnings@[i].code
                != PreflightWarningCode::SourceFilesystemUnknown,
        dest_fs matches Some(d) && ascii_lowercase(d) == "btrfs"@ ==> report.warnings@.len() == 0
            && blocking_codes(report.warnings@).len() == 0,
{
    let ws = report.warnings@;
    let wl = warning_list(ws);
    assert(wl.len() == ws.len());
    assert(is_ntfs_like(fs));
    let tail = migrate_warnings(source, dest, Some(fs), dest_fs);
    assert forall|i: int| 0 <= i < ws.len() implies #[trigger] ws[i].code
        != PreflightWarningCode::SourceFilesystemNotNtfsLike && ws[i].code
        != PreflightWarningCode::SourceFilesystemUnknown by {
        assert(wl[i].0 == ws[i].code);
        assert(wl[i] == tail[i]);
    }
    if dest_fs matches Some(d) && ascii_lowercase(d) == "btrfs"@ {
        assert(tail.len() == 0);
        assert(ws =~= Seq::<PreflightWarning>::empty());
    }
}

/// `r` merges `left` and `right`: the warnings one after the other, the longer estimate,
/// the sum of the collision counts.
pub open spec fn is_merge(r: PreflightReport, left: PreflightReport, right: PreflightReport) -> bool {
    &&& warning_list(r.warnings@) == warning_list(left.warnings@) + warning_list(right.warnings@)
    &&& r.max_estimated_destination_path_len == if left.max_estimated_destination_path_len
        >= right.max_estimated_destination_path_len {
        left.max_estimated_destination_path_len
    } else {
        right.max_estimated_destination_path_len
    }
    &&& r.case_collision_count == left.case_collision_count + right.case_collision_count
}

fn merge_preflight_reports(left: PreflightReport, right: PreflightReport) -> (r: PreflightReport)
    requires
        left.case_collision_count + right.case_collision_count <= usize::MAX,
    ensures
        is_merge(r, left, right),
{
    let ghost lw = left.warnings@;
    let ghost rw = right.warnings@;
    let mut warnings = left.warnings;
    let mut extra = right.warnings;
    warnings.append(&mut extra);
    assert(warning_list(warnings@) =~= warning_list(lw) + warning_list(rw));
    let longest = if left.max_estimated_destination_path_len >= right.max_estimated_destination_path_len {
        left.max_estimated_destination_path_len
    } else {
        right.max_estimated_destination_path_len
    };
    PreflightReport {
        warnings,
        max_estimated_destination_path_len: longest,
        case_collision_count: left.case_collision_count + right.case_collision_count,
    }
}

/// Runs the staging checks, then the migrate checks, and merges their reports.
pub fn analyze_transfer_preflight_with_probes(
    config: &TransferConfig,
    snapshot: &PlanningSnapshot,
    destination_probe: &dyn DestinationProbe,
    filesystem_probe: &dyn FilesystemTypeProbe,
) -> (r: Result<PreflightReport, CaravanError>)
    ensures
        r is Ok && config.mode == Mode::Staging ==> exists|flags: DestinationFlags, space: Option<DestinationSpaceSnapshot>|
            probe_gave_staging(destination_probe, config.dest@, flags, space) && #[trigger] is_staging_report(
                r->Ok_0,
                config.dest@,
                snapshot.batches@,
                flags,
                space,
            ),
        r is Ok && config.mode == Mode::Migrate ==> exists|src_fs: Option<Seq<char>>, dst_fs: Option<Seq<char>>|
            probe_gave_filesystems(filesystem_probe, config.source@, config.dest@, src_fs, dst_fs)
                && #[trigger] is_migrate_report(r->Ok_0, config.source@, config.dest@, src_fs, dst_fs),
{
    let staging = match analyze_staging_preflight_with_probe(config, snapshot, destination_probe) {
        Ok(s) => s,
        Err(e) => {
            return Err(e);
        },
    };
    let migrate = match analyze_migrate_preflight_with_probe(config, filesystem_probe) {
        Ok(m) => m,
        Err(e) => {
            return Err(e);
        },
    };
    let ghost s0 = staging;
    let ghost m0 = migrate;
    let merged = merge_preflight_reports(staging, migrate);
    let r: Result<PreflightReport, CaravanError> = Ok(merged);
    proof {
        if config.mode == Mode::Staging {
            let (flags, space) = choose|flags: DestinationFlags, space: Option<DestinationSpaceSnapshot>|
                probe_gave_staging(destination_probe, config.dest@, flags, space) && #[trigger] is_staging_report(
                    s0,
                    config.dest@,
                    snapshot.batches@,
                    flags,
                    space,
                );
            assert(warning_list(merged.warnings@) =~= warning_list(s0.warnings@));
            assert(is_staging_report(r->Ok_0, config.dest@, snapshot.batches@, flags, space));
        } else {
            let (src_fs, dst_fs) = choose|src_fs: Option<Seq<char>>, dst_fs: Option<Seq<char>>|
                probe_gave_filesystems(filesystem_probe, config.source@, config.dest@, src_fs, dst_fs)
                    && #[trigger] is_migrate_report(m0, config.source@, config.dest@, src_fs, dst_fs);
            assert(warning_list(merged.warnings@) =~= warning_list(m0.warnings@));
            assert(is_migrate_report(r->Ok_0, config.source@, config.dest@, src_fs, dst_fs));
        }
    }
    r
}

/// The codes that block a migration: an unknown or unexpected filesystem on either side.
pub open spec fn is_blocking(code: PreflightWarningCode) -> bool {
    code == PreflightWarningCode::SourceFilesystemNotNtfsLike || code
        == PreflightWarningCode::DestinationFilesystemNotBtrfs || code
        == PreflightWarningCode::SourceFilesystemUnknown || code
        == PreflightWarningCode::DestinationFilesystemUnknown
}

fn is_blocking_migrate_warning(code: PreflightWarningCode) -> (r: bool)
    ensures
        r == is_blocking(code),
{
    match code {
        PreflightWarningCode::SourceFilesystemNotNtfsLike => true,
        PreflightWarningCode::DestinationFilesystemNotBtrfs => true,
        PreflightWarningCode::SourceFilesystemUnknown => true,
        PreflightWarningCode::DestinationFilesystemUnknown => true,
        _ => false,
    }
}

/// The identifiers of the blocking warnings, in order.
pub open spec fn blocking_codes(ws: Seq<PreflightWarning>) -> Seq<Seq<char>>
    decreases ws.len(),
{
    if ws.len() == 0 {
        Seq::empty()
    } else if is_blocking(ws.last().code) {
        blocking_codes(ws.drop_last()).push(warning_code_text(ws.last().code))
    } else {
        blocking_codes(ws.drop_last())
    }
}

/// The message when the migration is blocked.
pub open spec fn policy_blocked_text(codes: Seq<Seq<char>>) -> Seq<char> {
    "migrate preflight blocked due to unsafe filesystem topology ("@ + join_texts(codes, ", "@)
        + "); verify source/destination mounts or re-run with --allow-unsafe-filesystems"@
}

/// Blocks a migration (unless unsafe filesystems are allowed) when any warning is blocking.
pub fn enforce_transfer_preflight_policy(config: &TransferConfig, report: &PreflightReport) -> (r: Result<
    (),
    CaravanError,
>)
    ensures
        config.mode != Mode::Migrate || config.allow_unsafe_filesystems || blocking_codes(report.warnings@).len() == 0
            ==> r is Ok,
        config.mode == Mode::Migrate && !config.allow_unsafe_filesystems && blocking_codes(report.warnings@).len() > 0
            ==> r is Err && is_invalid_args(r->Err_0, policy_blocked_text(blocking_codes(report.warnings@))),
{
    if config.mode != Mode::Migrate || config.allow_unsafe_filesystems {
        return Ok(());
    }
    let mut codes: Vec<String> = Vec::new();
    let mut i: usize = 0;
    while i < report.warnings.len()
        invariant
            i <= report.warnings@.len(),
            codes.deep_view() == blocking_codes(report.warnings@.take(i as int)),
        decreases report.warnings.len() - i,
    {
        assert(report.warnings@.take(i + 1 as int).drop_last() =~= report.warnings@.take(i as int));
        let code = report.warnings[i].code;
        if is_blocking_migrate_warning(code) {
            let ghost prev = codes.deep_view();
            codes.push(owned(code.as_str()));
            assert(codes.deep_view() =~= prev.push(warning_code_text(code)));
        }
        i = i + 1;
    }
    assert(report.warnings@.take(report.warnings@.len() as int) =~= report.warnings@);
    if codes.len() == 0 {
        return Ok(());
    }
    let joined = join_strings(&codes, ", ");
    let mut m = owned("migrate preflight blocked due to unsafe filesystem topology (");
    push_str(&mut m, joined.as_str());
    push_str(&mut m, "); verify source/destination mounts or re-run with --allow-unsafe-filesystems");
    Err(CaravanError::InvalidArguments(m))
}

/// A migration whose source filesystem is unknown or not NTFS-like, or whose destination is
/// unknown or not btrfs, is refused unless unsafe filesystems are allowed.
pub proof fn lemma_unsafe_migration_blocked(
    source: Seq<char>,
    dest: Seq<char>,
    source_fs: Option<Seq<char>>,
    dest_fs: Option<Seq<char>>,
    report: PreflightReport,
)
    requires
        is_migrate_report(report, source, dest, source_fs, dest_fs),
        source_fs is None || !is_ntfs_like(source_fs->0) || dest_fs is None || ascii_lowercase(dest_fs->0)
            != "btrfs"@,
    ensures
        blocking_codes(report.warnings@).len() > 0,
{
    let ws = report.warnings@;
    assert(warning_list(ws).len() == ws.len());
    assert(ws.len() > 0);
    assert forall|k: int| 0 <= k < ws.len() implies is_blocking(#[trigger] ws[k].code) by {
        assert(warning_list(ws)[k].0 == ws[k].code);
    }
    lemma_all_blocking(ws);
}

proof fn lemma_all_blocking(ws: Seq<PreflightWarning>)
    requires
        forall|k: int| 0 <= k < ws.len() ==> is_blocking(#[trigger] ws[k].code),
    ensures
        blocking_codes(ws).len() == ws.len(),
    decreases ws.len(),
{
    if ws.len() > 0 {
        assert forall|k: int| 0 <= k < ws.len() - 1 implies is_blocking(#[trigger] ws.drop_last()[k].code) by {
            assert(ws.drop_last()[k] == ws[k]);
        }
        lemma_all_blocking(ws.drop_last());
        assert(is_blocking(ws[ws.len() - 1].code));
    }
}

} // verus!
