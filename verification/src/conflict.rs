//! Naming conflicts found at the destination before a batch is copied.

use vstd::prelude::*;

use crate::models::batch::Batch;
use crate::models::file_entry::FileEntry;
use crate::paths::{
    compare_components, components, comps_order, comps_view, join, join_paths, lemma_comps_order_props,
    lemma_comps_order_trans, parent_components, path_components, Comp, PathComponent,
};
use crate::text::{chars_eq, chars_of};

verus! {

/// One entry of a destination directory listing: its name and what kind of entry it is.
#[derive(Debug, Clone, PartialEq, Eq)]
pub struct ListedEntry {
    pub name: String,
    pub is_file: bool,
    pub is_symlink: bool,
}

/// Report of naming conflicts detected for a batch.
#[derive(Debug, Clone, PartialEq, Eq)]
pub struct ConflictReport {
    /// Paths to files that already exist at the destination.
    pub existing_files: Vec<String>,
    /// Files where source and destination sizes differ:
    /// (destination path, source size, destination size).
    pub size_mismatches: Vec<(String, u64, u64)>,
    /// Total number of conflicts detected.
    pub total_conflicts: usize,
    /// Whether any conflicts were detected.
    pub has_conflicts: bool,
    /// Number of unique parent directories probed while detecting conflicts.
    pub scanned_parent_directories: usize,
}

impl ConflictReport {
    /// Creates a new empty conflict report.
    pub fn new() -> (r: Self)
        ensures
            r.existing_files@.len() == 0,
            r.size_mismatches@.len() == 0,
            r.total_conflicts == 0,
            !r.has_conflicts,
            r.scanned_parent_directories == 0,
    {
        ConflictReport {
            existing_files: Vec::new(),
            size_mismatches: Vec::new(),
            total_conflicts: 0,
            has_conflicts: false,
            scanned_parent_directories: 0,
        }
    }

    /// Records a file that already exists at the destination.
    pub fn add_existing_file(&mut self, path: String)
        requires
            old(self).total_conflicts < usize::MAX,
        ensures
            final(self).existing_files@ == old(self).existing_files@.push(path),
            final(self).size_mismatches@ == old(self).size_mismatches@,
            final(self).total_conflicts == old(self).total_conflicts + 1,
            final(self).has_conflicts,
            final(self).scanned_parent_directories == old(self).scanned_parent_directories,
    {
        self.existing_files.push(path);
        self.total_conflicts = self.total_conflicts + 1;
        self.has_conflicts = true;
    }

    /// Records a size difference for a file already counted as existing.
    pub fn add_size_mismatch(&mut self, path: String, source_size: u64, dest_size: u64)
        ensures
            final(self).size_mismatches@ == old(self).size_mismatches@.push((path, source_size, dest_size)),
            final(self).existing_files@ == old(self).existing_files@,
            final(self).total_conflicts == old(self).total_conflicts,
            final(self).has_conflicts == old(self).has_conflicts,
            final(self).scanned_parent_directories == old(self).scanned_parent_directories,
    {
        self.size_mismatches.push((path, source_size, dest_size));
    }
}

impl Default for ConflictReport {
    fn default() -> (r: Self)
        ensures
            r.existing_files@.len() == 0,
            r.size_mismatches@.len() == 0,
            r.total_conflicts == 0,
            !r.has_conflicts,
            r.scanned_parent_directories == 0,
    {
        ConflictReport::new()
    }
}


/// Where file `f` of a batch lands under the destination root `root`.
pub open spec fn dest_path(root: Seq<char>, f: FileEntry) -> Seq<char> {
    join(root, f.relative_path@)
}

/// The components of [`dest_path`].
pub open spec fn dest_comps(root: Seq<char>, f: FileEntry) -> Seq<Comp> {
    components(dest_path(root, f))
}

/// A path that ends in a file name (not in `..`, a root, or nothing).
pub open spec fn is_named(c: Seq<Comp>) -> bool {
    c.len() > 0 && c.last() is Normal
}

/// The directory that holds a named path.
pub open spec fn parent_key(c: Seq<Comp>) -> Seq<Comp> {
    c.drop_last()
}

/// The file name of a named path.
pub open spec fn leaf_name(c: Seq<Comp>) -> Seq<char> {
    c.last()->Normal_0
}

/// File `k` has a name, and no earlier named file lands in the same directory.
pub open spec fn first_of_parent(files: Seq<FileEntry>, root: Seq<char>, k: int) -> bool {
    &&& 0 <= k < files.len()
    &&& is_named(dest_comps(root, files[k]))
    &&& forall|j: int|
        0 <= j < k && is_named(dest_comps(root, #[trigger] files[j])) ==> parent_key(dest_comps(root, files[j]))
            != parent_key(dest_comps(root, files[k]))
}

/// `g` lists, for each destination directory that receives a named file, the first file
/// that lands there, in the order of the directories' paths.
pub open spec fn is_parent_grouping(files: Seq<FileEntry>, root: Seq<char>, g: Seq<usize>) -> bool {
    &&& forall|i: int| 0 <= i < g.len() ==> first_of_parent(files, root, #[trigger] g[i] as int)
    &&& forall|i: int, j: int|
        0 <= i < j < g.len() ==> comps_order(
            parent_key(dest_comps(root, files[#[trigger] g[i] as int])),
            parent_key(dest_comps(root, files[#[trigger] g[j] as int])),
        ) < 0
    &&& forall|k: int|
        0 <= k < files.len() && is_named(dest_comps(root, #[trigger] files[k])) ==> exists|i: int|
            0 <= i < g.len() && parent_key(dest_comps(root, files[#[trigger] g[i] as int]))
                == parent_key(dest_comps(root, files[k]))
}

/// The component sequences of a list of paths.
pub open spec fn key_views(keys: Seq<Vec<PathComponent>>) -> Seq<Seq<Comp>> {
    keys.map_values(|v: Vec<PathComponent>| comps_view(v@))
}

/// Each key comes strictly before the next in path order.
pub open spec fn strictly_sorted(keys: Seq<Seq<Comp>>) -> bool {
    forall|i: int, j: int| 0 <= i < j < keys.len() ==> comps_order(#[trigger] keys[i], #[trigger] keys[j]) < 0
}

fn dest_components(root: &str, f: &FileEntry) -> (r: Vec<PathComponent>)
    ensures
        comps_view(r@) == dest_comps(root@, *f),
{
    let p = join_paths(root, f.relative_path.as_str());
    path_components(&chars_of(p.as_str()))
}

fn named(c: &Vec<PathComponent>) -> (r: bool)
    ensures
        r == is_named(comps_view(c@)),
{
    if c.len() == 0 {
        false
    } else {
        proof {
            assert(comps_view(c@).last() == c@.last().view());
        }
        match &c[c.len() - 1] {
            PathComponent::Normal(_) => true,
            _ => false,
        }
    }
}

/// The first position whose key does not come before `key`.
fn lower_bound(keys: &Vec<Vec<PathComponent>>, key: &Vec<PathComponent>) -> (p: usize)
    requires
        strictly_sorted(key_views(keys@)),
    ensures
        p <= keys.len(),
        forall|i: int| 0 <= i < p ==> comps_order(#[trigger] key_views(keys@)[i], comps_view(key@)) < 0,
        forall|i: int| p <= i < keys.len() ==> comps_order(#[trigger] key_views(keys@)[i], comps_view(key@)) >= 0,
{
    let ghost kv = key_views(keys@);
    let ghost k = comps_view(key@);
    let mut lo: usize = 0;
    let mut hi: usize = keys.len();
    while lo < hi
        invariant
            lo <= hi <= keys.len(),
            kv == key_views(keys@),
            k == comps_view(key@),
            strictly_sorted(kv),
            forall|i: int| 0 <= i < lo ==> comps_order(#[trigger] kv[i], k) < 0,
            forall|i: int| hi <= i < keys.len() ==> comps_order(#[trigger] kv[i], k) >= 0,
        decreases hi - lo,
    {
        let mid = lo + (hi - lo) / 2;
        let c = compare_components(&keys[mid], key);
        assert(kv[mid as int] == comps_view(keys@[mid as int]@));
        if c < 0 {
            assert forall|i: int| 0 <= i <= mid implies comps_order(#[trigger] kv[i], k) < 0 by {
                if i < mid {
                    lemma_comps_order_trans(kv[i], kv[mid as int], k);
                }
            }
            lo = mid + 1;
        } else {
            assert forall|i: int| mid <= i < keys.len() implies comps_order(#[trigger] kv[i], k) >= 0 by {
                if i > mid && comps_order(kv[i], k) < 0 {
                    lemma_comps_order_trans(kv[mid as int], kv[i], k);
                }
            }
            hi = mid;
        }
    }
    lo
}

/// For each destination directory that receives a named file of `batch`, the position of the
/// first file that lands there, ordered by the directories' paths.
pub fn destination_parent_groups(batch: &Batch, dest_root: &str) -> (r: Vec<usize>)
    ensures
        is_parent_grouping(batch.files@, dest_root@, r@),
{
    let ghost files = batch.files@;
    let ghost root = dest_root@;
    let mut groups: Vec<usize> = Vec::new();
    let mut keys: Vec<Vec<PathComponent>> = Vec::new();
    let mut k: usize = 0;
    while k < batch.files.len()
        invariant
            files == batch.files@,
            root == dest_root@,
            k <= files.len(),
            groups@.len() == keys@.len(),
            strictly_sorted(key_views(keys@)),
            forall|i: int|
                0 <= i < groups@.len() ==> #[trigger] groups@[i] < k && first_of_parent(files, root, groups@[i] as int)
                    && key_views(keys@)[i] == parent_key(dest_comps(root, files[groups@[i] as int])),
            forall|j: int|
                0 <= j < k && is_named(dest_comps(root, #[trigger] files[j])) ==> exists|i: int|
                    0 <= i < groups@.len() && key_views(keys@)[i] == parent_key(dest_comps(root, files[j])),
        decreases files.len() - k,
    {
        let c = dest_components(dest_root, &batch.files[k]);
        if named(&c) {
            let pk = parent_components(&c);
            let p = lower_bound(&keys, &pk);
            let ghost kv = key_views(keys@);
            let ghost key = comps_view(pk@);
            assert(key == parent_key(dest_comps(root, files[k as int])));
            let found = p < keys.len() && compare_components(&keys[p], &pk) == 0;
            if found {
                proof {
                    assert(kv[p as int] == comps_view(keys@[p as int]@));
                    lemma_comps_order_props(kv[p as int], key);
                }
            } else {
                proof {
                    if p < keys.len() {
                        assert(kv[p as int] == comps_view(keys@[p as int]@));
                        lemma_comps_order_props(kv[p as int], key);
                    }
                    assert forall|i: int| 0 <= i < kv.len() implies #[trigger] kv[i] != key by {
                        lemma_comps_order_props(kv[i], key);
                        if i > p {
                            lemma_comps_order_props(kv[p as int], kv[i]);
                        }
                    }
                    assert forall|j: int|
                        0 <= j < k && is_named(dest_comps(root, #[trigger] files[j])) implies parent_key(
                        dest_comps(root, files[j]),
                    ) != key by {
                        let i = choose|i: int|
                            0 <= i < groups@.len() && key_views(keys@)[i] == parent_key(dest_comps(root, files[j]));
                        assert(kv[i] != key);
                    }
                    assert(first_of_parent(files, root, k as int));
                }
                let ghost old_keys = keys@;
                let ghost old_groups = groups@;
                keys.insert(p, pk);
                groups.insert(p, k);
                proof {
                    let nkv = key_views(keys@);
                    assert(nkv =~= kv.insert(p as int, key));
                    assert forall|i: int, j: int| 0 <= i < j < nkv.len() implies comps_order(
                        #[trigger] nkv[i],
                        #[trigger] nkv[j],
                    ) < 0 by {
                        if j < p {
                        } else if j == p {
                            assert(nkv[i] == kv[i]);
                        } else if i < p {
                            assert(nkv[j] == kv[j - 1]);
                            lemma_comps_order_props(kv[j - 1], key);
                            assert(kv[j - 1] != key);
                            lemma_comps_order_trans(kv[i], key, kv[j - 1]);
                        } else if i == p {
                            assert(nkv[j] == kv[j - 1]);
                            lemma_comps_order_props(kv[j - 1], key);
                            assert(kv[j - 1] != key);
                        } else {
                            assert(nkv[i] == kv[i - 1]);
                            assert(nkv[j] == kv[j - 1]);
                        }
                    }
                    assert forall|i: int| 0 <= i < groups@.len() implies #[trigger] groups@[i] < k + 1
                        && first_of_parent(files, root, groups@[i] as int) && key_views(keys@)[i] == parent_key(
                        dest_comps(root, files[groups@[i] as int]),
                    ) by {
                        if i < p {
                            assert(groups@[i] == old_groups[i]);
                        } else if i > p {
                            assert(groups@[i] == old_groups[i - 1]);
                        }
                    }
                    assert forall|j: int|
                        0 <= j < k + 1 && is_named(dest_comps(root, #[trigger] files[j])) implies exists|i: int|
                        0 <= i < groups@.len() && key_views(keys@)[i] == parent_key(dest_comps(root, files[j])) by {
                        if j == k {
                            assert(key_views(keys@)[p as int] == key);
                        } else {
                            let i = choose|i: int|
                                0 <= i < old_groups.len() && kv[i] == parent_key(dest_comps(root, files[j]));
                            if i < p {
                                assert(key_views(keys@)[i] == kv[i]);
                            } else {
                                assert(key_views(keys@)[i + 1] == kv[i]);
                            }
                        }
                    }
                }
            }
        }
        k = k + 1;
    }
    proof {
        let kv = key_views(keys@);
        assert forall|i: int, j: int| 0 <= i < j < groups@.len() implies comps_order(
            parent_key(dest_comps(root, files[#[trigger] groups@[i] as int])),
            parent_key(dest_comps(root, files[#[trigger] groups@[j] as int])),
        ) < 0 by {
            assert(kv[i] == parent_key(dest_comps(root, files[groups@[i] as int])));
            assert(kv[j] == parent_key(dest_comps(root, files[groups@[j] as int])));
        }
        assert forall|kk: int| 0 <= kk < files.len() && is_named(dest_comps(root, #[trigger] files[kk])) implies exists|i: int|
            0 <= i < groups@.len() && parent_key(dest_comps(root, files[#[trigger] groups@[i] as int])) == parent_key(
                dest_comps(root, files[kk]),
            ) by {
            let i = choose|i: int| 0 <= i < groups@.len() && kv[i] == parent_key(dest_comps(root, files[kk]));
            assert(kv[i] == parent_key(dest_comps(root, files[groups@[i] as int])));
        }
    }
    groups
}


/// The last entry of a listing called `name` (the one a map keyed by name keeps).
pub open spec fn lookup(entries: Seq<ListedEntry>, name: Seq<char>) -> Option<ListedEntry>
    decreases entries.len(),
{
    if entries.len() == 0 {
        None
    } else if entries.last().name@ == name {
        Some(entries.last())
    } else {
        lookup(entries.drop_last(), name)
    }
}

/// File `k` lands in directory `key` under a name that the directory's listing holds.
pub open spec fn is_hit(files: Seq<FileEntry>, root: Seq<char>, key: Seq<Comp>, entries: Seq<ListedEntry>, k: int) -> bool {
    let c = dest_comps(root, files[k]);
    &&& is_named(c)
    &&& parent_key(c) == key
    &&& lookup(entries, leaf_name(c)) is Some
}

/// A hit on a regular file (not a link) whose size at the destination, `sizes[k]`, is known
/// and differs from the planned size.
pub open spec fn is_size_mismatch(
    files: Seq<FileEntry>,
    root: Seq<char>,
    key: Seq<Comp>,
    entries: Seq<ListedEntry>,
    sizes: Seq<Option<u64>>,
    k: int,
) -> bool {
    let e = lookup(entries, leaf_name(dest_comps(root, files[k])))->0;
    &&& is_hit(files, root, key, entries, k)
    &&& e.is_file
    &&& !e.is_symlink
    &&& sizes[k] is Some
    &&& sizes[k]->0 != files[k].size_bytes
}

/// The destination paths of the hits among the first `n` files, in batch order.
pub open spec fn dir_hits(files: Seq<FileEntry>, root: Seq<char>, key: Seq<Comp>, entries: Seq<ListedEntry>, n: int) -> Seq<
    Seq<char>,
>
    decreases n,
{
    if n <= 0 {
        Seq::empty()
    } else {
        let prev = dir_hits(files, root, key, entries, n - 1);
        if is_hit(files, root, key, entries, n - 1) {
            prev.push(dest_path(root, files[n - 1]))
        } else {
            prev
        }
    }
}

/// The size mismatches among the first `n` files, in batch order: the destination path, the
/// planned size and the size found.
pub open spec fn dir_mismatches(
    files: Seq<FileEntry>,
    root: Seq<char>,
    key: Seq<Comp>,
    entries: Seq<ListedEntry>,
    sizes: Seq<Option<u64>>,
    n: int,
) -> Seq<(Seq<char>, u64, u64)>
    decreases n,
{
    if n <= 0 {
        Seq::empty()
    } else {
        let prev = dir_mismatches(files, root, key, entries, sizes, n - 1);
        if is_size_mismatch(files, root, key, entries, sizes, n - 1) {
            prev.push((dest_path(root, files[n - 1]), files[n - 1].size_bytes, sizes[n - 1]->0))
        } else {
            prev
        }
    }
}

/// The directory of group `i`.
pub open spec fn group_key(files: Seq<FileEntry>, root: Seq<char>, groups: Seq<usize>, i: int) -> Seq<Comp> {
    parent_key(dest_comps(root, files[groups[i] as int]))
}

/// The hits of the first `m` groups whose directory could be listed, group by group.
pub open spec fn all_hits(
    files: Seq<FileEntry>,
    root: Seq<char>,
    groups: Seq<usize>,
    listings: Seq<Option<Vec<ListedEntry>>>,
    m: int,
) -> Seq<Seq<char>>
    decreases m,
{
    if m <= 0 {
        Seq::empty()
    } else {
        all_hits(files, root, groups, listings, m - 1) + match listings[m - 1] {
            Some(es) => dir_hits(files, root, group_key(files, root, groups, m - 1), es@, files.len() as int),
            None => Seq::empty(),
        }
    }
}

/// The size mismatches of the first `m` groups whose directory could be listed.
pub open spec fn all_mismatches(
    files: Seq<FileEntry>,
    root: Seq<char>,
    groups: Seq<usize>,
    listings: Seq<Option<Vec<ListedEntry>>>,
    sizes: Seq<Option<u64>>,
    m: int,
) -> Seq<(Seq<char>, u64, u64)>
    decreases m,
{
    if m <= 0 {
        Seq::empty()
    } else {
        all_mismatches(files, root, groups, listings, sizes, m - 1) + match listings[m - 1] {
            Some(es) => dir_mismatches(
                files,
                root,
                group_key(files, root, groups, m - 1),
                es@,
                sizes,
                files.len() as int,
            ),
            None => Seq::empty(),
        }
    }
}

fn lookup_entry(entries: &Vec<ListedEntry>, name: &Vec<char>) -> (r: Option<usize>)
    ensures
        match r {
            Some(i) => i < entries@.len() && lookup(entries@, name@) == Some(entries@[i as int]),
            None => lookup(entries@, name@) is None,
        },
{
    let mut i: usize = entries.len();
    assert(entries@.take(i as int) =~= entries@);
    while i > 0
        invariant
            i <= entries@.len(),
            lookup(entries@, name@) == lookup(entries@.take(i as int), name@),
        decreases i,
    {
        let candidate = chars_of(entries[i - 1].name.as_str());
        assert(entries@.take(i as int).last() == entries@[i - 1]);
        if chars_eq(&candidate, name) {
            return Some(i - 1);
        }
        assert(entries@.take(i as int).drop_last() =~= entries@.take(i - 1));
        i = i - 1;
    }
    assert(entries@.take(0) =~= Seq::<ListedEntry>::empty());
    None
}

/// The conflicts of `batch` at `dest_root` from what the destination holds: `listings[i]` is
/// the listing of the directory of group `i` of `groups` (see [`destination_parent_groups`]),
/// `None` where it could not be read; `dest_sizes[k]` is the size of the entry at the
/// destination path of file `k`, where known. A missing destination root has no conflicts.
pub fn conflicts_from_listings(
    batch: &Batch,
    dest_root: &str,
    dest_root_exists: bool,
    groups: &Vec<usize>,
    listings: &Vec<Option<Vec<ListedEntry>>>,
    dest_sizes: &Vec<Option<u64>>,
) -> (r: ConflictReport)
    requires
        is_parent_grouping(batch.files@, dest_root@, groups@),
        listings@.len() == groups@.len(),
        dest_sizes@.len() == batch.files@.len(),
    ensures
        !dest_root_exists ==> {
            &&& r.existing_files@.len() == 0
            &&& r.size_mismatches@.len() == 0
            &&& r.total_conflicts == 0
            &&& !r.has_conflicts
            &&& r.scanned_parent_directories == 0
        },
        dest_root_exists ==> {
            &&& r.existing_files.deep_view() == all_hits(
                batch.files@,
                dest_root@,
                groups@,
                listings@,
                groups@.len() as int,
            )
            &&& r.size_mismatches.deep_view() == all_mismatches(
                batch.files@,
                dest_root@,
                groups@,
                listings@,
                dest_sizes@,
                groups@.len() as int,
            )
            &&& r.total_conflicts == r.existing_files@.len()
            &&& r.has_conflicts == (r.existing_files@.len() > 0)
            &&& r.scanned_parent_directories == groups@.len()
        },
{
    if !dest_root_exists {
        return ConflictReport::new();
    }
    let ghost files = batch.files@;
    let ghost root = dest_root@;
    let n = batch.files.len();
    let mut comps: Vec<Vec<PathComponent>> = Vec::new();
    let mut k: usize = 0;
    while k < n
        invariant
            files == batch.files@,
            root == dest_root@,
            n == files.len(),
            k <= n,
            comps@.len() == k,
            forall|i: int| 0 <= i < k ==> comps_view(#[trigger] comps@[i]@) == dest_comps(root, files[i]),
        decreases n - k,
    {
        comps.push(dest_components(dest_root, &batch.files[k]));
        k = k + 1;
    }
    let mut existing: Vec<String> = Vec::new();
    let mut mismatches: Vec<(String, u64, u64)> = Vec::new();
    let mut g: usize = 0;
    while g < groups.len()
        invariant
            files == batch.files@,
            root == dest_root@,
            n == files.len(),
            comps@.len() == n,
            forall|i: int| 0 <= i < n ==> comps_view(#[trigger] comps@[i]@) == dest_comps(root, files[i]),
            is_parent_grouping(files, root, groups@),
            listings@.len() == groups@.len(),
            dest_sizes@.len() == n,
            g <= groups@.len(),
            existing.deep_view() == all_hits(files, root, groups@, listings@, g as int),
            mismatches.deep_view() == all_mismatches(files, root, groups@, listings@, dest_sizes@, g as int),
        decreases groups.len() - g,
    {
        match &listings[g] {
            None => {},
            Some(entries) => {
                assert(first_of_parent(files, root, groups@[g as int] as int));
                let key = parent_components(&comps[groups[g]]);
                let ghost kv = comps_view(key@);
                assert(kv == group_key(files, root, groups@, g as int));
                let ghost base_hits = existing.deep_view();
                let ghost base_mm = mismatches.deep_view();
                let mut j: usize = 0;
                while j < n
                    invariant
                        files == batch.files@,
                        root == dest_root@,
                        n == files.len(),
                        comps@.len() == n,
                        forall|i: int| 0 <= i < n ==> comps_view(#[trigger] comps@[i]@) == dest_comps(root, files[i]),
                        dest_sizes@.len() == n,
                        kv == comps_view(key@),
                        j <= n,
                        existing.deep_view() == base_hits + dir_hits(files, root, kv, entries@, j as int),
                        mismatches.deep_view() == base_mm + dir_mismatches(files, root, kv, entries@, dest_sizes@, j as int),
                    decreases n - j,
                {
                    let c = &comps[j];
                    let ghost cv = dest_comps(root, files[j as int]);
                    let mut hit: Option<usize> = None;
                    if named(c) {
                        let pk = parent_components(c);
                        let same = compare_components(&pk, &key) == 0;
                        proof {
                            lemma_comps_order_props(comps_view(pk@), kv);
                        }
                        if same {
                            proof {
                                assert(cv.last() == c@.last().view());
                            }
                            match &c[c.len() - 1] {
                                PathComponent::Normal(name) => {
                                    hit = lookup_entry(entries, name);
                                },
                                _ => {},
                            }
                        }
                    }
                    assert(hit is Some == is_hit(files, root, kv, entries@, j as int));
                    let ghost hits_before = dir_hits(files, root, kv, entries@, j as int);
                    let ghost mm_before = dir_mismatches(files, root, kv, entries@, dest_sizes@, j as int);
                    let ghost existing_before = existing.deep_view();
                    let ghost mismatches_before = mismatches.deep_view();
                    match hit {
                        Some(e) => {
                            let path = join_paths(dest_root, batch.files[j].relative_path.as_str());
                            existing.push(path.clone());
                            proof {
                                assert(existing.deep_view() =~= existing_before.push(path@));
                                assert(path@ == dest_path(root, files[j as int]));
                                assert(dir_hits(files, root, kv, entries@, j + 1) == hits_before.push(path@));
                                assert(existing.deep_view() =~= base_hits + dir_hits(files, root, kv, entries@, j + 1));
                            }
                            let size = batch.files[j].size_bytes;
                            let mut pushed = false;
                            if entries[e].is_file && !entries[e].is_symlink {
                                match dest_sizes[j] {
                                    Some(found) => {
                                        if found != size {
                                            mismatches.push((path, size, found));
                                            pushed = true;
                                        }
                                    },
                                    None => {},
                                }
                            }
                            proof {
                                assert(lookup(entries@, leaf_name(cv)) == Some(entries@[e as int]));
                                assert(pushed == is_size_mismatch(files, root, kv, entries@, dest_sizes@, j as int));
                                if pushed {
                                    assert(mismatches.deep_view() =~= mismatches_before.push(
                                        (path@, files[j as int].size_bytes, dest_sizes@[j as int]->0),
                                    ));
                                    assert(dir_mismatches(files, root, kv, entries@, dest_sizes@, j + 1) == mm_before.push(
                                        (dest_path(root, files[j as int]), files[j as int].size_bytes, dest_sizes@[j as int]->0),
                                    ));
                                } else {
                                    assert(dir_mismatches(files, root, kv, entries@, dest_sizes@, j + 1) == mm_before);
                                }
                                assert(mismatches.deep_view() =~= base_mm + dir_mismatches(
                                    files,
                                    root,
                                    kv,
                                    entries@,
                                    dest_sizes@,
                                    j + 1,
                                ));
                            }
                        },
                        None => {
                            assert(dir_hits(files, root, kv, entries@, j + 1) == hits_before);
                            assert(dir_mismatches(files, root, kv, entries@, dest_sizes@, j + 1) == mm_before);
                        },
                    }
                    j = j + 1;
                }
            },
        }
        proof {
            assert(all_hits(files, root, groups@, listings@, g + 1) == all_hits(files, root, groups@, listings@, g as int)
                + match listings@[g as int] {
                Some(es) => dir_hits(files, root, group_key(files, root, groups@, g as int), es@, n as int),
                None => Seq::empty(),
            });
            assert(existing.deep_view() =~= all_hits(files, root, groups@, listings@, g + 1));
            assert(mismatches.deep_view() =~= all_mismatches(files, root, groups@, listings@, dest_sizes@, g + 1));
        }
        g = g + 1;
    }
    let total = existing.len();
    ConflictReport {
        existing_files: existing,
        size_mismatches: mismatches,
        total_conflicts: total,
        has_conflicts: total > 0,
        scanned_parent_directories: groups.len(),
    }
}

} // verus!
