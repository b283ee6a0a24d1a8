//! The order in which files are planned: by parent directory, then by path,
//! both compared as paths; files with equal keys keep their input order.

use vstd::prelude::*;

use crate::models::file_entry::FileEntry;
use crate::paths::{
    comps_order, comps_view, compare_components, components, lemma_comps_order_props,
    lemma_comps_order_trans, parent_comps, parent_components, path_components, Comp, PathComponent,
};

verus! {

broadcast use vstd::seq_lib::group_to_multiset_ensures;

/// The planning key of a path: the components of its parent, then its own.
pub open spec fn plan_key(path: Seq<char>) -> (Seq<Comp>, Seq<Comp>) {
    (parent_comps(components(path)), components(path))
}

/// Order of planning keys: parents first, then whole paths.
pub open spec fn key_order(a: (Seq<Comp>, Seq<Comp>), b: (Seq<Comp>, Seq<Comp>)) -> int {
    let p = comps_order(a.0, b.0);
    if p != 0 {
        p
    } else {
        comps_order(a.1, b.1)
    }
}

/// The planning keys of a list of entries.
pub open spec fn planning_keys(entries: Seq<FileEntry>) -> Seq<(Seq<Comp>, Seq<Comp>)> {
    entries.map_values(|e: FileEntry| plan_key(e.relative_path@))
}

/// Position `x` goes before position `y`: a smaller key, or an equal key and an earlier position.
pub open spec fn comes_before(keys: Seq<(Seq<Comp>, Seq<Comp>)>, x: int, y: int) -> bool {
    let o = key_order(keys[x], keys[y]);
    o < 0 || (o == 0 && x < y)
}

/// Every position of `s` is in range and `s` is strictly increasing in `comes_before`.
pub open spec fn sorted_positions(keys: Seq<(Seq<Comp>, Seq<Comp>)>, s: Seq<int>) -> bool {
    &&& forall|i: int| 0 <= i < s.len() ==> 0 <= #[trigger] s[i] < keys.len()
    &&& forall|i: int, j: int| 0 <= i < j < s.len() ==> comes_before(keys, s[i], s[j])
}

/// `order` is the stable planning order of `entries`: it lists every position
/// once, keys rise along it, and equal keys keep their input order.
pub open spec fn is_planning_order(entries: Seq<FileEntry>, order: Seq<int>) -> bool {
    &&& order.len() == entries.len()
    &&& sorted_positions(planning_keys(entries), order)
}

/// The entries listed by `order`.
pub open spec fn permuted(entries: Seq<FileEntry>, order: Seq<int>) -> Seq<FileEntry> {
    order.map_values(|i: int| entries[i])
}

/// The order of planning keys is antisymmetric and is zero exactly on equal keys.
pub proof fn lemma_key_order_props(a: (Seq<Comp>, Seq<Comp>), b: (Seq<Comp>, Seq<Comp>))
    ensures
        key_order(a, b) == -key_order(b, a),
        (key_order(a, b) == 0) == (a == b),
{
    lemma_comps_order_props(a.0, b.0);
    lemma_comps_order_props(a.1, b.1);
}

/// The order of planning keys is transitive.
pub proof fn lemma_key_order_trans(
    a: (Seq<Comp>, Seq<Comp>),
    b: (Seq<Comp>, Seq<Comp>),
    c: (Seq<Comp>, Seq<Comp>),
)
    requires
        key_order(a, b) < 0,
        key_order(b, c) < 0,
    ensures
        key_order(a, c) < 0,
{
    lemma_comps_order_props(a.0, b.0);
    lemma_comps_order_props(b.0, c.0);
    lemma_comps_order_props(a.0, c.0);
    lemma_comps_order_props(a.1, b.1);
    lemma_comps_order_props(b.1, c.1);
    if comps_order(a.0, b.0) < 0 && comps_order(b.0, c.0) < 0 {
        lemma_comps_order_trans(a.0, b.0, c.0);
    } else if comps_order(a.1, b.1) < 0 && comps_order(b.1, c.1) < 0 {
        lemma_comps_order_trans(a.1, b.1, c.1);
    }
}

/// Coming before in planning order is transitive.
pub proof fn lemma_comes_before_trans(keys: Seq<(Seq<Comp>, Seq<Comp>)>, x: int, y: int, z: int)
    requires
        comes_before(keys, x, y),
        comes_before(keys, y, z),
    ensures
        comes_before(keys, x, z),
{
    lemma_key_order_props(keys[x], keys[y]);
    lemma_key_order_props(keys[y], keys[z]);
    lemma_key_order_props(keys[x], keys[z]);
    if key_order(keys[x], keys[y]) < 0 && key_order(keys[y], keys[z]) < 0 {
        lemma_key_order_trans(keys[x], keys[y], keys[z]);
    }
}

/// Of two distinct positions, one comes before the other in planning order.
pub proof fn lemma_comes_before_total(keys: Seq<(Seq<Comp>, Seq<Comp>)>, x: int, y: int)
    requires
        x != y,
    ensures
        comes_before(keys, x, y) || comes_before(keys, y, x),
        !(comes_before(keys, x, y) && comes_before(keys, y, x)),
{
    lemma_key_order_props(keys[x], keys[y]);
}

/// Executable planning key.
pub struct PlanKey {
    pub parent: Vec<PathComponent>,
    pub full: Vec<PathComponent>,
}

impl View for PlanKey {
    type V = (Seq<Comp>, Seq<Comp>);

    open spec fn view(&self) -> (Seq<Comp>, Seq<Comp>) {
        (comps_view(self.parent@), comps_view(self.full@))
    }
}

/// The executable keys of `entries`.
pub fn compute_keys(entries: &Vec<FileEntry>) -> (r: Vec<PlanKey>)
    ensures
        r@.len() == entries@.len(),
        forall|k: int| 0 <= k < r@.len() ==> #[trigger] r@[k].view() == planning_keys(entries@)[k],
{
    let mut out: Vec<PlanKey> = Vec::new();
    let mut i: usize = 0;
    while i < entries.len()
        invariant
            i <= entries@.len(),
            out@.len() == i,
            forall|k: int| 0 <= k < i ==> #[trigger] out@[k].view() == planning_keys(entries@)[k],
        decreases entries.len() - i,
    {
        let chars = crate::text::chars_of(entries[i].relative_path.as_str());
        let full = path_components(&chars);
        let parent = parent_components(&full);
        out.push(PlanKey { parent, full });
        i = i + 1;
    }
    out
}

/// Whether position `x` comes before position `y`.
fn before(keys: &Vec<PlanKey>, x: usize, y: usize) -> (r: bool)
    requires
        x < keys@.len(),
        y < keys@.len(),
    ensures
        r == comes_before(keys@.map_values(|k: PlanKey| k.view()), x as int, y as int),
{
    let kx = &keys[x];
    let ky = &keys[y];
    let p = compare_components(&kx.parent, &ky.parent);
    let o = if p != 0 {
        p
    } else {
        compare_components(&kx.full, &ky.full)
    };
    o < 0 || (o == 0 && x < y)
}

/// The positions of `v`, as integers.
pub open spec fn as_ints(v: Seq<usize>) -> Seq<int> {
    v.map_values(|i: usize| i as int)
}

fn merge(keys: &Vec<PlanKey>, a: Vec<usize>, b: Vec<usize>) -> (r: Vec<usize>)
    requires
        sorted_positions(keys@.map_values(|k: PlanKey| k.view()), as_ints(a@)),
        sorted_positions(keys@.map_values(|k: PlanKey| k.view()), as_ints(b@)),
        forall|p: int, q: int| 0 <= p < a@.len() && 0 <= q < b@.len() ==> a@[p] != b@[q],
    ensures
        sorted_positions(keys@.map_values(|k: PlanKey| k.view()), as_ints(r@)),
        r@.to_multiset() == a@.to_multiset().add(b@.to_multiset()),
{
    let ghost kv = keys@.map_values(|k: PlanKey| k.view());
    let mut out: Vec<usize> = Vec::new();
    let mut i: usize = 0;
    let mut j: usize = 0;
    assert(a@.take(0) =~= Seq::<usize>::empty());
    assert(b@.take(0) =~= Seq::<usize>::empty());
    while i < a.len() || j < b.len()
        invariant
            i <= a@.len(),
            j <= b@.len(),
            kv == keys@.map_values(|k: PlanKey| k.view()),
            sorted_positions(kv, as_ints(a@)),
            sorted_positions(kv, as_ints(b@)),
            sorted_positions(kv, as_ints(out@)),
            forall|p: int, q: int| 0 <= p < a@.len() && 0 <= q < b@.len() ==> a@[p] != b@[q],
            out@.to_multiset() == a@.take(i as int).to_multiset().add(b@.take(j as int).to_multiset()),
            out@.len() > 0 && i < a@.len() ==> comes_before(kv, out@.last() as int, a@[i as int] as int),
            out@.len() > 0 && j < b@.len() ==> comes_before(kv, out@.last() as int, b@[j as int] as int),
        decreases a@.len() + b@.len() - i - j,
    {
        let take_a = if i < a.len() && j < b.len() {
            assert(as_ints(a@)[i as int] == a@[i as int] as int);
            assert(as_ints(b@)[j as int] == b@[j as int] as int);
            before(keys, a[i], b[j])
        } else {
            i < a.len()
        };
        let ghost prev = out@;
        if take_a {
            let x = a[i];
            out.push(x);
            proof {
                assert(a@.take(i + 1 as int) =~= a@.take(i as int).push(x));
                assert(as_ints(a@)[i as int] == x as int);
                if j < b@.len() {
                    assert(as_ints(b@)[j as int] == b@[j as int] as int);
                }
                if i + 1 < a@.len() {
                    assert(as_ints(a@)[i + 1] == a@[i + 1] as int);
                    assert(comes_before(kv, as_ints(a@)[i as int], as_ints(a@)[i + 1]));
                }
                assert forall|p: int| 0 <= p < out@.len() implies 0 <= #[trigger] as_ints(out@)[p] < kv.len() by {
                    if p < prev.len() {
                        assert(as_ints(prev)[p] == as_ints(out@)[p]);
                    }
                }
                assert forall|p: int, q: int| 0 <= p < q < out@.len() implies comes_before(
                    kv,
                    as_ints(out@)[p],
                    as_ints(out@)[q],
                ) by {
                    if q == out@.len() - 1 && p < q {
                        assert(as_ints(prev)[p] == as_ints(out@)[p]);
                        if p < prev.len() - 1 {
                            assert(comes_before(kv, as_ints(prev)[p], as_ints(prev)[prev.len() - 1]));
                            lemma_comes_before_trans(kv, as_ints(out@)[p], prev.last() as int, x as int);
                        }
                    } else {
                        assert(as_ints(prev)[p] == as_ints(out@)[p]);
                        assert(as_ints(prev)[q] == as_ints(out@)[q]);
                    }
                }
            }
            i = i + 1;
        } else {
            let x = b[j];
            out.push(x);
            proof {
                assert(b@.take(j + 1 as int) =~= b@.take(j as int).push(x));
                assert(as_ints(b@)[j as int] == x as int);
                if i < a@.len() {
                    assert(as_ints(a@)[i as int] == a@[i as int] as int);
                    assert(a@[i as int] != x);
                    lemma_comes_before_total(kv, x as int, a@[i as int] as int);
                }
                if j + 1 < b@.len() {
                    assert(as_ints(b@)[j + 1] == b@[j + 1] as int);
                    assert(comes_before(kv, as_ints(b@)[j as int], as_ints(b@)[j + 1]));
                }
                assert forall|p: int| 0 <= p < out@.len() implies 0 <= #[trigger] as_ints(out@)[p] < kv.len() by {
                    if p < prev.len() {
                        assert(as_ints(prev)[p] == as_ints(out@)[p]);
                    }
                }
                assert forall|p: int, q: int| 0 <= p < q < out@.len() implies comes_before(
                    kv,
                    as_ints(out@)[p],
                    as_ints(out@)[q],
                ) by {
                    if q == out@.len() - 1 && p < q {
                        assert(as_ints(prev)[p] == as_ints(out@)[p]);
                        if p < prev.len() - 1 {
                            assert(comes_before(kv, as_ints(prev)[p], as_ints(prev)[prev.len() - 1]));
                            lemma_comes_before_trans(kv, as_ints(out@)[p], prev.last() as int, x as int);
                        }
                    } else {
                        assert(as_ints(prev)[p] == as_ints(out@)[p]);
                        assert(as_ints(prev)[q] == as_ints(out@)[q]);
                    }
                }
            }
            j = j + 1;
        }
    }
    assert(a@.take(a@.len() as int) =~= a@);
    assert(b@.take(b@.len() as int) =~= b@);
    out
}

fn merge_sort(keys: &Vec<PlanKey>, idx: Vec<usize>) -> (r: Vec<usize>)
    requires
        forall|i: int| 0 <= i < idx@.len() ==> #[trigger] idx@[i] < keys@.len(),
        idx@.no_duplicates(),
    ensures
        sorted_positions(keys@.map_values(|k: PlanKey| k.view()), as_ints(r@)),
        r@.to_multiset() == idx@.to_multiset(),
    decreases idx@.len(),
{
    let ghost kv = keys@.map_values(|k: PlanKey| k.view());
    let n = idx.len();
    if n <= 1 {
        proof {
            if n == 1 {
                assert(as_ints(idx@)[0] == idx@[0] as int);
            }
        }
        return idx;
    }
    let mid = n / 2;
    let mut left: Vec<usize> = Vec::new();
    let mut right: Vec<usize> = Vec::new();
    let mut i: usize = 0;
    while i < n
        invariant
            i <= n,
            n == idx@.len(),
            mid < n,
            left@ =~= idx@.take(if i < mid { i as int } else { mid as int }),
            right@ =~= if i < mid { Seq::<usize>::empty() } else { idx@.subrange(mid as int, i as int) },
        decreases n - i,
    {
        if i < mid {
            left.push(idx[i]);
        } else {
            right.push(idx[i]);
        }
        i = i + 1;
    }
    assert(idx@ =~= left@ + right@);
    assert(left@.no_duplicates());
    assert(right@.no_duplicates());
    let sl = merge_sort(keys, left);
    let sr = merge_sort(keys, right);
    proof {
        assert forall|p: int, q: int| 0 <= p < sl@.len() && 0 <= q < sr@.len() implies sl@[p] != sr@[q] by {
            assert(sl@.to_multiset().count(sl@[p]) > 0);
            assert(left@.contains(sl@[p]));
            assert(sr@.to_multiset().count(sr@[q]) > 0);
            assert(right@.contains(sr@[q]));
            let u = choose|u: int| 0 <= u < left@.len() && left@[u] == sl@[p];
            let v = choose|v: int| 0 <= v < right@.len() && right@[v] == sr@[q];
            assert(idx@[u] == left@[u]);
            assert(idx@[mid + v] == right@[v]);
        }
    }
    let r = merge(keys, sl, sr);
    proof {
        vstd::seq_lib::lemma_multiset_commutative(left@, right@);
    }
    r
}

/// The stable planning order of `entries`.
pub fn planning_order(entries: &Vec<FileEntry>) -> (r: Vec<usize>)
    ensures
        is_planning_order(entries@, as_ints(r@)),
{
    let keys = compute_keys(entries);
    let mut idx: Vec<usize> = Vec::new();
    let mut i: usize = 0;
    while i < entries.len()
        invariant
            i <= entries@.len(),
            idx@.len() == i,
            forall|k: int| 0 <= k < i ==> #[trigger] idx@[k] == k,
        decreases entries.len() - i,
    {
        idx.push(i);
        i = i + 1;
    }
    assert(idx@.no_duplicates());
    let r = merge_sort(&keys, idx);
    proof {
        let kv = keys@.map_values(|k: PlanKey| k.view());
        assert(kv =~= planning_keys(entries@));
        assert(r@.len() == entries@.len()) by {
            assert(r@.to_multiset().len() == idx@.to_multiset().len());
        }
    }
    r
}


proof fn lemma_order_covers(entries: Seq<FileEntry>, order: Seq<int>)
    requires
        is_planning_order(entries, order),
    ensures
        forall|x: int| 0 <= x < order.len() ==> order.contains(x),
{
    let keys = planning_keys(entries);
    let n = order.len() as int;
    assert forall|i: int, j: int| 0 <= i < order.len() && 0 <= j < order.len() && i != j implies order[i]
        != order[j] by {
        if i < j {
            lemma_key_order_props(keys[order[i]], keys[order[j]]);
            assert(comes_before(keys, order[i], order[j]));
        } else {
            lemma_key_order_props(keys[order[j]], keys[order[i]]);
            assert(comes_before(keys, order[j], order[i]));
        }
    }
    assert(order.no_duplicates());
    order.unique_seq_to_set();
    vstd::set_lib::lemma_int_range(0, n);
    let range = vstd::set_lib::set_int_range(0, n);
    assert forall|x: int| order.to_set().contains(x) implies range.contains(x) by {
        let i = choose|i: int| 0 <= i < order.len() && order[i] == x;
    }
    assert(order.to_set().subset_of(range));
    vstd::seq_lib::seq_to_set_is_finite(order);
    vstd::set_lib::lemma_subset_equality(order.to_set(), range);
    assert forall|x: int| 0 <= x < order.len() implies order.contains(x) by {
        assert(range.contains(x));
        assert(order.to_set().contains(x));
    }
}

proof fn lemma_orders_agree_upto(entries: Seq<FileEntry>, o1: Seq<int>, o2: Seq<int>, i: int)
    requires
        is_planning_order(entries, o1),
        is_planning_order(entries, o2),
        forall|x: int| 0 <= x < o1.len() ==> o1.contains(x),
        forall|x: int| 0 <= x < o2.len() ==> o2.contains(x),
        0 <= i <= o1.len(),
    ensures
        forall|j: int| 0 <= j < i ==> o1[j] == o2[j],
    decreases i,
{
    if i > 0 {
        lemma_orders_agree_upto(entries, o1, o2, i - 1);
        let keys = planning_keys(entries);
        let k = i - 1;
        let a = o1[k];
        let b = o2[k];
        if a != b {
            lemma_comes_before_total(keys, a, b);
            if comes_before(keys, a, b) {
                assert(o2.contains(a));
                let j = choose|j: int| 0 <= j < o2.len() && o2[j] == a;
                if j < k {
                    assert(o1[j] == a);
                    lemma_key_order_props(keys[a], keys[a]);
                    assert(comes_before(keys, o1[j], o1[k]));
                } else {
                    assert(comes_before(keys, o2[k], o2[j]));
                }
            } else {
                assert(o1.contains(b));
                let j = choose|j: int| 0 <= j < o1.len() && o1[j] == b;
                if j < k {
                    assert(o2[j] == b);
                    lemma_key_order_props(keys[b], keys[b]);
                    assert(comes_before(keys, o2[j], o2[k]));
                } else {
                    assert(comes_before(keys, o1[k], o1[j]));
                }
            }
        }
    }
}

/// The planning order is unique: two orders of the same entries that both list every position
/// once, with rising keys and ties in input order, are the same order. So a plan is determined
/// by its entries and limits.
pub proof fn lemma_planning_order_unique(entries: Seq<FileEntry>, o1: Seq<int>, o2: Seq<int>)
    requires
        is_planning_order(entries, o1),
        is_planning_order(entries, o2),
    ensures
        o1 == o2,
{
    lemma_order_covers(entries, o1);
    lemma_order_covers(entries, o2);
    lemma_orders_agree_upto(entries, o1, o2, o1.len() as int);
    assert(o1 =~= o2);
}

} // verus!
