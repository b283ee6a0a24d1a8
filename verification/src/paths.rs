//! Paths as the library sees them: strings with `/` separators, split into
//! components and ordered component by component (as `std::path::Path`
//! orders them on Unix).

use vstd::prelude::*;

verus! {

/// One component of a path.
pub enum Comp {
    Root,
    Cur,
    Parent,
    Normal(Seq<char>),
}

/// Executable path component.
#[derive(Debug)]
pub enum PathComponent {
    RootDir,
    CurDir,
    ParentDir,
    Normal(Vec<char>),
}

impl View for PathComponent {
    type V = Comp;

    open spec fn view(&self) -> Comp {
        match self {
            PathComponent::RootDir => Comp::Root,
            PathComponent::CurDir => Comp::Cur,
            PathComponent::ParentDir => Comp::Parent,
            PathComponent::Normal(v) => Comp::Normal(v@),
        }
    }
}

/// The views of a sequence of executable components.
pub open spec fn comps_view(v: Seq<PathComponent>) -> Seq<Comp> {
    v.map_values(|c: PathComponent| c.view())
}

/// The `/`-separated pieces of `s`, empty ones included.
pub open spec fn segments(s: Seq<char>) -> Seq<Seq<char>>
    decreases s.len(),
{
    if s.len() == 0 {
        seq![Seq::<char>::empty()]
    } else {
        let prev = segments(s.drop_last());
        if s.last() == '/' {
            prev.push(Seq::empty())
        } else {
            prev.update(prev.len() - 1, prev.last().push(s.last()))
        }
    }
}

/// The components a piece contributes: none for `""` and `"."`.
pub open spec fn segment_comps(seg: Seq<char>) -> Seq<Comp> {
    if seg.len() == 0 || seg == seq!['.'] {
        Seq::empty()
    } else if seg == seq!['.', '.'] {
        seq![Comp::Parent]
    } else {
        seq![Comp::Normal(seg)]
    }
}

/// The components of a list of pieces.
pub open spec fn segments_comps(segs: Seq<Seq<char>>) -> Seq<Comp>
    decreases segs.len(),
{
    if segs.len() == 0 {
        Seq::empty()
    } else {
        segments_comps(segs.drop_last()) + segment_comps(segs.last())
    }
}

/// The leading component: the root for an absolute path, `.` for a path
/// that starts with `./` or is `.`.
pub open spec fn leading_comps(s: Seq<char>) -> Seq<Comp> {
    if s.len() > 0 && s[0] == '/' {
        seq![Comp::Root]
    } else if (s.len() == 1 && s[0] == '.') || (s.len() >= 2 && s[0] == '.' && s[1] == '/') {
        seq![Comp::Cur]
    } else {
        Seq::empty()
    }
}

/// The components of path `s`, as `Path::components` yields them on Unix.
pub open spec fn components(s: Seq<char>) -> Seq<Comp> {
    leading_comps(s) + segments_comps(segments(s))
}

/// The components of the parent of a path with components `c`
/// (none when the path has no parent, as `Path::parent(..).unwrap_or("")`).
pub open spec fn parent_comps(c: Seq<Comp>) -> Seq<Comp> {
    if c.len() > 0 && !(c.last() is Root) {
        c.drop_last()
    } else {
        Seq::empty()
    }
}

fn segment_component(seg: &Vec<char>, out: &mut Vec<PathComponent>)
    ensures
        comps_view(final(out)@) == comps_view(old(out)@) + segment_comps(seg@),
{
    let ghost before = out@;
    if seg.len() == 0 || (seg.len() == 1 && seg[0] == '.') {
        assert(seg@.len() == 1 ==> seg@ =~= seq!['.']);
        assert(comps_view(out@) =~= comps_view(before) + segment_comps(seg@));
    } else if seg.len() == 2 && seg[0] == '.' && seg[1] == '.' {
        assert(seg@ =~= seq!['.', '.']);
        out.push(PathComponent::ParentDir);
        assert(comps_view(out@) =~= comps_view(before) + segment_comps(seg@));
    } else {
        assert(seg@ != seq!['.']) by {
            if seg@ == seq!['.'] { assert(seg@.len() == 1); }
        }
        assert(seg@ != seq!['.', '.']) by {
            if seg@ == seq!['.', '.'] { assert(seg@.len() == 2); }
        }
        let mut copy: Vec<char> = Vec::new();
        let mut i: usize = 0;
        while i < seg.len()
            invariant
                i <= seg@.len(),
                copy@ =~= seg@.take(i as int),
            decreases seg.len() - i,
        {
            copy.push(seg[i]);
            i = i + 1;
        }
        assert(seg@.take(seg@.len() as int) =~= seg@);
        out.push(PathComponent::Normal(copy));
        assert(comps_view(out@) =~= comps_view(before) + segment_comps(seg@));
    }
}

/// Splits a path into its components.
pub fn path_components(s: &Vec<char>) -> (r: Vec<PathComponent>)
    ensures
        comps_view(r@) == components(s@),
{
    let mut out: Vec<PathComponent> = Vec::new();
    let n = s.len();
    if n > 0 && s[0] == '/' {
        out.push(PathComponent::RootDir);
    } else if (n == 1 && s[0] == '.') || (n >= 2 && s[0] == '.' && s[1] == '/') {
        out.push(PathComponent::CurDir);
    }
    assert(comps_view(out@) =~= leading_comps(s@));
    let ghost lead = comps_view(out@);
    let mut cur: Vec<char> = Vec::new();
    let ghost mut done: Seq<Seq<char>> = Seq::empty();
    let mut i: usize = 0;
    assert(s@.take(0) =~= Seq::<char>::empty());
    assert(segments(s@.take(0)) =~= done.push(cur@));
    while i < n
        invariant
            i <= n,
            n == s@.len(),
            segments(s@.take(i as int)) == done.push(cur@),
            comps_view(out@) == lead + segments_comps(done),
            lead == leading_comps(s@),
        decreases n - i,
    {
        let c = s[i];
        assert(s@.take(i + 1 as int).drop_last() =~= s@.take(i as int));
        assert(s@.take(i + 1 as int).last() == c);
        if c == '/' {
            let ghost old_done = done;
            segment_component(&cur, &mut out);
            proof {
                done = done.push(cur@);
                assert(segments_comps(done).drop_last() == segments_comps(old_done) || true);
                assert(done.drop_last() =~= old_done);
                assert(segments_comps(done) == segments_comps(old_done) + segment_comps(cur@));
                assert(comps_view(out@) =~= lead + segments_comps(done));
            }
            cur = Vec::new();
            assert(segments(s@.take(i + 1 as int)) =~= done.push(cur@));
        } else {
            let ghost old_cur = cur@;
            cur.push(c);
            assert(segments(s@.take(i + 1 as int)) =~= done.push(old_cur).update(done.len() as int, old_cur.push(c)));
            assert(segments(s@.take(i + 1 as int)) =~= done.push(cur@));
        }
        i = i + 1;
    }
    assert(s@.take(n as int) =~= s@);
    let ghost old_done = done;
    segment_component(&cur, &mut out);
    proof {
        let all = old_done.push(cur@);
        assert(all.drop_last() =~= old_done);
        assert(segments_comps(all) == segments_comps(old_done) + segment_comps(cur@));
        assert(comps_view(out@) =~= lead + segments_comps(all));
    }
    out
}

/// Order of characters: by code point (the order of their UTF-8 encodings).
pub open spec fn char_order(a: char, b: char) -> int {
    if a < b {
        -1
    } else if a > b {
        1
    } else {
        0
    }
}

/// Lexicographic order of character sequences: -1, 0 or 1.
pub open spec fn chars_order(a: Seq<char>, b: Seq<char>) -> int
    decreases a.len(),
{
    if a.len() == 0 {
        if b.len() == 0 {
            0
        } else {
            -1
        }
    } else if b.len() == 0 {
        1
    } else if char_order(a[0], b[0]) != 0 {
        char_order(a[0], b[0])
    } else {
        chars_order(a.drop_first(), b.drop_first())
    }
}

/// Rank of a component kind in `Component`'s order.
pub open spec fn comp_rank(c: Comp) -> int {
    match c {
        Comp::Root => 0,
        Comp::Cur => 1,
        Comp::Parent => 2,
        Comp::Normal(_) => 3,
    }
}

/// Order of components: by kind, then by name.
pub open spec fn comp_order(a: Comp, b: Comp) -> int {
    if comp_rank(a) < comp_rank(b) {
        -1
    } else if comp_rank(a) > comp_rank(b) {
        1
    } else {
        match (a, b) {
            (Comp::Normal(x), Comp::Normal(y)) => chars_order(x, y),
            _ => 0,
        }
    }
}

/// Lexicographic order of component sequences: the order of `Path`.
pub open spec fn comps_order(a: Seq<Comp>, b: Seq<Comp>) -> int
    decreases a.len(),
{
    if a.len() == 0 {
        if b.len() == 0 {
            0
        } else {
            -1
        }
    } else if b.len() == 0 {
        1
    } else if comp_order(a[0], b[0]) != 0 {
        comp_order(a[0], b[0])
    } else {
        comps_order(a.drop_first(), b.drop_first())
    }
}

/// The order of character sequences is antisymmetric, is zero exactly on equal sequences, and
/// takes the values -1, 0 and 1.
pub proof fn lemma_chars_order_props(a: Seq<char>, b: Seq<char>)
    ensures
        chars_order(a, b) == -chars_order(b, a),
        (chars_order(a, b) == 0) == (a == b),
        -1 <= chars_order(a, b) <= 1,
    decreases a.len(),
{
    if a.len() > 0 && b.len() > 0 {
        lemma_chars_order_props(a.drop_first(), b.drop_first());
        if a == b {
            assert(a.drop_first() == b.drop_first());
        }
        if char_order(a[0], b[0]) == 0 && a.drop_first() == b.drop_first() {
            assert(a =~= seq![a[0]] + a.drop_first());
            assert(b =~= seq![b[0]] + b.drop_first());
        }
    } else if a.len() == 0 && b.len() == 0 {
        assert(a =~= b);
    }
}

/// The order of character sequences is transitive.
pub proof fn lemma_chars_order_trans(a: Seq<char>, b: Seq<char>, c: Seq<char>)
    requires
        chars_order(a, b) < 0,
        chars_order(b, c) < 0,
    ensures
        chars_order(a, c) < 0,
    decreases a.len(),
{
    if a.len() > 0 && b.len() > 0 && c.len() > 0 {
        if char_order(a[0], b[0]) == 0 && char_order(b[0], c[0]) == 0 {
            lemma_chars_order_trans(a.drop_first(), b.drop_first(), c.drop_first());
        }
    }
}

/// The order of components is antisymmetric, is zero exactly on equal components, and takes
/// the values -1, 0 and 1.
pub proof fn lemma_comp_order_props(a: Comp, b: Comp)
    ensures
        comp_order(a, b) == -comp_order(b, a),
        (comp_order(a, b) == 0) == (a == b),
        -1 <= comp_order(a, b) <= 1,
{
    match (a, b) {
        (Comp::Normal(x), Comp::Normal(y)) => {
            lemma_chars_order_props(x, y);
        },
        _ => {},
    }
}

/// The order of components is transitive.
pub proof fn lemma_comp_order_trans(a: Comp, b: Comp, c: Comp)
    requires
        comp_order(a, b) < 0,
        comp_order(b, c) < 0,
    ensures
        comp_order(a, c) < 0,
{
    match (a, b, c) {
        (Comp::Normal(x), Comp::Normal(y), Comp::Normal(z)) => {
            lemma_chars_order_trans(x, y, z);
        },
        _ => {},
    }
}

/// The order of paths is antisymmetric, is zero exactly on equal component sequences, and takes
/// the values -1, 0 and 1.
pub proof fn lemma_comps_order_props(a: Seq<Comp>, b: Seq<Comp>)
    ensures
        comps_order(a, b) == -comps_order(b, a),
        (comps_order(a, b) == 0) == (a == b),
        -1 <= comps_order(a, b) <= 1,
    decreases a.len(),
{
    if a.len() > 0 && b.len() > 0 {
        lemma_comp_order_props(a[0], b[0]);
        lemma_comps_order_props(a.drop_first(), b.drop_first());
        if a == b {
            assert(a.drop_first() == b.drop_first());
        }
        if comp_order(a[0], b[0]) == 0 && a.drop_first() == b.drop_first() {
            assert(a =~= seq![a[0]] + a.drop_first());
            assert(b =~= seq![b[0]] + b.drop_first());
        }
    } else if a.len() == 0 && b.len() == 0 {
        assert(a =~= b);
    }
}

/// The order of paths is transitive.
pub proof fn lemma_comps_order_trans(a: Seq<Comp>, b: Seq<Comp>, c: Seq<Comp>)
    requires
        comps_order(a, b) < 0,
        comps_order(b, c) < 0,
    ensures
        comps_order(a, c) < 0,
    decreases a.len(),
{
    if a.len() > 0 && b.len() > 0 && c.len() > 0 {
        lemma_comp_order_props(a[0], b[0]);
        lemma_comp_order_props(b[0], c[0]);
        lemma_comp_order_props(a[0], c[0]);
        if comp_order(a[0], b[0]) < 0 && comp_order(b[0], c[0]) < 0 {
            lemma_comp_order_trans(a[0], b[0], c[0]);
        } else if comp_order(a[0], b[0]) == 0 && comp_order(b[0], c[0]) == 0 {
            lemma_comps_order_trans(a.drop_first(), b.drop_first(), c.drop_first());
        }
    }
}

fn compare_char_seqs(a: &Vec<char>, b: &Vec<char>) -> (r: i8)
    ensures
        r as int == chars_order(a@, b@),
{
    let mut i: usize = 0;
    assert(a@.skip(0) =~= a@);
    assert(b@.skip(0) =~= b@);
    while i < a.len() && i < b.len()
        invariant
            i <= a@.len(),
            i <= b@.len(),
            chars_order(a@, b@) == chars_order(a@.skip(i as int), b@.skip(i as int)),
        decreases a.len() - i,
    {
        let x = a[i];
        let y = b[i];
        if x < y {
            return -1;
        }
        if x > y {
            return 1;
        }
        assert(a@.skip(i as int).drop_first() =~= a@.skip(i + 1 as int));
        assert(b@.skip(i as int).drop_first() =~= b@.skip(i + 1 as int));
        i = i + 1;
    }
    if i < a.len() {
        1
    } else if i < b.len() {
        -1
    } else {
        0
    }
}

fn rank_of(c: &PathComponent) -> (r: u8)
    ensures
        r as int == comp_rank(c.view()),
{
    match c {
        PathComponent::RootDir => 0,
        PathComponent::CurDir => 1,
        PathComponent::ParentDir => 2,
        PathComponent::Normal(_) => 3,
    }
}

fn compare_component(a: &PathComponent, b: &PathComponent) -> (r: i8)
    ensures
        r as int == comp_order(a.view(), b.view()),
{
    let ra = rank_of(a);
    let rb = rank_of(b);
    if ra < rb {
        -1
    } else if ra > rb {
        1
    } else {
        match (a, b) {
            (PathComponent::Normal(x), PathComponent::Normal(y)) => compare_char_seqs(x, y),
            _ => 0,
        }
    }
}

/// Compares two component lists in path order.
pub fn compare_components(a: &Vec<PathComponent>, b: &Vec<PathComponent>) -> (r: i8)
    ensures
        r as int == comps_order(comps_view(a@), comps_view(b@)),
{
    let ghost va = comps_view(a@);
    let ghost vb = comps_view(b@);
    let mut i: usize = 0;
    assert(va.skip(0) =~= va);
    assert(vb.skip(0) =~= vb);
    while i < a.len() && i < b.len()
        invariant
            i <= a@.len(),
            i <= b@.len(),
            va == comps_view(a@),
            vb == comps_view(b@),
            comps_order(va, vb) == comps_order(va.skip(i as int), vb.skip(i as int)),
        decreases a.len() - i,
    {
        let c = compare_component(&a[i], &b[i]);
        assert(va.skip(i as int)[0] == a@[i as int].view());
        assert(vb.skip(i as int)[0] == b@[i as int].view());
        if c != 0 {
            return c;
        }
        assert(va.skip(i as int).drop_first() =~= va.skip(i + 1 as int));
        assert(vb.skip(i as int).drop_first() =~= vb.skip(i + 1 as int));
        i = i + 1;
    }
    if i < a.len() {
        1
    } else if i < b.len() {
        -1
    } else {
        0
    }
}

/// The components of the parent, from the components of a path.
pub fn parent_components(c: &Vec<PathComponent>) -> (r: Vec<PathComponent>)
    ensures
        comps_view(r@) == parent_comps(comps_view(c@)),
{
    let n = c.len();
    let mut out: Vec<PathComponent> = Vec::new();
    let keep = n > 0 && !matches!(c[n - 1], PathComponent::RootDir);
    if keep {
        let mut i: usize = 0;
        while i + 1 < n
            invariant
                i + 1 <= n,
                n == c@.len(),
                comps_view(out@) =~= comps_view(c@).take(i as int),
            decreases n - i,
        {
            let ghost prev = out@;
            out.push(copy_component(&c[i]));
            assert(comps_view(out@) =~= comps_view(prev).push(c@[i as int].view()));
            assert(comps_view(c@).take(i + 1 as int) =~= comps_view(c@).take(i as int).push(c@[i as int].view()));
            i = i + 1;
        }
        assert(comps_view(c@).take(n - 1) =~= comps_view(c@).drop_last());
    } else {
        assert(comps_view(out@) =~= parent_comps(comps_view(c@)));
    }
    out
}

fn copy_component(c: &PathComponent) -> (r: PathComponent)
    ensures
        r.view() == c.view(),
{
    match c {
        PathComponent::RootDir => PathComponent::RootDir,
        PathComponent::CurDir => PathComponent::CurDir,
        PathComponent::ParentDir => PathComponent::ParentDir,
        PathComponent::Normal(v) => {
            let mut copy: Vec<char> = Vec::new();
            let mut i: usize = 0;
            while i < v.len()
                invariant
                    i <= v@.len(),
                    copy@ =~= v@.take(i as int),
                decreases v.len() - i,
            {
                copy.push(v[i]);
                i = i + 1;
            }
            assert(v@.take(v@.len() as int) =~= v@);
            PathComponent::Normal(copy)
        },
    }
}

/// `base` joined with `rel` as `Path::join` does on Unix: an absolute `rel`
/// replaces `base`; otherwise a `/` goes between them unless `base` is empty
/// or already ends in `/`.
pub open spec fn join(base: Seq<char>, rel: Seq<char>) -> Seq<char> {
    if rel.len() > 0 && rel[0] == '/' {
        rel
    } else if base.len() > 0 && base.last() != '/' {
        base + seq!['/'] + rel
    } else {
        base + rel
    }
}

/// Joins two paths as `Path::join` does on Unix.
pub fn join_paths(base: &str, rel: &str) -> (r: String)
    ensures
        r@ == join(base@, rel@),
{
    let b = crate::text::chars_of(base);
    let rc = crate::text::chars_of(rel);
    if rc.len() > 0 && rc[0] == '/' {
        String::from_str(rel)
    } else if b.len() > 0 && b[b.len() - 1] != '/' {
        let mut out = String::from_str(base);
        out.append("/");
        out.append(rel);
        proof { reveal_strlit("/"); }
        out
    } else {
        let mut out = String::from_str(base);
        out.append(rel);
        out
    }
}

/// Whether two paths are equal as `Path` compares them on Unix: component by component
/// (so `a/b`, `a//b` and `a/b/` are the same path).
pub fn same_path(a: &str, b: &str) -> (r: bool)
    ensures
        r == (components(a@) == components(b@)),
{
    let ca = path_components(&crate::text::chars_of(a));
    let cb = path_components(&crate::text::chars_of(b));
    let c = compare_components(&ca, &cb);
    proof {
        lemma_comps_order_props(comps_view(ca@), comps_view(cb@));
    }
    c == 0
}

} // verus!
