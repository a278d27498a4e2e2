//! Paths as sequences of components, compared the way `std::path::Path`
//! compares them on Unix: a leading root, a leading `.`, `..`, then the
//! normal components; repeated separators, trailing separators and inner `.`
//! components do not count.

use vstd::prelude::*;
use crate::text::{lex_less, lemma_lex_less_order, str_less, str_equal, push_char};

verus! {

/// `done` with the finished piece `piece` appended, unless the piece is
/// empty or `.`.
pub open spec fn keep_part(done: Seq<Seq<char>>, piece: Seq<char>) -> Seq<Seq<char>> {
    if piece.len() == 0 || piece == seq!['.'] {
        done
    } else {
        done.push(piece)
    }
}

/// The finished components of `p` and the piece after its last separator.
pub open spec fn scan_parts(p: Seq<char>) -> (Seq<Seq<char>>, Seq<char>)
    decreases p.len(),
{
    if p.len() == 0 {
        (Seq::empty(), Seq::empty())
    } else {
        let (done, piece) = scan_parts(p.drop_last());
        if p.last() == '/' {
            (keep_part(done, piece), Seq::empty())
        } else {
            (done, piece.push(p.last()))
        }
    }
}

/// Whether `p` starts with the current-directory component `.`.
pub open spec fn starts_at_cur_dir(p: Seq<char>) -> bool {
    p.len() > 0 && p[0] == '.' && (p.len() == 1 || p[1] == '/')
}

/// The components of `p`: `/` for the root, `.` for a leading current
/// directory, then each normal or `..` component.
pub open spec fn path_components(p: Seq<char>) -> Seq<Seq<char>> {
    let head: Seq<Seq<char>> = if p.len() > 0 && p[0] == '/' {
        seq![seq!['/']]
    } else if starts_at_cur_dir(p) {
        seq![seq!['.']]
    } else {
        Seq::empty()
    };
    head + keep_part(scan_parts(p).0, scan_parts(p).1)
}

/// Rank of a component kind: root, current directory, parent, normal.
pub open spec fn part_rank(c: Seq<char>) -> int {
    if c == seq!['/'] {
        0
    } else if c == seq!['.'] {
        1
    } else if c == seq!['.', '.'] {
        2
    } else {
        3
    }
}

/// Order of two components: by kind, then normal components by text.
pub open spec fn part_less(a: Seq<char>, b: Seq<char>) -> bool {
    part_rank(a) < part_rank(b) || (part_rank(a) == part_rank(b) && lex_less(a, b))
}

/// Lexicographic order of component sequences.
pub open spec fn parts_less(a: Seq<Seq<char>>, b: Seq<Seq<char>>) -> bool
    decreases a.len(),
{
    if a.len() == 0 {
        b.len() > 0
    } else if b.len() == 0 {
        false
    } else if a[0] != b[0] {
        part_less(a[0], b[0])
    } else {
        parts_less(a.drop_first(), b.drop_first())
    }
}

/// Path `a` sorts strictly before path `b`.
pub open spec fn path_less(a: Seq<char>, b: Seq<char>) -> bool {
    parts_less(path_components(a), path_components(b))
}

/// Paths `a` and `b` are equal as paths (the same components).
pub open spec fn path_same(a: Seq<char>, b: Seq<char>) -> bool {
    path_components(a) == path_components(b)
}

proof fn lemma_part_order(a: Seq<char>, b: Seq<char>, c: Seq<char>)
    ensures
        !part_less(a, a),
        part_less(a, b) ==> !part_less(b, a),
        a != b ==> part_less(a, b) || part_less(b, a),
        part_less(a, b) && part_less(b, c) ==> part_less(a, c),
{
    lemma_lex_less_order(a, b, c);
    lemma_lex_less_order(b, a, c);
}

proof fn lemma_parts_order(a: Seq<Seq<char>>, b: Seq<Seq<char>>, c: Seq<Seq<char>>)
    ensures
        !parts_less(a, a),
        parts_less(a, b) ==> !parts_less(b, a),
        a != b ==> parts_less(a, b) || parts_less(b, a),
        parts_less(a, b) && parts_less(b, c) ==> parts_less(a, c),
    decreases a.len(),
{
    if a.len() == 0 {
        if b.len() == 0 {
            assert(a =~= b);
        }
    } else if b.len() == 0 {
        lemma_parts_order(a.drop_first(), b, c);
    } else {
        let cc = if c.len() > 0 { c.drop_first() } else { c };
        lemma_parts_order(a.drop_first(), b.drop_first(), cc);
        let c0 = if c.len() > 0 { c[0] } else { a[0] };
        lemma_part_order(a[0], b[0], c0);
        lemma_part_order(b[0], c0, a[0]);
        lemma_part_order(c0, a[0], b[0]);
        if a != b && a[0] == b[0] && a.drop_first() == b.drop_first() {
            assert(a =~= b) by {
                assert forall|i: int| 0 <= i < a.len() implies a[i] == b[i] by {
                    if i > 0 {
                        assert(a[i] == a.drop_first()[i - 1]);
                        assert(b[i] == b.drop_first()[i - 1]);
                    }
                }
            }
        }
    }
}

/// Path order is a strict total order on component sequences: irreflexive,
/// one-way, total up to equal components, and transitive.
pub proof fn lemma_path_order(a: Seq<char>, b: Seq<char>, c: Seq<char>)
    ensures
        !path_less(a, a),
        path_less(a, b) ==> !path_less(b, a),
        !path_same(a, b) ==> path_less(a, b) || path_less(b, a),
        path_less(a, b) && path_less(b, c) ==> path_less(a, c),
        !path_less(a, b) && !path_less(b, c) ==> !path_less(a, c),
        path_same(a, b) ==> !path_less(a, b),
{
    let pa = path_components(a);
    let pb = path_components(b);
    let pc = path_components(c);
    lemma_parts_order(pa, pb, pc);
    lemma_parts_order(pb, pa, pc);
    lemma_parts_order(pc, pb, pa);
    lemma_parts_order(pb, pc, pa);
    lemma_parts_order(pa, pc, pb);
    lemma_parts_order(pc, pa, pb);
}

/// The components of a path, computed left to right.
pub fn path_components_of(p: &str) -> (r: Vec<String>)
    ensures
        r.deep_view() == path_components(p@),
{
    let n = p.unicode_len();
    let mut done: Vec<String> = Vec::new();
    let mut piece = String::new();
    let mut i: usize = 0;
    while i < n
        invariant
            n == p@.len(),
            i <= n,
            (done.deep_view(), piece@) == scan_parts(p@.subrange(0, i as int)),
        decreases n - i,
    {
        let c = p.get_char(i);
        assert(p@.subrange(0, i + 1).drop_last() =~= p@.subrange(0, i as int));
        if c == '/' {
            done = keep_piece(done, piece);
            piece = String::new();
        } else {
            push_char(&mut piece, c);
        }
        i = i + 1;
    }
    assert(p@.subrange(0, n as int) =~= p@);
    let body = keep_piece(done, piece);
    let mut out: Vec<String> = Vec::new();
    if n > 0 && p.get_char(0) == '/' {
        out.push("/".to_owned());
        proof {
            reveal_strlit("/");
            assert("/"@ =~= seq!['/']);
            assert(out.deep_view() =~= seq![seq!['/']]);
        }
    } else if n > 0 && p.get_char(0) == '.' && (n == 1 || p.get_char(1) == '/') {
        assert(starts_at_cur_dir(p@));
        out.push(".".to_owned());
        proof {
            reveal_strlit(".");
            assert("."@ =~= seq!['.']);
            assert(out.deep_view() =~= seq![seq!['.']]);
        }
    }
    assert(out.deep_view() =~= (if p@.len() > 0 && p@[0] == '/' {
        seq![seq!['/']]
    } else if starts_at_cur_dir(p@) {
        seq![seq!['.']]
    } else {
        Seq::<Seq<char>>::empty()
    }));
    let ghost head = out.deep_view();
    let mut j: usize = 0;
    while j < body.len()
        invariant
            j <= body@.len(),
            out.deep_view() == head + body.deep_view().subrange(0, j as int),
        decreases body@.len() - j,
    {
        let s = body[j].as_str().to_owned();
        let ghost before = out.deep_view();
        out.push(s);
        assert(out.deep_view() =~= before.push(body.deep_view()[j as int]));
        j = j + 1;
        assert(out.deep_view() =~= head + body.deep_view().subrange(0, j as int));
    }
    assert(body.deep_view().subrange(0, body@.len() as int) =~= body.deep_view());
    out
}

/// `done` with `piece` appended unless it is empty or `.`.
fn keep_piece(done: Vec<String>, piece: String) -> (r: Vec<String>)
    ensures
        r.deep_view() == keep_part(done.deep_view(), piece@),
{
    let mut done = done;
    proof {
        reveal_strlit(".");
        assert("."@ =~= seq!['.']);
    }
    if piece.unicode_len() == 0 || str_equal(piece.as_str(), ".") {
        assert(piece@.len() == 0 || piece@ =~= seq!['.']);
        done
    } else {
        assert(piece@ != seq!['.']);
        let ghost before = done.deep_view();
        done.push(piece);
        assert(done.deep_view() =~= before.push(piece@));
        done
    }
}

/// Rank of a component kind.
fn part_rank_of(c: &str) -> (r: u8)
    ensures
        r as int == part_rank(c@),
{
    proof {
        reveal_strlit("/");
        reveal_strlit(".");
        reveal_strlit("..");
        assert("/"@ =~= seq!['/']);
        assert("."@ =~= seq!['.']);
        assert(".."@ =~= seq!['.', '.']);
    }
    if str_equal(c, "/") {
        0
    } else if str_equal(c, ".") {
        1
    } else if str_equal(c, "..") {
        2
    } else {
        3
    }
}

/// Whether path `a` sorts strictly before path `b`.
pub fn path_precedes(a: &str, b: &str) -> (r: bool)
    ensures
        r == path_less(a@, b@),
{
    let pa = path_components_of(a);
    let pb = path_components_of(b);
    let ghost va = pa.deep_view();
    let ghost vb = pb.deep_view();
    let mut i: usize = 0;
    assert(va.subrange(0, va.len() as int) =~= va);
    assert(vb.subrange(0, vb.len() as int) =~= vb);
    while i < pa.len() && i < pb.len() && str_equal(pa[i].as_str(), pb[i].as_str())
        invariant
            va == pa.deep_view(),
            vb == pb.deep_view(),
            i <= va.len(),
            i <= vb.len(),
            parts_less(va, vb) == parts_less(va.subrange(i as int, va.len() as int), vb.subrange(i as int, vb.len() as int)),
        decreases va.len() - i,
    {
        assert(va[i as int] == pa@[i as int]@);
        assert(vb[i as int] == pb@[i as int]@);
        assert(va.subrange(i as int, va.len() as int).drop_first() =~= va.subrange(i + 1, va.len() as int));
        assert(vb.subrange(i as int, vb.len() as int).drop_first() =~= vb.subrange(i + 1, vb.len() as int));
        i = i + 1;
    }
    if i == pa.len() {
        i < pb.len()
    } else if i == pb.len() {
        false
    } else {
        assert(va[i as int] == pa@[i as int]@);
        assert(vb[i as int] == pb@[i as int]@);
        let ra = part_rank_of(pa[i].as_str());
        let rb = part_rank_of(pb[i].as_str());
        ra < rb || (ra == rb && str_less(pa[i].as_str(), pb[i].as_str()))
    }
}

/// Whether `a` and `b` name the same path (the same components).
pub fn path_equal(a: &str, b: &str) -> (r: bool)
    ensures
        r == path_same(a@, b@),
{
    let pa = path_components_of(a);
    let pb = path_components_of(b);
    if pa.len() != pb.len() {
        assert(pa.deep_view().len() != pb.deep_view().len());
        return false;
    }
    let mut i: usize = 0;
    while i < pa.len()
        invariant
            pa@.len() == pb@.len(),
            pa.deep_view() == path_components(a@),
            pb.deep_view() == path_components(b@),
            i <= pa@.len(),
            forall|j: int| 0 <= j < i ==> pa.deep_view()[j] == #[trigger] pb.deep_view()[j],
        decreases pa@.len() - i,
    {
        assert(pa.deep_view()[i as int] == pa@[i as int]@);
        assert(pb.deep_view()[i as int] == pb@[i as int]@);
        if !str_equal(pa[i].as_str(), pb[i].as_str()) {
            assert(pa.deep_view()[i as int] != pb.deep_view()[i as int]);
            return false;
        }
        i = i + 1;
    }
    assert(pa.deep_view() =~= pb.deep_view());
    true
}


/// `s` with `x` inserted after every path that `x` does not sort before.
pub open spec fn insert_path(s: Seq<Seq<char>>, x: Seq<char>) -> Seq<Seq<char>>
    decreases s.len(),
{
    if s.len() == 0 {
        seq![x]
    } else if path_less(x, s.last()) {
        insert_path(s.drop_last(), x).push(s.last())
    } else {
        s.push(x)
    }
}

/// The stable sort of `s` by path order (`<[PathBuf]>::sort`).
pub open spec fn sort_paths(s: Seq<Seq<char>>) -> Seq<Seq<char>>
    decreases s.len(),
{
    if s.len() == 0 {
        s
    } else {
        insert_path(sort_paths(s.drop_last()), s.last())
    }
}

/// `s` without each path that names the same path as the one kept just
/// before it (`Vec::dedup`).
pub open spec fn dedup_paths(s: Seq<Seq<char>>) -> Seq<Seq<char>>
    decreases s.len(),
{
    if s.len() == 0 {
        s
    } else {
        let d = dedup_paths(s.drop_last());
        if d.len() > 0 && path_same(d.last(), s.last()) {
            d
        } else {
            d.push(s.last())
        }
    }
}

proof fn lemma_insert_path_at(s: Seq<Seq<char>>, x: Seq<char>, k: int)
    requires
        0 <= k <= s.len(),
        forall|j: int| k <= j < s.len() ==> path_less(x, #[trigger] s[j]),
        k == 0 || !path_less(x, s[k - 1]),
    ensures
        insert_path(s, x) == s.insert(k, x),
    decreases s.len(),
{
    if s.len() == 0 {
        assert(s.insert(k, x) =~= seq![x]);
    } else if k == s.len() {
        assert(s.insert(k, x) =~= s.push(x));
    } else {
        assert(path_less(x, s[s.len() - 1]));
        lemma_insert_path_at(s.drop_last(), x, k);
        assert(s.drop_last().insert(k, x).push(s.last()) =~= s.insert(k, x));
    }
}

/// The paths sorted by path order, without repeats of the same path.
pub fn sort_unique_paths(paths: Vec<String>) -> (r: Vec<String>)
    ensures
        r.deep_view() == dedup_paths(sort_paths(paths.deep_view())),
{
    let ghost all = paths.deep_view();
    let mut rest = paths;
    let mut out: Vec<String> = Vec::new();
    let n = rest.len();
    let mut i: usize = 0;
    while i < n
        invariant
            n == all.len(),
            i <= n,
            rest.deep_view() == all.subrange(i as int, n as int),
            out.deep_view() == sort_paths(all.subrange(0, i as int)),
        decreases n - i,
    {
        let ghost rv = rest.deep_view();
        assert(rest@.len() == rv.len());
        assert(rv[0] == rest@[0]@);
        let x = rest.remove(0);
        assert(x@ == rv[0]);
        assert(rest.deep_view() =~= rv.drop_first());
        assert(rv.drop_first() =~= all.subrange(i + 1, n as int));
        let mut k: usize = out.len();
        while k > 0 && path_precedes(x.as_str(), out[k - 1].as_str())
            invariant
                k <= out@.len(),
                forall|j: int| k <= j < out@.len() ==> path_less(x@, #[trigger] out.deep_view()[j]),
            decreases k,
        {
            assert(out.deep_view()[k - 1] == out@[k - 1]@);
            k = k - 1;
        }
        if k > 0 {
            assert(out.deep_view()[k - 1] == out@[k - 1]@);
        }
        let ghost before = out.deep_view();
        proof {
            lemma_insert_path_at(before, x@, k as int);
            assert(all.subrange(0, i + 1).drop_last() =~= all.subrange(0, i as int));
            assert(all.subrange(0, i + 1).last() == x@);
        }
        out.insert(k, x);
        assert(out.deep_view() =~= before.insert(k as int, x@));
        i = i + 1;
    }
    assert(all.subrange(0, n as int) =~= all);
    let ghost sorted = out.deep_view();
    let mut kept: Vec<String> = Vec::new();
    let mut j: usize = 0;
    while j < out.len()
        invariant
            sorted == out.deep_view(),
            j <= sorted.len(),
            kept.deep_view() == dedup_paths(sorted.subrange(0, j as int)),
        decreases sorted.len() - j,
    {
        assert(sorted.subrange(0, j + 1).drop_last() =~= sorted.subrange(0, j as int));
        assert(sorted[j as int] == out@[j as int]@);
        let last = kept.len();
        let same = if last > 0 {
            assert(kept.deep_view()[last - 1] == kept@[last - 1]@);
            path_equal(kept[last - 1].as_str(), out[j].as_str())
        } else {
            false
        };
        if !same {
            let ghost before = kept.deep_view();
            kept.push(out[j].as_str().to_owned());
            assert(kept.deep_view() =~= before.push(sorted[j as int]));
        }
        j = j + 1;
    }
    assert(sorted.subrange(0, sorted.len() as int) =~= sorted);
    kept
}


/// No path of `s` sorts before a path ahead of it.
pub open spec fn paths_sorted(s: Seq<Seq<char>>) -> bool {
    forall|i: int, j: int| 0 <= i < j < s.len() ==> !path_less(#[trigger] s[j], #[trigger] s[i])
}

/// Every path of `s` sorts strictly before every path after it.
pub open spec fn paths_strictly_sorted(s: Seq<Seq<char>>) -> bool {
    forall|i: int, j: int| 0 <= i < j < s.len() ==> path_less(#[trigger] s[i], #[trigger] s[j])
}

proof fn lemma_insert_path_sorted(s: Seq<Seq<char>>, x: Seq<char>)
    requires
        paths_sorted(s),
    ensures
        paths_sorted(insert_path(s, x)),
        insert_path(s, x).to_multiset() =~= s.to_multiset().insert(x),
    decreases s.len(),
{
    broadcast use vstd::seq_lib::group_to_multiset_ensures;
    if s.len() == 0 {
        assert(seq![x] =~= Seq::<Seq<char>>::empty().push(x));
    } else if path_less(x, s.last()) {
        let t = s.drop_last();
        let last = s.last();
        assert(s =~= t.push(last));
        lemma_insert_path_sorted(t, x);
        let r = insert_path(t, x);
        assert forall|i: int| 0 <= i < r.len() implies !path_less(last, #[trigger] r[i]) by {
            assert(r.to_multiset().count(r[i]) > 0);
            if r[i] == x {
                lemma_path_order(x, last, last);
            } else {
                assert(t.to_multiset().count(r[i]) > 0);
                assert(t.contains(r[i]));
                let j = choose|j: int| 0 <= j < t.len() && t[j] == r[i];
                assert(s[j] == t[j]);
                assert(s[s.len() - 1] == last);
            }
        }
        let rr = r.push(last);
        assert forall|i: int, j: int| 0 <= i < j < rr.len() implies !path_less(#[trigger] rr[j], #[trigger] rr[i]) by {
            if j < r.len() {
                assert(rr[j] == r[j] && rr[i] == r[i]);
            } else {
                assert(rr[j] == last && rr[i] == r[i]);
            }
        }
    } else {
        let last = s.last();
        let rr = s.push(x);
        assert forall|i: int, j: int| 0 <= i < j < rr.len() implies !path_less(#[trigger] rr[j], #[trigger] rr[i]) by {
            if j < s.len() {
                assert(rr[j] == s[j] && rr[i] == s[i]);
            } else {
                assert(rr[i] == s[i]);
                if i < s.len() - 1 {
                    assert(!path_less(s[s.len() - 1], s[i]));
                    lemma_path_order(x, last, s[i]);
                }
            }
        }
    }
}

proof fn lemma_sort_paths(s: Seq<Seq<char>>)
    ensures
        paths_sorted(sort_paths(s)),
        sort_paths(s).to_multiset() =~= s.to_multiset(),
    decreases s.len(),
{
    broadcast use vstd::seq_lib::group_to_multiset_ensures;
    if s.len() > 0 {
        lemma_sort_paths(s.drop_last());
        lemma_insert_path_sorted(sort_paths(s.drop_last()), s.last());
        assert(s =~= s.drop_last().push(s.last()));
    }
}

proof fn lemma_dedup_members(s: Seq<Seq<char>>)
    ensures
        forall|i: int| 0 <= i < dedup_paths(s).len() ==> s.contains(#[trigger] dedup_paths(s)[i]),
        s.len() > 0 ==> dedup_paths(s).len() > 0,
    decreases s.len(),
{
    if s.len() > 0 {
        let t = s.drop_last();
        let x = s.last();
        lemma_dedup_members(t);
        let d = dedup_paths(t);
        let r = dedup_paths(s);
        assert forall|i: int| 0 <= i < r.len() implies s.contains(#[trigger] r[i]) by {
            if i < d.len() {
                assert(r[i] == d[i]);
                assert(t.contains(d[i]));
                let j = choose|j: int| 0 <= j < t.len() && t[j] == d[i];
                assert(s[j] == t[j]);
            } else {
                assert(r[i] == x);
                assert(s[s.len() - 1] == x);
            }
        }
    }
}

proof fn lemma_dedup_covers(s: Seq<Seq<char>>)
    ensures
        forall|i: int| 0 <= i < s.len() ==> exists|j: int|
            0 <= j < dedup_paths(s).len() && path_same(#[trigger] s[i], dedup_paths(s)[j]),
    decreases s.len(),
{
    if s.len() > 0 {
        let t = s.drop_last();
        let x = s.last();
        lemma_dedup_covers(t);
        let d = dedup_paths(t);
        let r = dedup_paths(s);
        assert forall|i: int| 0 <= i < s.len() implies exists|j: int|
            0 <= j < r.len() && path_same(#[trigger] s[i], r[j]) by {
            if i < t.len() {
                assert(s[i] == t[i]);
                let j = choose|j: int| 0 <= j < d.len() && path_same(#[trigger] t[i], d[j]);
                assert(r[j] == d[j]);
            } else if d.len() > 0 && path_same(d.last(), x) {
                assert(r == d);
                assert(path_same(s[i], r[d.len() - 1]));
            } else {
                assert(r[d.len() as int] == x);
                assert(path_same(s[i], r[d.len() as int]));
            }
        }
    }
}

#[verifier::rlimit(30)]
proof fn lemma_dedup_strict(s: Seq<Seq<char>>)
    requires
        paths_sorted(s),
    ensures
        paths_strictly_sorted(dedup_paths(s)),
    decreases s.len(),
{
    if s.len() > 0 {
        let t = s.drop_last();
        let x = s.last();
        assert forall|i: int, j: int| 0 <= i < j < t.len() implies !path_less(#[trigger] t[j], #[trigger] t[i]) by {
            assert(t[i] == s[i] && t[j] == s[j]);
        }
        lemma_dedup_strict(t);
        lemma_dedup_members(t);
        let d = dedup_paths(t);
        let r = dedup_paths(s);
        if !(d.len() > 0 && path_same(d.last(), x)) {
            assert(r == d.push(x));
            if d.len() > 0 {
                let last = d[d.len() - 1];
                assert(t.contains(last));
                let k = choose|k: int| 0 <= k < t.len() && t[k] == last;
                assert(s[k] == last);
                assert(s[s.len() - 1] == x);
                assert(!path_less(x, last));
                lemma_path_order(last, x, x);
                assert(path_less(last, x));
                assert forall|i: int| 0 <= i < d.len() implies path_less(#[trigger] d[i], x) by {
                    if i < d.len() - 1 {
                        assert(path_less(d[i], last));
                        lemma_path_order(d[i], last, x);
                    }
                }
            }
            assert forall|i: int, j: int| 0 <= i < j < r.len() implies path_less(#[trigger] r[i], #[trigger] r[j]) by {
                if j < d.len() {
                    assert(r[i] == d[i] && r[j] == d[j]);
                } else {
                    assert(r[j] == x);
                    assert(r[i] == d[i]);
                }
            }
        }
    }
}

/// The directories and roots that combined search strategies use are in
/// path order with no path named twice, and every path given is named by
/// one of them.
pub proof fn law_unique_sorted_paths(s: Seq<Seq<char>>)
    ensures
        paths_strictly_sorted(dedup_paths(sort_paths(s))),
        forall|i: int| 0 <= i < s.len() ==> exists|j: int|
            0 <= j < dedup_paths(sort_paths(s)).len() && path_same(#[trigger] s[i], dedup_paths(sort_paths(s))[j]),
{
    broadcast use vstd::seq_lib::group_to_multiset_ensures;
    lemma_sort_paths(s);
    lemma_dedup_strict(sort_paths(s));
    lemma_dedup_covers(sort_paths(s));
    let t = sort_paths(s);
    let d = dedup_paths(t);
    assert forall|i: int| 0 <= i < s.len() implies exists|j: int|
        0 <= j < d.len() && path_same(#[trigger] s[i], d[j]) by {
        assert(s.to_multiset().count(s[i]) > 0);
        assert(t.to_multiset().count(s[i]) > 0);
        assert(t.contains(s[i]));
        let k = choose|k: int| 0 <= k < t.len() && t[k] == s[i];
        let j = choose|j: int| 0 <= j < d.len() && path_same(#[trigger] t[k], d[j]);
    }
}

} // verus!
