//! File paths held as strings: joining, prefixes, extensions and the order
//! in which paths sort.
//!
//! Paths are handled as written, with `/` as the separator. The paths that
//! reach these functions are canonical (no `.` or `..` components, no doubled
//! or trailing separators), and on such paths each function agrees with the
//! component-wise behaviour of `std::path`.

use vstd::prelude::*;

use crate::text::{chars_of, string_of_range};

verus! {

/// Rank of a character in path order: the separator sorts before every
/// other character, so that two paths compare component by component.
pub open spec fn path_rank(c: char) -> int {
    if c == '/' {
        -1
    } else {
        (c as u32) as int
    }
}

/// `a` sorts no later than `b`, comparing from position `i` on.
pub open spec fn path_le_from(a: Seq<char>, b: Seq<char>, i: int) -> bool
    decreases a.len() - i,
{
    if i < 0 || i >= a.len() {
        true
    } else if i >= b.len() {
        false
    } else if a[i] == b[i] {
        path_le_from(a, b, i + 1)
    } else {
        path_rank(a[i]) < path_rank(b[i])
    }
}

/// `a` sorts no later than `b` in path order.
pub open spec fn path_le(a: Seq<char>, b: Seq<char>) -> bool {
    path_le_from(a, b, 0)
}

/// Any two paths are ordered one way or the other.
pub proof fn lemma_path_le_total(a: Seq<char>, b: Seq<char>, i: int)
    requires
        0 <= i,
    ensures
        path_le_from(a, b, i) || path_le_from(b, a, i),
    decreases a.len() - i,
{
    if i < a.len() && i < b.len() {
        if a[i] == b[i] {
            lemma_path_le_total(a, b, i + 1);
        } else {
            vstd::utf8::char_u32_cast(a[i], a[i] as u32);
            vstd::utf8::char_u32_cast(b[i], b[i] as u32);
        }
    }
}

/// Path order is transitive.
pub proof fn lemma_path_le_trans(a: Seq<char>, b: Seq<char>, c: Seq<char>, i: int)
    requires
        0 <= i,
        path_le_from(a, b, i),
        path_le_from(b, c, i),
    ensures
        path_le_from(a, c, i),
    decreases a.len() - i,
{
    if i < a.len() {
        if a[i] == b[i] && b[i] == c[i] {
            lemma_path_le_trans(a, b, c, i + 1);
        } else {
            vstd::utf8::char_u32_cast(a[i], a[i] as u32);
            vstd::utf8::char_u32_cast(c[i], c[i] as u32);
        }
    }
}

/// Whether `a` sorts no later than `b` in path order.
pub fn path_le_exec(a: &str, b: &str) -> (r: bool)
    ensures
        r == path_le(a@, b@),
{
    let av = chars_of(a);
    let bv = chars_of(b);
    let mut i: usize = 0;
    while i < av.len()
        invariant
            av@ == a@,
            bv@ == b@,
            i <= av@.len(),
            path_le(a@, b@) == path_le_from(a@, b@, i as int),
        decreases av@.len() - i,
    {
        if i >= bv.len() {
            return false;
        }
        let x = av[i];
        let y = bv[i];
        if x != y {
            if x == '/' {
                return true;
            } else if y == '/' {
                return false;
            } else {
                return (x as u32) < (y as u32);
            }
        }
        i = i + 1;
    }
    true
}

/// Every path of the list sorts no later than those after it.
pub open spec fn sorted_paths(s: Seq<String>) -> bool {
    forall|i: int, j: int| 0 <= i < j < s.len() ==> path_le(#[trigger] s[i]@, #[trigger] s[j]@)
}

/// Sorts paths in path order (component by component).
pub fn sort_paths(v: Vec<String>) -> (r: Vec<String>)
    ensures
        r@.to_multiset() == v@.to_multiset(),
        sorted_paths(r@),
{
    broadcast use vstd::seq_lib::group_to_multiset_ensures;
    broadcast use vstd::multiset::group_multiset_axioms;

    let ghost orig = v@;
    let mut src = v;
    let mut r: Vec<String> = Vec::new();
    assert(r@.to_multiset().len() == 0);
    assert(r@.to_multiset() =~= vstd::multiset::Multiset::empty());
    assert(r@.to_multiset().add(src@.to_multiset()) =~= orig.to_multiset());
    while src.len() > 0
        invariant
            r@.to_multiset().add(src@.to_multiset()) == orig.to_multiset(),
            sorted_paths(r@),
        decreases src@.len(),
    {
        let ghost before = src@;
        let x = src.pop().unwrap();
        assert(before =~= src@.push(x));
        let mut p: usize = 0;
        while p < r.len() && path_le_exec(r[p].as_str(), x.as_str())
            invariant
                p <= r@.len(),
                forall|j: int| 0 <= j < p ==> path_le(#[trigger] r@[j]@, x@),
            decreases r@.len() - p,
        {
            p = p + 1;
        }
        let ghost old_r = r@;
        proof {
            if p < old_r.len() {
                lemma_path_le_total(old_r[p as int]@, x@, 0);
                assert forall|j: int| p <= j < old_r.len() implies path_le(x@, #[trigger] old_r[j]@) by {
                    if j > p {
                        lemma_path_le_trans(x@, old_r[p as int]@, old_r[j]@, 0);
                    }
                }
            }
        }
        let ghost xv = x;
        r.insert(p, x);
        proof {
            vstd::seq_lib::to_multiset_insert(old_r, p as int, xv);
            vstd::seq_lib::to_multiset_build(src@, xv);
            assert(r@.to_multiset() == old_r.to_multiset().insert(xv));
            assert(before.to_multiset() == src@.to_multiset().insert(xv));
            assert(r@.to_multiset().add(src@.to_multiset()) =~= old_r.to_multiset().add(
                before.to_multiset(),
            ));
            assert forall|i: int, j: int| 0 <= i < j < r@.len() implies path_le(
                #[trigger] r@[i]@,
                #[trigger] r@[j]@,
            ) by {
                if j < p {
                    assert(r@[i] == old_r[i] && r@[j] == old_r[j]);
                } else if j == p {
                    assert(r@[i] == old_r[i]);
                } else if i < p {
                    assert(r@[i] == old_r[i] && r@[j] == old_r[j - 1]);
                    lemma_path_le_trans(old_r[i]@, x@, old_r[j - 1]@, 0);
                } else if i == p {
                    assert(r@[j] == old_r[j - 1]);
                } else {
                    assert(r@[i] == old_r[i - 1] && r@[j] == old_r[j - 1]);
                }
            }
        }
    }
    r
}

/// `path` relative to `root`: empty when they are the same path, the part
/// after the separator when `path` lies below `root`, `None` otherwise.
pub open spec fn spec_relative_to(root: Seq<char>, path: Seq<char>) -> Option<Seq<char>> {
    if path == root {
        Some(Seq::empty())
    } else if root.len() < path.len() && path.take(root.len() as int) == root {
        if root.len() > 0 && root.last() == '/' {
            Some(path.skip(root.len() as int))
        } else if path[root.len() as int] == '/' {
            Some(path.skip(root.len() as int + 1))
        } else {
            None
        }
    } else {
        None
    }
}

/// `path` relative to `root`, when it lies at or below `root`.
pub fn relative_to(root: &str, path: &str) -> (r: Option<String>)
    ensures
        match r {
            Some(rel) => spec_relative_to(root@, path@) == Some(rel@),
            None => spec_relative_to(root@, path@) is None,
        },
{
    let rv = chars_of(root);
    let pv = chars_of(path);
    let n = rv.len();
    if pv.len() < n {
        proof {
            assert(path@ != root@);
        }
        return None;
    }
    let mut i: usize = 0;
    while i < n
        invariant
            rv@ == root@,
            pv@ == path@,
            n == rv@.len(),
            n <= pv@.len(),
            i <= n,
            forall|j: int| 0 <= j < i ==> rv@[j] == pv@[j],
        decreases n - i,
    {
        if rv[i] != pv[i] {
            proof {
                assert(path@.take(n as int)[i as int] != root@[i as int]);
                assert(path@ != root@);
            }
            return None;
        }
        i = i + 1;
    }
    assert(path@.take(n as int) =~= root@);
    if pv.len() == n {
        assert(path@ =~= root@);
        return Some(String::new());
    }
    if n > 0 && rv[n - 1] == '/' {
        let rel = string_of_range(&pv, n, pv.len());
        assert(rel@ =~= path@.skip(n as int));
        Some(rel)
    } else if pv[n] == '/' {
        let rel = string_of_range(&pv, n + 1, pv.len());
        assert(rel@ =~= path@.skip(n + 1));
        Some(rel)
    } else {
        None
    }
}

/// `rest` appended to `base` as `PathBuf::join` does: an absolute `rest`
/// replaces `base`; otherwise a separator goes between them unless `base`
/// is empty or already ends with one.
pub open spec fn spec_join_path(base: Seq<char>, rest: Seq<char>) -> Seq<char> {
    if rest.len() > 0 && rest[0] == '/' {
        rest
    } else if base.len() == 0 || base.last() == '/' {
        base + rest
    } else {
        base + seq!['/'] + rest
    }
}

/// `rest` appended to `base` as a path.
pub fn join_path(base: &str, rest: &str) -> (r: String)
    ensures
        r@ == spec_join_path(base@, rest@),
{
    let bv = chars_of(base);
    let rv = chars_of(rest);
    if rv.len() > 0 && rv[0] == '/' {
        return rest.to_owned();
    }
    let mut r = base.to_owned();
    proof {
        reveal_strlit("/");
    }
    if !(bv.len() == 0 || bv[bv.len() - 1] == '/') {
        r.append("/");
    }
    r.append(rest);
    r
}

/// Whether the last component of `path` has the extension `nix`: it ends in
/// `.nix` with something before the dot.
pub open spec fn spec_has_nix_extension(path: Seq<char>) -> bool {
    path.len() > 4 && path.skip(path.len() - 4) == ".nix"@ && path[path.len() - 5] != '/'
}

/// Whether the last component of `path` has the extension `nix`.
pub fn has_nix_extension(path: &str) -> (r: bool)
    ensures
        r == spec_has_nix_extension(path@),
{
    let v = chars_of(path);
    let n = v.len();
    proof {
        reveal_strlit(".nix");
    }
    if n <= 4 {
        return false;
    }
    let r = v[n - 4] == '.' && v[n - 3] == 'n' && v[n - 2] == 'i' && v[n - 1] == 'x' && v[n - 5]
        != '/';
    assert(r ==> path@.skip(n - 4) =~= ".nix"@);
    assert(path@.skip(n - 4) == ".nix"@ ==> path@.skip(n - 4)[0] == '.' && path@.skip(n - 4)[1]
        == 'n' && path@.skip(n - 4)[2] == 'i' && path@.skip(n - 4)[3] == 'x');
    r
}

/// `input` with a leading `~/` replaced by the home directory, when there is
/// one; otherwise `input` unchanged.
pub open spec fn spec_expand_tilde(input: Seq<char>, home: Option<Seq<char>>) -> Seq<char> {
    match home {
        Some(h) => if input.len() >= 2 && input[0] == '~' && input[1] == '/' {
            spec_join_path(h, input.skip(2))
        } else {
            input
        },
        None => input,
    }
}

/// Expands a leading `~/` using the home directory `home` (the value of
/// `$HOME`, when it is set).
pub fn expand_tilde(input: &str, home: Option<&str>) -> (r: String)
    ensures
        r@ == spec_expand_tilde(input@, match home {
            Some(h) => Some(h@),
            None => None,
        }),
{
    let v = chars_of(input);
    match home {
        Some(h) => {
            if v.len() >= 2 && v[0] == '~' && v[1] == '/' {
                let rest = string_of_range(&v, 2, v.len());
                assert(rest@ =~= input@.skip(2));
                join_path(h, rest.as_str())
            } else {
                input.to_owned()
            }
        },
        None => input.to_owned(),
    }
}

} // verus!

verus! {

/// Index of the last separator of `p` before position `i`, if any.
pub open spec fn last_separator_before(p: Seq<char>, i: int) -> Option<int>
    decreases i,
{
    if i <= 0 || i > p.len() {
        None
    } else if p[i - 1] == '/' {
        Some(i - 1)
    } else {
        last_separator_before(p, i - 1)
    }
}

/// The directory holding `path`, as `Path::parent` gives it: everything
/// before the last separator (`/` when that separator is the first
/// character), the empty path for a single relative component, and `None`
/// for the root and for the empty path.
pub open spec fn spec_parent(path: Seq<char>) -> Option<Seq<char>> {
    if path.len() == 0 || path == "/"@ {
        None
    } else {
        match last_separator_before(path, path.len() as int) {
            Some(k) => if k == 0 {
                Some("/"@)
            } else {
                Some(path.take(k))
            },
            None => Some(Seq::empty()),
        }
    }
}

proof fn lemma_last_separator_bounds(p: Seq<char>, i: int)
    ensures
        last_separator_before(p, i) matches Some(k) ==> 0 <= k < i && k < p.len() && p[k] == '/',
    decreases i,
{
    if 0 < i <= p.len() && p[i - 1] != '/' {
        lemma_last_separator_bounds(p, i - 1);
    }
}

/// The directory holding `path`.
pub fn parent_dir(path: &str) -> (r: Option<String>)
    ensures
        match r {
            Some(d) => spec_parent(path@) == Some(d@),
            None => spec_parent(path@) is None,
        },
{
    let v = chars_of(path);
    proof {
        reveal_strlit("/");
    }
    if v.len() == 0 || (v.len() == 1 && v[0] == '/') {
        proof {
            if v.len() == 1 {
                assert(path@ =~= "/"@);
            }
        }
        return None;
    }
    assert(path@ != "/"@);
    let mut i: usize = v.len();
    while i > 0 && v[i - 1] != '/'
        invariant
            v@ == path@,
            i <= v@.len(),
            last_separator_before(path@, path@.len() as int) == last_separator_before(
                path@,
                i as int,
            ),
        decreases i,
    {
        i = i - 1;
    }
    proof {
        lemma_last_separator_bounds(path@, i as int);
    }
    if i == 0 {
        Some(String::new())
    } else if i == 1 {
        Some("/".to_owned())
    } else {
        let d = string_of_range(&v, 0, i - 1);
        assert(d@ =~= path@.take(i - 1));
        Some(d)
    }
}

} // verus!

verus! {

/// A path below a (non-empty) root is found again by joining its relative
/// path to the root, when that relative path is neither empty nor absolute.
pub proof fn lemma_join_relative(root: Seq<char>, path: Seq<char>)
    requires
        root.len() > 0,
        spec_relative_to(root, path) matches Some(rel) && rel.len() > 0 && rel[0] != '/',
    ensures
        spec_join_path(root, spec_relative_to(root, path)->0) == path,
{
    let rel = spec_relative_to(root, path)->0;
    if root.last() == '/' {
        assert(root + rel =~= path);
    } else {
        assert(root + seq!['/'] + rel =~= path);
    }
}

} // verus!
