//! The flake being trimmed, its modules, and how they nest.

use vstd::prelude::*;

use crate::config::module::{contains_name, names_contain};
use crate::module::{opt_view, Module};
use crate::trim::ExportModule;

verus! {

/// Nixos configuration.
#[derive(Debug)]
pub struct Flake {
    /// Path of flake.
    pub source: String,
    /// Nixos modules.
    pub nixos_modules: Vec<Module>,
    /// HomeManager modules.
    pub home_modules: Vec<Module>,
    /// Flake description.
    pub description: Option<String>,
    /// Number of direct flake inputs.
    pub input_count: usize,
    /// Git branch of the source tree.
    pub branch: Option<String>,
    /// Short commit hash of the source tree.
    pub commit: Option<String>,
    /// Whether the source tree has uncommitted changes.
    pub dirty: bool,
}

/// Module `a` includes module `b`: `b` has an entry file, which is not `a`'s
/// own entry file but is among `a`'s transitive files.
pub open spec fn includes(ms: Seq<Module>, a: int, b: int) -> bool {
    &&& a != b
    &&& ms[b].path matches Some(entry)
    &&& opt_view(ms[a].path) != Some(entry@)
    &&& names_contain(ms[a].files@, entry@)
}

/// `b` is a direct child of `a`: `a` includes `b`, and not only through
/// another module that `a` includes and that includes `b`.
pub open spec fn direct_child(ms: Seq<Module>, a: int, b: int) -> bool {
    &&& includes(ms, a, b)
    &&& !(exists|c: int| 0 <= c < ms.len() && #[trigger] includes(ms, a, c) && includes(ms, c, b))
}

/// The direct children of `a` among the first `k` modules, in index order.
pub open spec fn children_below(ms: Seq<Module>, a: int, k: int) -> Seq<int>
    decreases k,
{
    if k <= 0 {
        Seq::empty()
    } else if direct_child(ms, a, k - 1) {
        children_below(ms, a, k - 1).push(k - 1)
    } else {
        children_below(ms, a, k - 1)
    }
}

/// The direct children of every module, in index order.
pub open spec fn child_table(ms: Seq<Module>) -> Seq<Seq<int>> {
    Seq::new(ms.len(), |a: int| children_below(ms, a, ms.len() as int))
}

/// `b` is a direct child of some module.
pub open spec fn is_child(ms: Seq<Module>, b: int) -> bool {
    exists|a: int| 0 <= a < ms.len() && #[trigger] direct_child(ms, a, b)
}

/// Rows of the depth-first walk from `index` at `depth`, below the modules
/// of `trail`; a module already on the trail (an import cycle) ends the walk.
pub open spec fn walk(ch: Seq<Seq<int>>, index: int, depth: int, trail: Seq<int>) -> Seq<(int, int)>
    decreases ch.len() - trail.len(), 0int, 0int,
{
    if index < 0 || index >= ch.len() || trail.contains(index) || trail.len() >= ch.len() {
        Seq::empty()
    } else {
        seq![(depth, index)] + walk_kids(
            ch,
            ch[index],
            ch[index].len() as int,
            depth + 1,
            trail.push(index),
        )
    }
}

/// Rows of the walks from the first `k` of `kids`, one after the other.
pub open spec fn walk_kids(
    ch: Seq<Seq<int>>,
    kids: Seq<int>,
    k: int,
    depth: int,
    trail: Seq<int>,
) -> Seq<(int, int)>
    decreases ch.len() - trail.len(), 1int, k,
{
    if k <= 0 || k > kids.len() {
        Seq::empty()
    } else {
        walk_kids(ch, kids, k - 1, depth, trail) + walk(ch, kids[k - 1], depth, trail)
    }
}

/// Rows of the walks from the root modules (those no module has as a
/// direct child) among the first `k` modules.
pub open spec fn forest_below(ms: Seq<Module>, k: int) -> Seq<(int, int)>
    decreases k,
{
    if k <= 0 {
        Seq::empty()
    } else if !is_child(ms, k - 1) {
        forest_below(ms, k - 1) + walk(child_table(ms), k - 1, 0, Seq::empty())
    } else {
        forest_below(ms, k - 1)
    }
}

/// Module `i` has a row in `rows`.
pub open spec fn appears(rows: Seq<(int, int)>, i: int) -> bool {
    exists|j: int| 0 <= j < rows.len() && #[trigger] rows[j].1 == i
}

/// Flat rows for the first `k` modules that have no row in `rows`.
pub open spec fn unseen_rows(rows: Seq<(int, int)>, k: int) -> Seq<(int, int)>
    decreases k,
{
    if k <= 0 {
        Seq::empty()
    } else if !appears(rows, k - 1) {
        unseen_rows(rows, k - 1).push((0, k - 1))
    } else {
        unseen_rows(rows, k - 1)
    }
}

/// The module list as `(depth, module index)` rows: a depth-first walk from
/// each root module in index order, each module nested under the modules it
/// is a direct child of, followed by flat rows for the modules that import
/// cycles left unreachable from any root.
pub open spec fn spec_module_tree(ms: Seq<Module>) -> Seq<(int, int)> {
    let forest = forest_below(ms, ms.len() as int);
    forest + unseen_rows(forest, ms.len() as int)
}

/// Rows as integers.
pub open spec fn rows_view(rows: Seq<(usize, usize)>) -> Seq<(int, int)> {
    rows.map_values(|r: (usize, usize)| (r.0 as int, r.1 as int))
}

/// A list of child lists, as integers.
pub open spec fn table_view(t: Seq<Vec<usize>>) -> Seq<Seq<int>> {
    t.map_values(|k: Vec<usize>| k@.map_values(|x: usize| x as int))
}

/// A trail of module indices, as integers.
pub open spec fn trail_view(t: Seq<usize>) -> Seq<int> {
    t.map_values(|x: usize| x as int)
}

/// A trail of distinct indices below `n` that misses `index < n` is shorter than `n`.
pub proof fn lemma_trail_shorter(trail: Seq<int>, n: int, index: int)
    requires
        trail.no_duplicates(),
        forall|i: int| 0 <= i < trail.len() ==> 0 <= #[trigger] trail[i] < n,
        0 <= index < n,
        !trail.contains(index),
    ensures
        trail.len() < n,
{
    trail.unique_seq_to_set();
    vstd::set_lib::lemma_int_range(0, n);
    let range = vstd::set_lib::set_int_range(0, n);
    let with = trail.to_set().insert(index);
    assert(with.subset_of(range));
    vstd::set_lib::lemma_len_subset(with, range);
    assert(!trail.to_set().contains(index));
}

impl Flake {
    /// Constructs a new instance with no modules and no metadata.
    pub fn new(source: &str) -> (f: Flake)
        ensures
            f.source@ == source@,
            f.nixos_modules@.len() == 0,
            f.home_modules@.len() == 0,
            f.description is None,
            f.input_count == 0,
            f.branch is None,
            f.commit is None,
            !f.dirty,
    {
        Flake {
            source: source.to_owned(),
            nixos_modules: Vec::new(),
            home_modules: Vec::new(),
            description: None,
            input_count: 0,
            branch: None,
            commit: None,
            dirty: false,
        }
    }
}

/// Whether module `a` includes module `b`.
pub fn includes_exec(ms: &[Module], a: usize, b: usize) -> (r: bool)
    requires
        a < ms@.len(),
        b < ms@.len(),
    ensures
        r == includes(ms@, a as int, b as int),
{
    if a == b {
        return false;
    }
    match &ms[b].path {
        None => false,
        Some(entry) => {
            let differs = match &ms[a].path {
                Some(p) => !p.eq(entry),
                None => true,
            };
            differs && contains_name(&ms[a].files, entry)
        },
    }
}

/// Whether `b` is a direct child of `a`.
pub fn direct_child_exec(ms: &[Module], a: usize, b: usize) -> (r: bool)
    requires
        a < ms@.len(),
        b < ms@.len(),
    ensures
        r == direct_child(ms@, a as int, b as int),
{
    if !includes_exec(ms, a, b) {
        return false;
    }
    let mut c: usize = 0;
    while c < ms.len()
        invariant
            c <= ms@.len(),
            a < ms@.len(),
            b < ms@.len(),
            forall|d: int| 0 <= d < c ==> !(#[trigger] includes(ms@, a as int, d) && includes(ms@, d, b as int)),
        decreases ms@.len() - c,
    {
        if includes_exec(ms, a, c) && includes_exec(ms, c, b) {
            return false;
        }
        c = c + 1;
    }
    true
}

/// Whether some module has `b` as a direct child.
pub fn is_child_exec(ms: &[Module], b: usize) -> (r: bool)
    requires
        b < ms@.len(),
    ensures
        r == is_child(ms@, b as int),
{
    let mut a: usize = 0;
    while a < ms.len()
        invariant
            a <= ms@.len(),
            b < ms@.len(),
            forall|d: int| 0 <= d < a ==> !#[trigger] direct_child(ms@, d, b as int),
        decreases ms@.len() - a,
    {
        if direct_child_exec(ms, a, b) {
            return true;
        }
        a = a + 1;
    }
    false
}

/// The direct children of every module, in index order.
pub fn child_table_exec(ms: &[Module]) -> (t: Vec<Vec<usize>>)
    ensures
        t@.len() == ms@.len(),
        table_view(t@) == child_table(ms@),
        forall|a: int, k: int|
            0 <= a < t@.len() && 0 <= k < t@[a]@.len() ==> #[trigger] t@[a]@[k] < ms@.len(),
{
    let n = ms.len();
    let mut t: Vec<Vec<usize>> = Vec::new();
    let mut a: usize = 0;
    while a < n
        invariant
            n == ms@.len(),
            a <= n,
            t@.len() == a,
            forall|x: int| 0 <= x < a ==> table_view(t@)[x] == children_below(ms@, x, n as int),
            forall|x: int, k: int|
                0 <= x < t@.len() && 0 <= k < t@[x]@.len() ==> #[trigger] t@[x]@[k] < n,
        decreases n - a,
    {
        let mut kids: Vec<usize> = Vec::new();
        let mut b: usize = 0;
        while b < n
            invariant
                n == ms@.len(),
                a < n,
                b <= n,
                kids@.map_values(|x: usize| x as int) == children_below(ms@, a as int, b as int),
                forall|k: int| 0 <= k < kids@.len() ==> #[trigger] kids@[k] < n,
            decreases n - b,
        {
            if direct_child_exec(ms, a, b) {
                kids.push(b);
                assert(kids@.map_values(|x: usize| x as int) =~= children_below(
                    ms@,
                    a as int,
                    b as int,
                ).push(b as int));
            }
            b = b + 1;
        }
        let ghost prev = t@;
        t.push(kids);
        assert forall|x: int| 0 <= x < a + 1 implies table_view(t@)[x] == children_below(
            ms@,
            x,
            n as int,
        ) by {
            if x < a {
                assert(t@[x] == prev[x]);
            }
        }
        a = a + 1;
    }
    assert(table_view(t@) =~= child_table(ms@));
    t
}

/// Whether `index` is on the trail.
fn on_trail(trail: &Vec<usize>, index: usize) -> (r: bool)
    ensures
        r == trail_view(trail@).contains(index as int),
{
    let mut i: usize = 0;
    while i < trail.len()
        invariant
            i <= trail@.len(),
            forall|j: int| 0 <= j < i ==> trail@[j] != index,
        decreases trail@.len() - i,
    {
        if trail[i] == index {
            assert(trail_view(trail@)[i as int] == index as int);
            return true;
        }
        i = i + 1;
    }
    assert forall|j: int| 0 <= j < trail_view(trail@).len() implies trail_view(trail@)[j]
        != index as int by {
        assert(trail@[j] != index);
    }
    false
}

/// Appends the rows of the walk from `index` to `rows`, marking the modules
/// it lists in `seen`.
fn walk_exec(
    children: &Vec<Vec<usize>>,
    index: usize,
    depth: usize,
    trail: &mut Vec<usize>,
    seen: &mut Vec<bool>,
    rows: &mut Vec<(usize, usize)>,
)
    requires
        index < children@.len(),
        forall|a: int, k: int|
            0 <= a < children@.len() && 0 <= k < children@[a]@.len() ==> #[trigger] children@[a]@[k]
                < children@.len(),
        trail_view(old(trail)@).no_duplicates(),
        forall|i: int| 0 <= i < old(trail)@.len() ==> #[trigger] old(trail)@[i] < children@.len(),
        depth == old(trail)@.len(),
        old(seen)@.len() == children@.len(),
        forall|i: int| 0 <= i < old(seen)@.len() ==> (#[trigger] old(seen)@[i] <==> appears(rows_view(old(rows)@), i)),
    ensures
        final(trail)@ == old(trail)@,
        final(seen)@.len() == children@.len(),
        rows_view(final(rows)@) == rows_view(old(rows)@) + walk(
            table_view(children@),
            index as int,
            depth as int,
            trail_view(old(trail)@),
        ),
        forall|i: int| 0 <= i < final(seen)@.len() ==> (#[trigger] final(seen)@[i] <==> appears(rows_view(final(rows)@), i)),
    decreases children@.len() - old(trail)@.len(),
{
    let ghost ch = table_view(children@);
    let ghost tv = trail_view(trail@);
    if on_trail(trail, index) {
        assert(rows_view(rows@) =~= rows_view(rows@) + Seq::<(int, int)>::empty());
        return;
    }
    proof {
        assert forall|i: int| 0 <= i < tv.len() implies 0 <= #[trigger] tv[i] < children@.len() by {
            assert(tv[i] == trail@[i] as int);
        }
        lemma_trail_shorter(tv, children@.len() as int, index as int);
    }
    let ghost rows0 = rows_view(rows@);
    seen.set(index, true);
    rows.push((depth, index));
    proof {
        assert(rows_view(rows@) =~= rows0.push((depth as int, index as int)));
        assert forall|i: int| 0 <= i < seen@.len() implies (#[trigger] seen@[i] <==> appears(
            rows_view(rows@),
            i,
        )) by {
            if i == index {
                assert(rows_view(rows@)[rows0.len() as int].1 == i);
            } else {
                if appears(rows_view(rows@), i) {
                    let j = choose|j: int| 0 <= j < rows_view(rows@).len() && #[trigger] rows_view(rows@)[j].1 == i;
                    assert(j < rows0.len());
                    assert(rows0[j] == rows_view(rows@)[j]);
                }
                if appears(rows0, i) {
                    let j = choose|j: int| 0 <= j < rows0.len() && #[trigger] rows0[j].1 == i;
                    assert(rows0[j] == rows_view(rows@)[j]);
                }
            }
        }
    }
    trail.push(index);
    let ghost tv2 = trail_view(trail@);
    proof {
        assert(tv2 =~= tv.push(index as int));
        assert(tv2.no_duplicates()) by {
            assert forall|i: int, j: int| 0 <= i < tv2.len() && 0 <= j < tv2.len() && i != j implies tv2[i] != tv2[j] by {
                if i < tv.len() && j < tv.len() {
                    assert(tv[i] != tv[j]);
                } else if i == tv.len() {
                    assert(tv[j] == tv2[j]);
                } else {
                    assert(tv[i] == tv2[i]);
                }
            }
        }
    }
    let n = children.len();
    assert(depth < n);
    let next_depth = depth + 1;
    let kids = &children[index];
    let ghost kv = ch[index as int];
    assert(kids@.map_values(|x: usize| x as int) == kv);
    let mut k: usize = 0;
    while k < kids.len()
        invariant
            kids == &children@[index as int],
            kv == ch[index as int],
            kv == kids@.map_values(|x: usize| x as int),
            ch == table_view(children@),
            index < children@.len(),
            forall|a: int, k2: int|
                0 <= a < children@.len() && 0 <= k2 < children@[a]@.len() ==> #[trigger] children@[a]@[k2]
                    < children@.len(),
            k <= kids@.len(),
            trail_view(trail@) == tv2,
            trail@ == old(trail)@.push(index),
            next_depth == depth + 1,
            depth + 1 <= children@.len(),
            tv2.no_duplicates(),
            forall|i: int| 0 <= i < trail@.len() ==> #[trigger] trail@[i] < children@.len(),
            depth + 1 == trail@.len(),
            seen@.len() == children@.len(),
            forall|i: int| 0 <= i < seen@.len() ==> (#[trigger] seen@[i] <==> appears(rows_view(rows@), i)),
            rows_view(rows@) == rows0.push((depth as int, index as int)) + walk_kids(
                ch,
                kv,
                k as int,
                depth + 1,
                tv2,
            ),
        decreases kids@.len() - k,
    {
        let child = kids[k];
        assert(children@[index as int]@[k as int] < children@.len());
        let ghost before = rows_view(rows@);
        walk_exec(children, child, next_depth, trail, seen, rows);
        assert(kv[k as int] == child as int);
        assert(rows_view(rows@) =~= rows0.push((depth as int, index as int)) + walk_kids(
            ch,
            kv,
            k + 1,
            depth + 1,
            tv2,
        ));
        k = k + 1;
    }
    trail.pop();
    proof {
        assert(trail@ =~= old(trail)@);
        assert(rows_view(rows@) =~= rows0 + walk(ch, index as int, depth as int, tv));
    }
}

impl Flake {
    /// Returns the module list nesting each module under the modules.
    /// Transitive reduction keeps only direct children.
    ///
    /// Rows are `(depth, module index)`: a depth-first walk from each root
    /// module (one that no module has as a direct child), in index order,
    /// listing each module's direct children in index order below it; a
    /// module met again along its own path (an import cycle) is not walked
    /// twice. Modules that cycles leave unreachable from any root follow as
    /// flat rows rather than being dropped.
    pub fn module_tree(&self, modules: &[Module]) -> (rows: Vec<(usize, usize)>)
        ensures
            rows_view(rows@) == spec_module_tree(modules@),
    {
        let n = modules.len();
        let children = child_table_exec(modules);
        let ghost ch = table_view(children@);
        let mut seen: Vec<bool> = Vec::new();
        let mut i: usize = 0;
        while i < n
            invariant
                n == modules@.len(),
                i <= n,
                seen@.len() == i,
                forall|j: int| 0 <= j < i ==> !#[trigger] seen@[j],
            decreases n - i,
        {
            seen.push(false);
            i = i + 1;
        }
        let mut rows: Vec<(usize, usize)> = Vec::new();
        let mut trail: Vec<usize> = Vec::new();
        let mut idx: usize = 0;
        while idx < n
            invariant
                n == modules@.len(),
                children@.len() == n,
                ch == table_view(children@),
                ch == child_table(modules@),
                forall|a: int, k: int|
                    0 <= a < children@.len() && 0 <= k < children@[a]@.len() ==> #[trigger] children@[a]@[k]
                        < children@.len(),
                idx <= n,
                trail@.len() == 0,
                seen@.len() == n,
                forall|j: int| 0 <= j < seen@.len() ==> (#[trigger] seen@[j] <==> appears(rows_view(rows@), j)),
                rows_view(rows@) == forest_below(modules@, idx as int),
            decreases n - idx,
        {
            if !is_child_exec(modules, idx) {
                assert(trail_view(trail@) =~= Seq::<int>::empty());
                walk_exec(&children, idx, 0, &mut trail, &mut seen, &mut rows);
            }
            idx = idx + 1;
        }
        let ghost forest = rows_view(rows@);
        let mut idx: usize = 0;
        while idx < n
            invariant
                n == modules@.len(),
                idx <= n,
                seen@.len() == n,
                forall|j: int| 0 <= j < seen@.len() ==> (#[trigger] seen@[j] <==> appears(forest, j)),
                forest == forest_below(modules@, n as int),
                rows_view(rows@) == forest + unseen_rows(forest, idx as int),
            decreases n - idx,
        {
            if !seen[idx] {
                assert(!appears(forest, idx as int));
                let ghost before = rows_view(rows@);
                rows.push((0, idx));
                assert(rows_view(rows@) =~= before.push((0, idx as int)));
                assert(rows_view(rows@) =~= forest + unseen_rows(forest, idx + 1));
            } else {
                assert(appears(forest, idx as int));
            }
            idx = idx + 1;
        }
        rows
    }
}

/// Module `m` is reachable from another added module of `ms`: some added
/// module with another name includes `m`'s entry file among its files
/// without it being its own entry file.
pub open spec fn reached_from_added(ms: Seq<Module>, m: Module) -> bool {
    exists|p: int|
        0 <= p < ms.len() && #[trigger] ms[p].added && ms[p].name@ != m.name@ && (
        m.path matches Some(entry) && opt_view(ms[p].path) != Some(entry@) && names_contain(
            ms[p].files@,
            entry@,
        ))
}

/// An exported module as its name, entry file and top-level flag.
pub open spec fn export_view(e: ExportModule) -> (Seq<char>, Option<Seq<char>>, bool) {
    (e.name@, opt_view(e.path), e.top_level)
}

/// What `export_selection` returns for the first `k` modules of `ms`: each
/// added module in order, top-level unless reached from another added module.
pub open spec fn selection_upto(ms: Seq<Module>, k: int) -> Seq<(Seq<char>, Option<Seq<char>>, bool)>
    decreases k,
{
    if k <= 0 {
        Seq::empty()
    } else if ms[k - 1].added {
        selection_upto(ms, k - 1).push(
            (ms[k - 1].name@, opt_view(ms[k - 1].path), !reached_from_added(ms, ms[k - 1])),
        )
    } else {
        selection_upto(ms, k - 1)
    }
}

/// How one added module of `ms` is exported.
pub open spec fn selected_view(ms: Seq<Module>, m: Module) -> (Seq<char>, Option<Seq<char>>, bool) {
    (m.name@, opt_view(m.path), !reached_from_added(ms, m))
}

/// The selection of the first `k` modules is their added modules, in order,
/// each with its name, its entry file, and whether no other added module
/// reaches it.
proof fn lemma_selection_upto_filters(ms: Seq<Module>, k: int)
    requires
        0 <= k <= ms.len(),
    ensures
        selection_upto(ms, k) == ms.take(k).filter(|m: Module| m.added).map_values(
            |m: Module| selected_view(ms, m),
        ),
    decreases k,
{
    reveal(Seq::filter);
    let pred = |m: Module| m.added;
    let f = |m: Module| selected_view(ms, m);
    if k == 0 {
        assert(ms.take(0) =~= Seq::<Module>::empty());
        assert(ms.take(0).filter(pred) =~= Seq::<Module>::empty());
        assert(ms.take(0).filter(pred).map_values(f) =~= Seq::empty());
    } else {
        lemma_selection_upto_filters(ms, k - 1);
        let t = ms.take(k);
        assert(t.drop_last() =~= ms.take(k - 1));
        assert(t.last() == ms[k - 1]);
        let sub = ms.take(k - 1).filter(pred);
        if ms[k - 1].added {
            assert(t.filter(pred) == sub.push(ms[k - 1]));
            assert(sub.push(ms[k - 1]).map_values(f) =~= sub.map_values(f).push(f(ms[k - 1])));
        } else {
            assert(t.filter(pred) == sub);
        }
    }
}

/// The export selection is the added modules in list order, each exported
/// under its name with its entry file, top-level exactly when no other added
/// module reaches it.
pub proof fn lemma_export_selection_filters(ms: Seq<Module>)
    ensures
        selection_upto(ms, ms.len() as int) == ms.filter(|m: Module| m.added).map_values(
            |m: Module| selected_view(ms, m),
        ),
{
    lemma_selection_upto_filters(ms, ms.len() as int);
    assert(ms.take(ms.len() as int) =~= ms);
}

/// Whether an added module of `ms` other than by name reaches `m`.
fn reached_from_added_exec(ms: &[Module], m: &Module) -> (r: bool)
    ensures
        r == reached_from_added(ms@, *m),
{
    let mut p: usize = 0;
    while p < ms.len()
        invariant
            p <= ms@.len(),
            forall|q: int|
                0 <= q < p ==> !(#[trigger] ms@[q].added && ms@[q].name@ != m.name@ && (
                m.path matches Some(entry) && opt_view(ms@[q].path) != Some(entry@)
                    && names_contain(ms@[q].files@, entry@))),
        decreases ms@.len() - p,
    {
        let parent = &ms[p];
        if parent.added && !parent.name.eq(&m.name) {
            match &m.path {
                Some(entry) => {
                    let differs = match &parent.path {
                        Some(pp) => !pp.eq(entry),
                        None => true,
                    };
                    if differs && contains_name(&parent.files, entry) {
                        return true;
                    }
                },
                None => {},
            }
        }
        p = p + 1;
    }
    false
}

/// Clones an optional string.
fn clone_opt(o: &Option<String>) -> (r: Option<String>)
    ensures
        opt_view(r) == opt_view(*o),
{
    match o {
        Some(s) => Some(s.clone()),
        None => None,
    }
}

impl Flake {
    /// Returns the added modules for export, flagging which ones the
    /// generated host profile imports directly: a module reached from
    /// another added module arrives transitively and is not top-level.
    pub fn export_selection(&self, modules: &[Module]) -> (r: Vec<ExportModule>)
        ensures
            r@.map_values(|e: ExportModule| export_view(e)) == selection_upto(
                modules@,
                modules@.len() as int,
            ),
    {
        let mut r: Vec<ExportModule> = Vec::new();
        let mut k: usize = 0;
        while k < modules.len()
            invariant
                k <= modules@.len(),
                r@.map_values(|e: ExportModule| export_view(e)) == selection_upto(modules@, k as int),
            decreases modules@.len() - k,
        {
            let module = &modules[k];
            if module.added {
                let top_level = !reached_from_added_exec(modules, module);
                let e = ExportModule {
                    name: module.name.clone(),
                    path: clone_opt(&module.path),
                    top_level,
                };
                let ghost prev = r@.map_values(|e: ExportModule| export_view(e));
                r.push(e);
                assert(r@.map_values(|e: ExportModule| export_view(e)) =~= prev.push(
                    export_view(e),
                ));
            }
            k = k + 1;
        }
        r
    }
}

/// Index just past the rows below row `p` (those after it with a greater
/// depth), scanning from `c`.
pub open spec fn subtree_end_from(rows: Seq<(int, int)>, p: int, c: int) -> int
    decreases rows.len() - c,
{
    if c < 0 || c >= rows.len() || rows[c].0 <= rows[p].0 {
        c
    } else {
        subtree_end_from(rows, p, c + 1)
    }
}

/// The subtree end lies at or after the scan start and within the rows.
pub proof fn lemma_subtree_end_from_bounds(rows: Seq<(int, int)>, p: int, c: int)
    requires
        0 <= c <= rows.len(),
    ensures
        c <= subtree_end_from(rows, p, c) <= rows.len(),
    decreases rows.len() - c,
{
    if c < 0 || c >= rows.len() || rows[c].0 <= rows[p].0 {
    } else {
        lemma_subtree_end_from_bounds(rows, p, c + 1);
    }
}

/// Index just past the subtree of row `p`.
pub open spec fn subtree_end(rows: Seq<(int, int)>, p: int) -> int {
    subtree_end_from(rows, p, p + 1)
}

/// `flags` with the modules of rows `c..end` set to `value` (rows naming
/// no module of the list are passed over).
pub open spec fn assign_rows(flags: Seq<bool>, rows: Seq<(int, int)>, c: int, end: int, value: bool) -> Seq<
    bool,
>
    decreases end - c,
{
    if c >= end || c < 0 || c >= rows.len() {
        flags
    } else {
        assign_rows(
            if 0 <= rows[c].1 < flags.len() {
                flags.update(rows[c].1, value)
            } else {
                flags
            },
            rows,
            c + 1,
            end,
            value,
        )
    }
}

/// `flags` with the modules of rows `c..end` marked added.
pub open spec fn mark_rows(flags: Seq<bool>, rows: Seq<(int, int)>, c: int, end: int) -> Seq<bool> {
    assign_rows(flags, rows, c, end, true)
}

/// The added flags after cascading from row `row` on: each row whose module
/// is added when it is reached marks its whole subtree added and the pass
/// resumes after that subtree.
pub open spec fn cascade_from(flags: Seq<bool>, rows: Seq<(int, int)>, row: int) -> Seq<bool>
    decreases rows.len() - row,
{
    if row < 0 || row >= rows.len() {
        flags
    } else if 0 <= rows[row].1 < flags.len() && flags[rows[row].1] {
        let end = subtree_end(rows, row);
        if end <= row || end > rows.len() {
            flags
        } else {
            cascade_from(mark_rows(flags, rows, row + 1, end), rows, end)
        }
    } else {
        cascade_from(flags, rows, row + 1)
    }
}

/// The added flags of a module list.
pub open spec fn added_flags(ms: Seq<Module>) -> Seq<bool> {
    ms.map_values(|m: Module| m.added)
}

/// The module list with only the added flags replaced.
pub open spec fn same_but_added(a: Seq<Module>, b: Seq<Module>) -> bool {
    &&& a.len() == b.len()
    &&& forall|i: int|
        0 <= i < a.len() ==> {
            &&& #[trigger] a[i].name == b[i].name
            &&& a[i].path == b[i].path
            &&& a[i].content == b[i].content
            &&& a[i].files == b[i].files
        }
}

/// Every row names a module of a list of `n`.
pub open spec fn rows_within(rows: Seq<(int, int)>, n: int) -> bool {
    forall|j: int| 0 <= j < rows.len() ==> 0 <= #[trigger] rows[j].1 < n
}

/// Sets the added flag of module `i`.
pub(crate) fn set_added(modules: &mut Vec<Module>, i: usize, added: bool)
    requires
        i < old(modules)@.len(),
    ensures
        same_but_added(old(modules)@, final(modules)@),
        added_flags(final(modules)@) == added_flags(old(modules)@).update(i as int, added),
{
    let ghost before = modules@;
    let mut m = modules.remove(i);
    m.added = added;
    modules.insert(i, m);
    proof {
        assert forall|j: int| 0 <= j < before.len() implies {
            &&& #[trigger] before[j].name == modules@[j].name
            &&& before[j].path == modules@[j].path
            &&& before[j].content == modules@[j].content
            &&& before[j].files == modules@[j].files
        } by {
            if j != i {
                assert(modules@[j] == before[j]);
            }
        }
        assert(added_flags(modules@) =~= added_flags(before).update(i as int, added));
    }
}

impl Flake {
    /// Marks everything below an added row as added: each row whose module is
    /// added when the pass reaches it marks its whole subtree, and the pass
    /// resumes after that subtree.
    pub fn cascade_rows(rows: &[(usize, usize)], modules: &mut Vec<Module>)
        requires
            rows_within(rows_view(rows@), old(modules)@.len() as int),
        ensures
            same_but_added(old(modules)@, final(modules)@),
            added_flags(final(modules)@) == cascade_from(
                added_flags(old(modules)@),
                rows_view(rows@),
                0,
            ),
    {
        let ghost rv = rows_view(rows@);
        let ghost m0 = modules@;
        let mut row: usize = 0;
        while row < rows.len()
            invariant
                rv == rows_view(rows@),
                rows_within(rv, m0.len() as int),
                row <= rows@.len(),
                same_but_added(m0, modules@),
                cascade_from(added_flags(m0), rv, 0) == cascade_from(added_flags(modules@), rv, row as int),
            decreases rows@.len() - row,
        {
            let (depth, index) = rows[row];
            assert(rv[row as int] == (depth as int, index as int));
            assert(0 <= rv[row as int].1 < m0.len());
            if modules[index].added {
                let ghost flags0 = added_flags(modules@);
                let mut child = row + 1;
                while child < rows.len() && rows[child].0 > depth
                    invariant
                        rv == rows_view(rows@),
                        rows_within(rv, m0.len() as int),
                        row < child <= rows@.len(),
                        depth as int == rv[row as int].0,
                        same_but_added(m0, modules@),
                        subtree_end(rv, row as int) == subtree_end_from(rv, row as int, child as int),
                        mark_rows(flags0, rv, row + 1, subtree_end(rv, row as int)) == mark_rows(
                            added_flags(modules@),
                            rv,
                            child as int,
                            subtree_end(rv, row as int),
                        ),
                    decreases rows@.len() - child,
                {
                    let target = rows[child].1;
                    assert(rv[child as int].1 == target as int);
                    proof {
                        lemma_subtree_end_from_bounds(rv, row as int, child + 1);
                    }
                    assert(0 <= rv[child as int].1 < m0.len());
                    set_added(modules, target, true);
                    child = child + 1;
                }
                proof {
                    lemma_subtree_end_from_bounds(rv, row as int, row + 1);
                }
                row = child;
            } else {
                row = row + 1;
            }
        }
    }

    /// Cascades `added` from config-marked modules to their subtrees,
    /// mirroring the manual toggle in the TUI.
    pub fn cascade_added_modules(&mut self)
        ensures
            same_but_added(old(self).nixos_modules@, final(self).nixos_modules@),
            added_flags(final(self).nixos_modules@) == cascade_from(
                added_flags(old(self).nixos_modules@),
                spec_module_tree(old(self).nixos_modules@),
                0,
            ),
            same_but_added(old(self).home_modules@, final(self).home_modules@),
            added_flags(final(self).home_modules@) == cascade_from(
                added_flags(old(self).home_modules@),
                spec_module_tree(old(self).home_modules@),
                0,
            ),
            final(self).source == old(self).source,
            final(self).description == old(self).description,
            final(self).input_count == old(self).input_count,
            final(self).branch == old(self).branch,
            final(self).commit == old(self).commit,
            final(self).dirty == old(self).dirty,
    {
        let rows = self.module_tree(self.nixos_modules.as_slice());
        proof {
            lemma_module_tree_within(self.nixos_modules@);
        }
        Flake::cascade_rows(rows.as_slice(), &mut self.nixos_modules);
        let rows = self.module_tree(self.home_modules.as_slice());
        proof {
            lemma_module_tree_within(self.home_modules@);
        }
        Flake::cascade_rows(rows.as_slice(), &mut self.home_modules);
    }
}

/// Every row of a walk names a module of the table.
pub proof fn lemma_walk_within(ch: Seq<Seq<int>>, index: int, depth: int, trail: Seq<int>)
    ensures
        rows_within(walk(ch, index, depth, trail), ch.len() as int),
    decreases ch.len() - trail.len(), 0int, 0int,
{
    if index < 0 || index >= ch.len() || trail.contains(index) || trail.len() >= ch.len() {
    } else {
        let kids = walk_kids(ch, ch[index], ch[index].len() as int, depth + 1, trail.push(index));
        lemma_walk_kids_within(ch, ch[index], ch[index].len() as int, depth + 1, trail.push(index));
        let w = walk(ch, index, depth, trail);
        assert(w =~= seq![(depth, index)] + kids);
        assert forall|j: int| 0 <= j < w.len() implies 0 <= #[trigger] w[j].1 < ch.len() by {
            if j > 0 {
                assert(w[j] == kids[j - 1]);
            }
        }
    }
}

/// Every row of the walks from a child list names a module of the table.
pub proof fn lemma_walk_kids_within(
    ch: Seq<Seq<int>>,
    kids: Seq<int>,
    k: int,
    depth: int,
    trail: Seq<int>,
)
    ensures
        rows_within(walk_kids(ch, kids, k, depth, trail), ch.len() as int),
    decreases ch.len() - trail.len(), 1int, k,
{
    if k <= 0 || k > kids.len() {
    } else {
        lemma_walk_kids_within(ch, kids, k - 1, depth, trail);
        lemma_walk_within(ch, kids[k - 1], depth, trail);
        let a = walk_kids(ch, kids, k - 1, depth, trail);
        let b = walk(ch, kids[k - 1], depth, trail);
        assert forall|j: int| 0 <= j < (a + b).len() implies 0 <= #[trigger] (a + b)[j].1
            < ch.len() by {
            if j < a.len() {
                assert((a + b)[j] == a[j]);
            } else {
                assert((a + b)[j] == b[j - a.len()]);
            }
        }
    }
}

/// Every row of the forest of the first `k` modules names a module.
pub proof fn lemma_forest_within(ms: Seq<Module>, k: int)
    ensures
        rows_within(forest_below(ms, k), ms.len() as int),
    decreases k,
{
    if k <= 0 {
    } else {
        lemma_forest_within(ms, k - 1);
        let a = forest_below(ms, k - 1);
        if !is_child(ms, k - 1) {
            let b = walk(child_table(ms), k - 1, 0, Seq::empty());
            lemma_walk_within(child_table(ms), k - 1, 0, Seq::empty());
            assert forall|j: int| 0 <= j < (a + b).len() implies 0 <= #[trigger] (a + b)[j].1
                < ms.len() by {
                if j < a.len() {
                    assert((a + b)[j] == a[j]);
                } else {
                    assert((a + b)[j] == b[j - a.len()]);
                }
            }
        }
    }
}

/// The flat rows name modules below `k`, and every module below `k` that
/// has no row in `rows` gets one.
pub proof fn lemma_unseen_rows(rows: Seq<(int, int)>, k: int)
    requires
        k >= 0,
    ensures
        forall|j: int| 0 <= j < unseen_rows(rows, k).len() ==> 0 <= #[trigger] unseen_rows(rows, k)[j].1 < k,
        forall|i: int| 0 <= i < k && !appears(rows, i) ==> #[trigger] appears(unseen_rows(rows, k), i),
    decreases k,
{
    if k > 0 {
        lemma_unseen_rows(rows, k - 1);
        let prev = unseen_rows(rows, k - 1);
        if !appears(rows, k - 1) {
            let now = prev.push((0, k - 1));
            assert forall|i: int| 0 <= i < k && !appears(rows, i) implies #[trigger] appears(now, i) by {
                if i == k - 1 {
                    assert(now[prev.len() as int].1 == i);
                } else {
                    assert(appears(prev, i));
                    let j = choose|j: int| 0 <= j < prev.len() && #[trigger] prev[j].1 == i;
                    assert(now[j] == prev[j]);
                }
            }
        }
    }
}

/// Every row of the module tree names a module of the list.
pub proof fn lemma_module_tree_within(ms: Seq<Module>)
    ensures
        rows_within(spec_module_tree(ms), ms.len() as int),
{
    let forest = forest_below(ms, ms.len() as int);
    lemma_forest_within(ms, ms.len() as int);
    lemma_unseen_rows(forest, ms.len() as int);
    let u = unseen_rows(forest, ms.len() as int);
    assert forall|j: int| 0 <= j < (forest + u).len() implies 0 <= #[trigger] (forest + u)[j].1
        < ms.len() by {
        if j < forest.len() {
            assert((forest + u)[j] == forest[j]);
        } else {
            assert((forest + u)[j] == u[j - forest.len()]);
        }
    }
}

/// No module is dropped from the tree: every module of the list has at
/// least one row, import cycles included.
pub proof fn lemma_module_tree_lists_every_module(ms: Seq<Module>, i: int)
    requires
        0 <= i < ms.len(),
    ensures
        appears(spec_module_tree(ms), i),
{
    let forest = forest_below(ms, ms.len() as int);
    let u = unseen_rows(forest, ms.len() as int);
    lemma_unseen_rows(forest, ms.len() as int);
    if appears(forest, i) {
        let j = choose|j: int| 0 <= j < forest.len() && #[trigger] forest[j].1 == i;
        assert((forest + u)[j] == forest[j]);
    } else {
        assert(appears(u, i));
        let j = choose|j: int| 0 <= j < u.len() && #[trigger] u[j].1 == i;
        assert((forest + u)[forest.len() + j] == u[j]);
    }
}

/// Each root module among the first `k` starts a walk of the forest at depth 0.
proof fn lemma_forest_has_roots(ms: Seq<Module>, k: int, i: int)
    requires
        0 <= i < k <= ms.len(),
        !is_child(ms, i),
    ensures
        exists|j: int| 0 <= j < forest_below(ms, k).len() && #[trigger] forest_below(ms, k)[j] == (0int, i),
    decreases k,
{
    let prev = forest_below(ms, k - 1);
    if i == k - 1 {
        let w = walk(child_table(ms), i, 0, Seq::empty());
        assert(w[0] == (0int, i));
        assert(forest_below(ms, k)[prev.len() as int] == w[0]);
    } else {
        lemma_forest_has_roots(ms, k - 1, i);
        let j = choose|j: int| 0 <= j < prev.len() && #[trigger] prev[j] == (0int, i);
        if !is_child(ms, k - 1) {
            assert(forest_below(ms, k)[j] == prev[j]);
        } else {
            assert(forest_below(ms, k) == prev);
        }
        assert(forest_below(ms, k)[j] == (0int, i));
    }
}

/// The forest of the first `k` modules, when not empty, starts at depth 0.
proof fn lemma_forest_starts_at_top(ms: Seq<Module>, k: int)
    ensures
        forest_below(ms, k).len() > 0 ==> forest_below(ms, k)[0].0 == 0,
    decreases k,
{
    if k > 0 {
        lemma_forest_starts_at_top(ms, k - 1);
        let prev = forest_below(ms, k - 1);
        if !is_child(ms, k - 1) && prev.len() == 0 {
            assert(forest_below(ms, k) =~= walk(child_table(ms), k - 1, 0, Seq::empty()));
        } else if !is_child(ms, k - 1) {
            assert(forest_below(ms, k)[0] == prev[0]);
        }
    }
}

/// The flat rows all have depth 0.
proof fn lemma_unseen_rows_flat(rows: Seq<(int, int)>, k: int)
    ensures
        forall|j: int| 0 <= j < unseen_rows(rows, k).len() ==> #[trigger] unseen_rows(rows, k)[j].0 == 0,
    decreases k,
{
    if k > 0 {
        lemma_unseen_rows_flat(rows, k - 1);
        let prev = unseen_rows(rows, k - 1);
        if !appears(rows, k - 1) {
            assert forall|j: int| 0 <= j < prev.push((0, k - 1)).len() implies #[trigger] prev.push(
                (0, k - 1),
            )[j].0 == 0 by {
                if j < prev.len() {
                    assert(prev.push((0, k - 1))[j] == prev[j]);
                }
            }
        }
    }
}

/// The tree starts at the top level, and a module that no other module
/// includes is listed at depth 0.
pub proof fn lemma_module_tree_roots(ms: Seq<Module>, i: int)
    requires
        0 <= i < ms.len(),
    ensures
        spec_module_tree(ms)[0].0 == 0,
        (forall|a: int| 0 <= a < ms.len() ==> !#[trigger] includes(ms, a, i)) ==> exists|j: int|
            0 <= j < spec_module_tree(ms).len() && #[trigger] spec_module_tree(ms)[j] == (0int, i),
{
    let forest = forest_below(ms, ms.len() as int);
    let u = unseen_rows(forest, ms.len() as int);
    let rows = spec_module_tree(ms);
    lemma_module_tree_lists_every_module(ms, i);
    lemma_forest_starts_at_top(ms, ms.len() as int);
    lemma_unseen_rows_flat(forest, ms.len() as int);
    if forest.len() > 0 {
        assert(rows[0] == forest[0]);
    } else {
        assert(rows =~= u);
        assert(u[0].0 == 0);
    }
    if forall|a: int| 0 <= a < ms.len() ==> !#[trigger] includes(ms, a, i) {
        assert(!is_child(ms, i)) by {
            if is_child(ms, i) {
                let a = choose|a: int| 0 <= a < ms.len() && #[trigger] direct_child(ms, a, i);
                assert(includes(ms, a, i));
            }
        }
        lemma_forest_has_roots(ms, ms.len() as int, i);
        let j = choose|j: int| 0 <= j < forest.len() && #[trigger] forest[j] == (0int, i);
        assert(rows[j] == forest[j]);
    }
}

/// Row `k` is at most one level deeper than the row before it.
pub open spec fn nested_step(rows: Seq<(int, int)>, k: int) -> bool {
    rows[k].0 <= rows[k - 1].0 + 1
}

/// Rows that read as an indented outline starting at depth `d`: the first
/// row is at depth `d`, no row is shallower, and each row goes at most one
/// level deeper than the row before it.
pub open spec fn nests_from(rows: Seq<(int, int)>, d: int) -> bool {
    &&& rows.len() > 0 ==> rows[0].0 == d
    &&& forall|k: int| 0 <= k < rows.len() ==> #[trigger] rows[k].0 >= d
    &&& forall|k: int| 0 < k < rows.len() ==> #[trigger] nested_step(rows, k)
}

/// Two outlines at the same depth, one after the other, form an outline.
proof fn lemma_nests_concat(a: Seq<(int, int)>, b: Seq<(int, int)>, d: int)
    requires
        nests_from(a, d),
        nests_from(b, d),
    ensures
        nests_from(a + b, d),
{
    let c = a + b;
    if a.len() == 0 {
        assert(c =~= b);
    } else {
        assert(c[0] == a[0]);
        assert forall|k: int| 0 <= k < c.len() implies #[trigger] c[k].0 >= d by {
            if k < a.len() {
                assert(c[k] == a[k]);
            } else {
                assert(c[k] == b[k - a.len()]);
            }
        }
        assert forall|k: int| 0 < k < c.len() implies #[trigger] nested_step(c, k) by {
            if k < a.len() {
                assert(c[k] == a[k] && c[k - 1] == a[k - 1]);
                assert(nested_step(a, k));
            } else if k == a.len() {
                assert(c[k] == b[0] && c[k - 1] == a[k - 1]);
                assert(a[k - 1].0 >= d);
            } else {
                assert(c[k] == b[k - a.len()] && c[k - 1] == b[k - 1 - a.len()]);
                assert(nested_step(b, k - a.len()));
            }
        }
    }
}

/// A walk from a module is an outline at the module's depth.
proof fn lemma_walk_nests(ch: Seq<Seq<int>>, index: int, depth: int, trail: Seq<int>)
    ensures
        nests_from(walk(ch, index, depth, trail), depth),
    decreases ch.len() - trail.len(), 0int, 0int,
{
    if index < 0 || index >= ch.len() || trail.contains(index) || trail.len() >= ch.len() {
    } else {
        let kids = walk_kids(ch, ch[index], ch[index].len() as int, depth + 1, trail.push(index));
        lemma_walk_kids_nests(ch, ch[index], ch[index].len() as int, depth + 1, trail.push(index));
        let w = walk(ch, index, depth, trail);
        assert(w == seq![(depth, index)] + kids);
        assert(w[0] == (depth, index));
        assert forall|k: int| 0 <= k < w.len() implies #[trigger] w[k].0 >= depth by {
            if k > 0 {
                assert(w[k] == kids[k - 1]);
            }
        }
        assert forall|k: int| 0 < k < w.len() implies #[trigger] nested_step(w, k) by {
            assert(w[k] == kids[k - 1]);
            if k == 1 {
                assert(kids[0].0 == depth + 1);
            } else {
                assert(w[k - 1] == kids[k - 2]);
                assert(nested_step(kids, k - 1));
            }
        }
    }
}

/// The walks from a child list form an outline at their depth.
proof fn lemma_walk_kids_nests(ch: Seq<Seq<int>>, kids: Seq<int>, k: int, depth: int, trail: Seq<int>)
    ensures
        nests_from(walk_kids(ch, kids, k, depth, trail), depth),
    decreases ch.len() - trail.len(), 1int, k,
{
    if k <= 0 || k > kids.len() {
    } else {
        lemma_walk_kids_nests(ch, kids, k - 1, depth, trail);
        lemma_walk_nests(ch, kids[k - 1], depth, trail);
        lemma_nests_concat(walk_kids(ch, kids, k - 1, depth, trail), walk(ch, kids[k - 1], depth, trail), depth);
    }
}

/// The forest of the first `k` modules is an outline at the top level.
proof fn lemma_forest_nests(ms: Seq<Module>, k: int)
    ensures
        nests_from(forest_below(ms, k), 0),
    decreases k,
{
    if k > 0 {
        lemma_forest_nests(ms, k - 1);
        if !is_child(ms, k - 1) {
            lemma_walk_nests(child_table(ms), k - 1, 0, Seq::empty());
            lemma_nests_concat(forest_below(ms, k - 1), walk(child_table(ms), k - 1, 0, Seq::empty()), 0);
        }
    }
}

/// The module tree reads as an indented outline: it starts at the top level
/// and each row is at most one level deeper than the row before it.
pub proof fn lemma_module_tree_nests(ms: Seq<Module>)
    ensures
        nests_from(spec_module_tree(ms), 0),
{
    let forest = forest_below(ms, ms.len() as int);
    let u = unseen_rows(forest, ms.len() as int);
    lemma_forest_nests(ms, ms.len() as int);
    lemma_unseen_rows_flat(forest, ms.len() as int);
    assert forall|k: int| 0 < k < u.len() implies #[trigger] nested_step(u, k) by {
        assert(u[k].0 == 0 && u[k - 1].0 == 0);
    }
    lemma_nests_concat(forest, u, 0);
}

/// Row `j` is the row that row `k` sits under: the last row before it one
/// level up, with nothing shallower than row `k` between them.
pub open spec fn parent_at(rows: Seq<(int, int)>, k: int, j: int) -> bool {
    &&& 0 <= j < k
    &&& rows[j].0 == rows[k].0 - 1
    &&& forall|i: int| j < i < k ==> #[trigger] rows[i].0 >= rows[k].0
}

/// Row `k` sits under a row whose module lists row `k`'s module among its
/// children in `ch`.
pub open spec fn has_parent_in(rows: Seq<(int, int)>, ch: Seq<Seq<int>>, k: int) -> bool {
    exists|j: int| #[trigger] parent_at(rows, k, j) && ch[rows[j].1].contains(rows[k].1)
}

/// Every row deeper than `d` sits under a row of its parent module, and the
/// rows at depth `d` name modules of `tops`.
pub open spec fn linked_from(rows: Seq<(int, int)>, ch: Seq<Seq<int>>, d: int, tops: Seq<int>) -> bool {
    &&& forall|k: int| 0 <= k < rows.len() && rows[k].0 > d ==> #[trigger] has_parent_in(rows, ch, k)
    &&& forall|k: int| 0 <= k < rows.len() && rows[k].0 == d ==> tops.contains(#[trigger] rows[k].1)
}

/// A row's parent in `a` stays its parent in `a + b`.
proof fn lemma_parent_in_prefix(a: Seq<(int, int)>, b: Seq<(int, int)>, ch: Seq<Seq<int>>, k: int)
    requires
        0 <= k < a.len(),
        has_parent_in(a, ch, k),
    ensures
        has_parent_in(a + b, ch, k),
{
    let c = a + b;
    let j = choose|j: int| #[trigger] parent_at(a, k, j) && ch[a[j].1].contains(a[k].1);
    assert(c[j] == a[j] && c[k] == a[k]);
    assert forall|i: int| j < i < k implies #[trigger] c[i].0 >= c[k].0 by {
        assert(c[i] == a[i]);
    }
    assert(parent_at(c, k, j));
}

/// A row's parent in `b` stays its parent in `a + b`.
proof fn lemma_parent_in_suffix(a: Seq<(int, int)>, b: Seq<(int, int)>, ch: Seq<Seq<int>>, k: int)
    requires
        0 <= k < b.len(),
        has_parent_in(b, ch, k),
    ensures
        has_parent_in(a + b, ch, k + a.len()),
{
    let c = a + b;
    let n = a.len() as int;
    let j = choose|j: int| #[trigger] parent_at(b, k, j) && ch[b[j].1].contains(b[k].1);
    assert(c[j + n] == b[j] && c[k + n] == b[k]);
    assert forall|i: int| j + n < i < k + n implies #[trigger] c[i].0 >= c[k + n].0 by {
        assert(c[i] == b[i - n]);
        assert(j < i - n < k);
        assert(b[i - n].0 >= b[k].0);
    }
    assert(parent_at(c, k + n, j + n));
}

/// Two linked outlines at the same depth, one after the other, are linked.
proof fn lemma_linked_concat(
    a: Seq<(int, int)>,
    b: Seq<(int, int)>,
    ch: Seq<Seq<int>>,
    d: int,
    ta: Seq<int>,
    tb: Seq<int>,
    tops: Seq<int>,
)
    requires
        linked_from(a, ch, d, ta),
        linked_from(b, ch, d, tb),
        forall|x: int| ta.contains(x) ==> tops.contains(x),
        forall|x: int| tb.contains(x) ==> tops.contains(x),
    ensures
        linked_from(a + b, ch, d, tops),
{
    let c = a + b;
    let n = a.len() as int;
    assert forall|k: int| 0 <= k < c.len() && c[k].0 > d implies #[trigger] has_parent_in(c, ch, k) by {
        if k < n {
            assert(c[k] == a[k]);
            assert(has_parent_in(a, ch, k));
            lemma_parent_in_prefix(a, b, ch, k);
        } else {
            assert(c[k] == b[k - n]);
            assert(has_parent_in(b, ch, k - n));
            lemma_parent_in_suffix(a, b, ch, k - n);
        }
    }
    assert forall|k: int| 0 <= k < c.len() && c[k].0 == d implies tops.contains(#[trigger] c[k].1) by {
        if k < n {
            assert(c[k] == a[k]);
            assert(ta.contains(a[k].1));
        } else {
            assert(c[k] == b[k - n]);
            assert(tb.contains(b[k - n].1));
        }
    }
}

/// A walk from a module links every deeper row to its parent module and has
/// only that module at its own depth.
proof fn lemma_walk_linked(ch: Seq<Seq<int>>, index: int, depth: int, trail: Seq<int>)
    ensures
        linked_from(walk(ch, index, depth, trail), ch, depth, seq![index]),
    decreases ch.len() - trail.len(), 0int, 0int,
{
    if index < 0 || index >= ch.len() || trail.contains(index) || trail.len() >= ch.len() {
    } else {
        let kids = walk_kids(ch, ch[index], ch[index].len() as int, depth + 1, trail.push(index));
        lemma_walk_kids_linked(ch, ch[index], ch[index].len() as int, depth + 1, trail.push(index));
        lemma_walk_kids_nests(ch, ch[index], ch[index].len() as int, depth + 1, trail.push(index));
        let w = walk(ch, index, depth, trail);
        assert(w == seq![(depth, index)] + kids);
        assert forall|k: int| 0 <= k < w.len() && w[k].0 > depth implies #[trigger] has_parent_in(
            w,
            ch,
            k,
        ) by {
            assert(k > 0);
            assert(w[k] == kids[k - 1]);
            if kids[k - 1].0 == depth + 1 {
                assert(ch[index].contains(kids[k - 1].1));
                assert forall|i: int| 0 < i < k implies #[trigger] w[i].0 >= w[k].0 by {
                    assert(w[i] == kids[i - 1]);
                }
                assert(parent_at(w, k, 0));
            } else {
                assert(has_parent_in(kids, ch, k - 1));
                lemma_parent_in_suffix(seq![(depth, index)], kids, ch, k - 1);
            }
        }
        assert forall|k: int| 0 <= k < w.len() && w[k].0 == depth implies seq![index].contains(
            #[trigger] w[k].1,
        ) by {
            if k > 0 {
                assert(w[k] == kids[k - 1]);
                assert(kids[k - 1].0 >= depth + 1);
            } else {
                assert(seq![index][0] == index);
            }
        }
    }
}

/// The walks from a child list link every deeper row to its parent module
/// and have only modules of the list at their own depth.
proof fn lemma_walk_kids_linked(ch: Seq<Seq<int>>, kids: Seq<int>, k: int, depth: int, trail: Seq<int>)
    ensures
        linked_from(walk_kids(ch, kids, k, depth, trail), ch, depth, kids),
    decreases ch.len() - trail.len(), 1int, k,
{
    if k <= 0 || k > kids.len() {
    } else {
        lemma_walk_kids_linked(ch, kids, k - 1, depth, trail);
        lemma_walk_linked(ch, kids[k - 1], depth, trail);
        assert forall|x: int| seq![kids[k - 1]].contains(x) implies kids.contains(x) by {
            assert(seq![kids[k - 1]][0] == kids[k - 1]);
        }
        lemma_linked_concat(
            walk_kids(ch, kids, k - 1, depth, trail),
            walk(ch, kids[k - 1], depth, trail),
            ch,
            depth,
            kids,
            seq![kids[k - 1]],
            kids,
        );
    }
}

/// The forest links every nested row to its parent module.
proof fn lemma_forest_linked(ms: Seq<Module>, k: int, all: Seq<int>)
    requires
        forall|x: int| 0 <= x < ms.len() ==> all.contains(x),
        k <= ms.len(),
    ensures
        linked_from(forest_below(ms, k), child_table(ms), 0, all),
    decreases k,
{
    if k > 0 {
        lemma_forest_linked(ms, k - 1, all);
        if !is_child(ms, k - 1) {
            lemma_walk_linked(child_table(ms), k - 1, 0, Seq::empty());
            assert forall|x: int| seq![k - 1].contains(x) implies all.contains(x) by {
                assert(seq![k - 1][0] == k - 1);
            }
            lemma_linked_concat(
                forest_below(ms, k - 1),
                walk(child_table(ms), k - 1, 0, Seq::empty()),
                child_table(ms),
                0,
                all,
                seq![k - 1],
                all,
            );
        }
    }
}

/// A module listed as a child of `a` is a direct child of `a`.
proof fn lemma_children_below_direct(ms: Seq<Module>, a: int, k: int, b: int)
    requires
        children_below(ms, a, k).contains(b),
    ensures
        direct_child(ms, a, b),
    decreases k,
{
    if k > 0 {
        if direct_child(ms, a, k - 1) && b != k - 1 {
            let prev = children_below(ms, a, k - 1);
            let i = choose|i: int| 0 <= i < prev.push(k - 1).len() && #[trigger] prev.push(k - 1)[i] == b;
            assert(prev[i] == b);
            lemma_children_below_direct(ms, a, k - 1, b);
        } else if !direct_child(ms, a, k - 1) {
            lemma_children_below_direct(ms, a, k - 1, b);
        }
    }
}

/// Each nested row of the module tree sits under the nearest row above it
/// one level up, with nothing shallower in between, and that row's module
/// has the nested row's module as a direct child.
pub proof fn lemma_module_tree_parents(ms: Seq<Module>, k: int)
    requires
        0 <= k < spec_module_tree(ms).len(),
        spec_module_tree(ms)[k].0 > 0,
    ensures
        exists|j: int|
            #[trigger] parent_at(spec_module_tree(ms), k, j) && direct_child(
                ms,
                spec_module_tree(ms)[j].1,
                spec_module_tree(ms)[k].1,
            ),
{
    let rows = spec_module_tree(ms);
    let forest = forest_below(ms, ms.len() as int);
    let u = unseen_rows(forest, ms.len() as int);
    let all = Seq::new(ms.len(), |x: int| x);
    assert forall|x: int| 0 <= x < ms.len() implies all.contains(x) by {
        assert(all[x] == x);
    }
    lemma_forest_linked(ms, ms.len() as int, all);
    lemma_unseen_rows_flat(forest, ms.len() as int);
    if k >= forest.len() {
        assert(rows[k] == u[k - forest.len()]);
        assert(false);
    }
    assert(rows[k] == forest[k]);
    assert(has_parent_in(forest, child_table(ms), k));
    lemma_parent_in_prefix(forest, u, child_table(ms), k);
    let ch = child_table(ms);
    let j = choose|j: int| #[trigger] parent_at(rows, k, j) && ch[rows[j].1].contains(rows[k].1);
    lemma_module_tree_within(ms);
    assert(0 <= rows[j].1 < ms.len());
    lemma_children_below_direct(ms, rows[j].1, ms.len() as int, rows[k].1);
}

} // verus!

verus! {

/// Setting rows to added keeps every flag that was already set, and the
/// number of flags.
pub proof fn lemma_mark_rows_keeps_added(flags: Seq<bool>, rows: Seq<(int, int)>, c: int, end: int, k: int)
    requires
        0 <= k < flags.len(),
        flags[k],
    ensures
        mark_rows(flags, rows, c, end).len() == flags.len(),
        mark_rows(flags, rows, c, end)[k],
    decreases end - c,
{
    if !(c >= end || c < 0 || c >= rows.len()) {
        let next = if 0 <= rows[c].1 < flags.len() {
            flags.update(rows[c].1, true)
        } else {
            flags
        };
        lemma_mark_rows_keeps_added(next, rows, c + 1, end, k);
    }
}

/// Cascading never removes an added flag: a module added before the
/// cascade is still added after it.
pub proof fn lemma_cascade_keeps_added(flags: Seq<bool>, rows: Seq<(int, int)>, row: int, k: int)
    requires
        0 <= k < flags.len(),
        flags[k],
    ensures
        cascade_from(flags, rows, row).len() == flags.len(),
        cascade_from(flags, rows, row)[k],
    decreases rows.len() - row,
{
    if row < 0 || row >= rows.len() {
    } else if 0 <= rows[row].1 < flags.len() && flags[rows[row].1] {
        let end = subtree_end(rows, row);
        if !(end <= row || end > rows.len()) {
            lemma_mark_rows_keeps_added(flags, rows, row + 1, end, k);
            lemma_cascade_keeps_added(mark_rows(flags, rows, row + 1, end), rows, end, k);
        }
    } else {
        lemma_cascade_keeps_added(flags, rows, row + 1, k);
    }
}

} // verus!
