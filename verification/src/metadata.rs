//! Workspace build metadata: packages and their dependency graph.
//!
//! A collaborator parses the build tool's metadata output and hands this
//! module plain values: the packages (identified by their position), the
//! workspace members, and the direct dependency edges. The module keeps the
//! reversed edges and answers "all transitive dependents of a package",
//! which decides which crates need rebuilding.

use vstd::prelude::*;

verus! {

/// The minimal amount of package information kept: the package's name and
/// the source paths of its build targets.
#[derive(Debug)]
pub struct Package {
    name: String,
    src_paths: Vec<String>,
}

impl Package {
    /// The package's name.
    pub closed spec fn spec_name(&self) -> Seq<char> {
        self.name@
    }

    /// The package's target source paths.
    pub closed spec fn spec_src_paths(&self) -> Seq<String> {
        self.src_paths@
    }

    /// Build a package record from its name and target source paths.
    pub fn new(name: String, src_paths: Vec<String>) -> (r: Self)
        ensures
            r.spec_name() == name@,
            r.spec_src_paths() == src_paths@,
    {
        Package { name, src_paths }
    }

    pub fn name(&self) -> (r: &str)
        ensures
            r@ == self.spec_name(),
    {
        self.name.as_str()
    }

    pub fn src_paths(&self) -> (r: &[String])
        ensures
            r@ == self.spec_src_paths(),
    {
        self.src_paths.as_slice()
    }
}

/// `b` is a direct dependent of `a` in the reversed dependency graph.
pub open spec fn spec_edge(rev: Seq<Seq<usize>>, a: usize, b: usize) -> bool {
    a < rev.len() && rev[a as int].contains(b)
}

/// Every edge target is a valid package index.
pub open spec fn spec_graph_closed(rev: Seq<Seq<usize>>) -> bool {
    forall|i: int, j: int|
        0 <= i < rev.len() && 0 <= j < rev[i].len() ==> (#[trigger] rev[i][j] as int) < rev.len()
}

/// `s` contains every direct dependent of `root` and is closed under
/// taking direct dependents. The set of all direct and transitive
/// dependents of `root` is the least such set.
pub open spec fn spec_dependent_closed(rev: Seq<Seq<usize>>, root: usize, s: Set<usize>) -> bool {
    (forall|y: usize| spec_edge(rev, root, y) ==> s.contains(y)) && (forall|x: usize, y: usize|
        s.contains(x) && spec_edge(rev, x, y) ==> s.contains(y))
}

/// How many entries of `s` are set.
pub closed spec fn count_true(s: Seq<bool>) -> nat
    decreases s.len(),
{
    if s.len() == 0 {
        0
    } else {
        count_true(s.drop_last()) + (if s.last() {
            1nat
        } else {
            0nat
        })
    }
}

proof fn lemma_count_true_le(s: Seq<bool>)
    ensures
        count_true(s) <= s.len(),
    decreases s.len(),
{
    if s.len() > 0 {
        lemma_count_true_le(s.drop_last());
    }
}

proof fn lemma_count_true_update(s: Seq<bool>, i: int)
    requires
        0 <= i < s.len(),
        !s[i],
    ensures
        count_true(s.update(i, true)) == count_true(s) + 1,
    decreases s.len(),
{
    let t = s.update(i, true);
    if i == s.len() - 1 {
        assert(t.drop_last() =~= s.drop_last());
    } else {
        assert(t.drop_last() =~= s.drop_last().update(i, true));
        lemma_count_true_update(s.drop_last(), i);
    }
}

/// Metadata for the current project: its packages, the workspace members,
/// the reversed dependency graph, and the build tool's target directory.
///
/// A package is identified by its index into the package list.
pub struct Metadata {
    packages: Vec<Package>,
    workspace_members: Vec<usize>,
    /// `reverse_deps[i]` holds the direct dependents of package `i`.
    reverse_deps: Vec<Vec<usize>>,
    target_directory: String,
}

impl Metadata {
    pub closed spec fn spec_packages(&self) -> Seq<Package> {
        self.packages@
    }

    /// How many packages the metadata holds.
    pub closed spec fn spec_len(&self) -> nat {
        self.packages@.len()
    }

    pub closed spec fn spec_members(&self) -> Seq<usize> {
        self.workspace_members@
    }

    /// The reversed dependency graph: row `i` holds the direct dependents
    /// of package `i`.
    pub closed spec fn spec_rev(&self) -> Seq<Seq<usize>> {
        Seq::new(self.reverse_deps@.len(), |i: int| self.reverse_deps@[i]@)
    }

    pub closed spec fn spec_target_directory(&self) -> Seq<char> {
        self.target_directory@
    }

    /// Structural soundness: one graph row per package, and every index in
    /// the graph and the member list names a package.
    pub closed spec fn wf(&self) -> bool {
        &&& self.reverse_deps@.len() == self.packages@.len()
        &&& spec_graph_closed(self.spec_rev())
        &&& forall|i: int|
            0 <= i < self.workspace_members@.len() ==> (#[trigger] self.workspace_members@[i] as int)
                < self.packages@.len()
    }

    /// Look a package up by its id. Succeeds exactly for valid ids.
    pub fn package(&self, id: usize) -> (r: Option<&Package>)
        ensures
            id < self.spec_len() ==> (r matches Some(p) && *p == self.spec_packages()[id as int]),
            id >= self.spec_len() ==> r is None,
    {
        if id < self.packages.len() {
            Some(&self.packages[id])
        } else {
            None
        }
    }

    /// All packages, in id order: the package with id `i` is entry `i`.
    pub fn entries(&self) -> (r: &Vec<Package>)
        ensures
            r@ == self.spec_packages(),
    {
        &self.packages
    }

    /// The ids of all crates in the current workspace.
    pub fn workspace_members(&self) -> (r: &[usize])
        ensures
            r@ == self.spec_members(),
    {
        self.workspace_members.as_slice()
    }

    /// The target directory of the project.
    pub fn target_directory(&self) -> (r: &str)
        ensures
            r@ == self.spec_target_directory(),
    {
        self.target_directory.as_str()
    }

    /// Build metadata from plain parsed values: the packages, the ids of
    /// the workspace members, and the direct dependency edges as
    /// `(dependent, dependency)` pairs.
    ///
    /// Succeeds exactly when every id in the member list and the edge list
    /// names a package; the reversed graph then has an edge from each
    /// dependency to each of its dependents.
    pub fn from_graph(
        packages: Vec<Package>,
        workspace_members: Vec<usize>,
        dep_edges: &Vec<(usize, usize)>,
        target_directory: String,
    ) -> (r: Option<Metadata>)
        ensures
            ({
                let n = packages@.len();
                let ok = (forall|i: int|
                    0 <= i < workspace_members@.len() ==> (#[trigger] workspace_members@[i] as int)
                        < n) && (forall|i: int|
                    0 <= i < dep_edges@.len() ==> (#[trigger] dep_edges@[i].0 as int) < n
                        && dep_edges@[i].1 < n);
                &&& (r is Some <==> ok)
                &&& (r matches Some(m) ==> {
                    &&& m.wf()
                    &&& m.spec_packages() == packages@
                    &&& m.spec_members() == workspace_members@
                    &&& m.spec_target_directory() == target_directory@
                    &&& m.spec_len() == n
                    &&& forall|a: usize, b: usize|
                        spec_edge(m.spec_rev(), b, a) <==> dep_edges@.contains((a, b))
                    &&& forall|b: int|
                        0 <= b < m.spec_rev().len() ==> (#[trigger] m.spec_rev()[b]).no_duplicates()
                })
            }),
    {
        let n = packages.len();
        let mut i: usize = 0;
        while i < workspace_members.len()
            invariant
                i <= workspace_members@.len(),
                n == packages@.len(),
                forall|k: int| 0 <= k < i ==> (#[trigger] workspace_members@[k] as int) < n,
            decreases workspace_members@.len() - i,
        {
            if workspace_members[i] >= n {
                return None;
            }
            i = i + 1;
        }
        let mut e: usize = 0;
        while e < dep_edges.len()
            invariant
                e <= dep_edges@.len(),
                n == packages@.len(),
                forall|k: int|
                    0 <= k < e ==> (#[trigger] dep_edges@[k].0 as int) < n && dep_edges@[k].1 < n,
            decreases dep_edges@.len() - e,
        {
            let (a, b) = dep_edges[e];
            if a >= n || b >= n {
                return None;
            }
            e = e + 1;
        }
        let mut reverse_deps: Vec<Vec<usize>> = Vec::new();
        let mut b: usize = 0;
        while b < n
            invariant
                b <= n,
                n == packages@.len(),
                reverse_deps@.len() == b,
                forall|k: int|
                    0 <= k < dep_edges@.len() ==> (#[trigger] dep_edges@[k].0 as int) < n
                        && dep_edges@[k].1 < n,
                forall|bb: int, a: usize|
                    0 <= bb < b ==> ((#[trigger] reverse_deps@[bb]@.contains(a))
                        <==> dep_edges@.contains((a, bb as usize))),
                forall|bb: int| 0 <= bb < b ==> (#[trigger] reverse_deps@[bb]@).no_duplicates(),
            decreases n - b,
        {
            let mut row: Vec<usize> = Vec::new();
            let mut e2: usize = 0;
            while e2 < dep_edges.len()
                invariant
                    e2 <= dep_edges@.len(),
                    row@.no_duplicates(),
                    forall|a: usize|
                        (#[trigger] row@.contains(a)) <==> (exists|k: int|
                            0 <= k < e2 && #[trigger] dep_edges@[k] == (a, b)),
                decreases dep_edges@.len() - e2,
            {
                let ghost row_before = row@;
                let (a2, b2) = dep_edges[e2];
                if b2 == b {
                    let already = vec_contains(&row, a2);
                    if !already {
                        row.push(a2);
                        proof {
                            assert forall|k1: int, k2: int|
                                0 <= k1 < row@.len() && 0 <= k2 < row@.len() && k1 != k2
                                    implies row@[k1] != row@[k2] by {
                                if k1 < row_before.len() && k2 < row_before.len() {
                                } else if k1 < row_before.len() {
                                    assert(row_before[k1] == row@[k1]);
                                    assert(row_before.contains(row_before[k1]));
                                } else if k2 < row_before.len() {
                                    assert(row_before[k2] == row@[k2]);
                                    assert(row_before.contains(row_before[k2]));
                                }
                            }
                        }
                    }
                    proof {
                        lemma_row_step(row_before, row@, dep_edges@, b, e2 as int);
                    }
                } else {
                    proof {
                        lemma_row_step(row_before, row@, dep_edges@, b, e2 as int);
                    }
                }
                e2 = e2 + 1;
            }
            reverse_deps.push(row);
            b = b + 1;
        }
        let m = Metadata { packages, workspace_members, reverse_deps, target_directory };
        proof {
            assert forall|a: usize, bb: usize|
                spec_edge(m.spec_rev(), bb, a) <==> #[trigger] dep_edges@.contains((a, bb)) by {
                if bb < m.spec_rev().len() {
                    assert(m.spec_rev()[bb as int] == reverse_deps@[bb as int]@);
                } else {
                    if dep_edges@.contains((a, bb)) {
                        let k = choose|k: int|
                            0 <= k < dep_edges@.len() && dep_edges@[k] == (a, bb);
                        assert((dep_edges@[k].0 as int) < n && (dep_edges@[k].1 as int) < n);
                    }
                }
            }
            assert forall|i: int, j: int|
                0 <= i < m.spec_rev().len() && 0 <= j < m.spec_rev()[i].len() implies (
            #[trigger] m.spec_rev()[i][j] as int) < m.spec_rev().len() by {
                let a = m.spec_rev()[i][j];
                assert(m.spec_rev()[i].contains(a));
                assert(spec_edge(m.spec_rev(), i as usize, a));
                assert(dep_edges@.contains((a, i as usize)));
                let k = choose|k: int|
                    0 <= k < dep_edges@.len() && dep_edges@[k] == (a, i as usize);
                assert((dep_edges@[k].0 as int) < n);
            }
        }
        Some(m)
    }

    /// All direct and transitive dependents of package `id`, each exactly
    /// once.
    ///
    /// The result is exactly the dependents: it contains the direct
    /// dependents of `id`, it is closed under taking direct dependents, and
    /// it is the least such collection — every set with those two
    /// properties contains it.
    pub fn all_dependents_of(&self, id: usize) -> (r: Vec<usize>)
        requires
            self.wf(),
            id < self.spec_len(),
        ensures
            r@.no_duplicates(),
            forall|x: usize| #[trigger] r@.contains(x) ==> x < self.spec_len(),
            forall|y: usize| spec_edge(self.spec_rev(), id, y) ==> r@.contains(y),
            forall|x: usize, y: usize|
                r@.contains(x) && spec_edge(self.spec_rev(), x, y) ==> r@.contains(y),
            forall|s: Set<usize>, k: int|
                spec_dependent_closed(self.spec_rev(), id, s) && 0 <= k < r@.len()
                    ==> #[trigger] s.contains(r@[k]),
    {
        let ghost rev = self.spec_rev();
        let n = self.packages.len();
        let mut visited: Vec<bool> = Vec::new();
        let mut t: usize = 0;
        while t < n
            invariant
                t <= n,
                visited@.len() == t,
                forall|i: int| 0 <= i < t ==> !(#[trigger] visited@[i]),
            decreases n - t,
        {
            visited.push(false);
            t = t + 1;
        }
        proof {
            assert(count_true(visited@) == 0) by {
                lemma_count_all_false(visited@);
            }
        }
        let mut result: Vec<usize> = Vec::new();
        let mut qi: usize = 0;
        // Seed the worklist with the direct dependents of `id`, then close
        // it under direct dependents.
        let row_len = self.reverse_deps[id].len();
        let mut j: usize = 0;
        while j < row_len
            invariant
                j <= row_len,
                n == self.packages@.len(),
                self.wf(),
                id < n,
                rev == self.spec_rev(),
                row_len == rev[id as int].len(),
                visited@.len() == n,
                result@.no_duplicates(),
                forall|x: usize| x < n ==> ((#[trigger] visited@[x as int]) <==> result@.contains(x)),
                forall|x: usize| #[trigger] result@.contains(x) ==> x < n,
                forall|s: Set<usize>, k: int|
                    spec_dependent_closed(rev, id, s) && 0 <= k < result@.len()
                        ==> #[trigger] s.contains(result@[k]),
                forall|jj: int|
                    0 <= jj < j ==> visited@[#[trigger] rev[id as int][jj] as int],
            decreases row_len - j,
        {
            let y = self.reverse_deps[id][j];
            proof {
                assert(rev[id as int][j as int] == y);
                assert(spec_edge(rev, id, y)) by {
                    assert(rev[id as int].contains(y));
                }
                assert((y as int) < n);
            }
            if !visited[y] {
                let ghost vis_before = visited@;
                let ghost res_before = result@;
                visited[y] = true;
                result.push(y);
                proof {
                    assert forall|s: Set<usize>, k: int|
                        spec_dependent_closed(rev, id, s) && 0 <= k < result@.len()
                            implies #[trigger] s.contains(result@[k]) by {
                        if k < res_before.len() {
                            assert(s.contains(res_before[k]));
                        } else {
                            assert(result@[k] == y);
                        }
                    }
                    lemma_mark_and_push(rev, id, vis_before, res_before, y);
                }
            }
            j = j + 1;
        }
        proof {
            assert forall|y: usize| spec_edge(rev, id, y) implies visited@[y as int] by {
                let jj = choose|jj: int| 0 <= jj < rev[id as int].len() && rev[id as int][jj] == y;
            }
        }
        loop
            invariant
                n == self.packages@.len(),
                self.wf(),
                id < n,
                rev == self.spec_rev(),
                visited@.len() == n,
                qi <= result@.len(),
                result@.no_duplicates(),
                forall|x: usize| x < n ==> ((#[trigger] visited@[x as int]) <==> result@.contains(x)),
                forall|x: usize| #[trigger] result@.contains(x) ==> x < n,
                forall|s: Set<usize>, k: int|
                    spec_dependent_closed(rev, id, s) && 0 <= k < result@.len()
                        ==> #[trigger] s.contains(result@[k]),
                forall|y: usize| spec_edge(rev, id, y) ==> visited@[y as int],
                forall|k: int|
                    0 <= k < qi ==> forall|y: usize|
                        spec_edge(rev, #[trigger] result@[k], y) ==> visited@[y as int],
            ensures
                qi == result@.len(),
            decreases n - count_true(visited@), result@.len() - qi,
        {
            if qi >= result.len() {
                break;
            }
            let x = result[qi];
            let ghost count0 = count_true(visited@);
            let ghost len0 = result@.len();
            proof {
                assert(result@.contains(x)) by {
                    assert(result@[qi as int] == x);
                }
                assert((x as int) < n);
                lemma_count_true_le(visited@);
            }
            let inner_len = self.reverse_deps[x].len();
            let mut j2: usize = 0;
            while j2 < inner_len
                invariant
                    j2 <= inner_len,
                    n == self.packages@.len(),
                    self.wf(),
                    id < n,
                    x < n,
                    rev == self.spec_rev(),
                    inner_len == rev[x as int].len(),
                    visited@.len() == n,
                    qi < result@.len(),
                    result@[qi as int] == x,
                    result@.no_duplicates(),
                    forall|xx: usize|
                        xx < n ==> ((#[trigger] visited@[xx as int]) <==> result@.contains(xx)),
                    forall|xx: usize| #[trigger] result@.contains(xx) ==> xx < n,
                    forall|s: Set<usize>, k: int|
                        spec_dependent_closed(rev, id, s) && 0 <= k < result@.len()
                            ==> #[trigger] s.contains(result@[k]),
                    forall|y: usize| spec_edge(rev, id, y) ==> visited@[y as int],
                    forall|k: int|
                        0 <= k < qi ==> forall|y: usize|
                            spec_edge(rev, #[trigger] result@[k], y) ==> visited@[y as int],
                    forall|jj: int|
                        0 <= jj < j2 ==> visited@[#[trigger] rev[x as int][jj] as int],
                    (result@.len() == len0 && count_true(visited@) == count0) || (result@.len()
                        > len0 && count_true(visited@) > count0),
                    count_true(visited@) <= n,
                decreases inner_len - j2,
            {
                let y = self.reverse_deps[x][j2];
                proof {
                    assert(rev[x as int][j2 as int] == y);
                    assert(spec_edge(rev, x, y)) by {
                        assert(rev[x as int].contains(y));
                    }
                    assert((y as int) < n);
                }
                if !visited[y] {
                    let ghost vis_before = visited@;
                    let ghost res_before = result@;
                    visited[y] = true;
                    result.push(y);
                    proof {
                        assert(res_before[qi as int] == x);
                        assert forall|s: Set<usize>, k: int|
                            spec_dependent_closed(rev, id, s) && 0 <= k < result@.len()
                                implies #[trigger] s.contains(result@[k]) by {
                            if k < res_before.len() {
                                assert(s.contains(res_before[k]));
                            } else {
                                assert(s.contains(res_before[qi as int]));
                                assert(result@[k] == y);
                            }
                        }
                        lemma_mark_and_push(rev, id, vis_before, res_before, y);
                        lemma_count_true_update(vis_before, y as int);
                        lemma_count_true_le(visited@);
                    }
                }
                j2 = j2 + 1;
            }
            qi = qi + 1;
        }
        proof {
            assert forall|y: usize| spec_edge(rev, id, y) implies result@.contains(y) by {
                assert(visited@[y as int]);
            }
            assert forall|x: usize, y: usize|
                result@.contains(x) && spec_edge(rev, x, y) implies result@.contains(y) by {
                let k = choose|k: int| 0 <= k < result@.len() && result@[k] == x;
                assert(visited@[y as int]);
            }
        }
        result
    }
}

/// One step of building a reversed-graph row: after considering edge `e`,
/// the row holds exactly the dependents recorded by the first `e + 1`
/// edges whose dependency is `b`.
proof fn lemma_row_step(
    row0: Seq<usize>,
    row1: Seq<usize>,
    edges: Seq<(usize, usize)>,
    b: usize,
    e: int,
)
    requires
        0 <= e < edges.len(),
        forall|a: usize|
            (#[trigger] row0.contains(a)) <==> (exists|k: int|
                0 <= k < e && #[trigger] edges[k] == (a, b)),
        edges[e].1 == b && !row0.contains(edges[e].0) ==> row1 == row0.push(edges[e].0),
        edges[e].1 == b && row0.contains(edges[e].0) ==> row1 == row0,
        edges[e].1 != b ==> row1 == row0,
    ensures
        forall|a: usize|
            (#[trigger] row1.contains(a)) <==> (exists|k: int|
                0 <= k < e + 1 && #[trigger] edges[k] == (a, b)),
{
    let a0 = edges[e].0;
    let pushed = edges[e].1 == b && !row0.contains(a0);
    assert forall|a: usize| #[trigger] row1.contains(a) implies (exists|k: int|
        0 <= k < e + 1 && #[trigger] edges[k] == (a, b)) by {
        let ki = choose|ki: int| 0 <= ki < row1.len() && row1[ki] == a;
        if pushed && ki == row0.len() {
            assert(a == a0);
            assert(edges[e] == (a, b));
        } else {
            assert(row0[ki] == a);
            assert(row0.contains(a));
            let k = choose|k: int| 0 <= k < e && edges[k] == (a, b);
            assert(0 <= k < e + 1 && edges[k] == (a, b));
        }
    }
    assert forall|a: usize|
        (exists|k: int| 0 <= k < e + 1 && #[trigger] edges[k] == (a, b)) implies #[trigger] row1
        .contains(a) by {
        let k = choose|k: int| 0 <= k < e + 1 && edges[k] == (a, b);
        if k < e {
            assert(row0.contains(a));
            let ki = choose|ki: int| 0 <= ki < row0.len() && row0[ki] == a;
            assert(row1[ki] == a);
        } else {
            assert(edges[e] == (a, b));
            if row0.contains(a) {
                let ki = choose|ki: int| 0 <= ki < row0.len() && row0[ki] == a;
                assert(row1[ki] == a);
            } else {
                assert(row1 == row0.push(a));
                assert(row1[row0.len() as int] == a);
            }
        }
    }
}

/// Marking a fresh index visited and appending it to the worklist keeps the
/// visited set and the worklist mirroring each other, without duplicates.
proof fn lemma_mark_and_push(
    rev: Seq<Seq<usize>>,
    id: usize,
    vis: Seq<bool>,
    res: Seq<usize>,
    y: usize,
)
    requires
        (y as int) < vis.len(),
        !vis[y as int],
        res.no_duplicates(),
        forall|x: usize| x < vis.len() ==> ((#[trigger] vis[x as int]) <==> res.contains(x)),
        forall|x: usize| #[trigger] res.contains(x) ==> x < vis.len(),
    ensures
        res.push(y).no_duplicates(),
        forall|x: usize|
            x < vis.len() ==> ((#[trigger] vis.update(y as int, true)[x as int]) <==> res.push(
                y,
            ).contains(x)),
        forall|x: usize| #[trigger] res.push(y).contains(x) ==> x < vis.len(),
{
    assert(!res.contains(y));
    assert forall|x: usize| #[trigger] res.push(y).contains(x) implies x < vis.len() by {
        let k = choose|k: int| 0 <= k < res.push(y).len() && res.push(y)[k] == x;
        if k < res.len() {
            assert(res.contains(x));
        }
    }
    assert forall|x: usize|
        x < vis.len() implies ((#[trigger] vis.update(y as int, true)[x as int]) <==> res.push(
        y,
    ).contains(x)) by {
        if x == y {
            assert(res.push(y)[res.len() as int] == y);
        } else {
            if res.contains(x) {
                let k = choose|k: int| 0 <= k < res.len() && res[k] == x;
                assert(res.push(y)[k] == x);
            } else if res.push(y).contains(x) {
                let k = choose|k: int| 0 <= k < res.push(y).len() && res.push(y)[k] == x;
                assert(0 <= k < res.len());
                assert(res.contains(x));
            }
        }
    }
}

proof fn lemma_count_all_false(s: Seq<bool>)
    requires
        forall|i: int| 0 <= i < s.len() ==> !(#[trigger] s[i]),
    ensures
        count_true(s) == 0,
    decreases s.len(),
{
    if s.len() > 0 {
        lemma_count_all_false(s.drop_last());
    }
}

/// Whether a vector of ids contains `x`.
fn vec_contains(v: &Vec<usize>, x: usize) -> (r: bool)
    ensures
        r == v@.contains(x),
{
    let mut i: usize = 0;
    while i < v.len()
        invariant
            i <= v@.len(),
            forall|k: int| 0 <= k < i ==> v@[k] != x,
        decreases v@.len() - i,
    {
        if v[i] == x {
            return true;
        }
        i = i + 1;
    }
    false
}

} // verus!
