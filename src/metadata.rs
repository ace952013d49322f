//! The package graph reported by the package manager, and the questions the
//! build asks of it.

use vstd::prelude::*;
use crate::path::{LocalPath, PathView, child_spec, parent_spec};
use crate::text::{first_where, lemma_first_where, lemma_first_where_at, texts_view};

verus! {

/// One declared dependency of a package.
#[derive(Clone, Debug)]
pub struct DependencyInfo {
    /// Name of the package depended on.
    pub name: String,
    /// Name under which the dependency is declared, where it is renamed.
    pub rename: Option<String>,
    /// Directory of the dependency, where it is a local path dependency.
    pub path: Option<LocalPath>,
}

/// One package of the graph.
#[derive(Clone, Debug)]
pub struct PackageInfo {
    pub id: String,
    pub name: String,
    pub manifest_path: LocalPath,
    pub dependencies: Vec<DependencyInfo>,
}

/// What one metadata query reports about the packages reachable from a manifest.
#[derive(Clone, Debug)]
pub struct PackageGraph {
    pub packages: Vec<PackageInfo>,
    /// Ids of the packages that belong to the queried workspace.
    pub workspace_members: Vec<String>,
    pub target_directory: LocalPath,
    /// Whether the workspace carries metadata of its own.
    pub has_workspace_metadata: bool,
}

/// The package graph together with the manifest it was queried for.
#[derive(Clone, Debug)]
pub struct CrateMetadata {
    pub metadata: PackageGraph,
    pub cargo_toml: LocalPath,
}

/// A local dependency found while walking the graph.
#[derive(Clone, Debug)]
pub struct Dependency {
    pub name: String,
    pub path: LocalPath,
}

impl View for Dependency {
    type V = (Seq<char>, PathView);

    open spec fn view(&self) -> (Seq<char>, PathView) {
        (self.name@, self.path@)
    }
}

/// Why a package or one of its dependencies could not be resolved.
#[derive(Clone, Copy, Debug, PartialEq, Eq, Structural)]
pub enum ResolveError {
    /// No package of the graph has the manifest asked about.
    ManifestNotFound,
    /// No declared dependency, or no package, answers to the name asked for.
    DependencyNotFound,
    /// The package builds a number of binaries other than one.
    MultipleBinaries(usize),
    /// The manifest belongs to a workspace with metadata of its own.
    WorkspaceUnsupported,
}

/// Holds of a package whose manifest is `m`.
pub open spec fn has_manifest(m: PathView) -> spec_fn(PackageInfo) -> bool {
    |p: PackageInfo| p.manifest_path@ == m
}

/// Holds of a package named `n`.
pub open spec fn has_name(n: Seq<char>) -> spec_fn(PackageInfo) -> bool {
    |p: PackageInfo| p.name@ == n
}

/// The name under which a dependency is declared: its rename, else its name.
pub open spec fn declared_name(d: DependencyInfo) -> Seq<char> {
    match d.rename {
        Some(r) => r@,
        None => d.name@,
    }
}

/// Holds of a dependency declared as `n`.
pub open spec fn declared_as(n: Seq<char>) -> spec_fn(DependencyInfo) -> bool {
    |d: DependencyInfo| declared_name(d) == n
}

/// The manifest file of a package directory.
pub open spec fn manifest_in(dir: PathView) -> PathView {
    child_spec(dir, "Cargo.toml"@)
}

/// The first package of `pkgs` whose manifest is `m`.
pub open spec fn package_with_manifest(pkgs: Seq<PackageInfo>, m: PathView) -> Option<PackageInfo> {
    match first_where(pkgs, has_manifest(m)) {
        Some(i) => Some(pkgs[i]),
        None => None,
    }
}

/// The directory of the package that the dependency declared as `dep` names.
/// Where the queried manifest has no package, no edge can match, and the
/// dependency is not found.
pub open spec fn crate_of_dependency_spec(meta: CrateMetadata, dep: Seq<char>) -> Result<
    PathView,
    ResolveError,
> {
    let pkgs = meta.metadata.packages@;
    match package_with_manifest(pkgs, meta.cargo_toml@) {
        None => Err(ResolveError::DependencyNotFound),
        Some(cur) => match first_where(cur.dependencies@, declared_as(dep)) {
            None => Err(ResolveError::DependencyNotFound),
            Some(j) => match first_where(pkgs, has_name(cur.dependencies@[j].name@)) {
                None => Err(ResolveError::DependencyNotFound),
                Some(k) => match parent_spec(pkgs[k].manifest_path@) {
                    None => Err(ResolveError::ManifestNotFound),
                    Some(dir) => Ok(dir),
                },
            },
        },
    }
}

/// Whether a character is ASCII whitespace.
pub open spec fn is_ascii_ws(c: char) -> bool {
    c == ' ' || c == '\t' || c == '\n' || c == '\x0C' || c == '\r'
}

/// Holds of a character that is not ASCII whitespace.
pub open spec fn non_blank() -> spec_fn(char) -> bool {
    |c: char| !is_ascii_ws(c)
}

/// Holds of ASCII whitespace.
pub open spec fn blank() -> spec_fn(char) -> bool {
    |c: char| is_ascii_ws(c)
}

/// The first whitespace-separated word of `s`; empty where `s` is blank.
pub open spec fn first_token(s: Seq<char>) -> Seq<char> {
    let a = match first_where(s, non_blank()) {
        Some(i) => i,
        None => s.len() as int,
    };
    let rest = s.subrange(a, s.len() as int);
    let b = match first_where(rest, blank()) {
        Some(j) => j,
        None => rest.len() as int,
    };
    rest.subrange(0, b)
}

/// Names of the workspace members, one per member, in order: the first word
/// of each member's package id.
pub open spec fn crate_names_spec(members: Seq<String>) -> Seq<Seq<char>> {
    members.map_values(|m: String| first_token(m@))
}

/// The first whitespace-separated word of `s`.
pub fn first_word(s: &str) -> (r: String)
    ensures
        r@ == first_token(s@),
{
    let n = s.unicode_len();
    let mut a: usize = 0;
    while a < n && is_blank_char(s.get_char(a))
        invariant
            a <= n,
            n == s@.len(),
            forall|k: int| 0 <= k < a ==> !non_blank()(#[trigger] s@[k]),
        decreases n - a,
    {
        a = a + 1;
    }
    proof {
        if a < n {
            lemma_first_where_at(s@, non_blank(), a as int);
        } else {
            lemma_first_where(s@, non_blank());
        }
    }
    let ghost rest = s@.subrange(a as int, n as int);
    let mut b: usize = a;
    while b < n && !is_blank_char(s.get_char(b))
        invariant
            a <= b <= n,
            n == s@.len(),
            rest == s@.subrange(a as int, n as int),
            forall|k: int| 0 <= k < b - a ==> !blank()(#[trigger] rest[k]),
        decreases n - b,
    {
        assert(rest[b - a] == s@[b as int]);
        b = b + 1;
    }
    proof {
        if b < n {
            assert(rest[b - a] == s@[b as int]);
            lemma_first_where_at(rest, blank(), (b - a) as int);
        } else {
            lemma_first_where(rest, blank());
        }
    }
    let word = s.substring_char(a, b);
    assert(word@ =~= rest.subrange(0, (b - a) as int));
    word.to_owned()
}

fn is_blank_char(c: char) -> (r: bool)
    ensures
        r == is_ascii_ws(c),
{
    c == ' ' || c == '\t' || c == '\n' || c == '\x0C' || c == '\r'
}

/// Holds of a dependency on the local directory `p`.
pub open spec fn points_to(d: DependencyInfo, p: PathView) -> bool {
    match d.path {
        Some(q) => q@ == p,
        None => false,
    }
}

/// Directories of the local path dependencies among `deps`.
pub open spec fn local_paths_spec(deps: Seq<DependencyInfo>) -> Set<PathView> {
    Set::new(|p: PathView| exists|i: int| 0 <= i < deps.len() && points_to(deps[i], p))
}

/// The (name, directory) pairs of the local path dependencies among `deps`.
pub open spec fn local_edges_spec(deps: Seq<DependencyInfo>) -> Set<(Seq<char>, PathView)> {
    Set::new(
        |e: (Seq<char>, PathView)|
            exists|i: int|
                0 <= i < deps.len() && points_to(deps[i], e.1) && e.0 == deps[i].name@,
    )
}

/// Index of the first package with manifest `m`.
fn find_by_manifest(pkgs: &Vec<PackageInfo>, m: &LocalPath) -> (r: Option<usize>)
    ensures
        match r {
            Some(i) => first_where(pkgs@, has_manifest(m@)) == Some(i as int),
            None => first_where(pkgs@, has_manifest(m@)) is None,
        },
{
    let ghost p = has_manifest(m@);
    for i in 0..pkgs.len()
        invariant
            p == has_manifest(m@),
            forall|j: int| 0 <= j < i ==> !p(#[trigger] pkgs@[j]),
    {
        if pkgs[i].manifest_path.same_as(m) {
            proof { lemma_first_where_at(pkgs@, p, i as int); }
            return Some(i);
        }
    }
    proof { lemma_first_where(pkgs@, p); }
    None
}

/// Index of the first package named `n`.
fn find_by_name(pkgs: &Vec<PackageInfo>, n: &String) -> (r: Option<usize>)
    ensures
        match r {
            Some(i) => first_where(pkgs@, has_name(n@)) == Some(i as int),
            None => first_where(pkgs@, has_name(n@)) is None,
        },
{
    let ghost p = has_name(n@);
    for i in 0..pkgs.len()
        invariant
            p == has_name(n@),
            forall|j: int| 0 <= j < i ==> !p(#[trigger] pkgs@[j]),
    {
        if pkgs[i].name == *n {
            proof { lemma_first_where_at(pkgs@, p, i as int); }
            return Some(i);
        }
    }
    proof { lemma_first_where(pkgs@, p); }
    None
}

/// Index of the first dependency declared as `n`.
fn find_declared(deps: &Vec<DependencyInfo>, n: &str) -> (r: Option<usize>)
    ensures
        match r {
            Some(i) => first_where(deps@, declared_as(n@)) == Some(i as int),
            None => first_where(deps@, declared_as(n@)) is None,
        },
{
    let ghost p = declared_as(n@);
    let wanted = n.to_owned();
    for i in 0..deps.len()
        invariant
            wanted@ == n@,
            p == declared_as(n@),
            forall|j: int| 0 <= j < i ==> !p(#[trigger] deps@[j]),
    {
        let d = &deps[i];
        let hit = match &d.rename {
            Some(r) => *r == wanted,
            None => d.name == wanted,
        };
        if hit {
            proof { lemma_first_where_at(deps@, p, i as int); }
            return Some(i);
        }
    }
    proof { lemma_first_where(deps@, p); }
    None
}

impl CrateMetadata {
    /// Pairs a package graph with the manifest it was queried for.
    pub fn new(metadata: PackageGraph, cargo_toml: LocalPath) -> (r: CrateMetadata)
        ensures
            r.metadata == metadata,
            r.cargo_toml == cargo_toml,
    {
        CrateMetadata { metadata, cargo_toml }
    }

    /// The directory the package manager writes build output to.
    pub fn get_target_dir(&self) -> (r: LocalPath)
        ensures
            r@ == self.metadata.target_directory@,
    {
        self.metadata.target_directory.duplicate()
    }

    /// Names of the packages that make up the queried workspace: the first
    /// word of each member's package id, one per member, in order.
    pub fn get_crate_names(&self) -> (r: Vec<String>)
        ensures
            texts_view(r@) == crate_names_spec(self.metadata.workspace_members@),
    {
        let members = &self.metadata.workspace_members;
        let mut names: Vec<String> = Vec::new();
        for i in 0..members.len()
            invariant
                members == &self.metadata.workspace_members,
                texts_view(names@) == crate_names_spec(members@.subrange(0, i as int)),
        {
            let ghost before = texts_view(names@);
            let w = first_word(members[i].as_str());
            assert(w@ == first_token(members@[i as int]@));
            names.push(w);
            assert(texts_view(names@) =~= before.push(first_token(members@[i as int]@)));
            assert(crate_names_spec(members@.subrange(0, i + 1)) =~= crate_names_spec(
                members@.subrange(0, i as int),
            ).push(first_token(members@[i as int]@)));
        }
        assert(members@.subrange(0, members@.len() as int) =~= members@);
        names
    }

    /// Directories of the local path dependencies of the queried package,
    /// each once.
    pub fn get_local_dependencies(&self) -> (r: Result<Vec<LocalPath>, ResolveError>)
        ensures
            match package_with_manifest(self.metadata.packages@, self.cargo_toml@) {
                None => r == Err::<Vec<LocalPath>, ResolveError>(ResolveError::ManifestNotFound),
                Some(cur) => r matches Ok(v) && paths_distinct(v@)
                    && paths_set(v@) == local_paths_spec(cur.dependencies@),
            },
    {
        let pkgs = &self.metadata.packages;
        let idx = match find_by_manifest(pkgs, &self.cargo_toml) {
            Some(i) => i,
            None => return Err(ResolveError::ManifestNotFound),
        };
        proof { lemma_first_where(pkgs@, has_manifest(self.cargo_toml@)); }
        let deps = &pkgs[idx].dependencies;
        let mut out: Vec<LocalPath> = Vec::new();
        for i in 0..deps.len()
            invariant
                paths_distinct(out@),
                paths_set(out@) == local_paths_spec(deps@.subrange(0, i as int)),
        {
            let ghost before = deps@.subrange(0, i as int);
            let ghost after = deps@.subrange(0, i + 1);
            let ghost old_out = out@;
            match &deps[i].path {
                Some(p) => {
                    if !contains_path(&out, p) {
                        out.push(p.duplicate());
                        proof { lemma_paths_push(old_out, out@.last()); }
                    } else {
                        assert(paths_set(old_out).insert(p@) =~= paths_set(old_out));
                    }
                    assert(paths_set(out@) == paths_set(old_out).insert(p@));
                    assert(paths_set(out@) =~= local_paths_spec(after)) by {
                        assert forall|q: PathView| local_paths_spec(after).contains(q) implies
                            paths_set(out@).contains(q) by {
                            let w = choose|w: int| 0 <= w < after.len() && points_to(after[w], q);
                            if w < i {
                                assert(before[w] == after[w]);
                                assert(local_paths_spec(before).contains(q));
                            }
                        }
                        assert forall|q: PathView| paths_set(out@).contains(q) implies
                            local_paths_spec(after).contains(q) by {
                            if q != p@ {
                                assert(local_paths_spec(before).contains(q));
                                let w = choose|w: int| 0 <= w < before.len() && points_to(before[w], q);
                                assert(after[w] == before[w]);
                            } else {
                                assert(points_to(after[i as int], q));
                            }
                        }
                    }
                },
                None => {
                    assert(local_paths_spec(after) =~= local_paths_spec(before)) by {
                        assert forall|q: PathView| local_paths_spec(after).contains(q) implies
                            local_paths_spec(before).contains(q) by {
                            let w = choose|w: int| 0 <= w < after.len() && points_to(after[w], q);
                            assert(before[w] == after[w]);
                        }
                        assert forall|q: PathView| local_paths_spec(before).contains(q) implies
                            local_paths_spec(after).contains(q) by {
                            let w = choose|w: int| 0 <= w < before.len() && points_to(before[w], q);
                            assert(before[w] == after[w]);
                        }
                    }
                },
            }
        }
        assert(deps@.subrange(0, deps@.len() as int) =~= deps@);
        Ok(out)
    }

    /// The local path dependencies reachable from this package: those its own
    /// package declares, then, for each one found, those that the package in
    /// that dependency's directory declares, and so on. Each (name, directory)
    /// pair comes once, and the walk ends on shared sub-trees and cycles alike.
    /// The result is the least set that holds the package's own local
    /// dependencies and, with each pair, those of the package in its directory.
    pub fn get_recurisve_local_dependencies(&self) -> (r: Vec<Dependency>)
        ensures
            dependency_views(r@).no_duplicates(),
            closed_under(self.metadata.packages@, self.cargo_toml@, dependency_views(r@).to_set()),
            forall|s: Set<(Seq<char>, PathView)>|
                closed_under(self.metadata.packages@, self.cargo_toml@, s) ==> #[trigger] dependency_views(
                    r@,
                ).to_set().subset_of(s),
            r@.len() <= graph_edges(self.metadata.packages@).to_set().len(),
    {
        let pkgs = &self.metadata.packages;
        let ghost root = self.cargo_toml@;
        let ghost edges = graph_edges(pkgs@).to_set();
        proof {
            vstd::seq_lib::seq_to_set_is_finite(graph_edges(pkgs@));
        }
        let empty: Vec<DependencyInfo> = Vec::new();
        let mut walk = LocalDependencyWalk::start(&self.cargo_toml);
        proof { lemma_walk_bounded(walk, edges); }
        loop
            invariant
                pkgs == &self.metadata.packages,
                root == self.cargo_toml@,
                edges == graph_edges(pkgs@).to_set(),
                edges.finite(),
                empty@.len() == 0,
                walk.wf(),
                walk.manifests()[0] == root,
                forall|k: int| 0 <= k < walk.found().len() ==> edges.contains(#[trigger] walk.found()[k]),
                walk.handed_out() <= edges.len() + 1,
                forall|k: int|
                    0 <= k < walk.handed_out() ==> pkg_edges(pkgs@, #[trigger] walk.manifests()[k]).subset_of(
                        walk.found().to_set(),
                    ),
                forall|t: Set<(Seq<char>, PathView)>|
                    closed_under(pkgs@, root, t) ==> #[trigger] walk.found().to_set().subset_of(t),
            ensures
                walk.wf(),
                walk.manifests()[0] == root,
                walk.handed_out() == walk.manifests().len(),
                forall|k: int| 0 <= k < walk.found().len() ==> edges.contains(#[trigger] walk.found()[k]),
                forall|k: int|
                    0 <= k < walk.handed_out() ==> pkg_edges(pkgs@, #[trigger] walk.manifests()[k]).subset_of(
                        walk.found().to_set(),
                    ),
                forall|t: Set<(Seq<char>, PathView)>|
                    closed_under(pkgs@, root, t) ==> #[trigger] walk.found().to_set().subset_of(t),
            decreases edges.len() + 1 - walk.handed_out(),
        {
            let ghost h = walk.handed_out();
            let ghost before = walk.found();
            let ghost mans = walk.manifests();
            let m = match walk.next_manifest() {
                Some(m) => m,
                None => break,
            };
            assert(m@ == mans[h]);
            let found = find_by_manifest(pkgs, &m);
            proof { lemma_first_where(pkgs@, has_manifest(m@)); }
            let ghost recorded: Set<(Seq<char>, PathView)>;
            match found {
                Some(i) => {
                    walk.record(&pkgs[i].dependencies);
                    proof { recorded = local_edges_spec(pkgs@[i as int].dependencies@); }
                },
                None => {
                    walk.record(&empty);
                    proof {
                        recorded = local_edges_spec(empty@);
                        assert(recorded =~= Set::empty()) by {
                            assert forall|e| !recorded.contains(e) by {
                                if recorded.contains(e) {
                                    let w = choose|w: int| 0 <= w < empty@.len() && points_to(empty@[w], e.1) && e.0 == empty@[w].name@;
                                }
                            }
                        }
                    }
                },
            }
            proof {
                assert(pkg_edges(pkgs@, m@) == recorded);
                let after = walk.found();
                assert forall|e| #[trigger] after.contains(e) <==> (before.contains(e) || recorded.contains(e)) by {}
                assert forall|k: int| 0 <= k < after.len() implies edges.contains(#[trigger] after[k]) by {
                    let e = after[k];
                    assert(after.contains(e));
                    if recorded.contains(e) {
                        match found {
                            Some(i) => { lemma_graph_edges(pkgs@, i as int, e); },
                            None => {},
                        }
                    } else {
                        let j = choose|j: int| 0 <= j < before.len() && before[j] == e;
                    }
                }
                assert(walk.manifests().subrange(0, mans.len() as int) == mans);
                assert(mans.len() >= 1);
                assert(walk.manifests().subrange(0, mans.len() as int)[0] == walk.manifests()[0]);
                assert(walk.manifests()[0] == mans[0]);
                assert forall|k: int| 0 <= k < walk.handed_out() implies pkg_edges(
                    pkgs@,
                    #[trigger] walk.manifests()[k],
                ).subset_of(after.to_set()) by {
                    assert(k < mans.len());
                    assert(walk.manifests().subrange(0, mans.len() as int)[k] == walk.manifests()[k]);
                    assert(walk.manifests()[k] == mans[k]);
                    assert forall|e| pkg_edges(pkgs@, mans[k]).contains(e) implies after.to_set().contains(e) by {
                        if k < h {
                            assert(before.to_set().contains(e));
                            assert(before.contains(e));
                        }
                        assert(after.contains(e));
                    }
                }
                assert forall|t: Set<(Seq<char>, PathView)>| closed_under(pkgs@, root, t) implies
                    #[trigger] after.to_set().subset_of(t) by {
                    assert(before.to_set().subset_of(t));
                    assert(recorded.subset_of(t)) by {
                        if h == 0 {
                            assert(m@ == root);
                        } else {
                            assert(manifest_of_some(before, mans[h]));
                            let f = choose|f: int| 0 <= f < before.len() && mans[h] == manifest_in(before[f].1);
                            assert(before.to_set().contains(before[f]));
                            assert(t.contains(before[f]));
                        }
                    }
                    assert forall|e| after.to_set().contains(e) implies t.contains(e) by {
                        assert(after.contains(e));
                        if before.contains(e) {
                            assert(before.to_set().contains(e));
                        }
                    }
                }
                lemma_walk_bounded(walk, edges);
            }
        }
        proof {
            lemma_walk_bounded(walk, edges);
            graph_edges(pkgs@).lemma_cardinality_of_set();
        }
        let r = walk.dependencies();
        proof {
            let fs = walk.found();
            assert(dependency_views(r@) == fs);
            assert(pkg_edges(pkgs@, walk.manifests()[0]).subset_of(fs.to_set()));
            assert forall|e| #[trigger] fs.to_set().contains(e) implies pkg_edges(
                pkgs@,
                manifest_in(e.1),
            ).subset_of(fs.to_set()) by {
                assert(fs.contains(e));
                let k = choose|k: int| 0 <= k < fs.len() && fs[k] == e;
                assert(walk.manifests().contains(manifest_in(fs[k].1)));
                let j = choose|j: int| 0 <= j < walk.manifests().len() && walk.manifests()[j] == manifest_in(fs[k].1);
                assert(pkg_edges(pkgs@, walk.manifests()[j]).subset_of(fs.to_set()));
            }
            assert(closed_under(pkgs@, root, fs.to_set()));
        }
        r
    }

    /// Directory of the package that this package depends on under the
    /// declared name `dep_name`, a rename taking the place of the name.
    pub fn get_crate_of_dependency(&self, dep_name: &str) -> (r: Result<LocalPath, ResolveError>)
        ensures
            match r {
                Ok(dir) => crate_of_dependency_spec(*self, dep_name@) == Ok::<PathView, ResolveError>(dir@),
                Err(e) => crate_of_dependency_spec(*self, dep_name@) == Err::<PathView, ResolveError>(e),
            },
    {
        let pkgs = &self.metadata.packages;
        let idx = match find_by_manifest(pkgs, &self.cargo_toml) {
            Some(i) => i,
            None => return Err(ResolveError::DependencyNotFound),
        };
        proof { lemma_first_where(pkgs@, has_manifest(self.cargo_toml@)); }
        let deps = &pkgs[idx].dependencies;
        let j = match find_declared(deps, dep_name) {
            Some(j) => j,
            None => return Err(ResolveError::DependencyNotFound),
        };
        proof { lemma_first_where(deps@, declared_as(dep_name@)); }
        let k = match find_by_name(pkgs, &deps[j].name) {
            Some(k) => k,
            None => return Err(ResolveError::DependencyNotFound),
        };
        proof { lemma_first_where(pkgs@, has_name(deps@[j as int].name@)); }
        match pkgs[k].manifest_path.parent() {
            Some(dir) => Ok(dir),
            None => Err(ResolveError::ManifestNotFound),
        }
    }
}

/// The set of paths that a vector holds.
pub open spec fn paths_set(v: Seq<LocalPath>) -> Set<PathView> {
    Set::new(|p: PathView| exists|i: int| 0 <= i < v.len() && v[i]@ == p)
}

/// No path occurs twice.
pub open spec fn paths_distinct(v: Seq<LocalPath>) -> bool {
    forall|i: int, j: int| 0 <= i < j < v.len() ==> v[i]@ != v[j]@
}

proof fn lemma_paths_push(v: Seq<LocalPath>, p: LocalPath)
    ensures
        paths_set(v.push(p)) == paths_set(v).insert(p@),
{
    let w = v.push(p);
    assert forall|q: PathView| paths_set(w).contains(q) implies paths_set(v).insert(p@).contains(q) by {
        let i = choose|i: int| 0 <= i < w.len() && w[i]@ == q;
        if i < v.len() {
            assert(v[i] == w[i]);
        }
    }
    assert forall|q: PathView| paths_set(v).insert(p@).contains(q) implies paths_set(w).contains(q) by {
        if q == p@ {
            assert(w[v.len() as int]@ == q);
        } else {
            let i = choose|i: int| 0 <= i < v.len() && v[i]@ == q;
            assert(w[i] == v[i]);
        }
    }
    assert(paths_set(w) =~= paths_set(v).insert(p@));
}

/// Whether `v` holds `p`.
pub fn contains_path(v: &Vec<LocalPath>, p: &LocalPath) -> (r: bool)
    ensures
        r == paths_set(v@).contains(p@),
{
    for i in 0..v.len()
        invariant
            forall|j: int| 0 <= j < i ==> v@[j]@ != p@,
    {
        if v[i].same_as(p) {
            return true;
        }
    }
    false
}

/// A breadth-first walk over local path dependencies.
///
/// The walk hands out manifests to query, one at a time, and takes back the
/// dependencies each query reports. Every manifest is handed out at most once,
/// and every (name, directory) pair is kept once, so shared sub-trees are
/// visited a single time.
pub struct LocalDependencyWalk {
    manifests: Vec<LocalPath>,
    next: usize,
    found: Vec<Dependency>,
}

/// Whether `m` is the manifest in the directory of one of `found`.
pub open spec fn manifest_of_some(found: Seq<(Seq<char>, PathView)>, m: PathView) -> bool {
    exists|f: int| 0 <= f < found.len() && m == manifest_in(found[f].1)
}

/// The views of a sequence of paths.
pub open spec fn path_views(v: Seq<LocalPath>) -> Seq<PathView> {
    v.map_values(|p: LocalPath| p@)
}

/// The views of a sequence of dependencies.
pub open spec fn dependency_views(v: Seq<Dependency>) -> Seq<(Seq<char>, PathView)> {
    v.map_values(|d: Dependency| d@)
}

impl LocalDependencyWalk {
    /// Every manifest the walk knows of, in the order it met them.
    pub closed spec fn manifests(&self) -> Seq<PathView> {
        path_views(self.manifests@)
    }

    /// How many manifests have been handed out.
    pub closed spec fn handed_out(&self) -> int {
        self.next as int
    }

    /// The local dependencies found so far.
    pub closed spec fn found(&self) -> Seq<(Seq<char>, PathView)> {
        dependency_views(self.found@)
    }

    /// The manifests handed out so far.
    pub open spec fn queried(&self) -> Seq<PathView> {
        self.manifests().subrange(0, self.handed_out())
    }

    /// The walk's invariant: no manifest and no dependency twice, and a
    /// manifest for the root and for each dependency found, and no other.
    pub open spec fn wf(&self) -> bool {
        &&& 0 <= self.handed_out() <= self.manifests().len()
        &&& self.manifests().len() >= 1
        &&& self.manifests().no_duplicates()
        &&& self.found().no_duplicates()
        &&& forall|k: int| 0 <= k < self.found().len()
            ==> self.manifests().contains(manifest_in(#[trigger] self.found()[k].1))
        &&& forall|k: int| 1 <= k < self.manifests().len()
            ==> manifest_of_some(self.found(), #[trigger] self.manifests()[k])
        &&& self.manifests().len() <= self.found().len() + 1
    }

    /// A walk that starts at the manifest `root`.
    pub fn start(root: &LocalPath) -> (r: LocalDependencyWalk)
        ensures
            r.wf(),
            r.manifests() == seq![root@],
            r.handed_out() == 0,
            r.found().len() == 0,
    {
        let mut manifests: Vec<LocalPath> = Vec::new();
        manifests.push(root.duplicate());
        let r = LocalDependencyWalk { manifests, next: 0, found: Vec::new() };
        assert(r.manifests() =~= seq![root@]);
        assert(r.found() =~= Seq::empty());
        r
    }

    /// The next manifest to query, or `None` once all have been handed out.
    pub fn next_manifest(&mut self) -> (r: Option<LocalPath>)
        requires
            old(self).wf(),
        ensures
            final(self).wf(),
            final(self).manifests() == old(self).manifests(),
            final(self).found() == old(self).found(),
            old(self).handed_out() < old(self).manifests().len() ==> {
                &&& r matches Some(m)
                &&& m@ == old(self).manifests()[old(self).handed_out()]
                &&& final(self).handed_out() == old(self).handed_out() + 1
            },
            old(self).handed_out() == old(self).manifests().len() ==> {
                &&& r is None
                &&& final(self).handed_out() == old(self).handed_out()
            },
    {
        if self.next < self.manifests.len() {
            let m = self.manifests[self.next].duplicate();
            self.next = self.next + 1;
            assert(self.manifests() == old(self).manifests());
            assert(self.found() == old(self).found());
            proof { lemma_wf_moved(*old(self), *self); }
            Some(m)
        } else {
            None
        }
    }

    /// Whether every manifest known so far has been handed out.
    pub fn is_done(&self) -> (r: bool)
        requires
            self.wf(),
        ensures
            r == (self.handed_out() == self.manifests().len()),
    {
        self.next >= self.manifests.len()
    }

    /// Takes in the dependencies that the query of a handed-out manifest
    /// reported. Local path dependencies not seen before are kept, and the
    /// manifests in their directories are queued if they are new.
    pub fn record(&mut self, deps: &Vec<DependencyInfo>)
        requires
            old(self).wf(),
        ensures
            final(self).wf(),
            final(self).handed_out() == old(self).handed_out(),
            old(self).manifests().len() <= final(self).manifests().len(),
            old(self).found().len() <= final(self).found().len(),
            final(self).manifests().subrange(0, old(self).manifests().len() as int)
                == old(self).manifests(),
            final(self).found().subrange(0, old(self).found().len() as int) == old(self).found(),
            forall|e: (Seq<char>, PathView)|
                #![trigger final(self).found().contains(e)]
                final(self).found().contains(e) <==> (old(self).found().contains(e)
                    || local_edges_spec(deps@).contains(e)),
            forall|m: PathView|
                #![trigger final(self).manifests().contains(m)]
                final(self).manifests().contains(m) <==> (old(self).manifests().contains(m)
                    || exists|p: PathView| local_paths_spec(deps@).contains(p) && m == manifest_in(p)),
    {
        let ghost m0 = self.manifests();
        let ghost f0 = self.found();
        assert(local_edges_spec(deps@.subrange(0, 0)) =~= Set::empty());
        assert(local_paths_spec(deps@.subrange(0, 0)) =~= Set::empty());
        assert(self.manifests().subrange(0, m0.len() as int) =~= m0);
        assert(self.found().subrange(0, f0.len() as int) =~= f0);
        for i in 0..deps.len()
            invariant
                self.wf(),
                self.handed_out() == old(self).handed_out(),
                m0 == old(self).manifests(),
                f0 == old(self).found(),
                m0.len() <= self.manifests().len(),
                f0.len() <= self.found().len(),
                self.manifests().subrange(0, m0.len() as int) == m0,
                self.found().subrange(0, f0.len() as int) == f0,
                forall|e: (Seq<char>, PathView)|
                    #![trigger self.found().contains(e)]
                    self.found().contains(e) <==> (f0.contains(e)
                        || local_edges_spec(deps@.subrange(0, i as int)).contains(e)),
                forall|m: PathView|
                    #![trigger self.manifests().contains(m)]
                    self.manifests().contains(m) <==> (m0.contains(m)
                        || exists|p: PathView| local_paths_spec(deps@.subrange(0, i as int)).contains(p)
                            && m == manifest_in(p)),
        {
            let ghost before = deps@.subrange(0, i as int);
            let ghost after = deps@.subrange(0, i + 1);
            let ghost one = seq![deps@[i as int]];
            let ghost mb = self.manifests();
            let ghost fb = self.found();
            proof { lemma_prefix_step(deps@, i as int); }
            self.record_one(&deps[i]);
            proof {
                assert(self.found().subrange(0, f0.len() as int) =~= f0) by {
                    assert(self.found().subrange(0, fb.len() as int) == fb);
                    assert(fb.subrange(0, f0.len() as int) == f0);
                }
                assert(self.manifests().subrange(0, m0.len() as int) =~= m0) by {
                    assert(self.manifests().subrange(0, mb.len() as int) == mb);
                    assert(mb.subrange(0, m0.len() as int) == m0);
                }
                assert forall|m: PathView| self.manifests().contains(m) <==> (m0.contains(m)
                    || exists|q: PathView| local_paths_spec(after).contains(q)
                        && m == manifest_in(q)) by {
                    if exists|q: PathView| local_paths_spec(after).contains(q) && m == manifest_in(q) {
                        let q = choose|q: PathView| local_paths_spec(after).contains(q) && m == manifest_in(q);
                        if local_paths_spec(before).contains(q) {
                            assert(local_paths_spec(before).contains(q) && m == manifest_in(q));
                            assert(exists|p: PathView| local_paths_spec(before).contains(p) && m == manifest_in(p));
                            assert(mb.contains(m));
                        } else {
                            assert(local_paths_spec(one).contains(q));
                        }
                    }
                    if mb.contains(m) && !m0.contains(m) {
                        let q = choose|q: PathView| local_paths_spec(before).contains(q) && m == manifest_in(q);
                        assert(local_paths_spec(after).contains(q));
                    }
                    if self.manifests().contains(m) && !mb.contains(m) {
                        let q = choose|q: PathView| local_paths_spec(one).contains(q) && m == manifest_in(q);
                        assert(local_paths_spec(after).contains(q));
                    }
                }
                assert forall|e: (Seq<char>, PathView)| self.found().contains(e) <==> (f0.contains(e)
                    || local_edges_spec(after).contains(e)) by {
                    if local_edges_spec(after).contains(e) && !local_edges_spec(before).contains(e) {
                        assert(local_edges_spec(one).contains(e));
                    }
                    if local_edges_spec(before).contains(e) {
                        assert(fb.contains(e));
                    }
                    if fb.contains(e) && !f0.contains(e) {
                        assert(local_edges_spec(before).contains(e));
                    }
                }
            }
        }
        assert(deps@.subrange(0, deps@.len() as int) =~= deps@);
    }

    /// Takes in one reported dependency.
    fn record_one(&mut self, d: &DependencyInfo)
        requires
            old(self).wf(),
        ensures
            final(self).wf(),
            final(self).handed_out() == old(self).handed_out(),
            old(self).manifests().len() <= final(self).manifests().len(),
            old(self).found().len() <= final(self).found().len(),
            final(self).manifests().subrange(0, old(self).manifests().len() as int)
                == old(self).manifests(),
            final(self).found().subrange(0, old(self).found().len() as int) == old(self).found(),
            forall|e: (Seq<char>, PathView)|
                #![trigger final(self).found().contains(e)]
                final(self).found().contains(e) <==> (old(self).found().contains(e)
                    || local_edges_spec(seq![*d]).contains(e)),
            forall|m: PathView|
                #![trigger final(self).manifests().contains(m)]
                final(self).manifests().contains(m) <==> (old(self).manifests().contains(m)
                    || exists|p: PathView| local_paths_spec(seq![*d]).contains(p) && m == manifest_in(p)),
    {
        let ghost one = seq![*d];
        let ghost mb = self.manifests();
        let ghost fb = self.found();
        match &d.path {
            None => {
                assert(local_edges_spec(one) =~= Set::empty()) by {
                    assert forall|e| !local_edges_spec(one).contains(e) by {
                        if local_edges_spec(one).contains(e) {
                            let w = choose|w: int| 0 <= w < one.len() && points_to(one[w], e.1) && e.0 == one[w].name@;
                            assert(one[w] == *d);
                        }
                    }
                }
                assert(local_paths_spec(one) =~= Set::empty()) by {
                    assert forall|q| !local_paths_spec(one).contains(q) by {
                        if local_paths_spec(one).contains(q) {
                            let w = choose|w: int| 0 <= w < one.len() && points_to(one[w], q);
                            assert(one[w] == *d);
                        }
                    }
                }
                assert(self.manifests().subrange(0, mb.len() as int) =~= mb);
                assert(self.found().subrange(0, fb.len() as int) =~= fb);
            },
            Some(p) => {
                let dep = Dependency { name: d.name.clone(), path: p.duplicate() };
                let manifest = p.child("Cargo.toml");
                assert(one[0] == *d);
                assert(local_edges_spec(one) =~= set![dep@]) by {
                    assert forall|e| local_edges_spec(one).contains(e) implies e == dep@ by {
                        let w = choose|w: int| 0 <= w < one.len() && points_to(one[w], e.1) && e.0 == one[w].name@;
                    }
                }
                assert(local_paths_spec(one) =~= set![p@]) by {
                    assert forall|q| local_paths_spec(one).contains(q) implies q == p@ by {
                        let w = choose|w: int| 0 <= w < one.len() && points_to(one[w], q);
                    }
                }
                if !self.contains_dependency(&dep) {
                    self.found.push(dep);
                    proof {
                        assert(self.found() =~= fb.push(dep@));
                    }
                    if !contains_path(&self.manifests, &manifest) {
                        self.manifests.push(manifest);
                        proof {
                            assert(self.manifests() =~= mb.push(manifest@));
                            assert(self.manifests()[mb.len() as int]
                                == manifest_in(self.found()[fb.len() as int].1));
                        }
                    } else {
                        proof { lemma_views_contains(self.manifests@, manifest@); }
                    }
                    proof {
                        assert forall|k: int| 1 <= k < self.manifests().len() implies
                            manifest_of_some(self.found(), #[trigger] self.manifests()[k]) by {
                            if k < mb.len() {
                                let f = choose|f: int| 0 <= f < fb.len() && mb[k] == manifest_in(fb[f].1);
                                assert(self.found()[f] == fb[f]);
                            } else {
                                assert(self.manifests()[k] == manifest_in(self.found()[fb.len() as int].1));
                            }
                        }
                        assert forall|k: int| 0 <= k < self.found().len() implies
                            self.manifests().contains(manifest_in(#[trigger] self.found()[k].1)) by {
                            if k < fb.len() {
                                assert(self.found()[k] == fb[k]);
                                let j = choose|j: int| 0 <= j < mb.len() && mb[j] == manifest_in(fb[k].1);
                                assert(self.manifests()[j] == mb[j]);
                            } else {
                                lemma_views_contains(self.manifests@, manifest@);
                            }
                        }
                    }
                } else {
                    proof {
                        let k = choose|k: int| 0 <= k < fb.len() && fb[k] == dep@;
                        assert(mb.contains(manifest_in(fb[k].1)));
                    }
                }
                proof {
                    assert(self.found().subrange(0, fb.len() as int) =~= fb);
                    assert(self.manifests().subrange(0, mb.len() as int) =~= mb);
                    assert forall|m: PathView| self.manifests().contains(m) <==> (mb.contains(m)
                        || exists|q: PathView| local_paths_spec(one).contains(q)
                            && m == manifest_in(q)) by {
                        if mb.contains(m) {
                            let j = choose|j: int| 0 <= j < mb.len() && mb[j] == m;
                            assert(self.manifests()[j] == mb[j]);
                        }
                        if m == manifest@ {
                            assert(local_paths_spec(one).contains(p@));
                            lemma_views_contains(self.manifests@, manifest@);
                        }
                        if self.manifests().contains(m) && !mb.contains(m) {
                            let j = choose|j: int| 0 <= j < self.manifests().len() && self.manifests()[j] == m;
                            assert(j == mb.len());
                            assert(local_paths_spec(one).contains(p@));
                        }
                    }
                    assert forall|e: (Seq<char>, PathView)| self.found().contains(e) <==> (fb.contains(e)
                        || local_edges_spec(one).contains(e)) by {
                        if fb.contains(e) {
                            let j = choose|j: int| 0 <= j < fb.len() && fb[j] == e;
                            assert(self.found()[j] == fb[j]);
                        }
                        if self.found().contains(e) && !fb.contains(e) {
                            let j = choose|j: int| 0 <= j < self.found().len() && self.found()[j] == e;
                            assert(j == fb.len());
                            assert(e == dep@);
                        }
                        if local_edges_spec(one).contains(e) {
                            assert(e == dep@);
                            assert(self.found().contains(dep@)) by {
                                if fb.contains(dep@) {
                                    let j = choose|j: int| 0 <= j < fb.len() && fb[j] == dep@;
                                    assert(self.found()[j] == fb[j]);
                                } else {
                                    assert(self.found()[fb.len() as int] == dep@);
                                }
                            }
                        }
                    }
                }
            },
        }
    }

    /// Whether the pair has been found already.
    fn contains_dependency(&self, d: &Dependency) -> (r: bool)
        ensures
            r == self.found().contains(d@),
    {
        for i in 0..self.found.len()
            invariant
                forall|j: int| 0 <= j < i ==> self.found@[j]@ != d@,
        {
            let f = &self.found[i];
            if f.name == d.name && f.path.same_as(&d.path) {
                assert(self.found()[i as int] == d@);
                return true;
            }
        }
        proof {
            if self.found().contains(d@) {
                let j = choose|j: int| 0 <= j < self.found().len() && self.found()[j] == d@;
                assert(self.found@[j]@ == d@);
            }
        }
        false
    }

    /// The local dependencies found so far, each (name, directory) pair once.
    pub fn dependencies(&self) -> (r: Vec<Dependency>)
        ensures
            dependency_views(r@) == self.found(),
    {
        let mut r: Vec<Dependency> = Vec::new();
        for i in 0..self.found.len()
            invariant
                dependency_views(r@) == self.found().subrange(0, i as int),
        {
            let f = &self.found[i];
            let d = Dependency { name: f.name.clone(), path: f.path.duplicate() };
            assert(d@ == self.found()[i as int]);
            let ghost r0 = r@;
            r.push(d);
            assert(dependency_views(r@) =~= dependency_views(r0).push(d@));
            assert(dependency_views(r@) =~= self.found().subrange(0, i + 1));
        }
        assert(self.found().subrange(0, self.found@.len() as int) =~= self.found());
        r
    }
}

/// The local path dependencies that the package of manifest `m` declares;
/// none where the graph has no package of that manifest.
pub open spec fn pkg_edges(pkgs: Seq<PackageInfo>, m: PathView) -> Set<(Seq<char>, PathView)> {
    match package_with_manifest(pkgs, m) {
        Some(p) => local_edges_spec(p.dependencies@),
        None => Set::empty(),
    }
}

/// Whether `s` holds the local dependencies of the package of manifest
/// `root`, and with each pair those of the package in the pair's directory.
pub open spec fn closed_under(pkgs: Seq<PackageInfo>, root: PathView, s: Set<(Seq<char>, PathView)>) -> bool {
    &&& pkg_edges(pkgs, root).subset_of(s)
    &&& forall|e: (Seq<char>, PathView)| #[trigger] s.contains(e) ==> pkg_edges(pkgs, manifest_in(e.1)).subset_of(s)
}

/// The local path dependencies that `deps` declare, as (name, directory)
/// pairs, in order.
pub open spec fn dep_edges(deps: Seq<DependencyInfo>) -> Seq<(Seq<char>, PathView)>
    decreases deps.len(),
{
    if deps.len() == 0 {
        Seq::empty()
    } else {
        dep_edges(deps.drop_last()) + match deps.last().path {
            Some(q) => seq![(deps.last().name@, q@)],
            None => Seq::empty(),
        }
    }
}

/// The local path dependencies that the packages of a graph declare.
pub open spec fn graph_edges(pkgs: Seq<PackageInfo>) -> Seq<(Seq<char>, PathView)>
    decreases pkgs.len(),
{
    if pkgs.len() == 0 {
        Seq::empty()
    } else {
        graph_edges(pkgs.drop_last()) + dep_edges(pkgs.last().dependencies@)
    }
}

proof fn lemma_concat_contains<A>(a: Seq<A>, b: Seq<A>, x: A)
    ensures
        a.contains(x) || b.contains(x) ==> (a + b).contains(x),
{
    if a.contains(x) {
        let i = choose|i: int| 0 <= i < a.len() && a[i] == x;
        assert((a + b)[i] == x);
    } else if b.contains(x) {
        let i = choose|i: int| 0 <= i < b.len() && b[i] == x;
        assert((a + b)[a.len() + i] == x);
    }
}

proof fn lemma_dep_edges(deps: Seq<DependencyInfo>, e: (Seq<char>, PathView))
    requires
        local_edges_spec(deps).contains(e),
    ensures
        dep_edges(deps).contains(e),
    decreases deps.len(),
{
    let w = choose|w: int| 0 <= w < deps.len() && points_to(deps[w], e.1) && e.0 == deps[w].name@;
    let tail = match deps.last().path {
        Some(q) => seq![(deps.last().name@, q@)],
        None => Seq::<(Seq<char>, PathView)>::empty(),
    };
    if w < deps.len() - 1 {
        assert(deps.drop_last()[w] == deps[w]);
        assert(local_edges_spec(deps.drop_last()).contains(e));
        lemma_dep_edges(deps.drop_last(), e);
        lemma_concat_contains(dep_edges(deps.drop_last()), tail, e);
    } else {
        assert(tail[0] == e);
        assert(tail.contains(e));
        lemma_concat_contains(dep_edges(deps.drop_last()), tail, e);
    }
}

proof fn lemma_graph_edges(pkgs: Seq<PackageInfo>, i: int, e: (Seq<char>, PathView))
    requires
        0 <= i < pkgs.len(),
        local_edges_spec(pkgs[i].dependencies@).contains(e),
    ensures
        graph_edges(pkgs).contains(e),
    decreases pkgs.len(),
{
    if i < pkgs.len() - 1 {
        assert(pkgs.drop_last()[i] == pkgs[i]);
        lemma_graph_edges(pkgs.drop_last(), i, e);
        lemma_concat_contains(graph_edges(pkgs.drop_last()), dep_edges(pkgs.last().dependencies@), e);
    } else {
        lemma_dep_edges(pkgs[i].dependencies@, e);
        lemma_concat_contains(graph_edges(pkgs.drop_last()), dep_edges(pkgs.last().dependencies@), e);
    }
}

/// Termination of the walk: no manifest is handed out twice, and where every
/// dependency that queries can report comes from a finite set of (name,
/// directory) pairs, the walk hands out at most one manifest more than that
/// set has pairs, and keeps no more pairs than the set has.
pub proof fn lemma_walk_bounded(w: LocalDependencyWalk, reachable: Set<(Seq<char>, PathView)>)
    requires
        w.wf(),
        reachable.finite(),
        forall|k: int| 0 <= k < w.found().len() ==> reachable.contains(#[trigger] w.found()[k]),
    ensures
        w.queried().no_duplicates(),
        w.found().no_duplicates(),
        w.found().len() <= reachable.len(),
        w.queried().len() <= reachable.len() + 1,
{
    let q = w.queried();
    assert forall|i: int, j: int| 0 <= i < q.len() && 0 <= j < q.len() && i != j implies q[i] != q[j] by {
        assert(q[i] == w.manifests()[i]);
        assert(q[j] == w.manifests()[j]);
    }
    w.found().unique_seq_to_set();
    assert(w.found().to_set().subset_of(reachable)) by {
        assert forall|e| w.found().to_set().contains(e) implies reachable.contains(e) by {
            let k = choose|k: int| 0 <= k < w.found().len() && w.found()[k] == e;
        }
    }
    vstd::set_lib::lemma_len_subset(w.found().to_set(), reachable);
}

proof fn lemma_wf_moved(a: LocalDependencyWalk, b: LocalDependencyWalk)
    requires
        a.wf(),
        a.manifests() == b.manifests(),
        a.found() == b.found(),
        0 <= b.handed_out() <= b.manifests().len(),
    ensures
        b.wf(),
{
    assert forall|k: int| 1 <= k < b.manifests().len() implies
        manifest_of_some(b.found(), #[trigger] b.manifests()[k]) by {
        assert(a.manifests()[k] == b.manifests()[k]);
        assert(manifest_of_some(a.found(), a.manifests()[k]));
    }
    assert forall|k: int| 0 <= k < b.found().len() implies
        b.manifests().contains(manifest_in(#[trigger] b.found()[k].1)) by {
        assert(a.found()[k] == b.found()[k]);
    }
    assert(b.manifests().no_duplicates());
    assert(b.found().no_duplicates());
    assert(b.manifests().len() <= b.found().len() + 1);
}

proof fn lemma_prefix_step(deps: Seq<DependencyInfo>, i: int)
    requires
        0 <= i < deps.len(),
    ensures
        local_edges_spec(deps.subrange(0, i + 1)) == local_edges_spec(deps.subrange(0, i)).union(
            local_edges_spec(seq![deps[i]]),
        ),
        local_paths_spec(deps.subrange(0, i + 1)) == local_paths_spec(deps.subrange(0, i)).union(
            local_paths_spec(seq![deps[i]]),
        ),
{
    let a = deps.subrange(0, i);
    let b = deps.subrange(0, i + 1);
    let one = seq![deps[i]];
    assert forall|e: (Seq<char>, PathView)| local_edges_spec(b).contains(e) implies
        local_edges_spec(a).union(local_edges_spec(one)).contains(e) by {
        let w = choose|w: int| 0 <= w < b.len() && points_to(b[w], e.1) && e.0 == b[w].name@;
        if w < i {
            assert(a[w] == b[w]);
        } else {
            assert(one[0] == b[w]);
        }
    }
    assert forall|e: (Seq<char>, PathView)| local_edges_spec(a).union(local_edges_spec(one)).contains(e)
        implies local_edges_spec(b).contains(e) by {
        if local_edges_spec(a).contains(e) {
            let w = choose|w: int| 0 <= w < a.len() && points_to(a[w], e.1) && e.0 == a[w].name@;
            assert(a[w] == b[w]);
        } else {
            assert(one[0] == b[i]);
        }
    }
    assert(local_edges_spec(b) =~= local_edges_spec(a).union(local_edges_spec(one)));
    assert forall|q: PathView| local_paths_spec(b).contains(q) implies
        local_paths_spec(a).union(local_paths_spec(one)).contains(q) by {
        let w = choose|w: int| 0 <= w < b.len() && points_to(b[w], q);
        if w < i {
            assert(a[w] == b[w]);
        } else {
            assert(one[0] == b[w]);
        }
    }
    assert forall|q: PathView| local_paths_spec(a).union(local_paths_spec(one)).contains(q)
        implies local_paths_spec(b).contains(q) by {
        if local_paths_spec(a).contains(q) {
            let w = choose|w: int| 0 <= w < a.len() && points_to(a[w], q);
            assert(a[w] == b[w]);
        } else {
            assert(one[0] == b[i]);
        }
    }
    assert(local_paths_spec(b) =~= local_paths_spec(a).union(local_paths_spec(one)));
}

proof fn lemma_views_contains(v: Seq<LocalPath>, p: PathView)
    ensures
        paths_set(v).contains(p) <==> path_views(v).contains(p),
{
    if paths_set(v).contains(p) {
        let i = choose|i: int| 0 <= i < v.len() && v[i]@ == p;
        assert(path_views(v)[i] == p);
    }
    if path_views(v).contains(p) {
        let i = choose|i: int| 0 <= i < path_views(v).len() && path_views(v)[i] == p;
        assert(v[i]@ == p);
    }
}

} // verus!
