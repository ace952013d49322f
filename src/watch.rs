//! Deciding, batch by batch, whether file changes call for a rebuild.

use vstd::prelude::*;
use crate::metadata::{Dependency, contains_path, path_views, paths_distinct, paths_set};
use crate::path::{LocalPath, PathView, child_spec, starts_with_spec};

verus! {

/// The entries of a package whose change calls for a rebuild, in order: the
/// manifest, the lock file, the build script, and the source and test
/// directories.
pub open spec fn entries_of(root: PathView) -> Seq<PathView> {
    seq![
        child_spec(root, "Cargo.toml"@),
        child_spec(root, "Cargo.lock"@),
        child_spec(root, "build.rs"@),
        child_spec(root, "src"@),
        child_spec(root, "tests"@),
    ]
}

/// The watched entries of each package, package by package.
pub open spec fn whitelist_spec(roots: Seq<PathView>) -> Seq<PathView>
    decreases roots.len(),
{
    if roots.len() == 0 {
        Seq::empty()
    } else {
        whitelist_spec(roots.drop_last()) + entries_of(roots.last())
    }
}

/// The entries to watch in the given package directories.
pub fn compute_whitelist(crates: &Vec<LocalPath>) -> (r: Vec<LocalPath>)
    ensures
        path_views(r@) == whitelist_spec(path_views(crates@)),
{
    let mut r: Vec<LocalPath> = Vec::new();
    for i in 0..crates.len()
        invariant
            path_views(r@) == whitelist_spec(path_views(crates@).subrange(0, i as int)),
    {
        let ghost before = path_views(r@);
        let ghost next = path_views(crates@).subrange(0, i + 1);
        assert(next.drop_last() =~= path_views(crates@).subrange(0, i as int));
        let root = &crates[i];
        r.push(root.child("Cargo.toml"));
        r.push(root.child("Cargo.lock"));
        r.push(root.child("build.rs"));
        r.push(root.child("src"));
        r.push(root.child("tests"));
        assert(path_views(r@) =~= before + entries_of(root@));
    }
    assert(path_views(crates@).subrange(0, crates@.len() as int) =~= path_views(crates@));
    r
}

/// The package directories to watch: those given, then the directory of each
/// local dependency, each directory once.
pub fn watch_roots(crate_paths: &Vec<LocalPath>, deps: &Vec<Dependency>) -> (r: Vec<LocalPath>)
    ensures
        paths_distinct(r@),
        forall|p: PathView|
            paths_set(r@).contains(p) <==> (paths_set(crate_paths@).contains(p) || exists|i: int|
                0 <= i < deps@.len() && deps@[i].path@ == p),
{
    let mut r: Vec<LocalPath> = Vec::new();
    for i in 0..crate_paths.len()
        invariant
            paths_distinct(r@),
            forall|p: PathView|
                paths_set(r@).contains(p) <==> exists|j: int| 0 <= j < i && crate_paths@[j]@ == p,
    {
        let p = &crate_paths[i];
        if !contains_path(&r, p) {
            let ghost before = r@;
            r.push(p.duplicate());
            proof {
                assert forall|q: PathView| paths_set(r@).contains(q) <==> exists|j: int|
                    0 <= j < i + 1 && crate_paths@[j]@ == q by {
                    if paths_set(r@).contains(q) {
                        let k = choose|k: int| 0 <= k < r@.len() && r@[k]@ == q;
                        if k < before.len() {
                            assert(paths_set(before).contains(q));
                        }
                    }
                    if exists|j: int| 0 <= j < i + 1 && crate_paths@[j]@ == q {
                        let j = choose|j: int| 0 <= j < i + 1 && crate_paths@[j]@ == q;
                        if j < i {
                            assert(paths_set(before).contains(q));
                            let k = choose|k: int| 0 <= k < before.len() && before[k]@ == q;
                            assert(r@[k] == before[k]);
                        } else {
                            assert(r@[before.len() as int]@ == q);
                        }
                    }
                }
            }
        } else {
            proof {
                assert forall|q: PathView| paths_set(r@).contains(q) <==> exists|j: int|
                    0 <= j < i + 1 && crate_paths@[j]@ == q by {
                    if exists|j: int| 0 <= j < i + 1 && crate_paths@[j]@ == q {
                        let j = choose|j: int| 0 <= j < i + 1 && crate_paths@[j]@ == q;
                        if j < i {
                            assert(exists|j2: int| 0 <= j2 < i && crate_paths@[j2]@ == q);
                        }
                    }
                }
            }
        }
    }
    for i in 0..deps.len()
        invariant
            paths_distinct(r@),
            forall|p: PathView|
                paths_set(r@).contains(p) <==> (paths_set(crate_paths@).contains(p) || exists|j: int|
                    0 <= j < i && deps@[j].path@ == p),
    {
        let p = &deps[i].path;
        if !contains_path(&r, p) {
            let ghost before = r@;
            r.push(p.duplicate());
            proof {
                assert forall|q: PathView| paths_set(r@).contains(q) <==> (paths_set(crate_paths@).contains(q)
                    || exists|j: int| 0 <= j < i + 1 && deps@[j].path@ == q) by {
                    if paths_set(r@).contains(q) {
                        let k = choose|k: int| 0 <= k < r@.len() && r@[k]@ == q;
                        if k < before.len() {
                            assert(paths_set(before).contains(q));
                        } else {
                            assert(deps@[i as int].path@ == q);
                        }
                    }
                    if paths_set(before).contains(q) {
                        let k = choose|k: int| 0 <= k < before.len() && before[k]@ == q;
                        assert(r@[k] == before[k]);
                    }
                    if exists|j: int| 0 <= j < i + 1 && deps@[j].path@ == q {
                        let j = choose|j: int| 0 <= j < i + 1 && deps@[j].path@ == q;
                        if j < i {
                            assert(paths_set(before).contains(q));
                        } else {
                            assert(r@[before.len() as int]@ == q);
                        }
                    }
                }
            }
        } else {
            proof {
                assert forall|q: PathView| paths_set(r@).contains(q) <==> (paths_set(crate_paths@).contains(q)
                    || exists|j: int| 0 <= j < i + 1 && deps@[j].path@ == q) by {
                    if exists|j: int| 0 <= j < i + 1 && deps@[j].path@ == q {
                        let j = choose|j: int| 0 <= j < i + 1 && deps@[j].path@ == q;
                        if j < i {
                            assert(exists|j2: int| 0 <= j2 < i && deps@[j2].path@ == q);
                        }
                    }
                }
            }
        }
    }
    r
}

/// Directories whose changes never call for a rebuild: the build's own output.
#[derive(Debug, Clone, Default)]
pub struct MyFilter {
    pub ignore_files: Vec<LocalPath>,
}

/// Whether `p` lies inside one of `ignored`.
pub open spec fn inside_any(p: PathView, ignored: Seq<LocalPath>) -> bool {
    exists|j: int| 0 <= j < ignored.len() && starts_with_spec(p, ignored[j]@)
}

impl MyFilter {
    /// A filter that ignores what lies in the given directories.
    pub fn new(ignore_files: Vec<LocalPath>) -> (r: MyFilter)
        ensures
            r.ignore_files@ == ignore_files@,
    {
        MyFilter { ignore_files }
    }

    /// Ignores `path` from now on as well.
    pub fn add_ignored(&mut self, path: LocalPath)
        ensures
            paths_set(final(self).ignore_files@) == paths_set(old(self).ignore_files@).insert(path@),
            forall|p: PathView|
                inside_any(p, final(self).ignore_files@) <==> (inside_any(p, old(self).ignore_files@)
                    || starts_with_spec(p, path@)),
    {
        if !contains_path(&self.ignore_files, &path) {
            let ghost before = self.ignore_files@;
            let ghost pv = path@;
            self.ignore_files.push(path);
            proof {
                assert forall|q: PathView| paths_set(self.ignore_files@).contains(q)
                    == paths_set(before).insert(pv).contains(q) by {
                    if paths_set(before).contains(q) {
                        let k = choose|k: int| 0 <= k < before.len() && before[k]@ == q;
                        assert(self.ignore_files@[k] == before[k]);
                    }
                    if paths_set(self.ignore_files@).contains(q) {
                        let k = choose|k: int| 0 <= k < self.ignore_files@.len() && self.ignore_files@[k]@ == q;
                        if k < before.len() {
                            assert(before[k] == self.ignore_files@[k]);
                        }
                    }
                    if q == pv {
                        assert(self.ignore_files@[before.len() as int]@ == q);
                    }
                }
                assert(paths_set(self.ignore_files@) =~= paths_set(before).insert(pv));
                assert forall|p: PathView| inside_any(p, self.ignore_files@) <==> (inside_any(p, before)
                    || starts_with_spec(p, pv)) by {
                    if inside_any(p, before) {
                        let j = choose|j: int| 0 <= j < before.len() && starts_with_spec(p, before[j]@);
                        assert(self.ignore_files@[j] == before[j]);
                    }
                    if inside_any(p, self.ignore_files@) {
                        let j = choose|j: int| 0 <= j < self.ignore_files@.len() && starts_with_spec(p, self.ignore_files@[j]@);
                        if j < before.len() {
                            assert(before[j] == self.ignore_files@[j]);
                        }
                    }
                    if starts_with_spec(p, pv) {
                        assert(self.ignore_files@[before.len() as int]@ == pv);
                    }
                }
            }
        } else {
            proof {
                let k = choose|k: int| 0 <= k < self.ignore_files@.len() && self.ignore_files@[k]@ == path@;
                assert(paths_set(self.ignore_files@).insert(path@) =~= paths_set(self.ignore_files@));
                assert forall|p: PathView| starts_with_spec(p, path@) implies inside_any(p, self.ignore_files@) by {
                    assert(starts_with_spec(p, self.ignore_files@[k]@));
                }
            }
        }
    }

    /// Whether an event on `paths` passes: it names no path, or one that
    /// lies outside every ignored directory. An event whose paths all lie in
    /// the build's output is dropped.
    pub fn check_event(&self, paths: &Vec<LocalPath>) -> (r: bool)
        ensures
            r == (paths@.len() == 0 || exists|i: int|
                0 <= i < paths@.len() && !inside_any(#[trigger] paths@[i]@, self.ignore_files@)),
    {
        if paths.len() == 0 {
            return true;
        }
        for i in 0..paths.len()
            invariant
                forall|k: int| 0 <= k < i ==> inside_any(#[trigger] paths@[k]@, self.ignore_files@),
        {
            if !self.is_ignored(&paths[i]) {
                return true;
            }
        }
        false
    }

    /// Whether `p` lies inside an ignored directory.
    pub fn is_ignored(&self, p: &LocalPath) -> (r: bool)
        ensures
            r == inside_any(p@, self.ignore_files@),
    {
        for j in 0..self.ignore_files.len()
            invariant
                forall|k: int| 0 <= k < j ==> !starts_with_spec(p@, #[trigger] self.ignore_files@[k]@),
        {
            if p.starts_with(&self.ignore_files[j]) {
                return true;
            }
        }
        false
    }
}

/// What a file-system event reports about a file.
#[derive(Debug, Clone, Copy, PartialEq, Eq, Structural)]
pub enum FileEventKind {
    Create,
    Modify,
    Remove,
    Access,
    Other,
}

/// A signal delivered to the watching process.
#[derive(Debug, Clone, Copy, PartialEq, Eq, Structural)]
pub enum WatchSignal {
    Interrupt,
    Quit,
    Terminate,
    Other,
}

/// One event of a batch.
#[derive(Debug, Clone)]
pub struct WatchEvent {
    pub paths: Vec<LocalPath>,
    pub kinds: Vec<FileEventKind>,
    pub signals: Vec<WatchSignal>,
}

/// What to do about a batch of events.
#[derive(Debug, Clone, Copy, PartialEq, Eq, Structural)]
pub enum WatchDecision {
    /// Stop watching.
    Stop,
    /// Run the build once.
    Rebuild,
    /// Wait for the next batch.
    Wait,
}

/// Whether a signal ends the watch.
pub open spec fn stops(s: WatchSignal) -> bool {
    s == WatchSignal::Interrupt || s == WatchSignal::Quit || s == WatchSignal::Terminate
}

/// Whether a kind is a change to a file.
pub open spec fn is_change(k: FileEventKind) -> bool {
    k == FileEventKind::Create || k == FileEventKind::Modify || k == FileEventKind::Remove
}

/// Whether an event carries a signal that ends the watch.
pub open spec fn has_stop_signal(e: WatchEvent) -> bool {
    exists|i: int| 0 <= i < e.signals@.len() && stops(#[trigger] e.signals@[i])
}

/// Whether `p` lies inside one of the watched entries.
pub open spec fn watched(p: PathView, whitelist: Seq<LocalPath>) -> bool {
    exists|j: int| 0 <= j < whitelist.len() && starts_with_spec(p, whitelist[j]@)
}

/// Whether `p` is a watched input: inside a watched entry and outside every
/// ignored directory.
pub open spec fn is_input(p: PathView, whitelist: Seq<LocalPath>, ignored: Seq<LocalPath>) -> bool {
    watched(p, whitelist) && !inside_any(p, ignored)
}

/// Whether an event is a change to a watched input: it changes a file, and
/// one of its paths is a watched input.
pub open spec fn is_relevant(e: WatchEvent, whitelist: Seq<LocalPath>, ignored: Seq<LocalPath>) -> bool {
    &&& exists|i: int| 0 <= i < e.kinds@.len() && is_change(#[trigger] e.kinds@[i])
    &&& exists|i: int| 0 <= i < e.paths@.len() && is_input(#[trigger] e.paths@[i]@, whitelist, ignored)
}

/// The decision for a batch: a signal that ends the watch, anywhere in the
/// batch, stops it; otherwise any relevant change asks for one rebuild.
pub open spec fn decide_spec(events: Seq<WatchEvent>, whitelist: Seq<LocalPath>, ignored: Seq<LocalPath>) -> WatchDecision {
    if exists|i: int| 0 <= i < events.len() && has_stop_signal(#[trigger] events[i]) {
        WatchDecision::Stop
    } else if exists|i: int| 0 <= i < events.len() && is_relevant(#[trigger] events[i], whitelist, ignored) {
        WatchDecision::Rebuild
    } else {
        WatchDecision::Wait
    }
}

fn has_stop(e: &WatchEvent) -> (r: bool)
    ensures
        r == has_stop_signal(*e),
{
    for i in 0..e.signals.len()
        invariant
            forall|k: int| 0 <= k < i ==> !stops(#[trigger] e.signals@[k]),
    {
        let s = e.signals[i];
        if s == WatchSignal::Interrupt || s == WatchSignal::Quit || s == WatchSignal::Terminate {
            return true;
        }
    }
    false
}

fn has_change(e: &WatchEvent) -> (r: bool)
    ensures
        r == exists|i: int| 0 <= i < e.kinds@.len() && is_change(#[trigger] e.kinds@[i]),
{
    for i in 0..e.kinds.len()
        invariant
            forall|k: int| 0 <= k < i ==> !is_change(#[trigger] e.kinds@[k]),
    {
        let k = e.kinds[i];
        if k == FileEventKind::Create || k == FileEventKind::Modify || k == FileEventKind::Remove {
            return true;
        }
    }
    false
}

fn is_watched(p: &LocalPath, whitelist: &Vec<LocalPath>) -> (r: bool)
    ensures
        r == watched(p@, whitelist@),
{
    for j in 0..whitelist.len()
        invariant
            forall|k: int| 0 <= k < j ==> !starts_with_spec(p@, #[trigger] whitelist@[k]@),
    {
        if p.starts_with(&whitelist[j]) {
            return true;
        }
    }
    false
}

fn touches_input(e: &WatchEvent, whitelist: &Vec<LocalPath>, filter: &MyFilter) -> (r: bool)
    ensures
        r == exists|i: int| 0 <= i < e.paths@.len() && is_input(#[trigger] e.paths@[i]@, whitelist@, filter.ignore_files@),
{
    for i in 0..e.paths.len()
        invariant
            forall|k: int| 0 <= k < i ==> !is_input(#[trigger] e.paths@[k]@, whitelist@, filter.ignore_files@),
    {
        if is_watched(&e.paths[i], whitelist) && !filter.is_ignored(&e.paths[i]) {
            return true;
        }
    }
    false
}

/// Decides what a batch of events calls for.
pub fn decide_batch(events: &Vec<WatchEvent>, whitelist: &Vec<LocalPath>, filter: &MyFilter) -> (r:
    WatchDecision)
    ensures
        r == decide_spec(events@, whitelist@, filter.ignore_files@),
{
    let mut rebuild = false;
    for i in 0..events.len()
        invariant
            forall|k: int| 0 <= k < i ==> !has_stop_signal(#[trigger] events@[k]),
            rebuild == exists|k: int| 0 <= k < i && is_relevant(#[trigger] events@[k], whitelist@, filter.ignore_files@),
    {
        let e = &events[i];
        if has_stop(e) {
            return WatchDecision::Stop;
        }
        if !rebuild {
            let relevant = has_change(e) && touches_input(e, whitelist, filter);
            assert(relevant == is_relevant(events@[i as int], whitelist@, filter.ignore_files@));
            rebuild = relevant;
        }
        assert(rebuild == exists|k: int| 0 <= k < i + 1 && is_relevant(#[trigger] events@[k], whitelist@, filter.ignore_files@));
    }
    if rebuild {
        WatchDecision::Rebuild
    } else {
        WatchDecision::Wait
    }
}

/// Whether no watched entry and no ignored directory lie one inside the other.
pub open spec fn apart(whitelist: Seq<LocalPath>, ignored: Seq<LocalPath>) -> bool {
    forall|j: int, k: int|
        0 <= j < whitelist.len() && 0 <= k < ignored.len() ==> !starts_with_spec(
            #[trigger] whitelist[j]@,
            #[trigger] ignored[k]@,
        ) && !starts_with_spec(ignored[k]@, whitelist[j]@)
}

proof fn lemma_common_prefix(p: PathView, a: PathView, b: PathView)
    requires
        starts_with_spec(p, a),
        starts_with_spec(p, b),
    ensures
        starts_with_spec(a, b) || starts_with_spec(b, a),
{
    if a.1.len() <= b.1.len() {
        assert(b.1.subrange(0, a.1.len() as int) =~= p.1.subrange(0, a.1.len() as int));
    } else {
        assert(a.1.subrange(0, b.1.len() as int) =~= p.1.subrange(0, b.1.len() as int));
    }
}

/// A change inside an ignored directory never asks for a rebuild: where every
/// path of every event lies inside an ignored directory, the batch stops the
/// watch or waits. A change to a watched input does ask for one: where no
/// event carries a signal that ends the watch, and one event changes a file
/// inside a watched entry, the batch calls for exactly one rebuild, provided
/// that path is outside the ignored directories, which always holds where no
/// watched entry and no ignored directory lie one inside the other.
pub proof fn lemma_watch_filtering(
    events: Seq<WatchEvent>,
    whitelist: Seq<LocalPath>,
    ignored: Seq<LocalPath>,
)
    ensures
        (forall|i: int, k: int| #![trigger events[i].paths@[k]] 0 <= i < events.len() && 0 <= k < events[i].paths@.len()
            ==> inside_any(events[i].paths@[k]@, ignored))
            ==> decide_spec(events, whitelist, ignored) != WatchDecision::Rebuild,
        (forall|i: int| 0 <= i < events.len() ==> !has_stop_signal(#[trigger] events[i]))
            && (exists|i: int| 0 <= i < events.len() && is_relevant(#[trigger] events[i], whitelist, ignored))
            ==> decide_spec(events, whitelist, ignored) == WatchDecision::Rebuild,
        forall|i: int, k: int|
            #![trigger events[i].paths@[k]]
            0 <= i < events.len() && 0 <= k < events[i].paths@.len()
                && apart(whitelist, ignored)
                && watched(events[i].paths@[k]@, whitelist)
                ==> is_input(events[i].paths@[k]@, whitelist, ignored),
{
    if forall|i: int, k: int| #![trigger events[i].paths@[k]] 0 <= i < events.len() && 0 <= k < events[i].paths@.len()
        ==> inside_any(events[i].paths@[k]@, ignored) {
        assert forall|i: int| 0 <= i < events.len() implies !is_relevant(#[trigger] events[i], whitelist, ignored) by {
            assert forall|k: int| 0 <= k < events[i].paths@.len() implies !is_input(
                #[trigger] events[i].paths@[k]@, whitelist, ignored) by {
                assert(inside_any(events[i].paths@[k]@, ignored));
            }
        }
    }
    assert forall|i: int, k: int|
        #![trigger events[i].paths@[k]]
        0 <= i < events.len() && 0 <= k < events[i].paths@.len()
            && apart(whitelist, ignored)
            && watched(events[i].paths@[k]@, whitelist)
            implies is_input(events[i].paths@[k]@, whitelist, ignored) by {
        let p = events[i].paths@[k]@;
        let j = choose|j: int| 0 <= j < whitelist.len() && starts_with_spec(p, whitelist[j]@);
        if inside_any(p, ignored) {
            let g = choose|g: int| 0 <= g < ignored.len() && starts_with_spec(p, ignored[g]@);
            lemma_common_prefix(p, whitelist[j]@, ignored[g]@);
            assert(!starts_with_spec(whitelist[j]@, ignored[g]@) && !starts_with_spec(ignored[g]@, whitelist[j]@));
        }
    }
}

} // verus!
