//! The traversal that builds a module graph, as a machine that the caller
//! drives: it asks for the next module to read, hands back the imports it
//! resolved, and stops when no module is left.
use vstd::prelude::*;

use crate::model::{ImportList, Module, ModuleGraph};
use crate::specifier::{contains_name, is_skipped, names, skipped_spec};

verus! {

impl ModuleGraph {
    /// `p` has been visited: it has an entry in `graph`.
    pub open spec fn has_key(&self, p: Seq<char>) -> bool {
        exists|i: int| 0 <= i < self.graph@.len() && #[trigger] self.graph@[i].path@ == p
    }

    /// `p` has a module record.
    pub open spec fn has_module(&self, p: Seq<char>) -> bool {
        exists|i: int| 0 <= i < self.modules@.len() && #[trigger] self.modules@[i].path@ == p
    }

    /// `p` is one of the entry points.
    pub open spec fn is_entry(&self, p: Seq<char>) -> bool {
        exists|i: int| 0 <= i < self.entry_points@.len() && #[trigger] self.entry_points@[i]@ == p
    }

    /// Some visited module imports `p`.
    pub open spec fn is_imported(&self, p: Seq<char>) -> bool {
        exists|i: int, j: int|
            0 <= i < self.graph@.len() && 0 <= j < self.graph@[i].imports@.len()
                && #[trigger] self.graph@[i].imports@[j]@ == p
    }

    /// No module is visited twice.
    pub open spec fn keys_distinct(&self) -> bool {
        forall|i: int, j: int|
            0 <= i < j < self.graph@.len() ==> #[trigger] self.graph@[i].path@
                != #[trigger] self.graph@[j].path@
    }

    /// No module has two records.
    pub open spec fn modules_distinct(&self) -> bool {
        forall|i: int, j: int|
            0 <= i < j < self.modules@.len() ==> #[trigger] self.modules@[i].path@
                != #[trigger] self.modules@[j].path@
    }

    /// Everything that a visited module imports has been visited too.
    pub open spec fn is_closed(&self) -> bool {
        forall|i: int, j: int|
            0 <= i < self.graph@.len() && 0 <= j < self.graph@[i].imports@.len() ==> self.has_key(
                #[trigger] self.graph@[i].imports@[j]@,
            )
    }

    /// Every visited module is an entry point or imported by a visited module.
    pub open spec fn keys_reachable(&self) -> bool {
        forall|i: int|
            0 <= i < self.graph@.len() ==> self.is_entry(#[trigger] self.graph@[i].path@)
                || self.is_imported(self.graph@[i].path@)
    }

    /// Every visited module has a record.
    pub open spec fn keys_recorded(&self) -> bool {
        forall|i: int| 0 <= i < self.graph@.len() ==> self.has_module(#[trigger] self.graph@[i].path@)
    }

    /// Where `path` is visited, if it is.
    pub fn find_key(&self, path: &String) -> (r: Option<usize>)
        ensures
            r matches Some(i) ==> i < self.graph@.len() && self.graph@[i as int].path@ == path@,
            r is None ==> !self.has_key(path@),
    {
        let mut i: usize = 0;
        while i < self.graph.len()
            invariant
                0 <= i <= self.graph@.len(),
                forall|k: int| 0 <= k < i ==> self.graph@[k].path@ != path@,
            decreases self.graph.len() - i,
        {
            if self.graph[i].path == *path {
                return Some(i);
            }
            i = i + 1;
        }
        None
    }

    /// Where the record of `path` is, if there is one.
    pub fn find_module(&self, path: &String) -> (r: Option<usize>)
        ensures
            r matches Some(i) ==> i < self.modules@.len() && self.modules@[i as int].path@ == path@,
            r is None ==> !self.has_module(path@),
    {
        let mut i: usize = 0;
        while i < self.modules.len()
            invariant
                0 <= i <= self.modules@.len(),
                forall|k: int| 0 <= k < i ==> self.modules@[k].path@ != path@,
            decreases self.modules.len() - i,
        {
            if self.modules[i].path == *path {
                return Some(i);
            }
            i = i + 1;
        }
        None
    }

    /// Whether `path` is an entry point.
    pub fn is_entry_point(&self, path: &String) -> (r: bool)
        ensures
            r == self.is_entry(path@),
    {
        let mut i: usize = 0;
        while i < self.entry_points.len()
            invariant
                0 <= i <= self.entry_points@.len(),
                forall|k: int| 0 <= k < i ==> self.entry_points@[k]@ != path@,
            decreases self.entry_points.len() - i,
        {
            if self.entry_points[i] == *path {
                return true;
            }
            i = i + 1;
        }
        false
    }
}

/// A graph under construction, with the worklist of modules still to visit.
#[derive(Debug, Clone)]
pub struct Builder {
    pub graph: ModuleGraph,
    /// Relative paths waiting for a visit; the last one is visited first.
    pub worklist: Vec<String>,
    /// Names of built-in modules, whose imports are dropped.
    pub builtin_modules: Vec<String>,
    /// Whether imports of packages are dropped.
    pub ignore_external: bool,
}

impl Builder {
    /// `p` waits on the worklist.
    pub open spec fn pending(&self, p: Seq<char>) -> bool {
        exists|k: int| 0 <= k < self.worklist@.len() && #[trigger] self.worklist@[k]@ == p
    }

    /// What holds between any two steps: each module is visited and recorded
    /// once; whatever is imported is visited or waits for its visit; and
    /// every visited or waiting module is an entry point or imported, with a
    /// record.
    pub open spec fn wf(&self) -> bool {
        &&& self.graph.keys_distinct()
        &&& self.graph.modules_distinct()
        &&& self.graph.keys_reachable()
        &&& self.graph.keys_recorded()
        &&& forall|i: int, j: int|
            0 <= i < self.graph.graph@.len() && 0 <= j < self.graph.graph@[i].imports@.len()
                ==> self.graph.has_key(#[trigger] self.graph.graph@[i].imports@[j]@)
                || self.pending(self.graph.graph@[i].imports@[j]@)
        &&& forall|k: int|
            0 <= k < self.worklist@.len() ==> (self.graph.is_entry(#[trigger] self.worklist@[k]@)
                || self.graph.is_imported(self.worklist@[k]@)) && self.graph.has_module(
                self.worklist@[k]@,
            )
    }

    /// An empty graph over `base_path`, with nothing to visit.
    pub fn new(base_path: String, builtin_modules: Vec<String>, ignore_external: bool) -> (r:
        Builder)
        ensures
            r.wf(),
            r.graph.base_path == base_path,
            r.graph.graph@.len() == 0,
            r.graph.modules@.len() == 0,
            r.graph.entry_points@.len() == 0,
            r.worklist@.len() == 0,
            r.builtin_modules == builtin_modules,
            r.ignore_external == ignore_external,
    {
        Builder {
            graph: ModuleGraph {
                graph: Vec::new(),
                base_path,
                entry_points: Vec::new(),
                modules: Vec::new(),
            },
            worklist: Vec::new(),
            builtin_modules,
            ignore_external,
        }
    }

    /// Whether an import of `specifier` is dropped before plugins and
    /// resolution see it.
    pub fn skips(&self, specifier: &str) -> (r: bool)
        ensures
            r == skipped_spec(specifier@, names(self.builtin_modules@), self.ignore_external),
    {
        is_skipped(specifier, &self.builtin_modules, self.ignore_external)
    }

    /// Seeds one entry point, given the record of the module it resolved to:
    /// its relative path joins the entry points and the worklist, and the
    /// record is kept unless the path already has one.
    pub fn add_entry(&mut self, module: Module)
        requires
            old(self).wf(),
        ensures
            final(self).wf(),
            final(self).graph.entry_points@ == old(self).graph.entry_points@.push(module.path),
            final(self).worklist@ == old(self).worklist@.push(module.path),
            final(self).graph.graph == old(self).graph.graph,
            final(self).graph.base_path == old(self).graph.base_path,
            old(self).graph.has_module(module.path@) ==> final(self).graph.modules
                == old(self).graph.modules,
            !old(self).graph.has_module(module.path@) ==> final(self).graph.modules@
                == old(self).graph.modules@.push(module),
            final(self).builtin_modules == old(self).builtin_modules,
            final(self).ignore_external == old(self).ignore_external,
    {
        let ghost g0 = self.graph;
        let ghost w0 = self.worklist@;
        let path = module.path.clone();
        let path2 = module.path.clone();
        if self.graph.find_module(&path).is_none() {
            self.graph.modules.push(module);
        }
        self.graph.entry_points.push(path);
        self.worklist.push(path2);
        proof {
            let g = self.graph;
            let n = g.entry_points@.len() - 1;
            assert(g.entry_points@[n]@ == path2@);
            assert(g.is_entry(path2@));
            assert(g.has_module(path2@)) by {
                if !g0.has_module(path2@) {
                    assert(g.modules@[g.modules@.len() - 1].path@ == path2@);
                }
            }
            assert forall|p: Seq<char>| g0.is_entry(p) implies g.is_entry(p) by {
                let i = choose|i: int| 0 <= i < g0.entry_points@.len() && #[trigger] g0.entry_points@[i]@ == p;
                assert(g.entry_points@[i]@ == p);
            }
            assert forall|p: Seq<char>| g0.has_module(p) implies g.has_module(p) by {
                let i = choose|i: int| 0 <= i < g0.modules@.len() && #[trigger] g0.modules@[i].path@ == p;
                assert(g.modules@[i].path@ == p);
            }
            assert forall|p: Seq<char>| old(self).pending(p) || p == path2@ implies self.pending(p) by {
                if p == path2@ {
                    assert(self.worklist@[w0.len() as int]@ == p);
                } else if old(self).pending(p) {
                    let k = choose|k: int| 0 <= k < w0.len() && #[trigger] w0[k]@ == p;
                    assert(self.worklist@[k]@ == p);
                }
            }
            assert forall|p: Seq<char>| g0.is_imported(p) implies g.is_imported(p) by {
                let (i, j) = choose|i: int, j: int|
                    0 <= i < g0.graph@.len() && 0 <= j < g0.graph@[i].imports@.len()
                        && #[trigger] g0.graph@[i].imports@[j]@ == p;
                assert(g.graph@[i].imports@[j]@ == p);
            }
        }
    }

    /// Takes the next module to visit off the worklist, passing over those
    /// already visited, and marks it visited with no imports yet. `None` once
    /// the worklist is empty: the graph is then closed under its imports.
    pub fn next_module(&mut self) -> (r: Option<String>)
        requires
            old(self).wf(),
        ensures
            final(self).wf(),
            final(self).graph.entry_points == old(self).graph.entry_points,
            final(self).graph.modules == old(self).graph.modules,
            final(self).graph.base_path == old(self).graph.base_path,
            final(self).builtin_modules == old(self).builtin_modules,
            final(self).ignore_external == old(self).ignore_external,
            final(self).worklist@.len() <= old(self).worklist@.len(),
            final(self).worklist@ == old(self).worklist@.subrange(0, final(self).worklist@.len() as int),
            r is None ==> final(self).worklist@.len() == 0,
            r is None ==> final(self).graph.graph == old(self).graph.graph,
            r is None ==> final(self).graph.is_closed(),
            r is None ==> forall|k: int|
                0 <= k < old(self).worklist@.len() ==> old(self).graph.has_key(
                    #[trigger] old(self).worklist@[k]@,
                ),
            r matches Some(p) ==> {
                let n = final(self).worklist@.len() as int;
                let m = old(self).graph.graph@.len() as int;
                &&& p == old(self).worklist@[n]
                &&& !old(self).graph.has_key(p@)
                &&& forall|k: int|
                    n < k < old(self).worklist@.len() ==> old(self).graph.has_key(
                        #[trigger] old(self).worklist@[k]@,
                    )
                &&& final(self).graph.graph@.len() == m + 1
                &&& forall|i: int| 0 <= i < m ==> final(self).graph.graph@[i] == old(self).graph.graph@[i]
                &&& final(self).graph.graph@[m].path == p
                &&& final(self).graph.graph@[m].imports@.len() == 0
            },
    {
        let ghost w0 = self.worklist@;
        while self.worklist.len() > 0
            invariant
                self.wf(),
                self.graph == old(self).graph,
                self.builtin_modules == old(self).builtin_modules,
                self.ignore_external == old(self).ignore_external,
                w0 == old(self).worklist@,
                self.worklist@.len() <= w0.len(),
                self.worklist@ == w0.subrange(0, self.worklist@.len() as int),
                forall|k: int| self.worklist@.len() <= k < w0.len() ==> self.graph.has_key(#[trigger] w0[k]@),
            decreases self.worklist@.len(),
        {
            let ghost pre = *self;
            let p = self.worklist.pop().unwrap();
            let ghost n = self.worklist@.len() as int;
            assert(w0[n] == p);
            assert forall|t: Seq<char>| pre.pending(t) && t != p@ implies self.pending(t) by {
                let k = choose|k: int| 0 <= k < pre.worklist@.len() && #[trigger] pre.worklist@[k]@ == t;
                assert(self.worklist@[k]@ == t);
            }
            if self.graph.find_key(&p).is_none() {
                let key = p.clone();
                self.graph.graph.push(ImportList { path: key, imports: Vec::new() });
                proof {
                    let g0 = pre.graph;
                    let g = self.graph;
                    let m = g0.graph@.len() as int;
                    assert(g.graph@[m].path@ == p@);
                    assert(g.has_key(p@));
                    assert forall|t: Seq<char>| g0.has_key(t) implies g.has_key(t) by {
                        let i = choose|i: int| 0 <= i < g0.graph@.len() && #[trigger] g0.graph@[i].path@ == t;
                        assert(g.graph@[i].path@ == t);
                    }
                    assert forall|t: Seq<char>| g0.is_imported(t) implies g.is_imported(t) by {
                        let (i, j) = choose|i: int, j: int|
                            0 <= i < g0.graph@.len() && 0 <= j < g0.graph@[i].imports@.len()
                                && #[trigger] g0.graph@[i].imports@[j]@ == t;
                        assert(g.graph@[i].imports@[j]@ == t);
                    }
                    assert(pre.graph.is_entry(p@) || pre.graph.is_imported(p@));
                    assert(pre.graph.has_module(p@));
                    assert forall|i: int, j: int|
                        0 <= i < g.graph@.len() && 0 <= j < g.graph@[i].imports@.len()
                            implies g.has_key(#[trigger] g.graph@[i].imports@[j]@)
                            || self.pending(g.graph@[i].imports@[j]@) by {
                        assert(i < m);
                        assert(g.graph@[i] == g0.graph@[i]);
                    }
                    assert forall|i: int| 0 <= i < g.graph@.len() implies g.is_entry(#[trigger] g.graph@[i].path@)
                            || g.is_imported(g.graph@[i].path@) by {
                        assert(g.entry_points == g0.entry_points);
                        if i < m {
                            assert(g.graph@[i] == g0.graph@[i]);
                            assert(g0.is_entry(g0.graph@[i].path@) || g0.is_imported(g0.graph@[i].path@));
                        } else {
                            assert(g.graph@[i].path@ == p@);
                        }
                    }
                    assert forall|i: int| 0 <= i < g.graph@.len() implies g.has_module(#[trigger] g.graph@[i].path@) by {
                        if i < m {
                            assert(g.graph@[i] == g0.graph@[i]);
                        }
                    }
                    assert forall|k: int| 0 <= k < self.worklist@.len() implies (g.is_entry(#[trigger] self.worklist@[k]@)
                            || g.is_imported(self.worklist@[k]@)) && g.has_module(self.worklist@[k]@) by {
                        assert(self.worklist@[k] == pre.worklist@[k]);
                    }
                    assert(g.keys_distinct());
                }
                return Some(p);
            }
            proof {
                assert(self.graph.has_key(p@));
                assert forall|k: int| self.worklist@.len() <= k < w0.len() implies self.graph.has_key(#[trigger] w0[k]@) by {
                    if k == n {
                        assert(w0[k] == p);
                    }
                }
                assert(self.worklist@ =~= w0.subrange(0, self.worklist@.len() as int));
                assert forall|k: int| 0 <= k < self.worklist@.len() implies (self.graph.is_entry(#[trigger] self.worklist@[k]@)
                        || self.graph.is_imported(self.worklist@[k]@)) && self.graph.has_module(self.worklist@[k]@) by {
                    assert(self.worklist@[k] == pre.worklist@[k]);
                }
            }
        }
        proof {
            let g = self.graph;
            assert forall|i: int, j: int|
                0 <= i < g.graph@.len() && 0 <= j < g.graph@[i].imports@.len() implies g.has_key(
                    #[trigger] g.graph@[i].imports@[j]@,
                ) by {
                if !g.has_key(g.graph@[i].imports@[j]@) {
                    assert(self.pending(g.graph@[i].imports@[j]@));
                }
            }
        }
        None
    }

    /// Keeps the text just read for the module at `path`. An entry point's
    /// record keeps its empty source.
    pub fn visit_source(&mut self, path: &String, source: String)
        requires
            old(self).wf(),
        ensures
            final(self).wf(),
            final(self).graph.graph == old(self).graph.graph,
            final(self).graph.entry_points == old(self).graph.entry_points,
            final(self).graph.base_path == old(self).graph.base_path,
            final(self).worklist == old(self).worklist,
            final(self).builtin_modules == old(self).builtin_modules,
            final(self).ignore_external == old(self).ignore_external,
            final(self).graph.modules@.len() == old(self).graph.modules@.len(),
            forall|i: int|
                0 <= i < old(self).graph.modules@.len() ==> {
                    let a = old(self).graph.modules@[i];
                    let b = #[trigger] final(self).graph.modules@[i];
                    &&& b.href == a.href
                    &&& b.pathname == a.pathname
                    &&& b.path == a.path
                    &&& b.imported_by == a.imported_by
                    &&& b.package_json == a.package_json
                    &&& b.source == if a.path@ == path@ && !old(self).graph.is_entry(path@) {
                        source
                    } else {
                        a.source
                    }
                },
    {
        if !self.graph.is_entry_point(path) {
            match self.graph.find_module(path) {
                Some(i) => {
                    let ghost g0 = self.graph;
                    let mut m = self.graph.modules.remove(i);
                    m.source = source;
                    self.graph.modules.insert(i, m);
                    proof {
                        let g = self.graph;
                        assert(g.modules@ =~= g0.modules@.update(i as int, m));
                        assert forall|t: Seq<char>| g0.has_module(t) implies g.has_module(t) by {
                            let k = choose|k: int| 0 <= k < g0.modules@.len() && #[trigger] g0.modules@[k].path@ == t;
                            assert(g.modules@[k].path@ == t);
                        }
                        assert(g.modules_distinct()) by {
                            assert forall|a: int, b: int| 0 <= a < b < g.modules@.len() implies
                                #[trigger] g.modules@[a].path@ != #[trigger] g.modules@[b].path@ by {
                                assert(g0.modules@[a].path@ != g0.modules@[b].path@);
                            }
                        }
                        assert forall|k: int| 0 <= k < g.graph@.len() implies g.has_module(#[trigger] g.graph@[k].path@) by {
                            assert(g0.has_module(g0.graph@[k].path@));
                        }
                        assert forall|k: int| 0 <= k < self.worklist@.len() implies g.has_module(#[trigger] self.worklist@[k]@) by {
                            assert(g0.has_module(self.worklist@[k]@));
                        }
                        assert(g.graph == g0.graph);
                        assert(g.entry_points == g0.entry_points);
                        assert forall|k: int| 0 <= k < g.graph@.len() implies g.is_entry(#[trigger] g.graph@[k].path@)
                            || g.is_imported(g.graph@[k].path@) by {
                            assert(g0.is_entry(g0.graph@[k].path@) || g0.is_imported(g0.graph@[k].path@));
                        }
                        assert(forall|a: int, b: int|
                            0 <= a < g.graph@.len() && 0 <= b < g.graph@[a].imports@.len()
                                ==> g.has_key(#[trigger] g.graph@[a].imports@[b]@)
                                || self.pending(g.graph@[a].imports@[b]@));
                        assert forall|k: int| 0 <= k < self.worklist@.len() implies (g.is_entry(#[trigger] self.worklist@[k]@)
                            || g.is_imported(self.worklist@[k]@)) by {
                            assert(g0.is_entry(self.worklist@[k]@) || g0.is_imported(self.worklist@[k]@));
                        }
                        assert forall|k: int| 0 <= k < g0.modules@.len() && g0.modules@[k].path@ == path@
                            implies k == i by {
                            if k != i {
                                assert(g0.modules@[k].path@ != g0.modules@[i as int].path@);
                            }
                        }
                    }
                },
                None => {},
            }
        }
    }

    /// Records that the module `importer`, being visited, imports `dependency`,
    /// the record of the file that the import resolved to: the dependency's
    /// path is scheduled if it was never visited, its record is kept if it is
    /// new, or gains `importer` among its importers, and the importer's
    /// import list gains the dependency's path.
    pub fn record_import(&mut self, importer: &String, dependency: Module)
        requires
            old(self).wf(),
            old(self).graph.has_key(importer@),
        ensures
            final(self).wf(),
            final(self).graph.entry_points == old(self).graph.entry_points,
            final(self).graph.base_path == old(self).graph.base_path,
            final(self).builtin_modules == old(self).builtin_modules,
            final(self).ignore_external == old(self).ignore_external,
            final(self).graph.graph@.len() == old(self).graph.graph@.len(),
            forall|i: int|
                0 <= i < old(self).graph.graph@.len() ==> {
                    let a = old(self).graph.graph@[i];
                    let b = #[trigger] final(self).graph.graph@[i];
                    &&& b.path == a.path
                    &&& b.imports@ == if a.path@ == importer@ {
                        a.imports@.push(dependency.path)
                    } else {
                        a.imports@
                    }
                },
            final(self).worklist@ == if old(self).graph.has_key(dependency.path@) {
                old(self).worklist@
            } else {
                old(self).worklist@.push(dependency.path)
            },
            final(self).graph.has_module(dependency.path@),
            forall|i: int|
                0 <= i < final(self).graph.modules@.len() && #[trigger] final(self).graph.modules@[i].path@
                    == dependency.path@ ==> names(final(self).graph.modules@[i].imported_by@).contains(
                    importer@,
                ),
            !old(self).graph.has_module(dependency.path@) ==> {
                let n = old(self).graph.modules@.len() as int;
                let b = final(self).graph.modules@[n];
                &&& final(self).graph.modules@.len() == n + 1
                &&& forall|i: int| 0 <= i < n ==> final(self).graph.modules@[i] == old(self).graph.modules@[i]
                &&& b.href == dependency.href
                &&& b.pathname == dependency.pathname
                &&& b.path == dependency.path
                &&& b.package_json == dependency.package_json
                &&& b.source == dependency.source
                &&& b.imported_by@ == seq![*importer]
            },
            old(self).graph.has_module(dependency.path@) ==> {
                &&& final(self).graph.modules@.len() == old(self).graph.modules@.len()
                &&& forall|i: int|
                    0 <= i < old(self).graph.modules@.len() ==> {
                        let a = old(self).graph.modules@[i];
                        let b = #[trigger] final(self).graph.modules@[i];
                        &&& b.href == a.href
                        &&& b.pathname == a.pathname
                        &&& b.path == a.path
                        &&& b.package_json == a.package_json
                        &&& b.source == a.source
                        &&& b.imported_by@ == if a.path@ == dependency.path@ && !names(
                            a.imported_by@,
                        ).contains(importer@) {
                            a.imported_by@.push(*importer)
                        } else {
                            a.imported_by@
                        }
                    }
            },
    {
        let ghost s0 = *self;
        let dep_path = dependency.path.clone();
        if self.graph.find_key(&dep_path).is_none() {
            self.worklist.push(dep_path.clone());
        }
        let ghost s1 = *self;
        match self.graph.find_module(&dep_path) {
            None => {
                let mut m = dependency;
                m.imported_by = vec![importer.clone()];
                self.graph.modules.push(m);
            },
            Some(i) => {
                if !contains_name(&self.graph.modules[i].imported_by, importer) {
                    let mut m = self.graph.modules.remove(i);
                    m.imported_by.push(importer.clone());
                    self.graph.modules.insert(i, m);
                    assert(self.graph.modules@ =~= s1.graph.modules@.update(i as int, m));
                }
                proof {
                    let g0 = s0.graph;
                    assert forall|k: int| 0 <= k < g0.modules@.len() && g0.modules@[k].path@ == dep_path@
                        implies k == i by {
                        if k != i {
                            assert(g0.modules@[k].path@ != g0.modules@[i as int].path@);
                        }
                    }
                }
            },
        }
        let ghost s2 = *self;
        let ki = self.graph.find_key(importer).unwrap();
        let mut e = self.graph.graph.remove(ki);
        e.imports.push(dep_path);
        self.graph.graph.insert(ki, e);
        proof {
            let g0 = s0.graph;
            let g = self.graph;
            assert(g.graph@ =~= g0.graph@.update(ki as int, e));
            assert forall|k: int| 0 <= k < g0.graph@.len() && g0.graph@[k].path@ == importer@
                implies k == ki by {
                if k != ki {
                    assert(g0.graph@[k].path@ != g0.graph@[ki as int].path@);
                }
            }
            assert forall|t: Seq<char>| g0.has_key(t) <==> g.has_key(t) by {
                if g0.has_key(t) {
                    let k = choose|k: int| 0 <= k < g0.graph@.len() && #[trigger] g0.graph@[k].path@ == t;
                    assert(g.graph@[k].path@ == t);
                }
                if g.has_key(t) {
                    let k = choose|k: int| 0 <= k < g.graph@.len() && #[trigger] g.graph@[k].path@ == t;
                    assert(g0.graph@[k].path@ == t);
                }
            }
            assert forall|t: Seq<char>| g0.has_module(t) implies g.has_module(t) by {
                let k = choose|k: int| 0 <= k < g0.modules@.len() && #[trigger] g0.modules@[k].path@ == t;
                assert(g.modules@[k].path@ == t);
            }
            assert(g.has_module(dep_path@)) by {
                if !g0.has_module(dep_path@) {
                    assert(g.modules@[g0.modules@.len() as int].path@ == dep_path@);
                }
            }
            assert forall|t: Seq<char>| g0.is_imported(t) implies g.is_imported(t) by {
                let (a, b) = choose|a: int, b: int|
                    0 <= a < g0.graph@.len() && 0 <= b < g0.graph@[a].imports@.len()
                        && #[trigger] g0.graph@[a].imports@[b]@ == t;
                assert(g.graph@[a].imports@[b]@ == t);
            }
            let last = g.graph@[ki as int].imports@.len() - 1;
            assert(g.graph@[ki as int].imports@[last]@ == dep_path@);
            assert(g.is_imported(dep_path@));
            assert forall|t: Seq<char>| s0.pending(t) implies self.pending(t) by {
                let k = choose|k: int| 0 <= k < s0.worklist@.len() && #[trigger] s0.worklist@[k]@ == t;
                assert(self.worklist@[k]@ == t);
            }
            assert(g.has_key(dep_path@) || self.pending(dep_path@)) by {
                if !g0.has_key(dep_path@) {
                    assert(self.worklist@[s0.worklist@.len() as int]@ == dep_path@);
                }
            }
            assert forall|i: int|
                0 <= i < g.modules@.len() && #[trigger] g.modules@[i].path@ == dep_path@ implies names(
                    g.modules@[i].imported_by@,
                ).contains(importer@) by {
                let v = g.modules@[i].imported_by@;
                if g0.has_module(dep_path@) {
                    assert(i < g0.modules@.len());
                    let w = g0.modules@[i].imported_by@;
                    if names(w).contains(importer@) {
                        let k = choose|k: int| 0 <= k < names(w).len() && names(w)[k] == importer@;
                        assert(names(v)[k] == importer@);
                    } else {
                        assert(names(v)[w.len() as int] == importer@);
                    }
                } else {
                    if i < g0.modules@.len() {
                        assert(g0.modules@[i].path@ == dep_path@);
                    }
                    assert(names(v)[0] == importer@);
                }
            }
            assert(g.modules_distinct()) by {
                assert forall|a: int, b: int| 0 <= a < b < g.modules@.len() implies
                    #[trigger] g.modules@[a].path@ != #[trigger] g.modules@[b].path@ by {
                    if b < g0.modules@.len() {
                        assert(g0.modules@[a].path@ != g0.modules@[b].path@);
                    } else {
                        assert(g0.modules@[a].path@ != dep_path@);
                    }
                }
            }
            assert(g.keys_distinct()) by {
                assert forall|a: int, b: int| 0 <= a < b < g.graph@.len() implies
                    #[trigger] g.graph@[a].path@ != #[trigger] g.graph@[b].path@ by {
                    assert(g0.graph@[a].path@ != g0.graph@[b].path@);
                }
            }
            assert forall|i: int, j: int|
                0 <= i < g.graph@.len() && 0 <= j < g.graph@[i].imports@.len()
                    implies g.has_key(#[trigger] g.graph@[i].imports@[j]@)
                    || self.pending(g.graph@[i].imports@[j]@) by {
                if i != ki || j < g0.graph@[i].imports@.len() {
                    assert(g.graph@[i].imports@[j] == g0.graph@[i].imports@[j]);
                }
            }
            assert forall|i: int| 0 <= i < g.graph@.len() implies g.is_entry(#[trigger] g.graph@[i].path@)
                || g.is_imported(g.graph@[i].path@) by {
                assert(g.entry_points == g0.entry_points);
                assert(g0.is_entry(g0.graph@[i].path@) || g0.is_imported(g0.graph@[i].path@));
            }
            assert forall|i: int| 0 <= i < g.graph@.len() implies g.has_module(#[trigger] g.graph@[i].path@) by {
                assert(g0.has_module(g0.graph@[i].path@));
            }
            assert forall|k: int| 0 <= k < self.worklist@.len() implies (g.is_entry(#[trigger] self.worklist@[k]@)
                || g.is_imported(self.worklist@[k]@)) && g.has_module(self.worklist@[k]@) by {
                assert(g.entry_points == g0.entry_points);
                if k < s0.worklist@.len() {
                    assert(self.worklist@[k] == s0.worklist@[k]);
                }
            }
        }
    }
}

/// Once nothing waits on the worklist, the graph is the closure of the entry
/// points: every import of a visited module has been visited, and every
/// visited module is an entry point or imported by a visited module.
pub proof fn lemma_finished_graph_is_closure(b: Builder)
    requires
        b.wf(),
        b.worklist@.len() == 0,
    ensures
        b.graph.is_closed(),
        b.graph.keys_reachable(),
{
    assert forall|i: int, j: int|
        0 <= i < b.graph.graph@.len() && 0 <= j < b.graph.graph@[i].imports@.len() implies b.graph.has_key(
            #[trigger] b.graph.graph@[i].imports@[j]@,
        ) by {
        if !b.graph.has_key(b.graph.graph@[i].imports@[j]@) {
            assert(b.pending(b.graph.graph@[i].imports@[j]@));
        }
    }
}

} // verus!