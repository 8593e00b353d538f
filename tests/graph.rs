use module_graph::{next_specifier, Builder, BuildError, HookReply, Module, PackageJson};

const BASE: &str = "/proj";

fn package() -> PackageJson {
    PackageJson::located(
        Some("proj".to_string()),
        Some("1.0.0".to_string()),
        "/proj/package.json".to_string(),
    )
    .unwrap()
}

/// A project on paper: each file with its source and, for each import
/// specifier, the absolute file it resolves to.
struct Project {
    files: Vec<(&'static str, &'static str, Vec<(&'static str, &'static str)>)>,
}

impl Project {
    fn source(&self, rel: &str) -> String {
        for (p, src, _) in &self.files {
            if *p == rel {
                return src.to_string();
            }
        }
        panic!("no file {rel}");
    }

    fn resolve(&self, importer: &str, specifier: &str) -> String {
        for (p, _, imports) in &self.files {
            if *p == importer {
                for (s, target) in imports {
                    if *s == specifier {
                        return target.to_string();
                    }
                }
            }
        }
        panic!("cannot resolve {specifier} from {importer}");
    }

    fn specifiers(&self, rel: &str) -> Vec<String> {
        for (p, _, imports) in &self.files {
            if *p == rel {
                return imports.iter().map(|(s, _)| s.to_string()).collect();
            }
        }
        Vec::new()
    }
}

/// Drives the builder as a caller would, with `hook` as the only plugin.
fn build(
    project: &Project,
    entries: &[&str],
    ignore_external: bool,
    builtins: Vec<String>,
    hook: &dyn Fn(&str, &str) -> HookReply,
) -> (Builder, Vec<String>) {
    let mut b = Builder::new(BASE.to_string(), builtins, ignore_external);
    let mut reads = Vec::new();
    for e in entries {
        let m = Module::located(format!("{BASE}/{e}"), &BASE.to_string(), package(), vec![], String::new())
            .unwrap();
        b.add_entry(m);
    }
    while let Some(dep) = b.next_module() {
        let source = project.source(&dep);
        reads.push(dep.clone());
        b.visit_source(&dep, source.clone());
        for s in project.specifiers(&dep) {
            if b.skips(&s) {
                continue;
            }
            let reply = hook(&dep, &s);
            let Some(s) = next_specifier(s, reply) else { continue };
            let resolved = project.resolve(&dep, &s);
            let m = Module::located(resolved, &BASE.to_string(), package(), vec![dep.clone()], source.clone())
                .unwrap();
            b.record_import(&dep, m);
        }
    }
    (b, reads)
}

fn imports_of(b: &Builder, path: &str) -> Vec<String> {
    for e in &b.graph.graph {
        if e.path == path {
            return e.imports.clone();
        }
    }
    panic!("{path} was not visited");
}

fn module_paths(b: &Builder) -> Vec<String> {
    b.graph.modules.iter().map(|m| m.path.clone()).collect()
}

fn pass(_: &str, _: &str) -> HookReply {
    HookReply::Pass
}

#[test]
fn external_imports_are_ignored() {
    let project = Project {
        files: vec![
            ("index.js", "import './a.js'; import 'pkg';", vec![("./a.js", "/proj/a.js"), ("pkg", "/proj/node_modules/pkg/index.js")]),
            ("a.js", "export const a = 1;", vec![]),
        ],
    };
    let (b, _) = build(&project, &["index.js"], true, vec![], &pass);
    assert_eq!(imports_of(&b, "index.js"), vec!["a.js".to_string()]);
    assert_eq!(imports_of(&b, "a.js"), Vec::<String>::new());
    assert_eq!(b.graph.graph.len(), 2);
    assert_eq!(module_paths(&b), vec!["index.js".to_string(), "a.js".to_string()]);
    assert_eq!(b.graph.entry_points, vec!["index.js".to_string()]);
}

#[test]
fn mutual_imports_terminate() {
    let project = Project {
        files: vec![
            ("a.js", "import './b.js';", vec![("./b.js", "/proj/b.js")]),
            ("b.js", "import './a.js';", vec![("./a.js", "/proj/a.js")]),
        ],
    };
    let (b, reads) = build(&project, &["a.js"], false, vec![], &pass);
    assert_eq!(imports_of(&b, "a.js"), vec!["b.js".to_string()]);
    assert_eq!(imports_of(&b, "b.js"), vec!["a.js".to_string()]);
    assert_eq!(reads, vec!["a.js".to_string(), "b.js".to_string()]);
    let a = &b.graph.modules[0];
    assert_eq!(a.path, "a.js");
    assert_eq!(a.imported_by, vec!["b.js".to_string()]);
}

#[test]
fn rewritten_specifier_is_resolved() {
    let rewrite = |_: &str, s: &str| {
        if s == "./x" {
            HookReply::Rewrite("./y".to_string())
        } else {
            HookReply::Pass
        }
    };
    let project = Project {
        files: vec![
            ("index.js", "import './x';", vec![("./x", "/proj/x.js"), ("./y", "/proj/y.js")]),
            ("y.js", "", vec![]),
            ("x.js", "", vec![]),
        ],
    };
    let (b, _) = build(&project, &["index.js"], false, vec![], &|a, s| rewrite(a, s));
    let imports = imports_of(&b, "index.js");
    assert!(imports.contains(&"y.js".to_string()));
    assert!(!imports.contains(&"x.js".to_string()));
    assert!(!module_paths(&b).contains(&"x.js".to_string()));
}

#[test]
fn vetoed_import_leaves_no_trace() {
    let project = Project {
        files: vec![
            ("index.js", "import './a.js'; import './b.js';", vec![("./a.js", "/proj/a.js"), ("./b.js", "/proj/b.js")]),
            ("a.js", "", vec![]),
            ("b.js", "", vec![]),
        ],
    };
    let veto = |_: &str, s: &str| if s == "./b.js" { HookReply::Veto } else { HookReply::Pass };
    let (b, _) = build(&project, &["index.js"], false, vec![], &veto);
    assert_eq!(imports_of(&b, "index.js"), vec!["a.js".to_string()]);
    assert_eq!(module_paths(&b), vec!["index.js".to_string(), "a.js".to_string()]);
}

#[test]
fn filtered_specifiers_make_no_edge() {
    let project = Project {
        files: vec![(
            "index.js",
            "",
            vec![("", "/proj/e.js"), ("import.meta", "/proj/m.js"), ("node:fs", "/proj/fs.js"), ("./${x}.js", "/proj/t.js")],
        )],
    };
    let (b, _) = build(&project, &["index.js"], false, vec!["fs".to_string()], &pass);
    assert_eq!(imports_of(&b, "index.js"), Vec::<String>::new());
    assert_eq!(module_paths(&b), vec!["index.js".to_string()]);
}

#[test]
fn repeated_imports_give_repeated_edges() {
    let project = Project {
        files: vec![
            ("index.js", "", vec![("./a.js", "/proj/a.js"), ("./a", "/proj/a.js"), ("./b.js", "/proj/b.js")]),
            ("b.js", "", vec![("./a.js", "/proj/a.js")]),
            ("a.js", "", vec![]),
        ],
    };
    let (b, reads) = build(&project, &["index.js"], false, vec![], &pass);
    assert_eq!(
        imports_of(&b, "index.js"),
        vec!["a.js".to_string(), "a.js".to_string(), "b.js".to_string()]
    );
    // a.js was scheduled twice before its visit, and is still read once.
    assert_eq!(reads.iter().filter(|r| *r == "a.js").count(), 1);
    assert_eq!(b.graph.graph.len(), 3);
    let a = b.graph.modules.iter().find(|m| m.path == "a.js").unwrap();
    assert_eq!(a.imported_by, vec!["index.js".to_string(), "b.js".to_string()]);
}

#[test]
fn sources_are_kept_for_visited_modules() {
    let project = Project {
        files: vec![
            ("index.js", "import './a.js';", vec![("./a.js", "/proj/a.js")]),
            ("a.js", "export default 1;", vec![]),
        ],
    };
    let (b, _) = build(&project, &["index.js"], false, vec![], &pass);
    let index = &b.graph.modules[0];
    let a = &b.graph.modules[1];
    assert_eq!(index.source, "");
    assert_eq!(a.source, "export default 1;");
    assert_eq!(a.href, "file:///proj/a.js");
    assert_eq!(a.pathname, "/proj/a.js");
    assert_eq!(a.package_json.href, "file:///proj/package.json");
}

#[test]
fn building_twice_gives_the_same_graph() {
    let project = Project {
        files: vec![
            ("index.js", "", vec![("./a.js", "/proj/a.js"), ("./b.js", "/proj/b.js")]),
            ("a.js", "", vec![("./b.js", "/proj/b.js")]),
            ("b.js", "", vec![]),
        ],
    };
    let (b1, r1) = build(&project, &["index.js"], false, vec![], &pass);
    let (b2, r2) = build(&project, &["index.js"], false, vec![], &pass);
    assert_eq!(format!("{:?}", b1.graph), format!("{:?}", b2.graph));
    assert_eq!(r1, r2);
    // depth first: the last import of index.js is visited before the first.
    assert_eq!(r1, vec!["index.js".to_string(), "b.js".to_string(), "a.js".to_string()]);
}

#[test]
fn entry_points_are_relative() {
    let mut b = Builder::new(BASE.to_string(), vec![], false);
    let m = Module::located("/proj/src/main.js".to_string(), &BASE.to_string(), package(), vec![], String::new())
        .unwrap();
    assert_eq!(m.path, "src/main.js");
    assert_eq!(m.href, "file:///proj/src/main.js");
    b.add_entry(m);
    assert_eq!(b.graph.entry_points, vec!["src/main.js".to_string()]);
    assert_eq!(b.next_module(), Some("src/main.js".to_string()));
    assert_eq!(b.next_module(), None);
}

#[test]
fn relative_resolved_path_is_an_error() {
    let r = Module::located("a.js".to_string(), &BASE.to_string(), package(), vec![], String::new());
    assert!(matches!(r, Err(BuildError::Path { path }) if path == "a.js"));
    let p = PackageJson::located(None, None, "package.json".to_string());
    assert!(matches!(p, Err(BuildError::Path { .. })));
}
