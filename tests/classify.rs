use module_graph::{
    check_plugin_names, is_bare_module_specifier, is_scoped_package, is_skipped,
    is_templated_dynamic, next_specifier, strip_node_prefix, BuildError, HookReply,
};

#[test]
fn test_is_scoped_package() {
    assert!(is_scoped_package("@foo/bar"));
    assert!(!is_scoped_package("foo"));
    assert!(!is_scoped_package("/foo"));
    assert!(!is_scoped_package("./foo"));
}

#[test]
fn test_is_bare_module_specifier() {
    assert!(is_bare_module_specifier("@foo"));
    assert!(is_bare_module_specifier("bar"));
    assert!(!is_bare_module_specifier("/baz"));
    assert!(!is_bare_module_specifier("./qux"));
}

#[test]
fn bare_specifier_ignores_quotes() {
    assert!(is_bare_module_specifier("'lodash'"));
    assert!(is_bare_module_specifier("\"Lodash\""));
    assert!(!is_bare_module_specifier("'./x'"));
    assert!(!is_bare_module_specifier(""));
    assert!(!is_bare_module_specifier("''"));
    assert!(!is_bare_module_specifier("1abc"));
}

#[test]
fn scoped_package_of_empty_is_false() {
    assert!(!is_scoped_package(""));
    assert!(is_scoped_package("@"));
}

#[test]
fn templated_specifiers() {
    assert!(is_templated_dynamic("./locale/${lang}.js"));
    assert!(is_templated_dynamic("${a}"));
    assert!(!is_templated_dynamic("./locale/${}.js"));
    assert!(!is_templated_dynamic("./locale/${lang.js"));
    assert!(!is_templated_dynamic("./locale/$lang}.js"));
    assert!(!is_templated_dynamic("./plain.js"));
    assert!(!is_templated_dynamic(""));
}

#[test]
fn node_prefix_is_stripped() {
    assert_eq!(strip_node_prefix("node:fs"), "fs");
    assert_eq!(strip_node_prefix("fs"), "fs");
    assert_eq!(strip_node_prefix("./node:x"), "./node:x");
    assert_eq!(strip_node_prefix("node:"), "");
}

#[test]
fn skipped_specifiers() {
    let builtins = vec!["fs".to_string(), "path".to_string()];
    assert!(is_skipped("", &builtins, false));
    assert!(is_skipped("import.meta", &builtins, false));
    assert!(is_skipped("fs", &builtins, false));
    assert!(is_skipped("node:fs", &builtins, false));
    assert!(is_skipped("node:path", &builtins, false));
    assert!(!is_skipped("node:url", &builtins, false));
    assert!(is_skipped("lodash", &builtins, true));
    assert!(!is_skipped("lodash", &builtins, false));
    assert!(!is_skipped("./a.js", &builtins, true));
    assert!(is_skipped("./${x}.js", &builtins, false));
}

#[test]
fn hook_replies_thread_the_specifier() {
    assert_eq!(
        next_specifier("./x".to_string(), HookReply::Rewrite("./y".to_string())),
        Some("./y".to_string())
    );
    assert_eq!(next_specifier("./x".to_string(), HookReply::Pass), Some("./x".to_string()));
    assert_eq!(next_specifier("./x".to_string(), HookReply::Veto), None);
}

#[test]
fn a_veto_ends_the_chain() {
    let replies = vec![
        HookReply::Rewrite("./y".to_string()),
        HookReply::Veto,
        HookReply::Rewrite("./z".to_string()),
    ];
    let mut cur = Some("./x".to_string());
    for r in replies {
        cur = match cur {
            Some(c) => next_specifier(c, r),
            None => None,
        };
    }
    assert_eq!(cur, None);
}

#[test]
fn plugins_need_names() {
    assert!(check_plugin_names(&vec![Some("a".to_string()), Some("b".to_string())]).is_ok());
    assert!(check_plugin_names(&vec![]).is_ok());
    assert!(matches!(
        check_plugin_names(&vec![Some("a".to_string()), None]),
        Err(BuildError::UnnamedPlugin)
    ));
}
