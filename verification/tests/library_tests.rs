use lyys_launcher::library::{
    build_classpath, get_natives_dir, library_candidate, library_probe_paths, native_library_paths,
    native_output_path, resolve, should_extract_entry,
};
use lyys_launcher::models::{LibraryEntry, OsRule, ResolvedLibrary, Rule};
use lyys_launcher::rules::evaluate_rules;
use lyys_launcher::utils::Platform;

fn lib(name: &str) -> LibraryEntry {
    LibraryEntry { name: name.to_string(), downloads: None, natives: None, rules: None, extract: None }
}

fn native_lib(name: &str, os: &str, classifier: &str) -> LibraryEntry {
    LibraryEntry {
        natives: Some(vec![(os.to_string(), classifier.to_string())]),
        ..lib(name)
    }
}

fn os_rule(action: &str, os: Option<&str>) -> Rule {
    Rule {
        action: action.to_string(),
        os: os.map(|n| OsRule { name: Some(n.to_string()), arch: None, version: None }),
        features: None,
    }
}

#[test]
fn no_rules_allow() {
    let p = Platform::for_os("linux");
    assert!(evaluate_rules(&vec![], &vec![], &p));
}

#[test]
fn first_applicable_rule_decides() {
    let p = Platform::for_os("linux");
    let rules = vec![os_rule("disallow", Some("windows")), os_rule("allow", None)];
    assert!(evaluate_rules(&rules, &vec![], &p));
    let rules = vec![os_rule("allow", None), os_rule("disallow", Some("linux"))];
    assert!(evaluate_rules(&rules, &vec![], &p));
    let rules = vec![os_rule("disallow", Some("linux")), os_rule("allow", None)];
    assert!(!evaluate_rules(&rules, &vec![], &p));
}

#[test]
fn no_applicable_rule_disallows() {
    let p = Platform::for_os("macos");
    let rules = vec![os_rule("allow", Some("windows"))];
    assert!(!evaluate_rules(&rules, &vec![], &p));
}

#[test]
fn arch_and_feature_guards() {
    let p = Platform::for_os("windows");
    let arch_rule = Rule {
        action: "allow".to_string(),
        os: Some(OsRule { name: None, arch: Some("x86".to_string()), version: None }),
        features: None,
    };
    assert!(evaluate_rules(&vec![arch_rule], &vec![], &p));
    let feat_rule = Rule {
        action: "allow".to_string(),
        os: None,
        features: Some(vec![("has_custom_resolution".to_string(), true)]),
    };
    let on = vec![("is_demo_user".to_string(), false), ("has_custom_resolution".to_string(), true)];
    let off = vec![("has_custom_resolution".to_string(), false)];
    assert!(evaluate_rules(&vec![feat_rule.clone()], &on, &p));
    assert!(!evaluate_rules(&vec![feat_rule.clone()], &off, &p));
    assert!(!evaluate_rules(&vec![feat_rule], &vec![], &p));
}

#[test]
fn candidate_path_of_plain_library() {
    let p = Platform::for_os("linux");
    let c = library_candidate(&lib("org.lwjgl:lwjgl:3.3.1"), "/g/libraries", &p);
    assert_eq!(c, Some(("/g/libraries/org/lwjgl/lwjgl/3.3.1/lwjgl-3.3.1.jar".to_string(), false)));
}

#[test]
fn candidate_path_of_native_library() {
    let p = Platform::for_os("windows");
    let c = library_candidate(&native_lib("org.lwjgl:lwjgl:3.3.1", "windows", "natives-windows"), "C:\\g\\libraries", &p);
    assert_eq!(
        c,
        Some(("C:\\g\\libraries\\org/lwjgl\\lwjgl\\3.3.1\\lwjgl-3.3.1-natives-windows.jar".to_string(), true))
    );
    let p = Platform::for_os("linux");
    let c = library_candidate(&native_lib("a:b:1", "windows", "natives-windows"), "/l", &p);
    assert_eq!(c, Some(("/l/a/b/1/b-1.jar".to_string(), false)));
}

#[test]
fn short_names_give_no_file() {
    let p = Platform::for_os("linux");
    assert_eq!(library_candidate(&lib("a:b"), "/l", &p), None);
}

#[test]
fn resolve_sorts_found_and_missing() {
    let p = Platform::for_os("linux");
    let libs = vec![
        lib("a:present:1"),
        lib("a:absent:1"),
        native_lib("a:nat:1", "linux", "natives-linux"),
        lib("bad"),
        LibraryEntry { rules: Some(vec![os_rule("allow", Some("windows"))]), ..lib("a:winonly:1") },
    ];
    let existing = vec!["/l/a/present/1/present-1.jar".to_string()];
    let (found, missing) = resolve(&libs, "/l", &vec![], &p, &existing).unwrap();
    assert_eq!(found, vec![ResolvedLibrary { local_path: "/l/a/present/1/present-1.jar".to_string(), is_native: false }]);
    assert_eq!(missing, vec!["a:absent:1".to_string()]);
    let probes = library_probe_paths(&libs, "/l", &p);
    assert_eq!(probes.len(), 4);
    assert_eq!(probes[2], "/l/a/nat/1/nat-1-natives-linux.jar");
}

#[test]
fn classpath_puts_jar_last_and_skips_natives() {
    let libs = vec![
        ResolvedLibrary { local_path: "a.jar".to_string(), is_native: false },
        ResolvedLibrary { local_path: "n.jar".to_string(), is_native: true },
        ResolvedLibrary { local_path: "b.jar".to_string(), is_native: false },
    ];
    assert_eq!(build_classpath(&libs, "game.jar", &Platform::for_os("windows")), "a.jar;b.jar;game.jar");
    assert_eq!(build_classpath(&libs, "game.jar", &Platform::for_os("linux")), "a.jar:b.jar:game.jar");
    assert_eq!(build_classpath(&vec![], "game.jar", &Platform::for_os("linux")), "game.jar");
    assert_eq!(native_library_paths(&libs), vec!["n.jar".to_string()]);
}

#[test]
fn natives_directory_and_entries() {
    let p = Platform::for_os("linux");
    assert_eq!(get_natives_dir("/g/versions/1.20", &p), "/g/versions/1.20/natives");
    assert!(should_extract_entry("liblwjgl.so"));
    assert!(should_extract_entry("org/lwjgl/x.dll"));
    assert!(!should_extract_entry("META-INF/MANIFEST.MF"));
    assert!(!should_extract_entry("org/"));
    assert_eq!(native_output_path("/n", "a/b.so", &p), "/n/a/b.so");
}

#[test]
fn disallow_rules_never_allow() {
    let p = Platform::for_os("windows");
    let rules = vec![os_rule("disallow", Some("windows")), os_rule("disallow", None)];
    assert!(!evaluate_rules(&rules, &vec![], &p));
    let rules = vec![os_rule("allow", None), os_rule("disallow", None)];
    assert!(evaluate_rules(&rules, &vec![], &p));
}

#[test]
fn lookup_finds_the_pair_of_a_key() {
    let entries = vec![("linux".to_string(), "natives-linux".to_string()), ("windows".to_string(), "natives-windows".to_string())];
    assert_eq!(lyys_launcher::models::lookup(&entries, &"windows".to_string()), Some(&"natives-windows".to_string()));
    assert_eq!(lyys_launcher::models::lookup(&entries, &"osx".to_string()), None);
}
