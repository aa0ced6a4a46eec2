use std::path::Path;
use lyys_launcher::error::AppError;
use lyys_launcher::models::{
    ArgumentEntry, Arguments, AssetIndex, JavaVersion, LibraryEntry, LocalVersionInfo, VersionInfo,
};
use lyys_launcher::utils::Platform;
use lyys_launcher::version::{
    get_version_dir, get_version_jar, get_version_json, get_versions_dir, list_local_versions,
    load_version_info, merge, next_in_chain, VersionDirScan,
};

pub fn bare(id: &str) -> VersionInfo {
    VersionInfo {
        id: id.to_string(),
        version_type: None,
        main_class: None,
        assets: None,
        asset_index: None,
        libraries: None,
        arguments: None,
        minecraft_arguments: None,
        java_version: None,
        inherits_from: None,
        jar: None,
    }
}

fn lib(name: &str) -> LibraryEntry {
    LibraryEntry { name: name.to_string(), downloads: None, natives: None, rules: None, extract: None }
}

fn plain(s: &str) -> ArgumentEntry {
    ArgumentEntry::Plain(s.to_string())
}

#[test]
fn version_paths() {
    let p = Platform::for_os("linux");
    assert_eq!(get_versions_dir("/g", &p), "/g/versions");
    assert_eq!(get_version_dir("/g/", "1.20.1", &p), "/g/versions/1.20.1");
    assert_eq!(get_version_json("/g", "1.20.1", &p), "/g/versions/1.20.1/1.20.1.json");
    assert_eq!(get_version_jar("/g", "1.20.1", &p), "/g/versions/1.20.1/1.20.1.jar");
    let w = Platform::for_os("windows");
    assert_eq!(get_version_jar("C:\\mc", "x", &w), "C:\\mc\\versions\\x\\x.jar");
    assert_eq!(get_versions_dir("C:/mc/", &w), "C:/mc/versions");
    assert_eq!(get_versions_dir("", &p), "versions");
}

#[test]
fn merge_puts_child_first_and_fills_gaps() {
    let mut child = VersionInfo {
        main_class: Some("net.fabricmc.loader.Main".to_string()),
        inherits_from: Some("1.20.1".to_string()),
        libraries: Some(vec![lib("fabric:loader:1")]),
        arguments: Some(Arguments { game: None, jvm: Some(vec![plain("-Dfabric=1")]) }),
        ..bare("fabric-1.20.1")
    };
    let parent = VersionInfo {
        main_class: Some("net.minecraft.client.main.Main".to_string()),
        version_type: Some("release".to_string()),
        libraries: Some(vec![lib("org:a:1"), lib("org:b:1")]),
        arguments: Some(Arguments {
            game: Some(vec![plain("--username"), plain("${auth_player_name}")]),
            jvm: Some(vec![plain("-cp"), plain("${classpath}")]),
        }),
        asset_index: Some(AssetIndex { id: Some("5".to_string()), sha1: None, size: None, url: None, total_size: None }),
        assets: Some("5".to_string()),
        java_version: Some(JavaVersion { component: None, major_version: Some(17) }),
        jar: Some("1.20.1".to_string()),
        ..bare("1.20.1")
    };
    merge(&mut child, parent);
    assert_eq!(child.id, "fabric-1.20.1");
    assert_eq!(child.version_type, None);
    assert_eq!(child.main_class.as_deref(), Some("net.fabricmc.loader.Main"));
    let names: Vec<&str> = child.libraries.as_ref().unwrap().iter().map(|l| l.name.as_str()).collect();
    assert_eq!(names, vec!["fabric:loader:1", "org:a:1", "org:b:1"]);
    let args = child.arguments.unwrap();
    assert_eq!(args.jvm.unwrap(), vec![plain("-Dfabric=1"), plain("-cp"), plain("${classpath}")]);
    assert_eq!(args.game.unwrap(), vec![plain("--username"), plain("${auth_player_name}")]);
    assert_eq!(child.assets.as_deref(), Some("5"));
    assert_eq!(child.java_version.unwrap().major_version, Some(17));
    assert_eq!(child.jar.as_deref(), Some("1.20.1"));
}

#[test]
fn merge_with_bare_parent_changes_nothing() {
    let mut child = VersionInfo {
        main_class: Some("M".to_string()),
        libraries: Some(vec![lib("a:b:1")]),
        minecraft_arguments: Some("--x".to_string()),
        ..bare("c")
    };
    let before = child.clone();
    merge(&mut child, bare("p"));
    assert_eq!(child, before);
}

#[test]
fn merge_takes_parent_arguments_when_child_has_none() {
    let mut child = bare("c");
    let parent = VersionInfo { arguments: Some(Arguments { game: Some(vec![plain("g")]), jvm: None }), ..bare("p") };
    merge(&mut child, parent.clone());
    assert_eq!(child.arguments, parent.arguments);
}

#[test]
fn load_version_info_reports_missing_manifest() {
    assert_eq!(load_version_info("1.8", None, vec![]), Err(AppError::VersionNotFound("1.8".to_string())));
}

#[test]
fn load_version_info_uses_parent_only_when_named() {
    let parent = VersionInfo { main_class: Some("P".to_string()), ..bare("p") };
    let alone = load_version_info("c", Some(bare("c")), vec![parent.clone()]).unwrap();
    assert_eq!(alone, bare("c"));
    let child = VersionInfo { inherits_from: Some("p".to_string()), ..bare("c") };
    let merged = load_version_info("c", Some(child.clone()), vec![parent]).unwrap();
    assert_eq!(merged.main_class.as_deref(), Some("P"));
    let unmerged = load_version_info("c", Some(child.clone()), vec![]).unwrap();
    assert_eq!(unmerged, child);
}

#[test]
fn listing_keeps_directories_with_manifests() {
    let scans = vec![
        VersionDirScan { name: "1.20.1".to_string(), is_dir: true, has_json: true, info: Some(VersionInfo { version_type: Some("release".to_string()), ..bare("1.20.1") }), has_jar: true },
        VersionDirScan { name: "notes.txt".to_string(), is_dir: false, has_json: false, info: None, has_jar: false },
        VersionDirScan { name: "empty".to_string(), is_dir: true, has_json: false, info: None, has_jar: false },
        VersionDirScan { name: "broken".to_string(), is_dir: true, has_json: true, info: None, has_jar: false },
        VersionDirScan { name: "fabric".to_string(), is_dir: true, has_json: true, info: Some(VersionInfo { inherits_from: Some("1.20.1".to_string()), ..bare("fabric") }), has_jar: false },
    ];
    let listed = list_local_versions(&scans);
    assert_eq!(
        listed,
        vec![
            LocalVersionInfo { id: "1.20.1".to_string(), version_type: Some("release".to_string()), has_jar: true, inherits_from: None },
            LocalVersionInfo { id: "broken".to_string(), version_type: None, has_jar: false, inherits_from: None },
            LocalVersionInfo { id: "fabric".to_string(), version_type: None, has_jar: false, inherits_from: Some("1.20.1".to_string()) },
        ]
    );
}

#[test]
fn whole_inheritance_chain_is_merged() {
    let a = VersionInfo { inherits_from: Some("b".to_string()), libraries: Some(vec![lib("a:a:1")]), ..bare("a") };
    let b = VersionInfo {
        inherits_from: Some("c".to_string()),
        libraries: Some(vec![lib("b:b:1")]),
        arguments: Some(Arguments { game: None, jvm: Some(vec![plain("-Db")]) }),
        ..bare("b")
    };
    let c = VersionInfo {
        libraries: Some(vec![lib("c:c:1")]),
        arguments: Some(Arguments { game: Some(vec![plain("--c")]), jvm: Some(vec![plain("-Dc")]) }),
        main_class: Some("C".to_string()),
        ..bare("c")
    };
    assert_eq!(next_in_chain("a", &a, &vec![]), Some("b".to_string()));
    assert_eq!(next_in_chain("a", &a, &vec![b.clone()]), Some("c".to_string()));
    assert_eq!(next_in_chain("a", &a, &vec![b.clone(), c.clone()]), None);
    let v = load_version_info("a", Some(a.clone()), vec![b.clone(), c.clone()]).unwrap();
    let names: Vec<&str> = v.libraries.as_ref().unwrap().iter().map(|l| l.name.as_str()).collect();
    assert_eq!(names, vec!["a:a:1", "b:b:1", "c:c:1"]);
    let args = v.arguments.clone().unwrap();
    assert_eq!(args.jvm.unwrap(), vec![plain("-Db"), plain("-Dc")]);
    assert_eq!(args.game.unwrap(), vec![plain("--c")]);
    assert_eq!(v.main_class.as_deref(), Some("C"));
    assert_eq!(v.inherits_from.as_deref(), Some("b"));
    let mut expected = a.clone();
    merge(&mut expected, b);
    merge(&mut expected, c);
    assert_eq!(v, expected);
}

#[test]
fn inheritance_cycles_end_the_chain() {
    let a = VersionInfo { inherits_from: Some("b".to_string()), ..bare("a") };
    let b = VersionInfo { inherits_from: Some("a".to_string()), ..bare("b") };
    assert_eq!(next_in_chain("a", &a, &vec![b.clone()]), None);
    let own = VersionInfo { inherits_from: Some("a".to_string()), ..bare("a") };
    assert_eq!(next_in_chain("a", &own, &vec![]), None);
    let b2 = VersionInfo { inherits_from: Some("b".to_string()), ..bare("b") };
    assert_eq!(next_in_chain("a", &a, &vec![b2]), None);
}

#[test]
fn version_tree_layout() {
    let p = Platform::for_os("linux");
    let dir = get_version_dir("/g", "1.20.1", &p);
    assert_eq!(Path::new(&dir).parent().unwrap(), Path::new(&get_versions_dir("/g", &p)));
    assert_eq!(Path::new(&dir).file_name().unwrap(), "1.20.1");
    assert_eq!(Path::new(&get_version_json("/g", "1.20.1", &p)).parent().unwrap(), Path::new(&dir));
    assert_eq!(Path::new(&get_version_jar("/g", "1.20.1", &p)).file_name().unwrap(), "1.20.1.jar");
}
