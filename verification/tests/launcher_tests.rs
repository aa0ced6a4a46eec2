use lyys_launcher::error::AppError;
use lyys_launcher::launcher::{
    build_launch_command, check_java_version, launch_probe_paths, repl, substitution_table,
    LaunchPaths,
};
use lyys_launcher::models::{
    Account, ArgumentEntry, ArgumentValue, Arguments, AssetIndex, ConditionalArgument, JavaVersion,
    LaunchParams, LibraryEntry, Rule, VersionInfo,
};
use lyys_launcher::utils::Platform;

fn bare(id: &str) -> VersionInfo {
    VersionInfo {
        id: id.to_string(),
        version_type: None,
        main_class: None,
        assets: None,
        asset_index: None,
        libraries: None,
        arguments: None,
        minecraft_arguments: None,
        java_version: None,
        inherits_from: None,
        jar: None,
    }
}

fn params(name: &str) -> LaunchParams {
    LaunchParams {
        version_name: name.to_string(),
        account_index: None,
        java_path: None,
        max_memory_mb: None,
        min_memory_mb: None,
        window_width: None,
        window_height: None,
        fullscreen: None,
        game_directory: None,
        server_address: None,
        extra_jvm_args: None,
        extra_game_args: None,
    }
}

fn steve() -> Account {
    Account {
        player_name: "Steve".to_string(),
        uuid: "0123456789abcdef0123456789abcdef".to_string(),
        account_type: "offline".to_string(),
        access_token: None,
        is_selected: true,
    }
}

fn lib(name: &str) -> LibraryEntry {
    LibraryEntry { name: name.to_string(), downloads: None, natives: None, rules: None, extract: None }
}

fn plain(s: &str) -> ArgumentEntry {
    ArgumentEntry::Plain(s.to_string())
}

fn paths() -> LaunchPaths {
    LaunchPaths {
        run_dir: "/g/versions/v".to_string(),
        libraries_dir: "/g/libraries".to_string(),
        assets_dir: "/g/assets".to_string(),
        classpath: "a.jar:b.jar".to_string(),
        natives_dir: "/g/versions/v/natives".to_string(),
    }
}

#[test]
fn placeholders_are_filled_in() {
    let info = VersionInfo { asset_index: Some(AssetIndex { id: Some("17".to_string()), sha1: None, size: None, url: None, total_size: None }), ..bare("1.20.1") };
    let table = substitution_table(&info, &paths(), &steve(), &params("v"), &Platform::for_os("linux"));
    assert_eq!(table.len(), 20);
    assert_eq!(repl("--username ${auth_player_name}", &table), "--username Steve");
    assert_eq!(repl("${version_name}/${assets_index_name}/${version_type}", &table), "1.20.1/17/release");
    assert_eq!(repl("${auth_access_token}-${auth_session}-${user_type}-${user_properties}", &table), "0-0-mojang-{}");
    assert_eq!(repl("${resolution_width}x${resolution_height}", &table), "854x480");
    assert_eq!(repl("${classpath_separator}${library_directory}", &table), ":/g/libraries");
    assert_eq!(repl("${launcher_name} ${launcher_version}", &table), "custom 1.0");
    assert_eq!(repl("no placeholder", &table), "no placeholder");
    assert_eq!(repl("${unknown}", &table), "${unknown}");
}

#[test]
fn asset_index_falls_back_to_assets_then_legacy() {
    let p = Platform::for_os("linux");
    let info = VersionInfo { assets: Some("1.7.10".to_string()), ..bare("v") };
    let t = substitution_table(&info, &paths(), &steve(), &params("v"), &p);
    assert_eq!(repl("${assets_index_name}", &t), "1.7.10");
    let t = substitution_table(&bare("v"), &paths(), &steve(), &params("v"), &p);
    assert_eq!(repl("${assets_index_name}", &t), "legacy");
}

#[test]
fn substituted_values_are_themselves_substituted_later() {
    let mut acc = steve();
    acc.player_name = "${version_name}".to_string();
    let t = substitution_table(&bare("1.8"), &paths(), &acc, &params("v"), &Platform::for_os("linux"));
    assert_eq!(repl("${auth_player_name}", &t), "1.8");
}

fn modern_manifest() -> VersionInfo {
    VersionInfo {
        main_class: Some("net.minecraft.client.main.Main".to_string()),
        libraries: Some(vec![lib("com.mojang:brigadier:1.0.18")]),
        arguments: Some(Arguments {
            game: Some(vec![
                plain("--username"),
                plain("${auth_player_name}"),
                ArgumentEntry::Conditional(ConditionalArgument {
                    rules: Some(vec![Rule {
                        action: "allow".to_string(),
                        os: None,
                        features: Some(vec![("has_custom_resolution".to_string(), true)]),
                    }]),
                    value: ArgumentValue::Multiple(vec!["--width".to_string(), "${resolution_width}".to_string()]),
                }),
                ArgumentEntry::Conditional(ConditionalArgument {
                    rules: Some(vec![Rule {
                        action: "allow".to_string(),
                        os: None,
                        features: Some(vec![("is_demo_user".to_string(), true)]),
                    }]),
                    value: ArgumentValue::Single("--demo".to_string()),
                }),
            ]),
            jvm: Some(vec![plain("-Djava.library.path=${natives_directory}")]),
        }),
        java_version: Some(JavaVersion { component: None, major_version: Some(17) }),
        ..bare("1.20.1")
    }
}

#[test]
fn modern_command() {
    let p = Platform::for_os("linux");
    let info = modern_manifest();
    let probes = launch_probe_paths("/g", &params("1.20.1"), &info, &p);
    assert_eq!(
        probes,
        vec![
            "/g/versions/1.20.1/1.20.1.jar".to_string(),
            "/g/libraries/com/mojang/brigadier/1.0.18/brigadier-1.0.18.jar".to_string(),
        ]
    );
    let mut pr = params("1.20.1");
    pr.window_width = Some(1280);
    let cmd = build_launch_command("/g", &pr, &steve(), true, &info, 17, &probes, &p).unwrap();
    let cp = "/g/libraries/com/mojang/brigadier/1.0.18/brigadier-1.0.18.jar:/g/versions/1.20.1/1.20.1.jar";
    let expected: Vec<String> = vec![
        "java",
        "-Xmx2048m",
        "-Xms128m",
        "-Djava.library.path=/g/versions/1.20.1/natives",
        "-cp",
        cp,
        "-Dminecraft.launcher.brand=custom",
        "-Dminecraft.launcher.version=1.0",
        "-Djava.library.path=/g/versions/1.20.1/natives",
        "net.minecraft.client.main.Main",
        "--username",
        "Steve",
        "--width",
        "1280",
    ]
    .into_iter()
    .map(String::from)
    .collect();
    assert_eq!(cmd, expected);
}

#[test]
fn legacy_command_uses_words_of_minecraft_arguments() {
    let p = Platform::for_os("windows");
    let info = VersionInfo {
        minecraft_arguments: Some("--username ${auth_player_name}  --gameDir ${game_directory}".to_string()),
        ..bare("1.8.9")
    };
    let mut pr = params("1.8.9");
    pr.java_path = Some("C:\\jdk8\\bin\\java.exe".to_string());
    pr.max_memory_mb = Some(4096);
    pr.min_memory_mb = Some(512);
    let existing = vec!["C:\\mc\\versions\\1.8.9\\1.8.9.jar".to_string()];
    let cmd = build_launch_command("C:\\mc", &pr, &steve(), false, &info, 8, &existing, &p).unwrap();
    assert_eq!(cmd[0], "C:\\jdk8\\bin\\java.exe");
    assert_eq!(cmd[1], "-Xmx4096m");
    assert_eq!(cmd[2], "-Xms512m");
    assert_eq!(cmd[5], "C:\\mc\\versions\\1.8.9\\1.8.9.jar");
    assert_eq!(cmd[8], "net.minecraft.client.main.Main");
    assert_eq!(cmd[9..].to_vec(), vec!["--username", "Steve", "--gameDir", "C:\\mc"]);
}

#[test]
fn java_too_old_is_refused() {
    let info = modern_manifest();
    let r = build_launch_command("/g", &params("1.20.1"), &steve(), true, &info, 8, &vec![], &Platform::for_os("linux"));
    assert_eq!(r, Err(AppError::JavaNotFound("Java 17 required, found 8".to_string())));
    assert_eq!(check_java_version(&info, 17), Ok(()));
    assert_eq!(check_java_version(&info, 0).unwrap_err().message(), "Java not found: Java 17 required, found 0");
    assert_eq!(check_java_version(&bare("x"), -1), Ok(()));
}

#[test]
fn missing_jar_is_refused() {
    let r = build_launch_command("/g", &params("1.20.1"), &steve(), true, &modern_manifest(), 21, &vec![], &Platform::for_os("linux"));
    assert_eq!(r, Err(AppError::JarNotFound("/g/versions/1.20.1/1.20.1.jar".to_string())));
}

#[test]
fn missing_libraries_are_named() {
    let info = VersionInfo { libraries: Some(vec![lib("a:b:1"), lib("c:d:2"), lib("e:f:3")]), ..bare("v") };
    let existing = vec!["/g/versions/v/v.jar".to_string(), "/g/libraries/c/d/2/d-2.jar".to_string()];
    let r = build_launch_command("/g", &params("v"), &steve(), false, &info, 17, &existing, &Platform::for_os("linux"));
    assert_eq!(r, Err(AppError::LibraryMissing("a:b:1, e:f:3".to_string())));
}

#[test]
fn inherited_jar_preferred_when_present() {
    let p = Platform::for_os("linux");
    let info = VersionInfo { inherits_from: Some("1.20.1".to_string()), jar: Some("other".to_string()), ..bare("fabric") };
    let probes = launch_probe_paths("/g", &params("fabric"), &info, &p);
    assert_eq!(probes, vec!["/g/versions/1.20.1/1.20.1.jar".to_string(), "/g/versions/fabric/fabric.jar".to_string()]);
    let cmd = build_launch_command("/g", &params("fabric"), &steve(), true, &info, 17, &probes, &p).unwrap();
    assert_eq!(cmd[5], "/g/versions/1.20.1/1.20.1.jar");
    let only_own = vec!["/g/versions/fabric/fabric.jar".to_string()];
    let cmd = build_launch_command("/g", &params("fabric"), &steve(), true, &info, 17, &only_own, &p).unwrap();
    assert_eq!(cmd[5], "/g/versions/fabric/fabric.jar");
}

#[test]
fn named_jar_used_when_present() {
    let p = Platform::for_os("linux");
    let info = VersionInfo { jar: Some("1.19".to_string()), ..bare("custom") };
    let existing = vec!["/g/versions/1.19/1.19.jar".to_string()];
    let cmd = build_launch_command("/g", &params("custom"), &steve(), true, &info, 17, &existing, &p).unwrap();
    assert_eq!(cmd[5], "/g/versions/1.19/1.19.jar");
}

#[test]
fn huge_java_requirement_wraps_like_a_cast() {
    let info = VersionInfo { java_version: Some(JavaVersion { component: None, major_version: Some(4294967295) }), ..bare("v") };
    assert_eq!(check_java_version(&info, -2), Err(AppError::JavaNotFound("Java 4294967295 required, found -2".to_string())));
    assert_eq!(check_java_version(&info, -1), Ok(()));
}
