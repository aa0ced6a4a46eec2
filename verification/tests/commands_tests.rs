use lyys_launcher::utils::same_path;
use lyys_launcher::commands::{
    add_offline_account, launch_account, launch_isolation, remove_account, select_account,
    set_game_directory, set_java_path, set_version_isolation,
};
use lyys_launcher::config::{game_directory_for_home, get_game_directory, load_config};
use lyys_launcher::error::AppError;
use lyys_launcher::models::{Account, LaunchParams, LauncherConfig};
use lyys_launcher::utils::{random_uuid, strip_hyphens, Platform};

fn params(index: Option<usize>) -> LaunchParams {
    LaunchParams {
        version_name: "v".to_string(),
        account_index: index,
        java_path: None,
        max_memory_mb: None,
        min_memory_mb: None,
        window_width: None,
        window_height: None,
        fullscreen: None,
        game_directory: None,
        server_address: None,
        extra_jvm_args: None,
        extra_game_args: None,
    }
}

fn selected(cfg: &LauncherConfig) -> Vec<bool> {
    cfg.accounts.iter().map(|a| a.is_selected).collect()
}

fn three_accounts() -> LauncherConfig {
    let mut cfg = LauncherConfig::default();
    add_offline_account(&mut cfg, "A".to_string());
    add_offline_account(&mut cfg, "B".to_string());
    add_offline_account(&mut cfg, "C".to_string());
    cfg
}

#[test]
fn first_offline_account_is_selected() {
    let cfg = three_accounts();
    assert_eq!(selected(&cfg), vec![true, false, false]);
    for a in &cfg.accounts {
        assert_eq!(a.account_type, "offline");
        assert_eq!(a.access_token, None);
        assert_eq!(a.uuid.len(), 32);
        assert!(a.uuid.chars().all(|c| c.is_ascii_hexdigit() && !c.is_ascii_uppercase()));
    }
    assert_ne!(cfg.accounts[0].uuid, cfg.accounts[1].uuid);
}

#[test]
fn selecting_marks_exactly_one() {
    let mut cfg = three_accounts();
    assert_eq!(select_account(&mut cfg, 2), Ok(()));
    assert_eq!(selected(&cfg), vec![false, false, true]);
    assert_eq!(launch_account(&cfg, &params(None)).unwrap().player_name, "C");
    assert_eq!(select_account(&mut cfg, 3), Err(AppError::AccountError("Invalid index".to_string())));
    assert_eq!(selected(&cfg), vec![false, false, true]);
}

#[test]
fn removing_the_selected_account_selects_the_first() {
    let mut cfg = three_accounts();
    select_account(&mut cfg, 1).unwrap();
    assert_eq!(remove_account(&mut cfg, 1), Ok(()));
    let names: Vec<&str> = cfg.accounts.iter().map(|a| a.player_name.as_str()).collect();
    assert_eq!(names, vec!["A", "C"]);
    assert_eq!(selected(&cfg), vec![true, false]);
    assert_eq!(remove_account(&mut cfg, 1), Ok(()));
    assert_eq!(selected(&cfg), vec![true]);
    assert_eq!(remove_account(&mut cfg, 5), Err(AppError::AccountError("Invalid index".to_string())));
    assert_eq!(remove_account(&mut cfg, 0), Ok(()));
    assert!(cfg.accounts.is_empty());
}

#[test]
fn launch_account_choice() {
    let mut cfg = three_accounts();
    assert_eq!(launch_account(&cfg, &params(Some(1))).unwrap().player_name, "B");
    assert_eq!(launch_account(&cfg, &params(Some(9))).unwrap().player_name, "A");
    cfg.accounts[0].is_selected = false;
    assert_eq!(launch_account(&cfg, &params(None)), Err(AppError::AccountError("No account".to_string())));
    let copy: Account = cfg.accounts[2].copy();
    assert_eq!(copy, cfg.accounts[2]);
}

#[test]
fn settings() {
    let mut cfg = LauncherConfig::default();
    assert!(launch_isolation(&cfg));
    set_version_isolation(&mut cfg, false);
    assert!(!launch_isolation(&cfg));
    set_java_path(&mut cfg, Some("/usr/bin/java".to_string()));
    assert_eq!(cfg.java_path.as_deref(), Some("/usr/bin/java"));
    set_game_directory(&mut cfg, "/games/mc".to_string());
    assert_eq!(get_game_directory(&cfg, &Platform::for_os("linux")), "/games/mc");
}

#[test]
fn game_directory_defaults_to_home() {
    let cfg = LauncherConfig::default();
    let p = Platform::for_os("linux");
    assert_eq!(game_directory_for_home(&cfg, Some("/home/u".to_string()), &p), "/home/u/.minecraft");
    assert_eq!(game_directory_for_home(&cfg, None, &p), "./.minecraft");
    assert!(get_game_directory(&cfg, &p).ends_with(".minecraft"));
    let w = Platform::for_os("windows");
    assert_eq!(game_directory_for_home(&cfg, Some("C:\\Users\\u".to_string()), &w), "C:\\Users\\u\\.minecraft");
}

#[test]
fn stored_config_or_defaults() {
    let d = load_config(None);
    assert_eq!(d, LauncherConfig::default());
    let mut c = LauncherConfig::default();
    c.max_memory_mb = Some(4096);
    assert_eq!(load_config(Some(c.clone())), c);
}

#[test]
fn identifiers() {
    assert_eq!(strip_hyphens("123e4567-e89b-42d3-a456-426614174000"), "123e4567e89b42d3a456426614174000");
    let id = random_uuid();
    assert_eq!(id.len(), 32);
    assert_eq!(&id[12..13], "4");
}

#[test]
fn platforms() {
    let w = Platform::for_os("windows");
    assert_eq!((w.name(), w.arch(), w.classpath_separator(), w.path_separator()), ("windows", "x86", ";", '\\'));
    let m = Platform::for_os("macos");
    assert_eq!((m.name(), m.classpath_separator(), m.path_separator()), ("macos", ":", '/'));
    let f = Platform::for_os("freebsd");
    assert_eq!(f.name(), "linux");
    assert_eq!(f.join("a/", "b"), "a/b");
    assert_eq!(w.join("a/", "b"), "a/b");
    assert_eq!(f.join("a\\", "b"), "a\\/b");
}

#[test]
fn error_messages() {
    assert_eq!(AppError::VersionNotFound("1.8".to_string()).message(), "Version not found: 1.8");
    assert_eq!(AppError::LibraryMissing("a, b".to_string()).message(), "Library missing: a, b");
    assert_eq!(AppError::JarNotFound("x.jar".to_string()).message(), "JAR not found: x.jar");
    assert_eq!(AppError::AccountError("No account".to_string()).message(), "Account error: No account");
    assert_eq!(AppError::LaunchFailed("Empty command".to_string()).message(), "Launch failed: Empty command");
    assert_eq!(AppError::Io("denied".to_string()).message(), "IO error: denied");
    assert_eq!(AppError::Json("eof".to_string()).message(), "JSON error: eof");
    assert_eq!(AppError::JavaNotFound("x".to_string()).message(), "Java not found: x");
}

#[test]
fn joining_absolute_components() {
    let l = Platform::for_os("linux");
    assert_eq!(l.join("/g/versions", "/abs/v"), "/abs/v");
    assert_eq!(l.join("", "x"), "x");
    let w = Platform::for_os("windows");
    assert_eq!(w.join("C:\\g", "D:\\v"), "D:\\v");
    assert_eq!(w.join("C:\\g", "\\v"), "C:\\v");
    assert_eq!(w.join("rel\\g", "/v"), "/v");
    assert_eq!(w.join("C:\\g", "\\\\server\\share"), "\\\\server\\share");
    assert_eq!(w.join("C:", "v"), "C:v");
    assert_eq!(w.join("C:\\", "v"), "C:\\v");
    assert_eq!(l.join("a", "C:v"), "a/C:v");
}

#[test]
fn path_equality_by_components() {
    let w = Platform::for_os("windows");
    assert!(same_path("C:\\a\\b", "C:/a//b/", &w));
    assert!(same_path("a/./b", "a/b", &w));
    assert!(same_path("./a", "./a/.", &w));
    assert!(!same_path("./a", "a", &w));
    assert!(!same_path("/a", "a", &w));
    assert!(!same_path("a/../b", "b", &w));
    let l = Platform::for_os("linux");
    assert!(!same_path("a\\b", "a/b", &l));
}
