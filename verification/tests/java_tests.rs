use lyys_launcher::java::{detect_java, dir_is_bin, java_probe_paths, parse_java_version};
use lyys_launcher::utils::Platform;

#[test]
fn modern_java_version() {
    let out = "openjdk version \"17.0.1\" 2021-10-19\nOpenJDK Runtime Environment (build 17.0.1+12-39)\n";
    assert_eq!(parse_java_version(out), 17);
}

#[test]
fn legacy_java_version_uses_minor() {
    let out = "java version \"1.8.0_202\"\r\nJava(TM) SE Runtime Environment (build 1.8.0_202-b08)\r\n";
    assert_eq!(parse_java_version(out), 8);
}

#[test]
fn unreadable_java_versions_count_as_zero() {
    assert_eq!(parse_java_version(""), 0);
    assert_eq!(parse_java_version("no quotes here"), 0);
    assert_eq!(parse_java_version("version \"abc\""), 0);
    assert_eq!(parse_java_version("\nversion \"17\""), 0);
    assert_eq!(parse_java_version("version \"1\""), 0);
    assert_eq!(parse_java_version("version \"21"), 21);
    assert_eq!(parse_java_version("openjdk version \"21-ea\" 2023"), 0);
}

#[test]
fn bin_directories() {
    let w = Platform::for_os("windows");
    assert!(dir_is_bin("C:\\jdk\\bin", &w));
    assert!(dir_is_bin("C:\\jdk\\BIN\\", &w));
    assert!(dir_is_bin("C:/jdk/Bin/.", &w));
    assert!(!dir_is_bin("C:\\ProgramData\\Oracle\\Java\\javapath", &w));
    assert!(!dir_is_bin("", &w));
    assert!(!dir_is_bin("bins", &w));
    let l = Platform::for_os("linux");
    assert!(!dir_is_bin("a\\bin", &l));
    assert!(dir_is_bin("/usr/bin", &l));
}

#[test]
fn detection_order_and_deduplication() {
    let w = Platform::for_os("windows");
    let home = Some("C:\\jdk17".to_string());
    let path = Some("C:\\jdk17\\bin;C:\\ProgramData\\Oracle\\Java\\javapath;C:\\jdk8\\bin;;C:\\jdk8\\bin".to_string());
    let installs = vec!["C:\\Program Files\\Java\\jdk-21".to_string(), "C:\\Program Files\\Java\\jre".to_string()];
    let probes = java_probe_paths(&home, &path, &installs, &w);
    assert_eq!(probes.len(), 1 + 5 + 2);
    assert_eq!(probes[0], "C:\\jdk17\\bin\\java.exe");
    assert_eq!(probes[3], "C:\\jdk8\\bin\\java.exe");
    assert_eq!(probes[4], "java.exe");
    let existing = vec![
        "C:\\jdk17\\bin\\java.exe".to_string(),
        "C:\\ProgramData\\Oracle\\Java\\javapath\\java.exe".to_string(),
        "C:\\jdk8\\bin\\java.exe".to_string(),
        "C:\\Program Files\\Java\\jdk-21\\bin\\java.exe".to_string(),
    ];
    let found = detect_java(&home, &path, &installs, &existing, &w);
    assert_eq!(
        found,
        vec![
            "C:\\jdk17\\bin\\java.exe".to_string(),
            "C:\\jdk8\\bin\\java.exe".to_string(),
            "C:\\Program Files\\Java\\jdk-21\\bin\\java.exe".to_string(),
        ]
    );
    assert!(detect_java(&None, &None, &vec![], &existing, &w).is_empty());
}

#[test]
fn same_java_through_different_spellings_is_listed_once() {
    let w = Platform::for_os("windows");
    let path = Some("C:\\jdk\\bin;C:/jdk/bin/.;C:\\jdk\\\\bin\\".to_string());
    let probes = java_probe_paths(&None, &path, &vec![], &w);
    let found = detect_java(&None, &path, &vec![], &probes, &w);
    assert_eq!(found, vec!["C:\\jdk\\bin\\java.exe".to_string()]);
}
