use agents_core::error::AgentError;
use agents_core::platform::{Platform, PlatformUtils};

#[test]
fn test_platform_detection() {
    let platform = Platform::detect("linux").unwrap();
    assert_ne!(platform, Platform::Unknown);
}

#[test]
fn test_platform_properties() {
    let platform = Platform::detect("linux").unwrap();

    assert!(!platform.path_separator().is_empty());
    assert!(!platform.default_shell().is_empty());
    assert!(!platform.default_editor().is_empty());
    assert!(!platform.env_var_home().is_empty());
}

#[test]
fn test_command_exists() {
    let platform = Platform::detect("linux").unwrap();
    let exists = platform.command_exists("echo");
    let _ = exists;
}

#[test]
fn platform_tables() {
    assert_eq!(Platform::detect("windows").unwrap(), Platform::Windows);
    assert_eq!(Platform::detect("freebsd").unwrap(), Platform::Unknown);
    assert_eq!(PlatformUtils::current("macos").unwrap(), Platform::MacOS);
    assert_eq!(Platform::Windows.path_separator(), "\\");
    assert_eq!(Platform::Linux.path_separator(), "/");
    assert_eq!(Platform::Windows.executable_extension(), ".exe");
    assert_eq!(Platform::MacOS.executable_extension(), "");
    assert_eq!(Platform::MacOS.default_shell(), "zsh");
    assert_eq!(Platform::Unknown.default_shell(), "sh");
    assert_eq!(Platform::Unknown.default_editor(), "vi");
    assert_eq!(Platform::Windows.env_var_home(), "USERPROFILE");
    assert_eq!(Platform::Linux.env_var_path(), "PATH");
    assert_eq!(Platform::MacOS.to_string(), "macOS");
    assert!(PlatformUtils::supports_symlinks());
}

#[test]
fn platform_paths_and_commands() {
    let p = Platform::Linux;
    assert_eq!(
        p.format_command("git", &["status", "-s"]),
        vec!["git".to_string(), "status".to_string(), "-s".to_string()]
    );
    assert_eq!(p.join_paths(&["a", "b", "c.txt"]), "a/b/c.txt");
    assert_eq!(p.join_paths(&["a", "/etc", "x"]), "/etc/x");
    assert!(p.is_absolute_path("/usr"));
    assert!(!p.is_absolute_path("usr"));
    assert_eq!(Platform::Windows.normalize_path("a/b/c"), "a\\b\\c");
    assert_eq!(p.normalize_path("a/b"), "a/b");
    let _ = p.terminal_width();
}

#[test]
fn line_endings() {
    assert_eq!(PlatformUtils::newline(Platform::Windows), "\r\n");
    assert_eq!(PlatformUtils::newline(Platform::Linux), "\n");
    assert_eq!(
        PlatformUtils::normalize_line_endings("a\r\nb\nc", Platform::Linux),
        "a\nb\nc"
    );
    assert_eq!(
        PlatformUtils::normalize_line_endings("a\r\nb\nc", Platform::Windows),
        "a\r\nb\r\nc"
    );
}

#[test]
fn project_directories() {
    for (r, what) in [
        (Platform::Linux.config_dir(), "config"),
        (Platform::Linux.data_dir(), "data"),
        (Platform::Linux.cache_dir(), "cache"),
    ] {
        match r {
            Ok(p) => assert!(p.contains("agents-cli")),
            Err(AgentError::Platform(m)) => {
                assert_eq!(m, format!("Failed to get {} directory", what))
            }
            Err(other) => panic!("unexpected {:?}", other),
        }
    }
}
