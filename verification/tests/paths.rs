use std::path::Path;

use noctalia::paths::{
    check_shell_installed, config_file_in, config_path, config_path_in, downloads_candidate,
    downloads_dir, find_installation_path, needs_elevation, path_join, system_install_dir,
    target_root, update_target,
};

#[test]
fn path_join_agrees_with_the_standard_library() {
    let bases = ["", "/", "/home/u", "/home/u/", "rel", "rel/", "/tmp//", "a b", "/h\u{e9}"];
    let rels = ["", "Downloads", ".config/quickshell/noctalia-shell", "/abs", "x/", "./y", "/"];
    for b in bases {
        for r in rels {
            let expected = Path::new(b).join(r);
            assert_eq!(path_join(b, r), expected.to_str().unwrap(), "{:?} {:?}", b, r);
        }
    }
}

#[test]
fn needs_elevation_agrees_with_the_standard_library() {
    let paths = [
        "", "/", "/etc", "/etc/", "/etc/xdg/quickshell/noctalia-shell", "//etc/xdg", "/./etc/x",
        "/etc/./x", "/etcetera", "/etc.d/x", "etc/x", "./etc", "/home/u/etc", "/../etc", "/etc/..",
        "/.", "/./", "/././etc", "/ etc", "/etc ", "/Etc", "/home/u/.config/quickshell/noctalia-shell",
        "/e", "/et", "/etcx", "/.etc", "/..", "///", "/etc//", "/./.", "/.//etc",
    ];
    for p in paths {
        assert_eq!(needs_elevation(p), Path::new(p).starts_with("/etc"), "{:?}", p);
    }
}

#[test]
fn installation_directories() {
    assert_eq!(system_install_dir(), "/etc/xdg/quickshell/noctalia-shell");
    assert_eq!(target_root("/home/alice"), "/home/alice/.config/quickshell/noctalia-shell");
    assert_eq!(target_root("/home/alice/"), "/home/alice/.config/quickshell/noctalia-shell");
    assert_eq!(target_root(""), ".config/quickshell/noctalia-shell");
    assert!(needs_elevation(system_install_dir()));
    assert!(!needs_elevation(&target_root("/home/alice")));
}

#[test]
fn evidence_of_an_installation() {
    assert!(check_shell_installed(None, true, false));
    assert!(check_shell_installed(Some(""), true, false));
    assert!(check_shell_installed(Some("/home/a"), false, true));
    assert!(!check_shell_installed(Some("/home/a"), false, false));
    assert!(!check_shell_installed(Some(""), false, true));
    assert!(!check_shell_installed(None, false, true));
}

#[test]
fn finding_the_installation() {
    assert_eq!(find_installation_path(None, true, true), None);
    assert_eq!(
        find_installation_path(Some("/home/a"), true, true).as_deref(),
        Some("/etc/xdg/quickshell/noctalia-shell")
    );
    assert_eq!(
        find_installation_path(Some("/home/a"), false, true).as_deref(),
        Some("/home/a/.config/quickshell/noctalia-shell")
    );
    assert_eq!(find_installation_path(Some("/home/a"), false, false), None);
    assert_eq!(
        find_installation_path(Some(""), false, true).as_deref(),
        Some(".config/quickshell/noctalia-shell")
    );
}

#[test]
fn update_goes_where_the_installation_is() {
    assert_eq!(update_target("/home/a", true, true), "/etc/xdg/quickshell/noctalia-shell");
    assert_eq!(update_target("/home/a", true, false), "/etc/xdg/quickshell/noctalia-shell");
    assert_eq!(update_target("/home/a", false, true), "/home/a/.config/quickshell/noctalia-shell");
    assert_eq!(update_target("/home/a", false, false), "/home/a/.config/quickshell/noctalia-shell");
}

#[test]
fn downloads_go_to_the_home_directory_or_tmp() {
    assert_eq!(downloads_candidate(Some("/home/a")), "/home/a/Downloads");
    assert_eq!(downloads_candidate(None), "/tmp/Downloads");
    assert_eq!(downloads_dir(Some("/home/a"), true), "/home/a/Downloads");
    assert_eq!(downloads_dir(Some("/home/a"), false), "/tmp");
    assert_eq!(downloads_dir(None, true), "/tmp/Downloads");
    assert_eq!(downloads_dir(None, false), "/tmp");
}

#[test]
fn state_file_lies_in_the_configuration_directory() {
    assert_eq!(config_file_in("/home/a/.config/noctalia"), "/home/a/.config/noctalia/cli.toml");
    assert_eq!(config_file_in("/x/"), "/x/cli.toml");
    if let Some(path) = config_path() {
        assert!(path.ends_with("cli.toml"));
        assert!(path.len() > "cli.toml".len());
        assert!(path.contains("noctalia"));
    }
}

#[test]
fn state_file_follows_the_configuration_directory() {
    assert_eq!(config_path_in(None), None);
    assert_eq!(
        config_path_in(Some("/home/a/.config/noctalia")).as_deref(),
        Some("/home/a/.config/noctalia/cli.toml")
    );
    assert_eq!(config_path_in(Some("")).as_deref(), Some("cli.toml"));
}
