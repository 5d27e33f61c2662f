use openlogi::path::PathStyle;
use openlogi::paths::config_dir;
use openlogi::paths::config_path;
use openlogi::paths::data_dir;
use openlogi::paths::home;
use openlogi::paths::xdg_base;
use openlogi::paths::Environment;
use openlogi::paths::PathsError;

fn env(home: Option<&str>, profile: Option<&str>) -> Environment {
    Environment {
        style: PathStyle::Unix,
        home: home.map(|h| h.as_bytes().to_vec()),
        userprofile: profile.map(|h| h.as_bytes().to_vec()),
        xdg_config_home: None,
        xdg_data_home: None,
    }
}

fn text(path: Result<Vec<u8>, PathsError>) -> String {
    String::from_utf8(path.expect("the directory resolves")).expect("the path is text")
}

#[test]
fn absolute_xdg_override_is_used_verbatim() {
    let dir = xdg_base(
        &env(None, None),
        &Some(b"/tmp/xdg-config".to_vec()),
        &[".config"],
    )
    .expect("absolute override needs no home dir");
    assert_eq!(dir, b"/tmp/xdg-config/openlogi".to_vec());
}

#[test]
fn relative_xdg_value_is_ignored_per_spec() {
    // A relative $XDG_*_HOME is invalid, so this must fall back to
    // $HOME/.config/openlogi rather than honour the relative value.
    let dir = text(xdg_base(
        &env(Some("/home/me"), None),
        &Some(b"relative/dir".to_vec()),
        &[".config"],
    ));
    assert!(dir.ends_with("openlogi"));
    assert!(!dir.contains("relative"));
    assert_eq!(dir, "/home/me/.config/openlogi");
}

#[test]
fn directories_default_below_the_home_directory() {
    let e = env(Some("/home/me"), None);
    assert_eq!(text(config_dir(&e)), "/home/me/.config/openlogi");
    assert_eq!(text(config_path(&e)), "/home/me/.config/openlogi/config.toml");
    assert_eq!(text(data_dir(&e)), "/home/me/.local/share/openlogi");
}

#[test]
fn each_override_concerns_its_own_directory() {
    let mut e = env(Some("/home/me"), None);
    e.xdg_config_home = Some(b"/cfg/".to_vec());
    assert_eq!(text(config_dir(&e)), "/cfg/openlogi");
    assert_eq!(text(data_dir(&e)), "/home/me/.local/share/openlogi");
    e.xdg_data_home = Some(b"/data".to_vec());
    assert_eq!(text(data_dir(&e)), "/data/openlogi");
}

#[test]
fn userprofile_stands_in_for_an_unset_home_only() {
    assert_eq!(text(home(&env(None, Some("/profile")))), "/profile");
    assert_eq!(text(home(&env(Some("/home/me"), Some("/profile")))), "/home/me");
    assert_eq!(
        home(&env(Some(""), Some("/profile"))),
        Err(PathsError::HomeNotFound)
    );
}

#[test]
fn no_home_and_no_override_is_an_error() {
    let e = env(None, None);
    assert_eq!(home(&e), Err(PathsError::HomeNotFound));
    assert_eq!(config_dir(&e), Err(PathsError::HomeNotFound));
    assert_eq!(config_path(&e), Err(PathsError::HomeNotFound));
    assert_eq!(data_dir(&e), Err(PathsError::HomeNotFound));
    assert_eq!(
        PathsError::HomeNotFound.message(),
        "could not resolve a home directory for the current user"
    );
}

fn unix(base: &str, segment: &str) -> String {
    String::from_utf8(PathStyle::Unix.join(base.as_bytes(), segment)).expect("the path is text")
}

fn windows(base: &str, segment: &str) -> String {
    String::from_utf8(PathStyle::Windows.join(base.as_bytes(), segment)).expect("the path is text")
}

fn absolute(path: &str) -> bool {
    PathStyle::Windows.is_absolute(path.as_bytes())
}

#[test]
fn joining_puts_one_separator_and_lets_an_absolute_segment_win() {
    assert_eq!(unix("/a", "b"), "/a/b");
    assert_eq!(unix("/a/", "b"), "/a/b");
    assert_eq!(unix("", "b"), "b");
    assert_eq!(unix("/a", "/b"), "/b");
    assert_eq!(unix("/a", ""), "/a/");
    // Nothing but `/` means anything.
    assert_eq!(unix("C:\\", "\\b"), "C:\\/\\b");
}

#[test]
fn joining_agrees_with_the_system() {
    let values = ["", "/", "a", "/a", "a/", "/a//", "a/b", "..", "\\a", "C:"];
    for base in values {
        assert_eq!(
            PathStyle::Unix.is_absolute(base.as_bytes()),
            std::path::Path::new(base).is_absolute()
        );
        for segment in values {
            let system = std::path::Path::new(base).join(segment);
            assert_eq!(Some(unix(base, segment).as_str()), system.to_str());
        }
    }
}

#[test]
fn a_windows_path_is_absolute_with_a_prefix_and_a_root() {
    for path in [
        "C:\\",
        "c:/x",
        "\\\\server\\share",
        "//server/share/x",
        "\\\\.\\COM42",
        "\\\\?\\C:",
        "\\\\?\\UNC\\server\\share",
        "\\\\?\\pictures",
        "//?/C:/x",
    ] {
        assert!(absolute(path), "{path}");
    }
    for path in [
        "", "C:", "C:temp", "\\temp", "/x", "x", "1:\\x", "\\\\server", "\\\\server\\",
        "\\\\server\\\\share", "//?/", "relative\\dir",
    ] {
        assert!(!absolute(path), "{path}");
    }
}

#[test]
fn windows_segments_extend_or_replace() {
    assert_eq!(windows("C:\\Users\\me", ".config"), "C:\\Users\\me\\.config");
    assert_eq!(windows("C:\\", "x"), "C:\\x");
    assert_eq!(windows("C:/a/", "x"), "C:/a/x");
    assert_eq!(windows("", "x"), "x");
    assert_eq!(windows("a", ""), "a\\");
    // A name follows a bare drive directly.
    assert_eq!(windows("C:", "x"), "C:x");
    assert_eq!(windows("C:a", "x"), "C:a\\x");
    // A root keeps the prefix, and a prefix replaces everything.
    assert_eq!(windows("C:\\a", "\\b"), "C:\\b");
    assert_eq!(windows("\\\\server\\share\\a", "/b"), "\\\\server\\share/b");
    assert_eq!(windows("a", "/b"), "/b");
    assert_eq!(windows("C:\\a", "D:b"), "D:b");
    assert_eq!(windows("C:\\a", "\\\\server\\share"), "\\\\server\\share");
}

#[test]
fn dots_are_resolved_behind_a_verbatim_prefix() {
    assert_eq!(windows("\\\\?\\C:\\a", "b"), "\\\\?\\C:\\a\\b");
    assert_eq!(windows("\\\\?\\C:", "b"), "\\\\?\\C:\\b");
    assert_eq!(windows("\\\\?\\C:\\a\\\\c\\", "./b/../d"), "\\\\?\\C:\\a\\c\\d");
    assert_eq!(windows("\\\\?\\C:\\a", "..\\..\\.."), "\\\\?\\C:\\");
    assert_eq!(windows("\\\\?\\C:", ".."), "\\\\?\\C:");
    assert_eq!(windows("\\\\?\\C:\\a", "\\b"), "\\\\?\\C:\\b");
    assert_eq!(windows("\\\\?\\C:\\a", ""), "\\\\?\\C:\\a\\");
    assert_eq!(windows("\\\\?\\C:\\..", ".."), "\\\\?\\C:\\..");
    assert_eq!(
        windows("\\\\?\\UNC\\server\\share", "x"),
        "\\\\?\\UNC\\server\\share\\x"
    );
    // `/` is part of a name there.
    assert_eq!(windows("\\\\?\\C:\\a/b", ".."), "\\\\?\\C:\\");
}

#[test]
fn directories_follow_the_windows_style() {
    let mut e = env(None, Some("C:\\Users\\me"));
    e.style = PathStyle::Windows;
    assert_eq!(text(config_dir(&e)), "C:\\Users\\me\\.config\\openlogi");
    assert_eq!(text(config_path(&e)), "C:\\Users\\me\\.config\\openlogi\\config.toml");
    assert_eq!(text(data_dir(&e)), "C:\\Users\\me\\.local\\share\\openlogi");
    // An absolute override counts there, and `/x` is none.
    e.xdg_config_home = Some(b"D:\\cfg".to_vec());
    assert_eq!(text(config_dir(&e)), "D:\\cfg\\openlogi");
    e.xdg_config_home = Some(b"/x".to_vec());
    assert_eq!(text(config_dir(&e)), "C:\\Users\\me\\.config\\openlogi");
    // Even below a bare drive the application has a directory of its own.
    e.userprofile = Some(b"C:".to_vec());
    assert_eq!(text(config_dir(&e)), "C:.config\\openlogi");
    assert_eq!(text(xdg_base(&e, &None, &[])), "C:openlogi");
}
