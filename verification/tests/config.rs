use cj::config::{
    checked_config, config_path_from, unreadable_config, Config, KeyBinding, KeyBindingBehavior, MountProvider, MountSpec, OneDriveAccount,
};

fn path_mount(path: &str) -> MountSpec {
    MountSpec {
        path: Some(path.to_owned()),
        provider: None,
        account: None,
    }
}

#[test]
fn validate_rejects_duplicate_behaviors_on_any_os() {
    for os in ["macos", "linux", "windows"] {
        let mut config = Config::default();
        let binding = match os {
            "macos" => &mut config.key_bindings.macos,
            "linux" => &mut config.key_bindings.linux,
            _ => &mut config.key_bindings.windows,
        };
        binding.behaviors = vec![KeyBindingBehavior::Cj, KeyBindingBehavior::Cj];
        let error = config.validate(false).unwrap_err();
        assert!(error.contains(&format!("key-bindings.{os}")), "{error}");
        assert!(error.contains("use each behavior at most once"), "{error}");
    }
}

#[test]
fn computes_xdg_and_home_paths() {
    assert_eq!(
        config_path_from(Some("/xdg"), Some("/appdata"), Some("/home/me"), false, false),
        Some("/xdg/cj/config.toml".into())
    );
    assert_eq!(
        config_path_from(None, None, Some("/home/me"), false, false),
        Some("/home/me/.config/cj/config.toml".into())
    );
    assert_eq!(
        config_path_from(Some(""), None, Some("/home/me"), false, false),
        Some("/home/me/.config/cj/config.toml".into())
    );
    assert_eq!(config_path_from(None, None, None, false, false), None);
    assert_eq!(
        config_path_from(
            None,
            Some("C:\\Users\\me\\AppData\\Roaming"),
            Some("C:\\Users\\me"),
            true,
            false,
        ),
        Some("C:\\Users\\me\\AppData\\Roaming/cj/config.toml".into())
    );
}

#[test]
fn validates_navigation_tickers() {
    for invalid in [
        "", "vv", ">", "<", "|", "&", ";", "$", "'", "\"", "*", "?", "\\", " ", "\t",
    ] {
        let mut config = Config::default();
        config.tickers.navigate_down = invalid.into();
        assert!(config.validate(false).unwrap_err().contains("tickers.navigate_down"));
    }

    let mut config = Config::default();
    config.tickers.navigate_up = "k".into();
    config.tickers.navigate_down = "j".into();
    assert_eq!(config.validate(false), Ok(()));

    config.tickers.navigate_down = "k".into();
    assert_eq!(
        config.validate(false),
        Err("tickers.navigate_up and tickers.navigate_down must differ".into())
    );
}

#[test]
fn validates_aliases_mounts_and_name_collisions() {
    let mut config = Config::default();
    config.aliases.insert("code".into(), "~/Git".into());
    config
        .mounts
        .insert("external-ssd".into(), path_mount("/tmp/CJ Tests/it's mounted"));
    config.mounts.insert(
        "google-work".into(),
        MountSpec {
            path: None,
            provider: Some(MountProvider::GoogleDrive),
            account: None,
        },
    );
    assert_eq!(config.validate(false), Ok(()));

    config.mounts.insert("code".into(), path_mount("/mnt/code"));
    assert_eq!(
        config.validate(false),
        Err("name \"code\" is used by both an alias and a mount".into())
    );
}

#[test]
fn rejects_multiline_keywords_before_shell_generation() {
    let mut config = Config::default();
    config.keywords.top = vec!["line\nbreak".into()];
    assert!(config.validate(false).unwrap_err().contains("top keyword"));
}

#[test]
fn mount_requires_exactly_one_source() {
    let mut config = Config::default();
    config.mounts.insert(
        "empty".into(),
        MountSpec {
            path: None,
            provider: None,
            account: None,
        },
    );
    assert!(config.validate(false).unwrap_err().contains("exactly one"));

    config.mounts.insert(
        "empty".into(),
        MountSpec {
            path: Some("/mnt/example".into()),
            provider: Some(MountProvider::Icloud),
            account: None,
        },
    );
    assert!(config.validate(false).unwrap_err().contains("cannot specify both"));

    let mut config = Config::default();
    config.mounts.insert(
        "work".into(),
        MountSpec {
            path: None,
            provider: Some(MountProvider::OneDrive),
            account: Some(OneDriveAccount::Business),
        },
    );
    assert_eq!(config.validate(false), Ok(()));

    config.mounts.insert(
        "invalid".into(),
        MountSpec {
            path: None,
            provider: Some(MountProvider::Icloud),
            account: Some(OneDriveAccount::Personal),
        },
    );
    assert!(config.validate(false).unwrap_err().contains("onedrive"));
}

#[test]
fn paths_must_be_absolute_tilde_based_and_line_safe() {
    for invalid in ["relative/path", "~someone/path", "/tmp/line\nbreak"] {
        let mut config = Config::default();
        config.aliases.insert("bad".into(), invalid.into());
        assert!(config.validate(false).is_err(), "accepted {invalid:?}");
    }
    let mut config = Config::default();
    config.aliases.insert("quote".into(), "~/it's here".into());
    assert_eq!(config.validate(false), Ok(()));
}

#[test]
fn default_config_is_valid_and_binds_per_os() {
    let config = Config::default();
    assert_eq!(config.validate(false), Ok(()));
    assert_eq!(config.validate(true), Ok(()));
    assert_eq!(config.key_binding("macos"), KeyBinding::CtrlO);
    assert_eq!(config.key_binding("linux"), KeyBinding::AltO);
    assert_eq!(config.key_binding("windows"), KeyBinding::CtrlO);
    assert_eq!(config.key_binding("freebsd"), KeyBinding::Unbound);
    assert_eq!(
        config.key_binding_behaviors("linux"),
        &[KeyBindingBehavior::Zoxide, KeyBindingBehavior::Cj]
    );
    assert!(config.key_binding_behaviors("freebsd").is_empty());
}

#[test]
fn discovered_mounts_become_path_entries() {
    let config = Config::with_mounts(&vec![
        ("archive".to_owned(), "/Volumes/Archive".to_owned()),
        ("icloud".to_owned(), "/Users/me/iCloud".to_owned()),
    ]);
    assert_eq!(config.validate(false), Ok(()));
    assert_eq!(
        config.mounts.get("archive").and_then(|m| m.path.clone()),
        Some("/Volumes/Archive".to_owned())
    );
    assert_eq!(config.mounts.len(), 2);
}

#[test]
fn windows_paths_accept_drive_and_backslash_home() {
    let mut config = Config::default();
    config.aliases.insert("drive".into(), "C:\\Users\\me".into());
    config.aliases.insert("home".into(), "~\\Documents".into());
    assert_eq!(config.validate(true), Ok(()));
    assert!(config.validate(false).is_err());
}

#[test]
fn missing_default_config_is_the_default_and_other_read_errors_fail() {
    let config = unreadable_config("/home/me/.config/cj/config.toml", false, true, "gone").unwrap();
    assert_eq!(config.tickers.navigate_up, "^");
    assert_eq!(
        unreadable_config("/tmp/cj.toml", true, true, "No such file").err(),
        Some("cannot read config /tmp/cj.toml: No such file".into())
    );
    assert_eq!(
        unreadable_config("/tmp/cj.toml", false, false, "Permission denied").err(),
        Some("cannot read config /tmp/cj.toml: Permission denied".into())
    );
}

#[test]
fn parsed_configs_are_validated_and_errors_name_the_file() {
    assert_eq!(
        checked_config("/c.toml", Err("unknown field `x`".into()), false).err(),
        Some("invalid config /c.toml: unknown field `x`".into())
    );
    let mut config = Config::default();
    config.tickers.navigate_down = "^".into();
    assert_eq!(
        checked_config("/c.toml", Ok(config), false).err(),
        Some("invalid config /c.toml: tickers.navigate_up and tickers.navigate_down must differ".into())
    );
    assert!(checked_config("/c.toml", Ok(Config::default()), false).is_ok());
}
