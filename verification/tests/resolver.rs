use cj::cli::{OsArg, ResolverOverride};
use cj::config::{Config, DefaultResolver, MountSpec};
use cj::resolver::{
    configured_directory, expand_config_path, literal_path, literal_target, navigate_down, parent_path, parse_zoxide_output, plan, zoxide_resolution,
    reachable_directory, repeated_count, zoxide_arguments, zoxide_error, NavigationContext, Resolution,
    ZoxideFailure,
};

fn text(value: &str) -> OsArg {
    OsArg::Text(value.to_owned())
}

fn navigation(cwd: &str, route: Option<&str>) -> NavigationContext {
    NavigationContext::new(cwd.to_owned(), route.map(|route| route.to_owned()), false)
}

fn literal(resolution: Result<Resolution, String>) -> Option<OsArg> {
    match resolution {
        Ok(Resolution::Path(path)) => Some(path),
        _ => None,
    }
}

#[test]
fn repeated_ticker_becomes_parent_path() {
    assert_eq!(repeated_count("^^^", "^"), Some(3));
    assert_eq!(repeated_count("^x", "^"), None);
    assert_eq!(parent_path(3, "/home/me/projects/deep", false), "../../..");
}

#[test]
fn navigates_toward_a_remembered_descendant() {
    let navigation = navigation("/repo/a", Some("/repo/a/b/c"));
    assert_eq!(navigate_down(1, &navigation), Ok("/repo/a/b".into()));
    assert_eq!(navigate_down(2, &navigation), Ok("/repo/a/b/c".into()));
    assert!(navigate_down(3, &navigation).is_err());
}

#[test]
fn counted_tickers_accept_decimal_counts_only() {
    assert_eq!(repeated_count("^2", "^"), Some(2));
    assert_eq!(repeated_count("^0002", "^"), Some(2));
    assert_eq!(repeated_count("^2147483647", "^"), Some(2147483647));
    for invalid in ["^0", "^-1", "^1.5", "^+1", "^1e2", "^2147483648", "^99999999999999999999999", "^1\n", "^1\r", "", "v2"] {
        assert_eq!(repeated_count(invalid, "^"), None, "{invalid:?}");
    }
}

#[test]
fn upward_counts_stop_at_the_root() {
    assert_eq!(parent_path(2147483647, "/a/b/c", false), "../../..");
    assert_eq!(parent_path(1, "/", false), "..");
    assert_eq!(parent_path(2, "C:\\work\\repo", true), "..\\..");
}

#[test]
fn raw_override_requires_one_literal_path() {
    let config = Config::default();
    let navigation = navigation("/repo", None);
    assert_eq!(
        literal(plan(&vec![text("top")], ResolverOverride::Raw, &config, &navigation, false)),
        Some(text("top"))
    );
    assert!(plan(&vec![], ResolverOverride::Raw, &config, &navigation, false).is_err());
}

#[test]
fn configured_destinations_follow_precedence_and_resolver_modes() {
    let mut config = Config::default();
    config.aliases.insert("top".into(), "/srv/alias destination".into());
    config.mounts.insert(
        "origin".into(),
        MountSpec {
            path: Some("/srv/mount destination".into()),
            provider: None,
            account: None,
        },
    );
    config.aliases.insert("^".into(), "/srv/alias destination".into());
    let navigation = navigation("/srv/repo", None);

    assert!(matches!(
        plan(&vec![text("top")], ResolverOverride::NoZoxide, &config, &navigation, false),
        Ok(Resolution::Alias { name, path }) if name == "top" && path == "/srv/alias destination"
    ));
    assert!(matches!(
        plan(&vec![text("origin")], ResolverOverride::NoZoxide, &config, &navigation, false),
        Ok(Resolution::Mount { name, mount }) if name == "origin" && mount.path.as_deref() == Some("/srv/mount destination")
    ));
    assert_eq!(
        literal(plan(&vec![text("^")], ResolverOverride::NoZoxide, &config, &navigation, false)),
        Some(text(".."))
    );
    assert_eq!(
        literal(plan(&vec![text("top")], ResolverOverride::Raw, &config, &navigation, false)),
        Some(text("top"))
    );
    assert_eq!(
        reachable_directory("alias", "missing", "/srv/absent".into(), false),
        Err("alias \"missing\" is not reachable: \"/srv/absent\"".into())
    );
}

#[test]
fn existing_directories_win_over_every_shortcut() {
    let config = Config::default();
    let navigation = navigation("/repo", None);
    for target in ["^", "top", "origin", "og", "v"] {
        assert_eq!(
            literal(plan(&vec![text(target)], ResolverOverride::Configured, &config, &navigation, true)),
            Some(text(target))
        );
    }
}

#[test]
fn resolver_modes_pick_zoxide_or_literal() {
    let mut config = Config::default();
    let navigation = navigation("/repo", None);
    assert!(matches!(
        plan(&vec![text("project")], ResolverOverride::Configured, &config, &navigation, false),
        Ok(Resolution::Zoxide { forced: false })
    ));
    assert!(matches!(
        plan(&vec![text("project")], ResolverOverride::Zoxide, &config, &navigation, false),
        Ok(Resolution::Zoxide { forced: true })
    ));
    assert!(matches!(
        plan(&vec![], ResolverOverride::Configured, &config, &navigation, false),
        Ok(Resolution::Home)
    ));
    assert!(matches!(
        plan(&vec![text("top")], ResolverOverride::Configured, &config, &navigation, false),
        Ok(Resolution::GitTop)
    ));
    assert!(matches!(
        plan(&vec![text("og")], ResolverOverride::NoZoxide, &config, &navigation, false),
        Ok(Resolution::MainWorktree)
    ));
    assert_eq!(
        literal(plan(&vec![text("project")], ResolverOverride::NoZoxide, &config, &navigation, false)),
        Some(text("project"))
    );
    config.behavior.default = DefaultResolver::Builtin;
    assert_eq!(
        literal(plan(&vec![text("project")], ResolverOverride::Configured, &config, &navigation, false)),
        Some(text("project"))
    );
    assert_eq!(
        plan(&vec![text("a"), text("b")], ResolverOverride::NoZoxide, &config, &navigation, false).unwrap_err(),
        "builtin cd accepts exactly one directory"
    );
}

#[test]
fn forced_missing_zoxide_is_an_error() {
    let message = zoxide_error(&ZoxideFailure::Missing("/definitely/missing/zoxide".into()));
    assert!(message.contains("not found"));
    assert_eq!(zoxide_error(&ZoxideFailure::Query(String::new())), "zoxide query failed");
    assert_eq!(zoxide_error(&ZoxideFailure::Query("boom".into())), "zoxide query failed: boom");
}

#[test]
fn zoxide_output_is_one_destination() {
    assert_eq!(
        parse_zoxide_output(true, b"/srv/project\n", b"", false).ok(),
        Some(text("/srv/project"))
    );
    assert!(matches!(
        parse_zoxide_output(false, b"", b"  no match found \n", false),
        Err(ZoxideFailure::Query(message)) if message == "no match found"
    ));
    assert!(matches!(
        parse_zoxide_output(true, b"\n", b"", false),
        Err(ZoxideFailure::Query(message)) if message == "zoxide did not return a destination"
    ));
    assert_eq!(
        parse_zoxide_output(true, b"/srv/\xff\n", b"", false).ok(),
        Some(OsArg::Raw(b"/srv/\xff".to_vec()))
    );
    assert!(parse_zoxide_output(true, b"C:\\\xff\r\n", b"", true).is_err());
}

#[test]
fn zoxide_query_excludes_the_current_directory() {
    assert_eq!(
        zoxide_arguments(&text("/srv/here"), &vec![text("pro"), text("ject")]),
        vec![text("query"), text("--exclude"), text("/srv/here"), text("--"), text("pro"), text("ject")]
    );
}

#[test]
fn configured_paths_expand_the_home_marker() {
    assert_eq!(expand_config_path("~", Some("/home/me"), false), Ok("/home/me".into()));
    assert_eq!(expand_config_path("~/Git", Some("/home/me"), false), Ok("/home/me/Git".into()));
    assert_eq!(expand_config_path("/srv/x", None, false), Ok("/srv/x".into()));
    assert_eq!(
        expand_config_path("~/Git", None, false),
        Err("cannot expand ~ because home is not set".into())
    );
    assert_eq!(
        configured_directory("alias", "code", "~/Git", None, false),
        Err("alias \"code\": cannot expand ~ because home is not set".into())
    );
    assert_eq!(expand_config_path("~\\Git", Some("C:\\Users\\me"), true), Ok("C:\\Users\\me\\Git".into()));
}

#[test]
fn remembered_route_must_be_below_the_current_directory() {
    assert_eq!(
        navigate_down(1, &navigation("/repo/a", None)),
        Err("no remembered downward route".into())
    );
    assert_eq!(
        navigate_down(1, &navigation("/repo/a", Some("/elsewhere/b"))),
        Err("remembered downward route is not below the current directory".into())
    );
    assert_eq!(
        navigate_down(1, &navigation("/repo/a", Some("/repo/a"))),
        Err("already at the end of the remembered downward route".into())
    );
    assert_eq!(
        navigate_down(3, &navigation("/repo/a", Some("/repo/a/b/c"))),
        Err("cannot navigate down 3 levels; only 2 remembered".into())
    );
    let windows = NavigationContext::new("C:\\Repo".into(), Some("c:\\repo\\b".into()), true);
    assert_eq!(navigate_down(1, &windows), Ok("C:\\Repo\\b".into()));
}

#[test]
fn configured_missing_zoxide_falls_back_to_literal() {
    let mut config = Config::default();
    config.programs.zoxide = "/definitely/missing/zoxide".into();
    let targets = vec![text("project")];
    let navigation = navigation("/repo", None);
    assert!(matches!(
        plan(&targets, ResolverOverride::Configured, &config, &navigation, false),
        Ok(Resolution::Zoxide { forced: false })
    ));
    assert_eq!(literal(literal_target(&targets)), Some(text("project")));
    assert_eq!(literal_path(&targets), Ok(text("project")));
    assert_eq!(
        literal_path(&vec![text("a"), text("b")]),
        Err("builtin cd accepts exactly one directory".into())
    );
    assert!(matches!(
        plan(&targets, ResolverOverride::Zoxide, &config, &navigation, false),
        Ok(Resolution::Zoxide { forced: true })
    ));
    let missing = || Err(ZoxideFailure::Missing("/definitely/missing/zoxide".into()));
    assert_eq!(zoxide_resolution(&targets, false, missing()), Ok(text("project")));
    assert!(zoxide_resolution(&targets, true, missing()).unwrap_err().contains("not found"));
    assert_eq!(
        zoxide_resolution(&targets, true, Ok(text("/srv/project"))),
        Ok(text("/srv/project"))
    );
}

#[test]
fn counted_up_ticker_plans_like_repetition() {
    let config = Config::default();
    let navigation = navigation("/home/me/projects/deep", None);
    for resolver in [ResolverOverride::Configured, ResolverOverride::NoZoxide] {
        let counted = literal(plan(&vec![text("^2")], resolver, &config, &navigation, false));
        let repeated = literal(plan(&vec![text("^^")], resolver, &config, &navigation, false));
        assert_eq!(counted, Some(text("../..")));
        assert_eq!(counted, repeated);
        assert_eq!(
            literal(plan(&vec![text("^9")], resolver, &config, &navigation, false)),
            Some(text("../../../.."))
        );
    }
}
