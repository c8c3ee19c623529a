use cj::cli::{Cli, Command, OsArg, OutputFormat, ResolverOverride, Shell, HELP};

fn args(values: &[&str]) -> Vec<OsArg> {
    values.iter().map(|value| OsArg::Text((*value).to_owned())).collect()
}

fn text(value: &str) -> OsArg {
    OsArg::Text(value.to_owned())
}

#[test]
fn parses_resolver_and_config_flags() {
    assert_eq!(
        Cli::parse(args(&["-C", "other.toml", "-z", "project"])),
        Ok(Cli {
            config_path: Some(text("other.toml")),
            verbose: false,
            command: Command::Resolve {
                targets: vec![text("project")],
                resolver: ResolverOverride::Zoxide,
            },
        })
    );
}

#[test]
fn parses_worktree_json_relative() {
    assert_eq!(
        Cli::parse(args(&["-w", "-f", "json", "-R"])),
        Ok(Cli {
            config_path: None,
            verbose: false,
            command: Command::Worktrees {
                format: OutputFormat::Json,
                relative: true,
                jump: false,
            },
        })
    );
}

#[test]
fn rejects_conflicting_resolvers() {
    assert_eq!(
        Cli::parse(args(&["-z", "-Z", "project"])),
        Err("--raw, --zoxide, and --no-zoxide cannot be used together".into())
    );
    assert!(Cli::parse(args(&["-r", "-z", "project"])).is_err());
    assert!(Cli::parse(args(&["-r", "-Z", "project"])).is_err());
}

#[test]
fn distinguishes_raw_no_zoxide_and_relative() {
    assert!(matches!(
        Cli::parse(args(&["-r", "top"])).unwrap().command,
        Command::Resolve {
            resolver: ResolverOverride::Raw,
            ..
        }
    ));
    assert!(matches!(
        Cli::parse(args(&["-Z", "top"])).unwrap().command,
        Command::Resolve {
            resolver: ResolverOverride::NoZoxide,
            ..
        }
    ));
    assert!(matches!(
        Cli::parse(args(&["-w", "-R"])).unwrap().command,
        Command::Worktrees { relative: true, .. }
    ));
}

#[test]
fn double_dash_allows_dash_prefixed_target() {
    let parsed = Cli::parse(args(&["--", "-project"])).unwrap();
    assert!(matches!(parsed.command, Command::Resolve { targets, .. } if targets == vec![text("-project")]));
}

#[test]
fn explicit_resolution_allows_init_as_a_target() {
    assert!(matches!(
        Cli::parse(args(&["-z", "init"])).unwrap().command,
        Command::Resolve { targets, resolver: ResolverOverride::Zoxide }
            if targets == vec![text("init")]
    ));
    assert!(matches!(
        Cli::parse(args(&["--", "init"])).unwrap().command,
        Command::Resolve { targets, .. } if targets == vec![text("init")]
    ));
}

#[test]
fn parses_exact_jump_worktree_options() {
    for option in ["-jw", "--jump-worktree"] {
        assert_eq!(
            Cli::parse(args(&[option])),
            Ok(Cli {
                config_path: None,
                verbose: false,
                command: Command::Worktrees {
                    format: OutputFormat::Table,
                    relative: false,
                    jump: true,
                },
            })
        );
    }
    assert!(Cli::parse(args(&["-j"])).is_err());
    assert!(Cli::parse(args(&["-jwx"])).is_err());
    assert!(Cli::parse(args(&["--pick-worktree"])).is_err());
}

#[test]
fn parses_hidden_worktree_path_protocol_exactly() {
    assert_eq!(
        Cli::parse(args(&["--worktree-paths0"])),
        Ok(Cli {
            config_path: None,
            verbose: false,
            command: Command::WorktreePaths0,
        })
    );
    assert!(!HELP.contains("--worktree-paths0"));
    assert!(Cli::parse(args(&["--worktree-paths"])).is_err());
    assert!(Cli::parse(args(&["--worktree-paths0", "-w"])).is_err());
    assert!(Cli::parse(args(&["--worktree-paths0", "target"])).is_err());
    assert!(Cli::parse(args(&["--worktree-paths0", "--"])).is_err());
}

#[test]
fn parses_hidden_key_binding_zoxide_protocol() {
    assert_eq!(
        Cli::parse(args(&["--internal-key-binding-zoxide", "/tools/zoxide", "/tools/fzf"]))
            .unwrap()
            .command,
        Command::KeyBindingZoxide {
            zoxide: text("/tools/zoxide"),
            fzf: text("/tools/fzf"),
        }
    );
    assert!(!HELP.contains("--internal-key-binding-zoxide"));
    for extra in [
        "target",
        "-w",
        "-jw",
        "--jump-worktree",
        "--worktree-paths0",
        "-z",
        "--setup-key-binding",
        "--preamp",
        "--",
    ] {
        assert!(Cli::parse(args(&["--internal-key-binding-zoxide", "zoxide", "fzf", extra])).is_err());
    }
    assert!(Cli::parse(args(&["--internal-key-binding-zoxide", "zoxide"])).is_err());
    assert!(Cli::parse(args(&[
        "--internal-key-binding-zoxide",
        "zoxide",
        "fzf",
        "-C",
        "config.toml"
    ]))
    .is_err());
    assert!(Cli::parse(args(&["--internal-key-binding-zoxide", "zoxide", "fzf", "-o", "out"])).is_err());
}

#[test]
fn jump_worktree_rejects_ignored_output_flags() {
    assert!(Cli::parse(args(&["--jump-worktree", "-R"])).is_err());
    assert!(Cli::parse(args(&["-jw", "-f", "json"])).is_err());
}

#[test]
fn parses_config_init_and_mount_scan() {
    let init = Cli::parse(args(&["-v", "config", "init", "--preamp"])).unwrap();
    assert!(init.verbose);
    assert_eq!(init.command, Command::ConfigInit { preamp: true });

    let scan = Cli::parse(args(&["mounts", "scan", "-f", "json"])).unwrap();
    assert_eq!(
        scan.command,
        Command::MountsScan {
            format: OutputFormat::Json
        }
    );
}

#[test]
fn validates_new_command_flags_and_literal_escape() {
    assert!(Cli::parse(args(&["config", "init", "--format", "json"])).is_err());
    assert!(Cli::parse(args(&["mounts", "scan", "--preamp"])).is_err());
    assert!(matches!(
        Cli::parse(args(&["--", "mounts", "scan"])).unwrap().command,
        Command::Resolve { .. }
    ));
}

#[test]
fn init_installs_the_binding_unless_opted_out() {
    for (name, shell) in [
        ("bash", Shell::Bash),
        ("zsh", Shell::Zsh),
        ("nu", Shell::Nu),
        ("powershell", Shell::Pwsh),
        ("pwsh", Shell::Pwsh),
    ] {
        assert_eq!(
            Cli::parse(args(&["init", name])).unwrap().command,
            Command::Init {
                shell,
                setup_key_binding: true,
                output: None,
            }
        );
        assert_eq!(
            Cli::parse(args(&["init", name, "--no-setup-key-binding"])).unwrap().command,
            Command::Init {
                shell,
                setup_key_binding: false,
                output: None,
            }
        );
        assert_eq!(
            Cli::parse(args(&["init", name, "--setup-key-binding"])).unwrap().command,
            Command::Init {
                shell,
                setup_key_binding: true,
                output: None,
            }
        );
        assert!(Cli::parse(args(&["init", name, "--setup-key-binding", "--no-setup-key-binding"])).is_err());
        assert_eq!(
            Cli::parse(args(&["completions", name])).unwrap().command,
            Command::Completions {
                shell,
                output: None,
            }
        );
    }
    assert!(Cli::parse(args(&["init", "fish"])).is_err());
    assert!(Cli::parse(args(&["completions", "bash", "-w"])).is_err());
    assert!(matches!(
        Cli::parse(args(&["--", "completions", "bash"])).unwrap().command,
        Command::Resolve { .. }
    ));
}

#[test]
fn output_applies_only_to_generated_sources() {
    assert_eq!(
        Cli::parse(args(&["completions", "zsh", "-o", "nested/source.zsh"])).unwrap().command,
        Command::Completions {
            shell: Shell::Zsh,
            output: Some(text("nested/source.zsh")),
        }
    );
    assert_eq!(
        Cli::parse(args(&["init", "zsh", "--output", "nested/source.zsh"])).unwrap().command,
        Command::Init {
            shell: Shell::Zsh,
            setup_key_binding: true,
            output: Some(text("nested/source.zsh")),
        }
    );
    assert_eq!(
        Cli::parse(args(&["init", "zsh", "--output"])),
        Err("--output requires a path".into())
    );
    assert_eq!(
        Cli::parse(args(&["-o", "out", "top"])),
        Err("--output can only be used with init or completions".into())
    );
}
