use cj::worktree::{fzf_input, list_from, parse, paths0, pick_outcome, relative_path, render_table, rows};

const PORCELAIN: &[u8] = b"worktree /repo\0HEAD 0123456789abcdef\0branch refs/heads/main\0\0worktree /repo/feature\0HEAD fedcba9876543210\0detached\0locked reason\0\0";

#[test]
fn parses_porcelain_records() {
    let worktrees = parse(PORCELAIN).unwrap();
    assert_eq!(worktrees.len(), 2);
    assert_eq!(worktrees[0].branch.as_deref(), Some("main"));
    assert!(worktrees[1].detached);
    assert_eq!(worktrees[1].locked, Some(Some("reason".into())));
}

#[test]
fn renders_table_with_short_heads_and_state() {
    let table = render_table(&rows(&parse(PORCELAIN).unwrap(), false, "/repo", false));
    assert!(table.contains("/repo          main    01234567  main"));
    assert!(table.contains("/repo/feature  -       fedcba98  detached,locked"));
}

#[test]
fn identical_path_is_dot() {
    assert_eq!(relative_path("/repo", "/repo", false), ".");
}

#[test]
fn relative_paths_climb_and_descend() {
    assert_eq!(relative_path("/repo", "/repo/subdir", false), "..");
    assert_eq!(relative_path("/repo/feature", "/repo/subdir", false), "../feature");
    assert_eq!(relative_path("/repo/a/b", "/repo", false), "a/b");
    assert_eq!(relative_path("relative/path", "/repo", false), "relative/path");
    let rows = rows(&parse(PORCELAIN).unwrap(), true, "/repo/subdir", false);
    assert_eq!(rows[0].path, "..");
    assert_eq!(rows[1].path, "../feature");
    assert!(rows[0].main);
}

#[test]
fn malformed_listings_are_rejected() {
    assert_eq!(parse(b"").unwrap_err(), "git did not return any worktrees");
    assert_eq!(parse(b"HEAD abc\0").unwrap_err(), "git returned HEAD before a worktree path");
    assert_eq!(parse(b"worktree \0").unwrap_err(), "git returned an empty worktree path");
    assert_eq!(
        parse(b"worktree /a\0branch \xff\0").unwrap_err(),
        "git returned a non-UTF-8 worktree record"
    );
    let bare = parse(b"worktree /srv/bare.git\0bare\0\0worktree /srv/w\0prunable gone\0").unwrap();
    assert!(bare[0].bare);
    assert_eq!(bare[1].prunable, Some(Some("gone".into())));
}

#[test]
fn picker_protocol_uses_nul_records() {
    let worktrees = parse(PORCELAIN).unwrap();
    assert_eq!(
        fzf_input(&worktrees),
        b"0\t/repo\tmain\tmain\x001\t/repo/feature\t-\tdetached,locked\x00".to_vec()
    );
    assert_eq!(pick_outcome(&worktrees, Some(0), true, "exit status: 0", b"1\t/repo/feature\0"), Ok(Some("/repo/feature".into())));
    assert_eq!(pick_outcome(&worktrees, Some(130), false, "exit status: 130", b""), Ok(None));
    assert_eq!(pick_outcome(&worktrees, Some(1), false, "exit status: 1", b""), Ok(None));
    assert_eq!(
        pick_outcome(&worktrees, Some(2), false, "exit status: 2", b""),
        Err("fzf exited with exit status: 2".into())
    );
    assert_eq!(
        pick_outcome(&worktrees, Some(0), true, "exit status: 0", b"x\t/repo\0"),
        Err("fzf returned an invalid worktree selection".into())
    );
    assert_eq!(
        pick_outcome(&worktrees, Some(0), true, "exit status: 0", b"7\t/repo\0"),
        Err("fzf returned an unknown worktree selection".into())
    );
    assert_eq!(paths0(&worktrees), b"/repo\0/repo/feature\0".to_vec());
}

#[test]
fn listing_reports_git_failures_and_parses_success() {
    assert_eq!(
        list_from(false, b"", b"  \n").unwrap_err(),
        "current directory is not in a Git repository"
    );
    assert_eq!(
        list_from(false, b"", b"fatal: bad object\n").unwrap_err(),
        "git worktree list failed: fatal: bad object"
    );
    let listed = list_from(true, PORCELAIN, b"ignored").unwrap();
    assert_eq!(listed.len(), 2);
    assert_eq!(listed[1].path, "/repo/feature");
}
