use cj::key_zoxide::{interactive_outcome, listing_outcome, searches_path, unavailable_reply};

#[test]
fn bare_program_names_are_searched_on_path() {
    assert!(searches_path("zoxide", false));
    assert!(!searches_path("/usr/bin/zoxide", false));
    assert!(!searches_path("bin/zoxide", false));
    assert!(!searches_path(r"C:\tools\fzf.exe", true));
    assert!(searches_path("fzf.exe", true));
}

#[test]
fn missing_programs_reply_unavailable() {
    assert_eq!(
        unavailable_reply("fzf", "/opt/fzf"),
        b"unavailable\nfzf executable not found: /opt/fzf".to_vec()
    );
}

#[test]
fn listing_failures_and_empty_listings_decide_early() {
    assert_eq!(
        listing_outcome(false, "exit status: 1", b" database locked \n", false),
        Some(Err("zoxide query failed (exit status: 1): database locked".into()))
    );
    assert_eq!(listing_outcome(true, "exit status: 0", b"", true), Some(Ok(b"empty\n".to_vec())));
    assert_eq!(listing_outcome(true, "exit status: 0", b"", false), None);
}

#[test]
fn picker_outcomes_follow_the_reply_protocol() {
    assert_eq!(
        interactive_outcome(Some(130), false, "exit status: 130", b"", false),
        Ok(b"cancelled\n".to_vec())
    );
    assert_eq!(
        interactive_outcome(Some(2), false, "exit status: 2", b"", false),
        Err("interactive zoxide query failed (exit status: 2)".into())
    );
    assert_eq!(
        interactive_outcome(Some(0), true, "exit status: 0", b"\n", false),
        Ok(b"cancelled\n".to_vec())
    );
    assert_eq!(
        interactive_outcome(Some(0), true, "exit status: 0", b"/a\0b\n", false),
        Err("interactive zoxide returned a path containing NUL".into())
    );
    assert_eq!(
        interactive_outcome(Some(0), true, "exit status: 0", b"/work/it's here\r\n", true),
        Ok(b"selected\n/work/it's here".to_vec())
    );
}

#[test]
fn listing_errors_decode_stderr_lossily() {
    assert_eq!(
        listing_outcome(false, "exit status: 1", b"bad \xff byte\n", false),
        Some(Err("zoxide query failed (exit status: 1): bad \u{FFFD} byte".into()))
    );
}
