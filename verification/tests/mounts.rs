use cj::config::{MountProvider, MountSpec, OneDriveAccount};
use cj::mounts::{
    deduplicate_windows_paths, mount_target, render_table, resolve_provider, scan, slug, DiscoveryContext,
    Entry, Listing, MountTarget, Platform, SkipStatus, Source, WindowsMount,
};

const ROOT: &str = "/private/tmp/cj-mounts";

fn entry(root: &str, name: &str) -> Entry {
    Entry {
        name: Some(name.to_owned()),
        canonical: Some(format!("{root}/{name}")),
    }
}

fn fixture() -> DiscoveryContext {
    DiscoveryContext::new(
        Platform::Macos,
        format!("{ROOT}/home"),
        format!("{ROOT}/Volumes"),
        format!("{ROOT}/home/Library/CloudStorage"),
    )
}

#[test]
fn skips_multiple_google_accounts_and_slug_collisions() {
    let cloud = format!("{ROOT}/home/Library/CloudStorage");
    let volumes = format!("{ROOT}/Volumes");
    let mut context = fixture();
    context.cloud_storage = Listing::Entries(vec![
        entry(&cloud, "GoogleDrive-a@example.com"),
        entry(&cloud, "GoogleDrive-b@example.com"),
    ]);
    context.volumes = Listing::Entries(vec![entry(&volumes, "Work SSD"), entry(&volumes, "work-ssd")]);

    let report = scan(&context);

    assert!(report.ready.is_empty());
    assert_eq!(report.skipped.len(), 2);
    assert!(report
        .skipped
        .iter()
        .all(|item| matches!(item.status, SkipStatus::Ambiguous)));
    assert!(resolve_provider(MountProvider::GoogleDrive, None, &context)
        .unwrap_err()
        .contains("2 candidates"));
}

#[test]
fn other_platform_is_read_only_and_unsupported() {
    let context = DiscoveryContext::new(
        Platform::Other,
        format!("{ROOT}/home"),
        format!("{ROOT}/Volumes"),
        format!("{ROOT}/home/Library/CloudStorage"),
    );
    let report = scan(&context);
    assert!(report.ready.is_empty());
    assert!(report.warnings[0].contains("only on macOS"));
    assert!(resolve_provider(MountProvider::Icloud, None, &context).is_err());
}

#[test]
fn windows_keeps_unique_cloud_roots_and_skips_ambiguous_or_dynamic_mounts() {
    let personal = format!("{ROOT}/OneDrive Personal");
    let business_a = format!("{ROOT}/OneDrive Work A");
    let business_b = format!("{ROOT}/OneDrive Work B");
    let local = format!("{ROOT}/Archive");
    let dynamic = format!("{ROOT}/Google Drive");
    let context = DiscoveryContext::windows(
        vec![
            WindowsMount::ready("onedrive-personal".into(), Source::OneDrivePersonal, personal.clone()),
            WindowsMount::ready("onedrive-business".into(), Source::OneDriveBusiness, business_a.clone()),
            WindowsMount::ready("onedrive-business".into(), Source::OneDriveBusiness, business_b.clone()),
            WindowsMount::ready("archive".into(), Source::WindowsDrive, local.clone()),
            WindowsMount::dynamic("google-drive".into(), dynamic.clone()),
            WindowsMount::ready("cloud-box".into(), Source::Cloud, ROOT.to_owned()),
            WindowsMount::ready("onedrive".into(), Source::OneDrive, personal.clone()),
        ],
        vec!["cloud API partially unavailable".into()],
    );

    let report = scan(&context);
    let ready = report.ready_mounts();
    assert!(ready.contains(&("onedrive-personal".to_owned(), personal.clone())));
    assert!(ready.contains(&("archive".to_owned(), local.clone())));
    assert!(report
        .skipped
        .iter()
        .any(|mount| mount.name == "onedrive-business" && matches!(mount.status, SkipStatus::Ambiguous)));
    assert!(report
        .skipped
        .iter()
        .any(|mount| mount.name == "google-drive" && mount.reason == "dynamic-drive-letter"));
    assert_eq!(report.warnings, ["cloud API partially unavailable"]);

    assert_eq!(
        resolve_provider(MountProvider::OneDrive, Some(OneDriveAccount::Personal), &context),
        Ok(personal)
    );
    assert!(resolve_provider(MountProvider::OneDrive, Some(OneDriveAccount::Business), &context)
        .unwrap_err()
        .contains("2 candidates"));
}

#[test]
fn discovers_and_deduplicates_provider_and_volume_paths() {
    let volumes = format!("{ROOT}/Volumes");
    let mut context = fixture();
    context.icloud = Some(format!("{ROOT}/home/Library/Mobile Documents/com~apple~CloudDocs"));
    context.volumes = Listing::Entries(vec![
        entry(&volumes, "Archive Disk"),
        entry(&volumes, "GoogleDriveLegacy"),
        entry(&volumes, ".timemachine"),
        Entry {
            name: Some("Macintosh HD".into()),
            canonical: Some("/".into()),
        },
    ]);

    let report = scan(&context);
    let ready = report.ready_mounts();
    assert!(ready.contains(&("archive-disk".to_owned(), format!("{volumes}/Archive Disk"))));
    assert_eq!(
        resolve_provider(MountProvider::GoogleDrive, None, &context).unwrap(),
        format!("{volumes}/GoogleDriveLegacy")
    );
    assert_eq!(report.ready.len(), 3, "provider, hidden, and root paths must not also be volumes");
    let names: Vec<_> = report.ready.iter().map(|mount| mount.name.as_str()).collect();
    assert_eq!(names, ["archive-disk", "google-drive", "icloud"]);
}

#[test]
fn unreadable_listings_become_warnings() {
    let mut context = fixture();
    context.volumes = Listing::Failed("permission denied".into());
    let report = scan(&context);
    assert_eq!(
        report.warnings,
        [
            format!("cannot scan {ROOT}/Volumes: permission denied"),
            format!("cannot scan {ROOT}/Volumes: permission denied")
        ]
    );
}

#[test]
fn unnamable_volumes_are_skipped() {
    let volumes = format!("{ROOT}/Volumes");
    let mut context = fixture();
    context.volumes = Listing::Entries(vec![entry(&volumes, "---")]);
    let report = scan(&context);
    assert_eq!(report.skipped.len(), 1);
    assert_eq!(report.skipped[0].name, "volume");
    assert_eq!(report.skipped[0].reason, "invalid-volume-name");
}

#[test]
fn table_aligns_columns_and_reports_details() {
    let cloud = format!("{ROOT}/home/Library/CloudStorage");
    let mut context = fixture();
    context.cloud_storage = Listing::Entries(vec![
        entry(&cloud, "GoogleDrive-a@example.com"),
        entry(&cloud, "GoogleDrive-b@example.com"),
    ]);
    context.icloud = Some("/icloud".into());
    let report = scan(&context);
    let rendered = render_table(&report, false);
    assert_eq!(
        rendered.stdout,
        "NAME          SOURCE        STATUS     PATH\nicloud        icloud        ready      /icloud\ngoogle-drive  google-drive  ambiguous  2 candidate(s)"
    );
    assert_eq!(
        rendered.stderr,
        "Skipped:\n  [warn] google-drive: 2 possible paths; rerun with --verbose for candidate paths"
    );
    let verbose = render_table(&report, true);
    assert!(verbose.stderr.contains(&format!("    candidate: {cloud}/GoogleDrive-a@example.com")));
    assert!(verbose.stderr.contains("Suggested config:\n[mounts.icloud]\npath = \"/icloud\""));
}

#[test]
fn slugs_lower_letters_and_collapse_separators() {
    assert_eq!(slug("Work SSD"), Some("work-ssd".into()));
    assert_eq!(slug("  Bob's  Archive!! "), Some("bob-s-archive".into()));
    assert_eq!(slug("---"), None);
}

#[test]
fn case_variants_count_once() {
    assert_eq!(
        deduplicate_windows_paths(&vec!["C:\\B".into(), "c:\\a".into(), "c:\\b".into()]),
        vec!["c:\\a".to_owned(), "C:\\B".to_owned()]
    );
}

#[test]
fn mounts_name_a_path_or_a_provider() {
    let by_path = MountSpec {
        path: Some("/mnt/x".into()),
        provider: None,
        account: None,
    };
    assert!(matches!(mount_target("x", &by_path), Ok(MountTarget::Configured(path)) if path == "/mnt/x"));
    let empty = MountSpec {
        path: None,
        provider: None,
        account: None,
    };
    assert_eq!(
        mount_target("x", &empty).unwrap_err(),
        "mount \"x\" has no path or provider"
    );
}

#[test]
fn discovery_roots_follow_the_home_directory() {
    let rooted = DiscoveryContext::under_root("/tmp/fixture", false);
    assert_eq!(rooted.platform, Platform::Macos);
    assert_eq!(rooted.home, "/tmp/fixture/home");
    assert_eq!(rooted.volumes_root, "/tmp/fixture/Volumes");
    assert_eq!(rooted.cloud_storage_root, "/tmp/fixture/home/Library/CloudStorage");
    assert_eq!(
        rooted.icloud_folder(false),
        "/tmp/fixture/home/Library/Mobile Documents/com~apple~CloudDocs"
    );
    let mac = DiscoveryContext::for_platform(Platform::Macos, "/Users/me", false).unwrap();
    assert_eq!(mac.volumes_root, "/Volumes");
    assert_eq!(mac.cloud_storage_root, "/Users/me/Library/CloudStorage");
    assert_eq!(
        DiscoveryContext::for_platform(Platform::Macos, "", false).err(),
        Some("HOME is not set".into())
    );
    let other = DiscoveryContext::for_platform(Platform::Other, "", false).unwrap();
    assert_eq!(other.cloud_storage_root, "Library/CloudStorage");
}

#[test]
fn candidates_follow_path_order_where_separators_sort_first() {
    let mut context = fixture();
    context.cloud_storage = Listing::Entries(vec![
        Entry {
            name: Some("GoogleDrive-a-b".into()),
            canonical: Some("/drives/GoogleDrive-a-b".into()),
        },
        Entry {
            name: Some("GoogleDrive-a".into()),
            canonical: Some("/drives/GoogleDrive-a/inner".into()),
        },
    ]);
    let report = scan(&context);
    assert_eq!(report.skipped.len(), 1);
    assert_eq!(
        report.skipped[0].candidates,
        vec!["/drives/GoogleDrive-a/inner".to_string(), "/drives/GoogleDrive-a-b".to_string()]
    );
}

#[test]
fn onedrive_needs_one_root_once_case_variants_count_once() {
    let same = DiscoveryContext::windows(
        vec![
            WindowsMount::ready("onedrive".into(), Source::OneDrive, r"C:\Users\me\OneDrive".into()),
            WindowsMount::ready("onedrive-2".into(), Source::OneDrive, r"c:\users\me\onedrive".into()),
            WindowsMount::dynamic("onedrive-3".into(), r"D:\".into()),
        ],
        vec![],
    );
    assert_eq!(
        resolve_provider(MountProvider::OneDrive, None, &same),
        Ok(r"C:\Users\me\OneDrive".into())
    );
    let two = DiscoveryContext::windows(
        vec![
            WindowsMount::ready("a".into(), Source::OneDrivePersonal, r"C:\A".into()),
            WindowsMount::ready("b".into(), Source::OneDriveBusiness, r"C:\B".into()),
        ],
        vec![],
    );
    assert_eq!(
        resolve_provider(MountProvider::OneDrive, None, &two),
        Err("onedrive provider is ambiguous (2 candidates)".into())
    );
    assert_eq!(
        resolve_provider(MountProvider::OneDrive, Some(OneDriveAccount::Business), &two),
        Ok(r"C:\B".into())
    );
    let none = DiscoveryContext::windows(vec![], vec![]);
    assert_eq!(
        resolve_provider(MountProvider::OneDrive, None, &none),
        Err("onedrive provider is not mounted".into())
    );
}

#[test]
fn macos_scan_lists_mounts_in_name_order() {
    let volumes = format!("{ROOT}/Volumes");
    let mut context = fixture();
    context.icloud = Some("/icloud".into());
    context.volumes = Listing::Entries(vec![entry(&volumes, "Zeta"), entry(&volumes, "Alpha")]);
    let report = scan(&context);
    let names: Vec<&str> = report.ready.iter().map(|mount| mount.name.as_str()).collect();
    assert_eq!(names, vec!["alpha", "icloud", "zeta"]);
}
