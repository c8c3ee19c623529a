use cj::mounts::Source;
use cj::windows_mounts::{
    classify_drive, classify_sync_root, collect, drive_offsets, DriveKind, DriveProbe, SyncRoot,
    SyncRootListing,
};

#[test]
fn classifies_only_documented_onedrive_id_parts() {
    assert_eq!(
        classify_sync_root("OneDrive!S-1-2-3!Personal", r"C:\Users\me\OneDrive"),
        ("onedrive-personal".into(), Source::OneDrivePersonal)
    );
    assert_eq!(
        classify_sync_root("OneDrive!S-1-2-3!Business2", r"C:\Users\me\OneDrive - Acme"),
        ("onedrive-business".into(), Source::OneDriveBusiness)
    );
    assert_eq!(
        classify_sync_root("OneDrive!opaque", r"C:\Users\me\Cloud"),
        ("onedrive".into(), Source::OneDrive)
    );
}

#[test]
fn other_providers_are_named_by_their_folder() {
    assert_eq!(
        classify_sync_root("Dropbox!S-1!Main", r"C:\Users\me\Dropbox (Work)"),
        ("dropbox-work".into(), Source::Cloud)
    );
    assert_eq!(
        classify_sync_root("Box!x", r"C:\"),
        ("box".into(), Source::Cloud)
    );
    assert_eq!(classify_sync_root("!!", r"C:\"), ("cloud-drive".into(), Source::Cloud));
}

#[test]
fn drive_roots_skip_the_system_drive_and_name_by_label() {
    assert!(classify_drive(2, DriveKind::Fixed, true, Some("OS"), Some("c:")).is_none());
    let data = classify_drive(3, DriveKind::Fixed, true, Some("Data Disk"), Some("C:")).unwrap();
    assert_eq!((data.name.as_str(), data.path.as_str(), data.dynamic), ("data-disk", "D:\\", false));
    let usb = classify_drive(4, DriveKind::Removable, true, Some("ignored"), None).unwrap();
    assert_eq!((usb.name.as_str(), usb.dynamic), ("drive-e", false));
    let remote = classify_drive(25, DriveKind::Remote, true, None, None).unwrap();
    assert_eq!((remote.name.as_str(), remote.dynamic), ("drive-z", true));
    let cloud = classify_drive(6, DriveKind::Fixed, true, Some("Google Drive"), None).unwrap();
    assert!(cloud.dynamic);
    assert!(classify_drive(7, DriveKind::Other, true, None, None).is_none());
    assert!(classify_drive(7, DriveKind::Fixed, false, None, None).is_none());
}

#[test]
fn drive_mask_lists_set_letters_in_order() {
    assert_eq!(drive_offsets(0b1_0000_0000_0000_0000_0000_1101), Ok(vec![0, 2, 3, 24]));
    assert_eq!(drive_offsets(0), Err("cannot enumerate Windows drive roots".into()));
}

fn probe(offset: u8, kind: DriveKind, label: Option<&str>) -> DriveProbe {
    DriveProbe { offset, kind, is_dir: true, label: label.map(String::from) }
}

#[test]
fn collects_sync_roots_then_drives_with_warnings() {
    let sync = SyncRootListing::Listed(
        vec![
            SyncRoot {
                id: "OneDrive!S-1!Personal".into(),
                path: r"C:\Users\me\OneDrive".into(),
                is_dir: true,
            },
            SyncRoot { id: "Box!x".into(), path: r"C:\Users\me\Box".into(), is_dir: false },
        ],
        Some("access denied".into()),
    );
    let probes = vec![
        probe(2, DriveKind::Fixed, Some("OS")),
        probe(3, DriveKind::Fixed, Some("Data")),
        probe(4, DriveKind::Remote, None),
        probe(5, DriveKind::Removable, None),
    ];
    let (mounts, warnings) = collect(&sync, 0b01_1100, &probes, Some("C:"));
    let seen: Vec<(&str, Source, &str, bool)> = mounts
        .iter()
        .map(|m| (m.name.as_str(), m.source, m.path.as_str(), m.dynamic))
        .collect();
    assert_eq!(
        seen,
        vec![
            ("onedrive-personal", Source::OneDrivePersonal, r"C:\Users\me\OneDrive", false),
            ("data", Source::WindowsDrive, "D:\\", false),
            ("drive-e", Source::WindowsDrive, "E:\\", true),
        ]
    );
    assert_eq!(warnings, vec!["cannot enumerate Windows cloud roots: access denied".to_string()]);

    let (mounts, warnings) =
        collect(&SyncRootListing::Unavailable("no runtime".into()), 0, &probes, None);
    assert!(mounts.is_empty());
    assert_eq!(
        warnings,
        vec![
            "cannot initialize Windows cloud discovery: no runtime".to_string(),
            "cannot enumerate Windows drive roots".to_string(),
        ]
    );
}
