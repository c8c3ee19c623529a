//! Windows mounts from the sync roots that cloud providers register and from
//! the drive roots, as the Windows APIs report them.
use vstd::prelude::*;

use crate::mounts::{lower_text, slug, slug_model, Source, WindowsMount};
use crate::paths::{components, components_model, path_components, Component, ComponentModel};
use crate::resolver::{eq_ignore_ascii_case, eq_ignore_case};
use crate::text::{chars_of, contains, contains_seq, has_prefix, owned, push_char, push_str};

verus! {

/// The first `!` of `id` at or after `from`.
pub open spec fn bang_index(id: Seq<char>, from: int) -> Option<int>
    decreases id.len() - from,
{
    if from < 0 || from >= id.len() {
        None
    } else if id[from] == '!' {
        Some(from)
    } else {
        bang_index(id, from + 1)
    }
}

/// The provider field of a sync-root id.
pub open spec fn id_provider(id: Seq<char>) -> Seq<char> {
    match bang_index(id, 0) {
        Some(i) => id.take(i),
        None => id,
    }
}

/// The account field of a sync-root id: what follows its second `!`, or
/// nothing.
pub open spec fn id_account(id: Seq<char>) -> Seq<char> {
    match bang_index(id, 0) {
        Some(i) => {
            let rest = id.skip(i + 1);
            match bang_index(rest, 0) {
                Some(j) => rest.skip(j + 1),
                None => Seq::empty(),
            }
        },
        None => Seq::empty(),
    }
}

/// The last component of a Windows path when it is a name.
pub open spec fn windows_file_name(p: Seq<char>) -> Option<Seq<char>> {
    let c = path_components(p, true);
    if c.len() == 0 {
        None
    } else {
        match c.last() {
            ComponentModel::Normal(n) => Some(n),
            _ => None,
        }
    }
}

/// The name and source of a registered sync root: OneDrive by its
/// documented account part, any other provider by its folder's slug.
pub open spec fn sync_root_model(id: Seq<char>, path: Seq<char>) -> (Seq<char>, Source) {
    let provider = id_provider(id);
    let account = id_account(id);
    if eq_ignore_ascii_case(provider, "onedrive"@) {
        if eq_ignore_ascii_case(account, "personal"@) {
            ("onedrive-personal"@, Source::OneDrivePersonal)
        } else if has_prefix(lower_text(account), "business"@) {
            ("onedrive-business"@, Source::OneDriveBusiness)
        } else {
            ("onedrive"@, Source::OneDrive)
        }
    } else {
        let fallback = match windows_file_name(path) {
            Some(n) => n,
            None => provider,
        };
        (
            match slug_model(fallback) {
                Some(s) => s,
                None => "cloud-drive"@,
            },
            Source::Cloud,
        )
    }
}

fn find_bang(id: &Vec<char>, from: usize) -> (r: Option<usize>)
    requires
        from <= id@.len(),
    ensures
        match r {
            Some(i) => bang_index(id@, from as int) == Some(i as int) && from <= i < id@.len(),
            None => bang_index(id@, from as int) is None,
        },
{
    let mut i = from;
    while i < id.len()
        invariant
            from <= i <= id@.len(),
            bang_index(id@, from as int) == bang_index(id@, i as int),
        decreases id@.len() - i,
    {
        if id[i] == '!' {
            return Some(i);
        }
        i = i + 1;
    }
    None
}

fn text_range(c: &Vec<char>, from: usize, to: usize) -> (s: String)
    requires
        from <= to <= c@.len(),
    ensures
        s@ == c@.subrange(from as int, to as int),
{
    let mut s = String::new();
    let mut k = from;
    while k < to
        invariant
            from <= k <= to <= c@.len(),
            s@ == c@.subrange(from as int, k as int),
        decreases to - k,
    {
        push_char(&mut s, c[k]);
        assert(s@ =~= c@.subrange(from as int, k + 1));
        k = k + 1;
    }
    s
}

proof fn lemma_bang_shift(id: Seq<char>, i: int, j: int)
    requires
        0 <= i < id.len(),
        0 <= j <= id.len() - (i + 1),
    ensures
        bang_index(id.skip(i + 1), j) == match bang_index(id, i + 1 + j) {
            Some(x) => Some(x - (i + 1)),
            None => None,
        },
    decreases id.len() - (i + 1 + j),
{
    if j < id.len() - (i + 1) && id[i + 1 + j] != '!' {
        lemma_bang_shift(id, i, j + 1);
    }
}

/// The name and source of a registered sync root.
pub fn classify_sync_root(id: &str, path: &str) -> (r: (String, Source))
    ensures
        (r.0@, r.1) == sync_root_model(id@, path@),
{
    let c = chars_of(id);
    let (provider, account) = match find_bang(&c, 0) {
        Some(i) => {
            let provider = text_range(&c, 0, i);
            assert(provider@ =~= id@.take(i as int));
            proof {
                lemma_bang_shift(id@, i as int, 0);
            }
            assert(i < c@.len());
            let account = match find_bang(&c, i + 1) {
                Some(j) => {
                    let n = c.len();
                    let a = text_range(&c, j + 1, n);
                    assert(a@ =~= id@.skip(i + 1).skip(j - i));
                    a
                },
                None => String::new(),
            };
            (provider, account)
        },
        None => (owned(id), String::new()),
    };
    assert(provider@ == id_provider(id@));
    assert(account@ == id_account(id@));
    if eq_ignore_case(provider.as_str(), "onedrive") {
        if eq_ignore_case(account.as_str(), "personal") {
            return (owned("onedrive-personal"), Source::OneDrivePersonal);
        }
        let lowered = crate::mounts::lowercase(account.as_str());
        if crate::text::starts_with(lowered.as_str(), "business") {
            return (owned("onedrive-business"), Source::OneDriveBusiness);
        }
        return (owned("onedrive"), Source::OneDrive);
    }
    let parts = components(path, true);
    let fallback = if parts.len() > 0 {
        assert(components_model(parts@).last() == crate::paths::component_model(parts@[parts@.len() - 1]));
        match &parts[parts.len() - 1] {
            Component::Normal(n) => n.clone(),
            _ => provider,
        }
    } else {
        provider
    };
    let name = match slug(fallback.as_str()) {
        Some(s) => s,
        None => owned("cloud-drive"),
    };
    (name, Source::Cloud)
}

/// The kind of a drive (`GetDriveTypeW`).
#[derive(Clone, Copy, Debug, PartialEq, Eq, Structural)]
pub enum DriveKind {
    Fixed,
    Removable,
    Remote,
    Other,
}

/// The drive letter at an offset from `A`.
pub open spec fn drive_letter(offset: u8) -> char {
    (('A' as u32) + offset) as char
}

/// The root of the drive at an offset, such as `C:\`.
pub open spec fn drive_root(offset: u8) -> Seq<char> {
    seq![drive_letter(offset), ':', '\\']
}

/// Whether a lowered volume label names a cloud drive.
pub open spec fn cloud_label(label: Seq<char>) -> bool {
    contains_seq(lower_text(label), "google drive"@) || contains_seq(lower_text(label), "cloud"@)
}

/// The mount a drive root gives, if any: not the system drive, only an
/// existing fixed, removable or remote root; named by the fixed drive's
/// label slug or `drive-<letter>`; unstable when remote or labelled as a
/// cloud drive.
pub open spec fn drive_model(
    offset: u8,
    kind: DriveKind,
    is_dir: bool,
    label: Option<Seq<char>>,
    system_drive: Option<Seq<char>>,
) -> Option<(Seq<char>, Seq<char>, bool)> {
    let root = drive_root(offset);
    if system_drive matches Some(s) && eq_ignore_ascii_case(root.take(2), s) {
        None
    } else if !is_dir || kind == DriveKind::Other {
        None
    } else {
        let label = if kind == DriveKind::Fixed {
            label
        } else {
            None
        };
        let name = match label {
            Some(l) => match slug_model(l) {
                Some(s) => s,
                None => "drive-"@ + seq![lower_text(seq![drive_letter(offset)])[0]],
            },
            None => "drive-"@ + seq![lower_text(seq![drive_letter(offset)])[0]],
        };
        let dynamic = kind == DriveKind::Remote || (label matches Some(l) && cloud_label(l));
        Some((name, root, dynamic))
    }
}

/// The mount a drive root gives, if any (see `drive_model`).
pub fn classify_drive(
    offset: u8,
    kind: DriveKind,
    is_dir: bool,
    label: Option<&str>,
    system_drive: Option<&str>,
) -> (r: Option<WindowsMount>)
    requires
        offset < 26,
    ensures
        match drive_model(
            offset,
            kind,
            is_dir,
            match label {
                Some(l) => Some(l@),
                None => None,
            },
            match system_drive {
                Some(s) => Some(s@),
                None => None,
            },
        ) {
            Some((name, root, dynamic)) => r matches Some(m) && m.name@ == name && m.path@ == root
                && m.dynamic == dynamic && m.source == Source::WindowsDrive,
            None => r is None,
        },
{
    let letter = (('A' as u8) + offset) as char;
    assert(letter == drive_letter(offset)) by {
        assert(((('A' as u8) + offset) as u8) as char == (('A' as u32) + offset) as char);
    }
    let mut root = String::new();
    push_char(&mut root, letter);
    push_char(&mut root, ':');
    push_char(&mut root, '\\');
    assert(root@ =~= drive_root(offset));
    let mut head = String::new();
    push_char(&mut head, letter);
    push_char(&mut head, ':');
    assert(head@ =~= drive_root(offset).take(2));
    if let Some(s) = system_drive {
        if eq_ignore_case(head.as_str(), s) {
            return None;
        }
    }
    if !is_dir || kind == DriveKind::Other {
        return None;
    }
    let label = if kind == DriveKind::Fixed {
        label
    } else {
        None
    };
    let lower_letter = crate::mounts::lowercase(head.as_str());
    let lc = chars_of(lower_letter.as_str());
    assert(lc@[0] == lower_text(seq![drive_letter(offset)])[0]);
    let mut fallback = owned("drive-");
    push_char(&mut fallback, lc[0]);
    let name = match label {
        Some(l) => match slug(l) {
            Some(s) => s,
            None => fallback,
        },
        None => fallback,
    };
    let dynamic = kind == DriveKind::Remote || match label {
        Some(l) => {
            let lowered = crate::mounts::lowercase(l);
            contains(lowered.as_str(), "google drive") || contains(lowered.as_str(), "cloud")
        },
        None => false,
    };
    if dynamic {
        Some(WindowsMount::dynamic(name, root))
    } else {
        Some(WindowsMount::ready(name, Source::WindowsDrive, root))
    }
}

/// The offsets from `A` of the drives whose bits are set in a
/// `GetLogicalDrives` mask, or the warning for an empty mask.
pub fn drive_offsets(mask: u32) -> (r: Result<Vec<u8>, String>)
    ensures
        match r {
            Ok(v) => mask != 0 && (forall|i: int| 0 <= i < v@.len() ==> #[trigger] v@[i] < 26 && (mask
                >> v@[i]) & 1 == 1) && (forall|i: int, j: int| 0 <= i < j < v@.len() ==> #[trigger] v@[i]
                < #[trigger] v@[j]) && (forall|o: u8| o < 26 && (mask >> o) & 1 == 1 ==> v@.contains(o)),
            Err(e) => mask == 0 && e@ == "cannot enumerate Windows drive roots"@,
        },
{
    if mask == 0 {
        return Err(owned("cannot enumerate Windows drive roots"));
    }
    let mut v: Vec<u8> = Vec::new();
    let mut offset: u8 = 0;
    while offset < 26
        invariant
            offset <= 26,
            forall|i: int| 0 <= i < v@.len() ==> #[trigger] v@[i] < offset && (mask >> v@[i]) & 1 == 1,
            forall|i: int, j: int| 0 <= i < j < v@.len() ==> #[trigger] v@[i] < #[trigger] v@[j],
            forall|o: u8| o < offset && (mask >> o) & 1 == 1 ==> v@.contains(o),
        decreases 26 - offset,
    {
        let ghost before = v@;
        if (mask >> offset) & 1 == 1 {
            v.push(offset);
            assert(v@[v@.len() - 1] == offset);
        }
        proof {
            assert forall|o: u8| o < offset + 1 && (mask >> o) & 1 == 1 implies v@.contains(o) by {
                if o == offset {
                    assert(v@[v@.len() - 1] == offset);
                } else {
                    assert(before.contains(o));
                    if v@.len() > before.len() {
                        crate::text::lemma_contains_push(before, offset, o);
                        assert(v@ == before.push(offset));
                    }
                }
            }
        }
        offset = offset + 1;
    }
    Ok(v)
}

/// A sync root as the storage provider API lists it.
pub struct SyncRoot {
    pub id: String,
    pub path: String,
    /// Whether the root's path is an existing directory.
    pub is_dir: bool,
}

/// What listing the registered sync roots gave.
pub enum SyncRootListing {
    /// The Windows Runtime could not be initialized, with the error's text.
    Unavailable(String),
    /// The roots read, and the error's text when the listing ended early.
    Listed(Vec<SyncRoot>, Option<String>),
}

/// A drive root as it was probed.
pub struct DriveProbe {
    /// The drive's offset from `A`.
    pub offset: u8,
    pub kind: DriveKind,
    /// Whether the root is an existing directory.
    pub is_dir: bool,
    /// The volume label, for a fixed drive that has one.
    pub label: Option<String>,
}

/// A Windows mount as plain values: name, source, path, and whether the
/// path is unstable.
pub open spec fn mount_view(m: WindowsMount) -> (Seq<char>, Source, Seq<char>, bool) {
    (m.name@, m.source, m.path@, m.dynamic)
}

/// The mounts of the first `n` listed sync roots: those that are
/// directories, named and sourced by `sync_root_model`.
pub open spec fn sync_mounts(roots: Seq<SyncRoot>, n: int) -> Seq<(Seq<char>, Source, Seq<char>, bool)>
    decreases n,
{
    if n <= 0 {
        Seq::empty()
    } else {
        let prev = sync_mounts(roots, n - 1);
        let r = roots[n - 1];
        if r.is_dir {
            let (name, source) = sync_root_model(r.id@, r.path@);
            prev.push((name, source, r.path@, false))
        } else {
            prev
        }
    }
}

/// The label of a probe as text.
pub open spec fn probe_label(p: DriveProbe) -> Option<Seq<char>> {
    match p.label {
        Some(l) => Some(l@),
        None => None,
    }
}

/// Whether a probe is of a drive that the logical-drive mask reports.
pub open spec fn in_mask(mask: u32, offset: u8) -> bool {
    offset < 26 && (mask >> offset) & 1 == 1
}

/// The mounts of the first `n` probes (see `drive_model`), skipping drives
/// that the mask does not report.
pub open spec fn drive_mounts(
    probes: Seq<DriveProbe>,
    n: int,
    mask: u32,
    system_drive: Option<Seq<char>>,
) -> Seq<(Seq<char>, Source, Seq<char>, bool)>
    decreases n,
{
    if n <= 0 {
        Seq::empty()
    } else {
        let prev = drive_mounts(probes, n - 1, mask, system_drive);
        let p = probes[n - 1];
        if !in_mask(mask, p.offset) {
            prev
        } else {
            match drive_model(p.offset, p.kind, p.is_dir, probe_label(p), system_drive) {
                Some((name, root, dynamic)) => prev.push((name, Source::WindowsDrive, root, dynamic)),
                None => prev,
            }
        }
    }
}

/// The mounts that Windows discovery finds: the sync roots' first, then the
/// drives'.
pub open spec fn collected_mounts(
    sync: SyncRootListing,
    mask: u32,
    probes: Seq<DriveProbe>,
    system_drive: Option<Seq<char>>,
) -> Seq<(Seq<char>, Source, Seq<char>, bool)> {
    let roots = match sync {
        SyncRootListing::Unavailable(_) => Seq::empty(),
        SyncRootListing::Listed(v, _) => sync_mounts(v@, v@.len() as int),
    };
    let drives = if mask == 0 {
        Seq::empty()
    } else {
        drive_mounts(probes, probes.len() as int, mask, system_drive)
    };
    roots + drives
}

/// The warnings of Windows discovery, in the order they arise.
pub open spec fn collected_warnings(sync: SyncRootListing, mask: u32) -> Seq<Seq<char>> {
    let roots = match sync {
        SyncRootListing::Unavailable(e) => seq!["cannot initialize Windows cloud discovery: "@ + e@],
        SyncRootListing::Listed(_, Some(e)) => seq!["cannot enumerate Windows cloud roots: "@ + e@],
        SyncRootListing::Listed(_, None) => Seq::empty(),
    };
    if mask == 0 {
        roots.push("cannot enumerate Windows drive roots"@)
    } else {
        roots
    }
}

fn prefixed_text(prefix: &str, detail: &String) -> (s: String)
    ensures
        s@ == prefix@ + detail@,
{
    let mut s = owned(prefix);
    push_str(&mut s, detail.as_str());
    s
}

/// The mounts and warnings of Windows discovery, from what listing the sync
/// roots gave, the logical-drive mask, the probes of the drives, and the
/// system drive (`SystemDrive`).
pub fn collect(
    sync: &SyncRootListing,
    mask: u32,
    probes: &Vec<DriveProbe>,
    system_drive: Option<&str>,
) -> (r: (Vec<WindowsMount>, Vec<String>))
    ensures
        r.0@.map_values(|m: WindowsMount| mount_view(m)) == collected_mounts(
            *sync,
            mask,
            probes@,
            match system_drive {
                Some(s) => Some(s@),
                None => None,
            },
        ),
        r.1@.map_values(|w: String| w@) == collected_warnings(*sync, mask),
{
    let ghost sd = match system_drive {
        Some(s) => Some(s@),
        None => None,
    };
    let mut mounts: Vec<WindowsMount> = Vec::new();
    let mut warnings: Vec<String> = Vec::new();
    match sync {
        SyncRootListing::Unavailable(e) => {
            warnings.push(prefixed_text("cannot initialize Windows cloud discovery: ", e));
        },
        SyncRootListing::Listed(roots, failure) => {
            let mut i: usize = 0;
            while i < roots.len()
                invariant
                    i <= roots@.len(),
                    mounts@.map_values(|m: WindowsMount| mount_view(m)) == sync_mounts(roots@, i as int),
                    warnings@.len() == 0,
                decreases roots@.len() - i,
            {
                let root = &roots[i];
                if root.is_dir {
                    let (name, source) = classify_sync_root(root.id.as_str(), root.path.as_str());
                    let m = WindowsMount::ready(name, source, root.path.clone());
                    mounts.push(m);
                    assert(mounts@.map_values(|m: WindowsMount| mount_view(m)) =~= sync_mounts(
                        roots@,
                        i + 1,
                    ));
                } else {
                    assert(sync_mounts(roots@, i + 1) == sync_mounts(roots@, i as int));
                }
                i = i + 1;
            }
            match failure {
                Some(e) => {
                    warnings.push(prefixed_text("cannot enumerate Windows cloud roots: ", e));
                },
                None => {},
            }
        },
    }
    assert(warnings@.map_values(|w: String| w@) =~= collected_warnings(*sync, 1));
    let ghost head = mounts@.map_values(|m: WindowsMount| mount_view(m));
    if mask == 0 {
        warnings.push(owned("cannot enumerate Windows drive roots"));
        assert(warnings@.map_values(|w: String| w@) =~= collected_warnings(*sync, mask));
        assert(mounts@.map_values(|m: WindowsMount| mount_view(m)) =~= collected_mounts(
            *sync,
            mask,
            probes@,
            sd,
        ));
        return (mounts, warnings);
    }
    let mut k: usize = 0;
    while k < probes.len()
        invariant
            k <= probes@.len(),
            mask != 0,
            mounts@.map_values(|m: WindowsMount| mount_view(m)) == head + drive_mounts(
                probes@,
                k as int,
                mask,
                sd,
            ),
            sd == match system_drive {
                Some(s) => Some(s@),
                None => None::<Seq<char>>,
            },
        decreases probes@.len() - k,
    {
        let p = &probes[k];
        let ghost before = mounts@.map_values(|m: WindowsMount| mount_view(m));
        if p.offset < 26 && (mask >> p.offset) & 1 == 1 {
            let label = match &p.label {
                Some(l) => Some(l.as_str()),
                None => None,
            };
            let ghost model = drive_model(p.offset, p.kind, p.is_dir, probe_label(*p), sd);
            assert(model == drive_model(
                p.offset,
                p.kind,
                p.is_dir,
                match label {
                    Some(l) => Some(l@),
                    None => None,
                },
                sd,
            ));
            match classify_drive(p.offset, p.kind, p.is_dir, label, system_drive) {
                Some(m) => {
                    mounts.push(m);
                    assert(mounts@.map_values(|m: WindowsMount| mount_view(m)) =~= before.push(
                        mount_view(m),
                    ));
                    assert(drive_mounts(probes@, k + 1, mask, sd) == drive_mounts(
                        probes@,
                        k as int,
                        mask,
                        sd,
                    ).push(mount_view(m)));
                },
                None => {
                    assert(drive_mounts(probes@, k + 1, mask, sd) == drive_mounts(
                        probes@,
                        k as int,
                        mask,
                        sd,
                    ));
                },
            }
        } else {
            assert(drive_mounts(probes@, k + 1, mask, sd) == drive_mounts(
                probes@,
                k as int,
                mask,
                sd,
            ));
        }
        assert(mounts@.map_values(|m: WindowsMount| mount_view(m)) =~= head + drive_mounts(
            probes@,
            k + 1,
            mask,
            sd,
        ));
        k = k + 1;
    }
    assert(warnings@.map_values(|w: String| w@) =~= collected_warnings(*sync, mask));
    (mounts, warnings)
}

} // verus!
