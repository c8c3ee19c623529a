//! Mount discovery: which cloud-provider folders, volumes and drives can be
//! named as mounts, from facts that the caller gathered from the system.
use vstd::prelude::*;

use crate::config::{MountProvider, MountSpec, OneDriveAccount};
use crate::paths::{components, components_model, path_components, Component, ComponentModel};
use crate::quote::{join, joined};
use crate::resolver::{join_paths, push_path, text_result};
use crate::text::{
    chars_of, decimal, decimal_text, has_prefix, insert_sorted, lemma_sorted_seq, owned, push_char,
    push_str, sorted_seq, strictly_sorted, views,
};

verus! {

/// The platform whose discovery rules apply.
#[derive(Clone, Copy, Debug, PartialEq, Eq, Structural)]
pub enum Platform {
    Macos,
    Windows,
    Other,
}

/// Where a discovered mount comes from.
#[derive(Clone, Copy, Debug, PartialEq, Eq, Structural)]
pub enum Source {
    Volume,
    Icloud,
    GoogleDrive,
    Cloud,
    OneDrive,
    OneDrivePersonal,
    OneDriveBusiness,
    WindowsDrive,
}

/// Why a discovered mount is not offered.
#[derive(Clone, Copy, Debug, PartialEq, Eq, Structural)]
pub enum SkipStatus {
    Ambiguous,
    Skipped,
}

/// A directory listing as the system gave it.
#[derive(Debug)]
pub enum Listing {
    /// The directory does not exist.
    Missing,
    /// The directory could not be read, with the error's text.
    Failed(String),
    /// The entries that could be read.
    Entries(Vec<Entry>),
}

/// One entry of a directory listing.
#[derive(Debug)]
pub struct Entry {
    /// The entry's file name, when it is valid Unicode.
    pub name: Option<String>,
    /// The entry's canonical path, when it is a directory that could be
    /// canonicalized.
    pub canonical: Option<String>,
}

/// A mount found through the Windows APIs.
#[derive(Debug)]
pub struct WindowsMount {
    pub name: String,
    pub source: Source,
    pub path: String,
    /// A drive whose letter is not stable (removable or remote).
    pub dynamic: bool,
}

impl WindowsMount {
    /// A mount with a stable path.
    pub fn ready(name: String, source: Source, path: String) -> (m: WindowsMount)
        ensures
            m.name@ == name@,
            m.source == source,
            m.path@ == path@,
            !m.dynamic,
    {
        WindowsMount { name, source, path, dynamic: false }
    }

    /// A drive whose letter can change.
    pub fn dynamic(name: String, path: String) -> (m: WindowsMount)
        ensures
            m.name@ == name@,
            m.source == Source::WindowsDrive,
            m.path@ == path@,
            m.dynamic,
    {
        WindowsMount { name, source: Source::WindowsDrive, path, dynamic: true }
    }
}

/// The CloudStorage folder under a home directory.
pub open spec fn cloud_storage_folder(home: Seq<char>, windows: bool) -> Seq<char> {
    push_path(home, "Library/CloudStorage"@, windows)
}

/// The iCloud Drive folder under a home directory.
pub open spec fn icloud_drive_folder(home: Seq<char>, windows: bool) -> Seq<char> {
    push_path(home, "Library/Mobile Documents/com~apple~CloudDocs"@, windows)
}

/// Everything discovery looks at.
#[derive(Debug)]
pub struct DiscoveryContext {
    pub platform: Platform,
    pub home: String,
    pub volumes_root: String,
    pub cloud_storage_root: String,
    pub windows_mounts: Vec<WindowsMount>,
    pub windows_warnings: Vec<String>,
    /// The canonical iCloud Drive folder under `home`, when it is a directory.
    pub icloud: Option<String>,
    /// The listing of `volumes_root`.
    pub volumes: Listing,
    /// The listing of `cloud_storage_root`.
    pub cloud_storage: Listing,
}

impl DiscoveryContext {
    /// A context with the given roots and nothing found under them yet.
    pub fn new(platform: Platform, home: String, volumes_root: String, cloud_storage_root: String) -> (c: DiscoveryContext)
        ensures
            c.platform == platform,
            c.home@ == home@,
            c.volumes_root@ == volumes_root@,
            c.cloud_storage_root@ == cloud_storage_root@,
            c.windows_mounts@.len() == 0,
            c.windows_warnings@.len() == 0,
            c.icloud is None,
            c.volumes is Missing,
            c.cloud_storage is Missing,
    {
        DiscoveryContext {
            platform,
            home,
            volumes_root,
            cloud_storage_root,
            windows_mounts: Vec::new(),
            windows_warnings: Vec::new(),
            icloud: None,
            volumes: Listing::Missing,
            cloud_storage: Listing::Missing,
        }
    }

    /// A macOS context whose home and volumes lie under `root` (`root/home`
    /// and `root/Volumes`), as discovery is pointed at a test root.
    pub fn under_root(root: &str, windows: bool) -> (c: DiscoveryContext)
        ensures
            c.platform == Platform::Macos,
            c.home@ == push_path(root@, "home"@, windows),
            c.volumes_root@ == push_path(root@, "Volumes"@, windows),
            c.cloud_storage_root@ == cloud_storage_folder(c.home@, windows),
            c.windows_mounts@.len() == 0,
            c.windows_warnings@.len() == 0,
            c.icloud is None,
            c.volumes is Missing,
            c.cloud_storage is Missing,
    {
        let home = join_paths(root, "home", windows);
        let volumes = join_paths(root, "Volumes", windows);
        let cloud = join_paths(home.as_str(), "Library/CloudStorage", windows);
        DiscoveryContext::new(Platform::Macos, home, volumes, cloud)
    }

    /// The context of a platform for a home directory: `/Volumes` and the
    /// home's CloudStorage folder; macOS needs a home.
    pub fn for_platform(platform: Platform, home: &str, windows: bool) -> (r: Result<
        DiscoveryContext,
        String,
    >)
        ensures
            match r {
                Ok(c) => {
                    &&& !(platform == Platform::Macos && home@.len() == 0)
                    &&& c.platform == platform
                    &&& c.home@ == home@
                    &&& c.volumes_root@ == "/Volumes"@
                    &&& c.cloud_storage_root@ == cloud_storage_folder(home@, windows)
                    &&& c.windows_mounts@.len() == 0
                    &&& c.windows_warnings@.len() == 0
                    &&& c.icloud is None
                    &&& c.volumes is Missing
                    &&& c.cloud_storage is Missing
                },
                Err(e) => platform == Platform::Macos && home@.len() == 0 && e@ == "HOME is not set"@,
            },
    {
        if platform == Platform::Macos && crate::text::chars_of(home).len() == 0 {
            return Err(owned("HOME is not set"));
        }
        let cloud = join_paths(home, "Library/CloudStorage", windows);
        Ok(DiscoveryContext::new(platform, owned(home), owned("/Volumes"), cloud))
    }

    /// Where the iCloud Drive folder is under this context's home.
    pub fn icloud_folder(&self, windows: bool) -> (p: String)
        ensures
            p@ == icloud_drive_folder(self.home@, windows),
    {
        join_paths(self.home.as_str(), "Library/Mobile Documents/com~apple~CloudDocs", windows)
    }

    /// A Windows context with the mounts and warnings the Windows APIs gave.
    pub fn windows(mounts: Vec<WindowsMount>, warnings: Vec<String>) -> (c: DiscoveryContext)
        ensures
            c.platform == Platform::Windows,
            c.windows_mounts@ == mounts@,
            c.windows_warnings@ == warnings@,
            c.icloud is None,
            c.volumes is Missing,
            c.cloud_storage is Missing,
    {
        DiscoveryContext {
            platform: Platform::Windows,
            home: String::new(),
            volumes_root: String::new(),
            cloud_storage_root: String::new(),
            windows_mounts: mounts,
            windows_warnings: warnings,
            icloud: None,
            volumes: Listing::Missing,
            cloud_storage: Listing::Missing,
        }
    }
}

/// A mount that can be configured as it is.
#[derive(Debug)]
pub struct ReadyMount {
    pub name: String,
    pub source: Source,
    pub path: String,
}

/// A mount that discovery found but does not offer.
#[derive(Debug)]
pub struct SkippedMount {
    pub name: String,
    pub source: Source,
    pub status: SkipStatus,
    pub reason: String,
    pub candidates: Vec<String>,
}

/// The outcome of discovery.
#[derive(Debug)]
pub struct ScanReport {
    pub ready: Vec<ReadyMount>,
    pub skipped: Vec<SkippedMount>,
    pub warnings: Vec<String>,
}

/// The table and the diagnostics of a scan.
#[derive(Debug, PartialEq)]
pub struct RenderedScan {
    pub stdout: String,
    pub stderr: String,
}

/// The name of a source as the table shows it.
pub open spec fn source_text(source: Source) -> Seq<char> {
    match source {
        Source::Volume => "volume"@,
        Source::Icloud => "icloud"@,
        Source::GoogleDrive => "google-drive"@,
        Source::Cloud => "cloud"@,
        Source::OneDrive => "onedrive"@,
        Source::OneDrivePersonal => "onedrive-personal"@,
        Source::OneDriveBusiness => "onedrive-business"@,
        Source::WindowsDrive => "windows-drive"@,
    }
}

/// The name of a source.
pub fn source_name(source: Source) -> (name: &'static str)
    ensures
        name@ == source_text(source),
{
    match source {
        Source::Volume => "volume",
        Source::Icloud => "icloud",
        Source::GoogleDrive => "google-drive",
        Source::Cloud => "cloud",
        Source::OneDrive => "onedrive",
        Source::OneDrivePersonal => "onedrive-personal",
        Source::OneDriveBusiness => "onedrive-business",
        Source::WindowsDrive => "windows-drive",
    }
}

/// Whether a character is an ASCII letter or digit.
pub open spec fn is_ascii_alnum(c: char) -> bool {
    ('0' <= c && c <= '9') || ('a' <= c && c <= 'z') || ('A' <= c && c <= 'Z')
}

/// An ASCII letter in lower case; other characters unchanged.
pub open spec fn lower_char(c: char) -> char {
    if 'A' <= c && c <= 'Z' {
        ((c as u32) + 32) as char
    } else {
        c
    }
}

/// The slug of a name after its first `n` characters, and whether it ends in
/// a dash: letters and digits lowered, every other run of characters after
/// the first letter or digit one dash.
pub open spec fn slug_state(s: Seq<char>) -> (Seq<char>, bool)
    decreases s.len(),
{
    if s.len() == 0 {
        (Seq::empty(), false)
    } else {
        let (out, dash) = slug_state(s.drop_last());
        let c = s.last();
        if is_ascii_alnum(c) {
            (out.push(lower_char(c)), false)
        } else if out.len() > 0 && !dash {
            (out.push('-'), true)
        } else {
            (out, dash)
        }
    }
}

/// `s` without trailing dashes.
pub open spec fn trim_dashes(s: Seq<char>) -> Seq<char>
    decreases s.len(),
{
    if s.len() > 0 && s.last() == '-' {
        trim_dashes(s.drop_last())
    } else {
        s
    }
}

/// The mount name made from a file name, if any letter or digit remains.
pub open spec fn slug_model(name: Seq<char>) -> Option<Seq<char>> {
    let v = trim_dashes(slug_state(name).0);
    if v.len() == 0 {
        None
    } else {
        Some(v)
    }
}

/// The mount name made from a file name.
pub fn slug(name: &str) -> (r: Option<String>)
    ensures
        match r {
            Some(s) => slug_model(name@) == Some(s@),
            None => slug_model(name@) is None,
        },
{
    let chars = chars_of(name);
    let mut out: Vec<char> = Vec::new();
    let mut dash = false;
    let mut i: usize = 0;
    while i < chars.len()
        invariant
            i <= chars@.len(),
            chars@ == name@,
            (out@, dash) == slug_state(name@.take(i as int)),
            out@.len() <= i,
        decreases chars@.len() - i,
    {
        assert(name@.take(i + 1).drop_last() =~= name@.take(i as int));
        let c = chars[i];
        if ('0' <= c && c <= '9') || ('a' <= c && c <= 'z') || ('A' <= c && c <= 'Z') {
            let l = if 'A' <= c && c <= 'Z' {
                ((c as u8) + 32) as char
            } else {
                c
            };
            assert(l == lower_char(c)) by {
                if 'A' <= c && c <= 'Z' {
                    assert(((c as u8) + 32) as char == ((c as u32) + 32) as char);
                }
            }
            out.push(l);
            dash = false;
        } else if out.len() > 0 && !dash {
            out.push('-');
            dash = true;
        }
        i = i + 1;
    }
    assert(name@.take(i as int) =~= name@);
    let mut end = out.len();
    assert(out@.take(end as int) =~= out@);
    while end > 0 && out[end - 1] == '-'
        invariant
            end <= out@.len(),
            trim_dashes(out@) == trim_dashes(out@.take(end as int)),
        decreases end,
    {
        assert(out@.take(end - 1) =~= out@.take(end as int).drop_last());
        end = end - 1;
    }
    assert(out@.take(end as int) == trim_dashes(out@));
    if end == 0 {
        return None;
    }
    let mut s = String::new();
    let mut k: usize = 0;
    while k < end
        invariant
            k <= end <= out@.len(),
            s@ == out@.take(k as int),
        decreases end - k,
    {
        push_char(&mut s, out[k]);
        assert(s@ =~= out@.take(k + 1));
        k = k + 1;
    }
    Some(s)
}


/// A string with its ASCII letters lowered (`to_ascii_lowercase`).
pub open spec fn lower_text(s: Seq<char>) -> Seq<char> {
    Seq::new(s.len(), |i: int| lower_char(s[i]))
}

/// `to_ascii_lowercase`.
pub fn lowercase(s: &str) -> (out: String)
    ensures
        out@ == lower_text(s@),
{
    let chars = chars_of(s);
    let mut out = String::new();
    let mut i: usize = 0;
    while i < chars.len()
        invariant
            i <= chars@.len(),
            chars@ == s@,
            out@ == lower_text(s@.take(i as int)),
        decreases chars@.len() - i,
    {
        let c = chars[i];
        let l = if 'A' <= c && c <= 'Z' {
            ((c as u8) + 32) as char
        } else {
            c
        };
        assert(l == lower_char(c)) by {
            if 'A' <= c && c <= 'Z' {
                assert(((c as u8) + 32) as char == ((c as u32) + 32) as char);
            }
        }
        push_char(&mut out, l);
        assert(out@ =~= lower_text(s@.take(i + 1)));
        i = i + 1;
    }
    assert(s@.take(i as int) =~= s@);
    out
}

/// Whether `paths[k]` is the first path whose lowered text is `key`.
pub open spec fn first_with_key(paths: Seq<Seq<char>>, key: Seq<char>, k: int) -> bool {
    0 <= k < paths.len() && lower_text(paths[k]) == key && forall|j: int|
        0 <= j < k ==> lower_text(#[trigger] paths[j]) != key
}

/// Paths that differ only in ASCII case counted once: for each lowered text,
/// in increasing order, the first path that has it.
pub open spec fn dedup_model(paths: Seq<Seq<char>>) -> Seq<Seq<char>> {
    let keys = sorted_seq(paths.map_values(|p: Seq<char>| lower_text(p)).to_set());
    keys.map_values(|key: Seq<char>| paths[choose|k: int| first_with_key(paths, key, k)])
}

/// Paths that differ only in ASCII case, counted once.
pub fn deduplicate_windows_paths(paths: &Vec<String>) -> (out: Vec<String>)
    ensures
        views(out@) == dedup_model(views(paths@)),
{
    let ghost ps = views(paths@);
    let mut lowered: Vec<String> = Vec::new();
    let mut keys: Vec<String> = Vec::new();
    let mut i: usize = 0;
    while i < paths.len()
        invariant
            i <= paths@.len(),
            ps == views(paths@),
            views(lowered@) == ps.take(i as int).map_values(|p: Seq<char>| lower_text(p)),
            strictly_sorted(views(keys@)),
            views(keys@).to_set() == views(lowered@).to_set(),
        decreases paths@.len() - i,
    {
        let l = lowercase(paths[i].as_str());
        let ghost before = lowered@;
        lowered.push(l.clone());
        insert_sorted(&mut keys, l);
        proof {
            assert(views(lowered@) =~= views(before).push(lower_text(ps[i as int])));
            assert(ps.take(i + 1).map_values(|p: Seq<char>| lower_text(p)) =~= ps.take(
                i as int,
            ).map_values(|p: Seq<char>| lower_text(p)).push(lower_text(ps[i as int])));
            views(before).lemma_push_to_set_commute(lower_text(ps[i as int]));
        }
        i = i + 1;
    }
    assert(ps.take(i as int) =~= ps);
    let ghost lows = ps.map_values(|p: Seq<char>| lower_text(p));
    proof {
        lemma_sorted_seq(views(keys@));
    }
    let mut out: Vec<String> = Vec::new();
    let mut j: usize = 0;
    while j < keys.len()
        invariant
            j <= keys@.len(),
            ps == views(paths@),
            lows == ps.map_values(|p: Seq<char>| lower_text(p)),
            views(lowered@) == lows,
            views(keys@).to_set() == lows.to_set(),
            sorted_seq(lows.to_set()) == views(keys@),
            views(out@) == views(keys@).take(j as int).map_values(
                |key: Seq<char>| ps[choose|k: int| first_with_key(ps, key, k)],
            ),
        decreases keys@.len() - j,
    {
        let ghost key = keys@[j as int]@;
        assert(views(keys@).to_set().contains(key)) by {
            assert(views(keys@)[j as int] == key);
        }
        let mut k: usize = 0;
        while k < lowered.len() && !crate::text::str_eq(lowered[k].as_str(), keys[j].as_str())
            invariant
                k <= lowered@.len(),
                j < keys@.len(),
                key == keys@[j as int]@,
                views(lowered@) == lows,
                lows == ps.map_values(|p: Seq<char>| lower_text(p)),
                lows.to_set().contains(key),
                forall|m: int| 0 <= m < k ==> lower_text(#[trigger] ps[m]) != key,
            decreases lowered@.len() - k,
        {
            assert(lows[k as int] == lower_text(ps[k as int]));
            k = k + 1;
        }
        if k >= lowered.len() {
            proof {
                let m = choose|m: int| 0 <= m < lows.len() && lows[m] == key;
                assert(lower_text(ps[m]) == key);
                assert(false);
            }
        }
        assert(lows[k as int] == lower_text(ps[k as int]));
        assert(first_with_key(ps, key, k as int));
        proof {
            let c = choose|c: int| first_with_key(ps, key, c);
            assert(first_with_key(ps, key, c));
            if c < k {
                assert(lower_text(ps[c]) != key);
            }
            if k < c {
                assert(lower_text(ps[k as int]) != key);
            }
            assert(c == k);
        }
        let ghost before = out@;
        out.push(paths[k].clone());
        assert(views(out@) =~= views(before).push(ps[k as int]));
        assert(views(keys@).take(j + 1).map_values(
            |key: Seq<char>| ps[choose|k: int| first_with_key(ps, key, k)],
        ) =~= views(keys@).take(j as int).map_values(
            |key: Seq<char>| ps[choose|k: int| first_with_key(ps, key, k)],
        ).push(ps[k as int]));
        j = j + 1;
    }
    assert(views(keys@).take(j as int) =~= views(keys@));
    out
}

/// What a provider lookup gives for its candidate paths: the one path left
/// after counting case variants once, or why there is not exactly one.
pub open spec fn one_candidate_model(name: Seq<char>, candidates: Seq<Seq<char>>) -> Result<
    Seq<char>,
    Seq<char>,
> {
    let d = dedup_model(candidates);
    if d.len() == 1 {
        Ok(d[0])
    } else if d.len() == 0 {
        Err(name + " provider is not mounted"@)
    } else {
        Err(name + " provider is ambiguous ("@ + decimal_text(d.len()) + " candidates)"@)
    }
}

/// The single candidate of a provider, or why there is not one.
pub fn one_candidate(name: &str, candidates: &Vec<String>) -> (r: Result<String, String>)
    ensures
        text_result(r) == one_candidate_model(name@, views(candidates@)),
{
    let d = deduplicate_windows_paths(candidates);
    if d.len() == 1 {
        Ok(d[0].clone())
    } else if d.len() == 0 {
        let mut m = owned(name);
        push_str(&mut m, " provider is not mounted");
        Err(m)
    } else {
        let mut m = owned(name);
        push_str(&mut m, " provider is ambiguous (");
        push_str(&mut m, decimal(d.len()).as_str());
        push_str(&mut m, " candidates)");
        Err(m)
    }
}

/// A character of a path's order key: `/` and NUL exchanged.
pub open spec fn key_char(c: char) -> char {
    if c == '/' {
        '\0'
    } else if c == '\0' {
        '/'
    } else {
        c
    }
}

/// The order key of a path: as strings, keys order paths the way `Path`
/// orders normalized paths, where a separator sorts before every other
/// character. Taking the key twice gives the path back.
pub open spec fn path_key(p: Seq<char>) -> Seq<char> {
    p.map_values(|c: char| key_char(c))
}

/// A finite set of paths in `Path` order.
pub open spec fn sorted_paths(s: Set<Seq<char>>) -> Seq<Seq<char>> {
    sorted_seq(s.map(|p: Seq<char>| path_key(p))).map_values(|k: Seq<char>| path_key(k))
}

proof fn lemma_path_key_involution(p: Seq<char>)
    ensures
        path_key(path_key(p)) == p,
{
    assert(path_key(path_key(p)) =~= p);
}

/// Sorted keys of a set of paths, read back, are that set's paths in
/// `Path` order, and hold exactly its paths.
proof fn lemma_keys_back(keys: Seq<Seq<char>>, s: Set<Seq<char>>)
    requires
        strictly_sorted(keys),
        keys.to_set() == s.map(|p: Seq<char>| path_key(p)),
        sorted_seq(s.map(|p: Seq<char>| path_key(p))) == keys,
    ensures
        keys.map_values(|k: Seq<char>| path_key(k)) == sorted_paths(s),
        keys.map_values(|k: Seq<char>| path_key(k)).to_set() == s,
{
    let back = keys.map_values(|k: Seq<char>| path_key(k));
    keys.lemma_to_set_map_commutes(|k: Seq<char>| path_key(k));
    assert forall|x: Seq<char>| back.to_set().contains(x) <==> s.contains(x) by {
        lemma_path_key_involution(x);
        if s.contains(x) {
            assert(s.map(|p: Seq<char>| path_key(p)).contains(path_key(x)));
            assert(keys.to_set().contains(path_key(x)));
            assert(keys.to_set().map(|k: Seq<char>| path_key(k)).contains(path_key(path_key(x))));
        }
        if back.to_set().contains(x) {
            assert(keys.to_set().map(|k: Seq<char>| path_key(k)).contains(x));
            let k = choose|k: Seq<char>| keys.to_set().contains(k) && path_key(k) == x;
            assert(s.map(|p: Seq<char>| path_key(p)).contains(k));
            let y = choose|y: Seq<char>| s.contains(y) && path_key(y) == k;
            lemma_path_key_involution(y);
        }
    }
    assert(back.to_set() =~= s);
}

/// The order key of a path.
fn path_key_of(p: &str) -> (k: String)
    ensures
        k@ == path_key(p@),
{
    let c = chars_of(p);
    let mut k = String::new();
    let mut i: usize = 0;
    while i < c.len()
        invariant
            i <= c@.len(),
            c@ == p@,
            k@ == path_key(p@.take(i as int)),
        decreases c@.len() - i,
    {
        let x = c[i];
        let y = if x == '/' {
            '\0'
        } else if x == '\0' {
            '/'
        } else {
            x
        };
        push_char(&mut k, y);
        assert(k@ =~= path_key(p@.take(i + 1)));
        i = i + 1;
    }
    assert(p@.take(i as int) =~= p@);
    k
}

/// The paths that sorted keys stand for, in the same order.
fn paths_of_keys(keys: &Vec<String>) -> (out: Vec<String>)
    ensures
        views(out@) == views(keys@).map_values(|k: Seq<char>| path_key(k)),
{
    let mut out: Vec<String> = Vec::new();
    let mut i: usize = 0;
    while i < keys.len()
        invariant
            i <= keys@.len(),
            views(out@) == views(keys@).take(i as int).map_values(|k: Seq<char>| path_key(k)),
        decreases keys@.len() - i,
    {
        let ghost before = views(out@);
        out.push(path_key_of(keys[i].as_str()));
        assert(views(keys@)[i as int] == keys@[i as int]@);
        assert(views(out@) =~= before.push(path_key(views(keys@)[i as int])));
        assert(views(keys@).take(i + 1) =~= views(keys@).take(i as int).push(views(keys@)[i as int]));
        assert(views(out@) =~= views(keys@).take(i + 1).map_values(|k: Seq<char>| path_key(k)));
        i = i + 1;
    }
    assert(views(keys@).take(i as int) =~= views(keys@));
    out
}

/// The entries of a listing that could be read.
pub open spec fn listing_entries(l: &Listing) -> Seq<Entry> {
    match l {
        Listing::Entries(v) => v@,
        _ => Seq::empty(),
    }
}

/// Whether an entry's name selects it: it begins with `prefix`, or with
/// `negate` it does not.
pub open spec fn entry_selected(e: Entry, prefix: Seq<char>, negate: bool) -> bool {
    match e.name {
        Some(n) => has_prefix(n@, prefix) != negate,
        None => false,
    }
}

/// The canonical directories of the selected entries, in listing order.
pub open spec fn matched(entries: Seq<Entry>, prefix: Seq<char>, negate: bool) -> Seq<Seq<char>>
    decreases entries.len(),
{
    if entries.len() == 0 {
        Seq::empty()
    } else {
        let e = entries.last();
        matched(entries.drop_last(), prefix, negate) + if entry_selected(e, prefix, negate) {
            match e.canonical {
                Some(c) => seq![c@],
                None => Seq::empty(),
            }
        } else {
            Seq::empty()
        }
    }
}

/// The order keys of the selected canonical directories of a listing,
/// each once, in increasing order.
fn matching_keys(listing: &Listing, prefix: &str, negate: bool) -> (out: Vec<String>)
    ensures
        strictly_sorted(views(out@)),
        views(out@).to_set() == matched(listing_entries(listing), prefix@, negate).map_values(
            |p: Seq<char>| path_key(p),
        ).to_set(),
{
    let mut out: Vec<String> = Vec::new();
    assert(views(out@).to_set() =~= Set::<Seq<char>>::empty());
    assert(matched(Seq::<Entry>::empty(), prefix@, negate).map_values(|p: Seq<char>| path_key(p)).to_set() =~= Set::<Seq<char>>::empty());
    match listing {
        Listing::Entries(entries) => {
            let mut i: usize = 0;
            while i < entries.len()
                invariant
                    i <= entries@.len(),
                    *listing == Listing::Entries(*entries),
                    strictly_sorted(views(out@)),
                    views(out@).to_set() == matched(entries@.take(i as int), prefix@, negate).map_values(
                        |p: Seq<char>| path_key(p),
                    ).to_set(),
                decreases entries@.len() - i,
            {
                assert(entries@.take(i + 1).drop_last() =~= entries@.take(i as int));
                let e = &entries[i];
                let selected = match &e.name {
                    Some(n) => crate::text::starts_with(n.as_str(), prefix) != negate,
                    None => false,
                };
                if selected {
                    match &e.canonical {
                        Some(c) => {
                            let ghost before = views(out@);
                            insert_sorted(&mut out, path_key_of(c.as_str()));
                            proof {
                                let m0 = matched(entries@.take(i as int), prefix@, negate);
                                assert(entry_selected(entries@[i as int], prefix@, negate));
                                assert(entries@.take(i + 1).last() == entries@[i as int]);
                                assert(matched(entries@.take(i + 1), prefix@, negate) =~= m0.push(c@));
                                assert(m0.push(c@).map_values(|p: Seq<char>| path_key(p)) =~= m0.map_values(
                                    |p: Seq<char>| path_key(p),
                                ).push(path_key(c@)));
                                m0.map_values(|p: Seq<char>| path_key(p)).lemma_push_to_set_commute(path_key(c@));
                            }
                        },
                        None => {
                            assert(matched(entries@.take(i + 1), prefix@, negate) =~= matched(entries@.take(i as int), prefix@, negate));
                        },
                    }
                } else {
                    assert(matched(entries@.take(i + 1), prefix@, negate) =~= matched(entries@.take(i as int), prefix@, negate));
                }
                i = i + 1;
            }
            assert(entries@.take(i as int) =~= entries@);
        },
        _ => {
            assert(listing_entries(listing) =~= Seq::<Entry>::empty());
        },
    }
    out
}

/// The selected canonical directories of a listing, each once, in `Path`
/// order.
pub fn matching_children(listing: &Listing, prefix: &str, negate: bool) -> (out: Vec<String>)
    ensures
        views(out@) == sorted_paths(matched(listing_entries(listing), prefix@, negate).to_set()),
        views(out@).to_set() == matched(listing_entries(listing), prefix@, negate).to_set(),
{
    let keys = matching_keys(listing, prefix, negate);
    let ghost m = matched(listing_entries(listing), prefix@, negate);
    proof {
        m.lemma_to_set_map_commutes(|p: Seq<char>| path_key(p));
        lemma_sorted_seq(views(keys@));
        lemma_keys_back(views(keys@), m.to_set());
    }
    paths_of_keys(&keys)
}

/// The warning for a listing that could not be read.
pub open spec fn listing_warning(root: Seq<char>, l: &Listing) -> Seq<Seq<char>> {
    match l {
        Listing::Failed(e) => seq!["cannot scan "@ + root + ": "@ + e@],
        _ => Seq::empty(),
    }
}

fn warn_listing(root: &str, l: &Listing, warnings: &mut Vec<String>)
    ensures
        views(final(warnings)@) == views(old(warnings)@) + listing_warning(root@, l),
{
    match l {
        Listing::Failed(e) => {
            let mut m = owned("cannot scan ");
            push_str(&mut m, root);
            push_str(&mut m, ": ");
            push_str(&mut m, e.as_str());
            let ghost before = warnings@;
            warnings.push(m);
            assert(views(warnings@) =~= views(before) + listing_warning(root@, l));
        },
        _ => {
            assert(views(warnings@) =~= views(warnings@) + listing_warning(root@, l));
        },
    }
}

/// The Google Drive folders: `GoogleDrive-*` under the cloud-storage root and
/// `GoogleDrive*` volumes.
pub open spec fn google_set(c: &DiscoveryContext) -> Set<Seq<char>> {
    matched(listing_entries(&c.cloud_storage), "GoogleDrive-"@, false).to_set() + matched(
        listing_entries(&c.volumes),
        "GoogleDrive"@,
        false,
    ).to_set()
}

/// The warnings that looking for Google Drive folders gives.
pub open spec fn google_warnings(c: &DiscoveryContext) -> Seq<Seq<char>> {
    listing_warning(c.cloud_storage_root@, &c.cloud_storage) + listing_warning(
        c.volumes_root@,
        &c.volumes,
    )
}

/// The Google Drive folders, each once, in `Path` order.
fn google_candidates(c: &DiscoveryContext, warnings: &mut Vec<String>) -> (out: Vec<String>)
    ensures
        views(out@) == sorted_paths(google_set(c)),
        views(out@).to_set() == google_set(c),
        views(final(warnings)@) == views(old(warnings)@) + google_warnings(c),
{
    let mut out = matching_keys(&c.cloud_storage, "GoogleDrive-", false);
    warn_listing(c.cloud_storage_root.as_str(), &c.cloud_storage, warnings);
    let more = matching_keys(&c.volumes, "GoogleDrive", false);
    warn_listing(c.volumes_root.as_str(), &c.volumes, warnings);
    let ghost a = matched(listing_entries(&c.cloud_storage), "GoogleDrive-"@, false);
    let ghost b = matched(listing_entries(&c.volumes), "GoogleDrive"@, false);
    let mut i: usize = 0;
    let ghost first = views(out@).to_set();
    while i < more.len()
        invariant
            i <= more@.len(),
            strictly_sorted(views(out@)),
            views(out@).to_set() == first + views(more@).take(i as int).to_set(),
        decreases more@.len() - i,
    {
        insert_sorted(&mut out, more[i].clone());
        proof {
            assert(views(more@).take(i + 1) =~= views(more@).take(i as int).push(more@[i as int]@));
            views(more@).take(i as int).lemma_push_to_set_commute(more@[i as int]@);
        }
        i = i + 1;
    }
    assert(views(more@).take(i as int) =~= views(more@));
    proof {
        a.lemma_to_set_map_commutes(|p: Seq<char>| path_key(p));
        b.lemma_to_set_map_commutes(|p: Seq<char>| path_key(p));
        let ka = a.to_set().map(|p: Seq<char>| path_key(p));
        let kb = b.to_set().map(|p: Seq<char>| path_key(p));
        assert(first == ka);
        assert(views(more@).to_set() == kb);
        assert forall|x: Seq<char>| #[trigger] views(out@).to_set().contains(x) <==> google_set(c).map(
            |p: Seq<char>| path_key(p),
        ).contains(x) by {
            if google_set(c).map(|p: Seq<char>| path_key(p)).contains(x) {
                let y = choose|y: Seq<char>| google_set(c).contains(y) && path_key(y) == x;
                if a.to_set().contains(y) {
                    assert(ka.contains(path_key(y)));
                } else {
                    assert(kb.contains(path_key(y)));
                }
            }
            if views(out@).to_set().contains(x) {
                if ka.contains(x) {
                    let y = choose|y: Seq<char>| a.to_set().contains(y) && path_key(y) == x;
                    assert(google_set(c).contains(y));
                } else {
                    assert(kb.contains(x));
                    let y = choose|y: Seq<char>| b.to_set().contains(y) && path_key(y) == x;
                    assert(google_set(c).contains(y));
                }
            }
        }
        assert(views(out@).to_set() =~= google_set(c).map(|p: Seq<char>| path_key(p)));
        lemma_sorted_seq(views(out@));
        lemma_keys_back(views(out@), google_set(c));
    }
    paths_of_keys(&out)
}

/// Whether a Windows mount can serve as OneDrive for an account choice.
pub open spec fn onedrive_match(m: WindowsMount, account: Option<OneDriveAccount>) -> bool {
    !m.dynamic && match account {
        None => m.source == Source::OneDrive || m.source == Source::OneDrivePersonal || m.source
            == Source::OneDriveBusiness,
        Some(OneDriveAccount::Personal) => m.source == Source::OneDrivePersonal,
        Some(OneDriveAccount::Business) => m.source == Source::OneDriveBusiness,
    }
}

/// The OneDrive roots for an account choice, in the order found.
pub open spec fn onedrive_paths(ms: Seq<WindowsMount>, account: Option<OneDriveAccount>) -> Seq<
    Seq<char>,
>
    decreases ms.len(),
{
    if ms.len() == 0 {
        Seq::empty()
    } else {
        onedrive_paths(ms.drop_last(), account) + if onedrive_match(ms.last(), account) {
            seq![ms.last().path@]
        } else {
            Seq::empty()
        }
    }
}

/// The folder a provider mount stands for on this system, or why it cannot
/// be found.
pub open spec fn resolve_provider_model(
    provider: MountProvider,
    account: Option<OneDriveAccount>,
    c: &DiscoveryContext,
) -> Result<Seq<char>, Seq<char>> {
    if provider == MountProvider::OneDrive {
        if c.platform != Platform::Windows {
            Err("onedrive provider is supported only on Windows"@)
        } else {
            one_candidate_model("onedrive"@, onedrive_paths(c.windows_mounts@, account))
        }
    } else if c.platform != Platform::Macos {
        Err("icloud and google-drive providers are supported only on macOS"@)
    } else if provider == MountProvider::Icloud {
        one_candidate_model(
            "icloud"@,
            match c.icloud {
                Some(p) => seq![p@],
                None => Seq::empty(),
            },
        )
    } else {
        one_candidate_model("google-drive"@, sorted_paths(google_set(c)))
    }
}

/// The folder a provider mount stands for on this system.
pub fn resolve_provider(
    provider: MountProvider,
    account: Option<OneDriveAccount>,
    context: &DiscoveryContext,
) -> (r: Result<String, String>)
    ensures
        text_result(r) == resolve_provider_model(provider, account, context),
{
    if provider == MountProvider::OneDrive {
        if context.platform != Platform::Windows {
            return Err(owned("onedrive provider is supported only on Windows"));
        }
        let ms = &context.windows_mounts;
        let mut candidates: Vec<String> = Vec::new();
        let mut i: usize = 0;
        while i < ms.len()
            invariant
                i <= ms@.len(),
                views(candidates@) == onedrive_paths(ms@.take(i as int), account),
            decreases ms@.len() - i,
        {
            assert(ms@.take(i + 1).drop_last() =~= ms@.take(i as int));
            let m = &ms[i];
            let selected = !m.dynamic && match account {
                None => m.source == Source::OneDrive || m.source == Source::OneDrivePersonal
                    || m.source == Source::OneDriveBusiness,
                Some(OneDriveAccount::Personal) => m.source == Source::OneDrivePersonal,
                Some(OneDriveAccount::Business) => m.source == Source::OneDriveBusiness,
            };
            let ghost before = candidates@;
            if selected {
                candidates.push(m.path.clone());
                assert(views(candidates@) =~= views(before).push(m.path@));
            } else {
                assert(onedrive_paths(ms@.take(i + 1), account) =~= onedrive_paths(ms@.take(i as int), account));
            }
            i = i + 1;
        }
        assert(ms@.take(i as int) =~= ms@);
        return one_candidate("onedrive", &candidates);
    }
    if context.platform != Platform::Macos {
        return Err(owned("icloud and google-drive providers are supported only on macOS"));
    }
    if provider == MountProvider::Icloud {
        let mut candidates: Vec<String> = Vec::new();
        match &context.icloud {
            Some(p) => {
                candidates.push(p.clone());
            },
            None => {},
        }
        assert(views(candidates@) =~= match context.icloud {
            Some(p) => seq![p@],
            None => Seq::<Seq<char>>::empty(),
        });
        return one_candidate("icloud", &candidates);
    }
    let mut warnings: Vec<String> = Vec::new();
    let candidates = google_candidates(context, &mut warnings);
    one_candidate("google-drive", &candidates)
}


/// A ready mount with text as character sequences.
pub struct ReadyModel {
    pub name: Seq<char>,
    pub source: Source,
    pub path: Seq<char>,
}

/// A skipped mount with text as character sequences.
pub struct SkippedModel {
    pub name: Seq<char>,
    pub source: Source,
    pub status: SkipStatus,
    pub reason: Seq<char>,
    pub candidates: Seq<Seq<char>>,
}

/// A scan report with text as character sequences.
pub struct ReportModel {
    pub ready: Seq<ReadyModel>,
    pub skipped: Seq<SkippedModel>,
    pub warnings: Seq<Seq<char>>,
}

/// The model of a ready mount.
pub open spec fn ready_model(m: ReadyMount) -> ReadyModel {
    ReadyModel { name: m.name@, source: m.source, path: m.path@ }
}

/// The model of a skipped mount.
pub open spec fn skipped_model(m: SkippedMount) -> SkippedModel {
    SkippedModel {
        name: m.name@,
        source: m.source,
        status: m.status,
        reason: m.reason@,
        candidates: views(m.candidates@),
    }
}

/// The models of ready mounts.
pub open spec fn ready_models(v: Seq<ReadyMount>) -> Seq<ReadyModel> {
    v.map_values(|m: ReadyMount| ready_model(m))
}

/// The models of skipped mounts.
pub open spec fn skipped_models(v: Seq<SkippedMount>) -> Seq<SkippedModel> {
    v.map_values(|m: SkippedMount| skipped_model(m))
}

/// The model of a report.
pub open spec fn report_model(r: &ScanReport) -> ReportModel {
    ReportModel {
        ready: ready_models(r.ready@),
        skipped: skipped_models(r.skipped@),
        warnings: views(r.warnings@),
    }
}

/// Where a stable insertion by `key` puts an element with key `k`: after
/// every element whose key is not greater.
pub open spec fn insert_pos<T>(s: Seq<T>, key: spec_fn(T) -> Seq<char>, k: Seq<char>, i: int) -> int
    decreases s.len() - i,
{
    if i >= s.len() || crate::text::seq_lt(k, key(s[i])) {
        i
    } else {
        insert_pos(s, key, k, i + 1)
    }
}

/// `s` sorted by `key`, stably (`sort_by` on the key).
pub open spec fn sort_by_key<T>(s: Seq<T>, key: spec_fn(T) -> Seq<char>) -> Seq<T>
    decreases s.len(),
{
    if s.len() == 0 {
        s
    } else {
        let r = sort_by_key(s.drop_last(), key);
        r.insert(insert_pos(r, key, key(s.last()), 0), s.last())
    }
}

/// The name of a ready mount.
pub open spec fn ready_name(m: ReadyModel) -> Seq<char> {
    m.name
}

/// The name of a skipped mount.
pub open spec fn skipped_name(m: SkippedModel) -> Seq<char> {
    m.name
}

proof fn lemma_insert_pos_bounds<T>(s: Seq<T>, key: spec_fn(T) -> Seq<char>, k: Seq<char>, i: int)
    requires
        0 <= i <= s.len(),
    ensures
        i <= insert_pos(s, key, k, i) <= s.len(),
    decreases s.len() - i,
{
    if i < s.len() && !crate::text::seq_lt(k, key(s[i])) {
        lemma_insert_pos_bounds(s, key, k, i + 1);
    }
}

fn copy_ready(m: &ReadyMount) -> (c: ReadyMount)
    ensures
        ready_model(c) == ready_model(*m),
{
    ReadyMount { name: m.name.clone(), source: m.source, path: m.path.clone() }
}

fn copy_strings(v: &Vec<String>) -> (c: Vec<String>)
    ensures
        views(c@) == views(v@),
{
    let mut c: Vec<String> = Vec::new();
    let mut i: usize = 0;
    while i < v.len()
        invariant
            i <= v@.len(),
            views(c@) == views(v@).take(i as int),
        decreases v@.len() - i,
    {
        let ghost before = c@;
        c.push(v[i].clone());
        assert(views(c@) =~= views(before).push(v@[i as int]@));
        assert(views(v@).take(i + 1) =~= views(v@).take(i as int).push(v@[i as int]@));
        i = i + 1;
    }
    assert(views(v@).take(i as int) =~= views(v@));
    c
}

fn copy_skipped(m: &SkippedMount) -> (c: SkippedMount)
    ensures
        skipped_model(c) == skipped_model(*m),
{
    SkippedMount {
        name: m.name.clone(),
        source: m.source,
        status: m.status,
        reason: m.reason.clone(),
        candidates: copy_strings(&m.candidates),
    }
}

/// Ready mounts sorted stably by name.
fn sort_ready(v: &Vec<ReadyMount>) -> (out: Vec<ReadyMount>)
    ensures
        ready_models(out@) == sort_by_key(ready_models(v@), |m: ReadyModel| ready_name(m)),
{
    let ghost key = |m: ReadyModel| ready_name(m);
    let mut out: Vec<ReadyMount> = Vec::new();
    let mut i: usize = 0;
    while i < v.len()
        invariant
            i <= v@.len(),
            key == (|m: ReadyModel| ready_name(m)),
            ready_models(out@) == sort_by_key(ready_models(v@).take(i as int), key),
        decreases v@.len() - i,
    {
        let ghost sorted = ready_models(out@);
        let ghost k = v@[i as int].name@;
        assert(ready_models(v@).take(i + 1).drop_last() =~= ready_models(v@).take(i as int));
        assert(ready_models(v@).take(i + 1).last() == ready_model(v@[i as int]));
        let mut j: usize = 0;
        while j < out.len() && !crate::text::str_lt(v[i].name.as_str(), out[j].name.as_str())
            invariant
                j <= out@.len(),
                i < v@.len(),
                k == v@[i as int].name@,
                sorted == ready_models(out@),
                key == (|m: ReadyModel| ready_name(m)),
                insert_pos(sorted, key, k, 0) == insert_pos(sorted, key, k, j as int),
            decreases out@.len() - j,
        {
            assert(key(sorted[j as int]) == out@[j as int].name@);
            j = j + 1;
        }
        proof {
            lemma_insert_pos_bounds(sorted, key, k, j as int);
        }
        assert(insert_pos(sorted, key, k, j as int) == j);
        out.insert(j, copy_ready(&v[i]));
        assert(ready_models(out@) =~= sorted.insert(j as int, ready_model(v@[i as int])));
        i = i + 1;
    }
    assert(ready_models(v@).take(i as int) =~= ready_models(v@));
    out
}

/// Skipped mounts sorted stably by name.
fn sort_skipped(v: &Vec<SkippedMount>) -> (out: Vec<SkippedMount>)
    ensures
        skipped_models(out@) == sort_by_key(skipped_models(v@), |m: SkippedModel| skipped_name(m)),
{
    let ghost key = |m: SkippedModel| skipped_name(m);
    let mut out: Vec<SkippedMount> = Vec::new();
    let mut i: usize = 0;
    while i < v.len()
        invariant
            i <= v@.len(),
            key == (|m: SkippedModel| skipped_name(m)),
            skipped_models(out@) == sort_by_key(skipped_models(v@).take(i as int), key),
        decreases v@.len() - i,
    {
        let ghost sorted = skipped_models(out@);
        let ghost k = v@[i as int].name@;
        assert(skipped_models(v@).take(i + 1).drop_last() =~= skipped_models(v@).take(i as int));
        assert(skipped_models(v@).take(i + 1).last() == skipped_model(v@[i as int]));
        let mut j: usize = 0;
        while j < out.len() && !crate::text::str_lt(v[i].name.as_str(), out[j].name.as_str())
            invariant
                j <= out@.len(),
                i < v@.len(),
                k == v@[i as int].name@,
                sorted == skipped_models(out@),
                key == (|m: SkippedModel| skipped_name(m)),
                insert_pos(sorted, key, k, 0) == insert_pos(sorted, key, k, j as int),
            decreases out@.len() - j,
        {
            assert(key(sorted[j as int]) == out@[j as int].name@);
            j = j + 1;
        }
        proof {
            lemma_insert_pos_bounds(sorted, key, k, j as int);
        }
        assert(insert_pos(sorted, key, k, j as int) == j);
        out.insert(j, copy_skipped(&v[i]));
        assert(skipped_models(out@) =~= sorted.insert(j as int, skipped_model(v@[i as int])));
        i = i + 1;
    }
    assert(skipped_models(v@).take(i as int) =~= skipped_models(v@));
    out
}


/// The mounts of a group with the given name, in the order found.
pub open spec fn group_of(ms: Seq<WindowsMount>, n: Seq<char>) -> Seq<WindowsMount>
    decreases ms.len(),
{
    if ms.len() == 0 {
        Seq::empty()
    } else {
        group_of(ms.drop_last(), n) + if ms.last().name@ == n {
            seq![ms.last()]
        } else {
            Seq::empty()
        }
    }
}

/// Whether any mount of a group has an unstable drive letter.
pub open spec fn any_dynamic(g: Seq<WindowsMount>) -> bool
    decreases g.len(),
{
    g.len() > 0 && (any_dynamic(g.drop_last()) || g.last().dynamic)
}

/// The paths of a group.
pub open spec fn group_paths(g: Seq<WindowsMount>) -> Seq<Seq<char>> {
    g.map_values(|m: WindowsMount| m.path@)
}

/// The distinct names of Windows mounts.
pub open spec fn mount_names(ms: Seq<WindowsMount>) -> Set<Seq<char>> {
    ms.map_values(|m: WindowsMount| m.name@).to_set()
}

/// Whether a group is offered: no unstable letter and one path once case
/// variants count once.
pub open spec fn group_ready(g: Seq<WindowsMount>) -> bool {
    !any_dynamic(g) && dedup_model(group_paths(g)).len() == 1
}

/// The reason an ambiguous group is skipped: several provider roots for
/// OneDrive, a name collision otherwise.
pub open spec fn ambiguous_reason(source: Source) -> Seq<char> {
    if source == Source::OneDrive || source == Source::OneDriveBusiness {
        "multiple-provider-paths"@
    } else {
        "mount-name-collision"@
    }
}

/// The entry of a group that is not offered.
pub open spec fn group_skipped(n: Seq<char>, g: Seq<WindowsMount>) -> SkippedModel {
    SkippedModel {
        name: n,
        source: g[0].source,
        status: if any_dynamic(g) {
            SkipStatus::Skipped
        } else {
            SkipStatus::Ambiguous
        },
        reason: if any_dynamic(g) {
            "dynamic-drive-letter"@
        } else {
            ambiguous_reason(g[0].source)
        },
        candidates: dedup_model(group_paths(g)),
    }
}

/// The offered Windows mounts for the groups `names`, in order.
pub open spec fn windows_ready(names: Seq<Seq<char>>, ms: Seq<WindowsMount>) -> Seq<ReadyModel>
    decreases names.len(),
{
    if names.len() == 0 {
        Seq::empty()
    } else {
        let n = names.last();
        let g = group_of(ms, n);
        windows_ready(names.drop_last(), ms) + if group_ready(g) {
            seq![ReadyModel { name: n, source: g[0].source, path: dedup_model(group_paths(g))[0] }]
        } else {
            Seq::empty()
        }
    }
}

/// The Windows mounts not offered for the groups `names`, in order.
pub open spec fn windows_skipped(names: Seq<Seq<char>>, ms: Seq<WindowsMount>) -> Seq<SkippedModel>
    decreases names.len(),
{
    if names.len() == 0 {
        Seq::empty()
    } else {
        let n = names.last();
        let g = group_of(ms, n);
        windows_skipped(names.drop_last(), ms) + if group_ready(g) {
            Seq::empty()
        } else {
            seq![group_skipped(n, g)]
        }
    }
}

/// Discovery on Windows: one entry per name in increasing order, offered
/// when it is stable and unambiguous; the API warnings as they came.
pub open spec fn windows_report(c: &DiscoveryContext) -> ReportModel {
    let names = sorted_seq(mount_names(c.windows_mounts@));
    ReportModel {
        ready: windows_ready(names, c.windows_mounts@),
        skipped: windows_skipped(names, c.windows_mounts@),
        warnings: views(c.windows_warnings@),
    }
}

proof fn lemma_group_member(ms: Seq<WindowsMount>, n: Seq<char>)
    requires
        mount_names(ms).contains(n),
    ensures
        group_of(ms, n).len() > 0,
    decreases ms.len(),
{
    let names = ms.map_values(|m: WindowsMount| m.name@);
    let k = choose|k: int| 0 <= k < names.len() && #[trigger] names[k] == n;
    if ms.last().name@ != n {
        assert(k < ms.len() - 1);
        assert(ms.drop_last().map_values(|m: WindowsMount| m.name@)[k] == n);
        assert(mount_names(ms.drop_last()).contains(n));
        lemma_group_member(ms.drop_last(), n);
    }
}

fn scan_windows(c: &DiscoveryContext) -> (r: ScanReport)
    ensures
        report_model(&r) == windows_report(c),
{
    let ms = &c.windows_mounts;
    let mut names: Vec<String> = Vec::new();
    let mut i: usize = 0;
    assert(views(names@).to_set() =~= Set::<Seq<char>>::empty());
    while i < ms.len()
        invariant
            i <= ms@.len(),
            strictly_sorted(views(names@)),
            views(names@).to_set() == ms@.take(i as int).map_values(|m: WindowsMount| m.name@).to_set(),
        decreases ms@.len() - i,
    {
        insert_sorted(&mut names, ms[i].name.clone());
        proof {
            assert(ms@.take(i + 1).map_values(|m: WindowsMount| m.name@) =~= ms@.take(i as int).map_values(
                |m: WindowsMount| m.name@,
            ).push(ms@[i as int].name@));
            ms@.take(i as int).map_values(|m: WindowsMount| m.name@).lemma_push_to_set_commute(ms@[i as int].name@);
        }
        i = i + 1;
    }
    assert(ms@.take(i as int) =~= ms@);
    proof {
        lemma_sorted_seq(views(names@));
    }
    let ghost all = views(names@);
    let mut ready: Vec<ReadyMount> = Vec::new();
    let mut skipped: Vec<SkippedMount> = Vec::new();
    let mut j: usize = 0;
    while j < names.len()
        invariant
            j <= names@.len(),
            all == views(names@),
            all.to_set() == mount_names(ms@),
            ready_models(ready@) == windows_ready(all.take(j as int), ms@),
            skipped_models(skipped@) == windows_skipped(all.take(j as int), ms@),
        decreases names@.len() - j,
    {
        let ghost n = names@[j as int]@;
        assert(all.take(j + 1).drop_last() =~= all.take(j as int));
        assert(all.take(j + 1).last() == n);
        let mut paths: Vec<String> = Vec::new();
        let mut dynamic = false;
        let mut source = Source::Volume;
        let mut k: usize = 0;
        while k < ms.len()
            invariant
                k <= ms@.len(),
                j < names@.len(),
                n == names@[j as int]@,
                views(paths@) == group_paths(group_of(ms@.take(k as int), n)),
                dynamic == any_dynamic(group_of(ms@.take(k as int), n)),
                group_of(ms@.take(k as int), n).len() > 0 ==> source == group_of(ms@.take(k as int), n)[0].source,
            decreases ms@.len() - k,
        {
            assert(ms@.take(k + 1).drop_last() =~= ms@.take(k as int));
            let ghost before = group_of(ms@.take(k as int), n);
            if crate::text::str_eq(ms[k].name.as_str(), names[j].as_str()) {
                let ghost g = group_of(ms@.take(k + 1), n);
                assert(g =~= before.push(ms@[k as int]));
                assert(g.drop_last() =~= before);
                if paths.len() == 0 {
                    source = ms[k].source;
                }
                let ghost pbefore = paths@;
                paths.push(ms[k].path.clone());
                assert(views(paths@) =~= views(pbefore).push(ms@[k as int].path@));
                assert(group_paths(g) =~= group_paths(before).push(ms@[k as int].path@));
                dynamic = dynamic || ms[k].dynamic;
            } else {
                assert(group_of(ms@.take(k + 1), n) =~= before);
            }
            k = k + 1;
        }
        assert(ms@.take(k as int) =~= ms@);
        proof {
            assert(all.to_set().contains(n)) by {
                assert(all[j as int] == n);
            }
            lemma_group_member(ms@, n);
        }
        let unique = deduplicate_windows_paths(&paths);
        let name = names[j].clone();
        if dynamic {
            skipped.push(SkippedMount {
                name,
                source,
                status: SkipStatus::Skipped,
                reason: owned("dynamic-drive-letter"),
                candidates: unique,
            });
        } else if unique.len() == 1 {
            ready.push(ReadyMount { name, source, path: unique[0].clone() });
        } else {
            let reason = if source == Source::OneDrive || source == Source::OneDriveBusiness {
                owned("multiple-provider-paths")
            } else {
                owned("mount-name-collision")
            };
            skipped.push(SkippedMount {
                name,
                source,
                status: SkipStatus::Ambiguous,
                reason,
                candidates: unique,
            });
        }
        assert(ready_models(ready@) =~= windows_ready(all.take(j + 1), ms@));
        assert(skipped_models(skipped@) =~= windows_skipped(all.take(j + 1), ms@));
        j = j + 1;
    }
    assert(all.take(j as int) =~= all);
    ScanReport { ready, skipped, warnings: copy_strings(&c.windows_warnings) }
}


/// The last component of a path when it is a name (`Path::file_name`).
pub open spec fn file_name_model(p: Seq<char>) -> Option<Seq<char>> {
    let c = path_components(p, false);
    if c.len() == 0 {
        None
    } else {
        match c.last() {
            ComponentModel::Normal(n) => Some(n),
            _ => None,
        }
    }
}

/// The mount name of a volume path.
pub open spec fn volume_name(p: Seq<char>) -> Option<Seq<char>> {
    match file_name_model(p) {
        Some(n) => slug_model(n),
        None => None,
    }
}

/// The mount name of a volume path.
fn volume_name_of(p: &str) -> (r: Option<String>)
    ensures
        match r {
            Some(n) => volume_name(p@) == Some(n@),
            None => volume_name(p@) is None,
        },
{
    let c = components(p, false);
    if c.len() == 0 {
        return None;
    }
    assert(components_model(c@).last() == crate::paths::component_model(c@[c@.len() - 1]));
    match &c[c.len() - 1] {
        Component::Normal(n) => slug(n.as_str()),
        _ => None,
    }
}

/// Paths that already belong to a provider.
pub open spec fn provider_set(c: &DiscoveryContext) -> Set<Seq<char>> {
    google_set(c) + match c.icloud {
        Some(p) => set![p@],
        None => Set::empty(),
    }
}

/// The volume paths that may become mounts: not the root and not a
/// provider's folder.
pub open spec fn considered(vols: Seq<Seq<char>>, provider: Set<Seq<char>>) -> Seq<Seq<char>>
    decreases vols.len(),
{
    if vols.len() == 0 {
        Seq::empty()
    } else {
        let p = vols.last();
        considered(vols.drop_last(), provider) + if p == "/"@ || provider.contains(p) {
            Seq::empty()
        } else {
            seq![p]
        }
    }
}

/// The volumes whose name gives no mount name.
pub open spec fn invalid_volumes(cs: Seq<Seq<char>>) -> Seq<SkippedModel>
    decreases cs.len(),
{
    if cs.len() == 0 {
        Seq::empty()
    } else {
        invalid_volumes(cs.drop_last()) + if volume_name(cs.last()) is None {
            seq![
                SkippedModel {
                    name: "volume"@,
                    source: Source::Volume,
                    status: SkipStatus::Skipped,
                    reason: "invalid-volume-name"@,
                    candidates: seq![cs.last()],
                },
            ]
        } else {
            Seq::empty()
        }
    }
}

/// The mount names that volumes give, in volume order.
pub open spec fn name_list(cs: Seq<Seq<char>>) -> Seq<Seq<char>>
    decreases cs.len(),
{
    if cs.len() == 0 {
        Seq::empty()
    } else {
        name_list(cs.drop_last()) + match volume_name(cs.last()) {
            Some(n) => seq![n],
            None => Seq::empty(),
        }
    }
}

/// The volumes that give the mount name `n`, in volume order.
pub open spec fn named_paths(cs: Seq<Seq<char>>, n: Seq<char>) -> Seq<Seq<char>>
    decreases cs.len(),
{
    if cs.len() == 0 {
        Seq::empty()
    } else {
        named_paths(cs.drop_last(), n) + if volume_name(cs.last()) == Some(n) {
            seq![cs.last()]
        } else {
            Seq::empty()
        }
    }
}

/// The volumes offered as mounts: a name that one volume gives and no
/// provider mount took.
pub open spec fn volume_ready(names: Seq<Seq<char>>, cs: Seq<Seq<char>>, taken: Set<Seq<char>>) -> Seq<ReadyModel>
    decreases names.len(),
{
    if names.len() == 0 {
        Seq::empty()
    } else {
        let n = names.last();
        let ps = named_paths(cs, n);
        volume_ready(names.drop_last(), cs, taken) + if ps.len() == 1 && !taken.contains(n) {
            seq![ReadyModel { name: n, source: Source::Volume, path: ps[0] }]
        } else {
            Seq::empty()
        }
    }
}

/// The volume names that collide.
pub open spec fn volume_skipped(names: Seq<Seq<char>>, cs: Seq<Seq<char>>, taken: Set<Seq<char>>) -> Seq<SkippedModel>
    decreases names.len(),
{
    if names.len() == 0 {
        Seq::empty()
    } else {
        let n = names.last();
        let ps = named_paths(cs, n);
        volume_skipped(names.drop_last(), cs, taken) + if ps.len() == 1 && !taken.contains(n) {
            Seq::empty()
        } else {
            seq![
                SkippedModel {
                    name: n,
                    source: Source::Volume,
                    status: SkipStatus::Ambiguous,
                    reason: "mount-name-collision"@,
                    candidates: ps,
                },
            ]
        }
    }
}

/// The provider mounts found on macOS.
pub open spec fn provider_ready(c: &DiscoveryContext) -> Seq<ReadyModel> {
    let google = sorted_paths(google_set(c));
    (match c.icloud {
        Some(p) => seq![ReadyModel { name: "icloud"@, source: Source::Icloud, path: p@ }],
        None => Seq::empty(),
    }) + if google.len() == 1 {
        seq![ReadyModel { name: "google-drive"@, source: Source::GoogleDrive, path: google[0] }]
    } else {
        Seq::empty()
    }
}

/// Several Google Drive folders make the provider ambiguous.
pub open spec fn provider_skipped(c: &DiscoveryContext) -> Seq<SkippedModel> {
    let google = sorted_paths(google_set(c));
    if google.len() > 1 {
        seq![
            SkippedModel {
                name: "google-drive"@,
                source: Source::GoogleDrive,
                status: SkipStatus::Ambiguous,
                reason: "multiple-provider-paths"@,
                candidates: google,
            },
        ]
    } else {
        Seq::empty()
    }
}

/// The visible volumes, each once, in `Path` order.
pub open spec fn volume_paths(c: &DiscoveryContext) -> Seq<Seq<char>> {
    sorted_paths(matched(listing_entries(&c.volumes), "."@, true).to_set())
}

/// Discovery on macOS: iCloud Drive, Google Drive (one folder, or skipped as
/// ambiguous), and the visible volumes that are neither the root nor a
/// provider's folder, named by their slug; each list sorted by name.
pub open spec fn macos_report(c: &DiscoveryContext) -> ReportModel {
    let cs = considered(volume_paths(c), provider_set(c));
    let names = sorted_seq(name_list(cs).to_set());
    let taken = provider_ready(c).map_values(|m: ReadyModel| m.name).to_set();
    ReportModel {
        ready: sort_by_key(
            provider_ready(c) + volume_ready(names, cs, taken),
            |m: ReadyModel| ready_name(m),
        ),
        skipped: sort_by_key(
            provider_skipped(c) + invalid_volumes(cs) + volume_skipped(names, cs, taken),
            |m: SkippedModel| skipped_name(m),
        ),
        warnings: google_warnings(c) + listing_warning(c.volumes_root@, &c.volumes),
    }
}

/// What discovery finds.
pub open spec fn scan_model(c: &DiscoveryContext) -> ReportModel {
    match c.platform {
        Platform::Windows => windows_report(c),
        Platform::Other => ReportModel {
            ready: Seq::empty(),
            skipped: Seq::empty(),
            warnings: seq!["automatic mount discovery is supported only on macOS and Windows"@],
        },
        Platform::Macos => macos_report(c),
    }
}

fn listed_in(v: &Vec<String>, p: &str) -> (found: bool)
    ensures
        found == views(v@).contains(p@),
{
    let mut i: usize = 0;
    while i < v.len()
        invariant
            i <= v@.len(),
            forall|k: int| 0 <= k < i ==> #[trigger] v@[k]@ != p@,
        decreases v@.len() - i,
    {
        if crate::text::str_eq(v[i].as_str(), p) {
            assert(views(v@)[i as int] == p@);
            return true;
        }
        i = i + 1;
    }
    proof {
        if views(v@).contains(p@) {
            let k = choose|k: int| 0 <= k < views(v@).len() && views(v@)[k] == p@;
            assert(v@[k]@ == p@);
        }
    }
    false
}

fn scan_macos(c: &DiscoveryContext) -> (r: ScanReport)
    ensures
        report_model(&r) == macos_report(c),
{
    let mut warnings: Vec<String> = Vec::new();
    let google = google_candidates(c, &mut warnings);
    let mut ready: Vec<ReadyMount> = Vec::new();
    let mut skipped: Vec<SkippedMount> = Vec::new();
    match &c.icloud {
        Some(p) => {
            ready.push(ReadyMount { name: owned("icloud"), source: Source::Icloud, path: p.clone() });
        },
        None => {},
    }
    if google.len() == 1 {
        ready.push(ReadyMount { name: owned("google-drive"), source: Source::GoogleDrive, path: google[0].clone() });
    } else if google.len() > 1 {
        skipped.push(SkippedMount {
            name: owned("google-drive"),
            source: Source::GoogleDrive,
            status: SkipStatus::Ambiguous,
            reason: owned("multiple-provider-paths"),
            candidates: copy_strings(&google),
        });
    }
    assert(ready_models(ready@) =~= provider_ready(c));
    assert(skipped_models(skipped@) =~= provider_skipped(c));
    let ghost taken = provider_ready(c).map_values(|m: ReadyModel| m.name).to_set();
    let ghost provider = provider_set(c);
    let vols = matching_children(&c.volumes, ".", true);
    warn_listing(c.volumes_root.as_str(), &c.volumes, &mut warnings);
    // The volumes that may become mounts, with the names they give.
    let mut cs: Vec<String> = Vec::new();
    let mut i: usize = 0;
    while i < vols.len()
        invariant
            i <= vols@.len(),
            provider == provider_set(c),
            views(google@) == sorted_paths(google_set(c)),
            views(google@).to_set() == google_set(c),
            views(cs@) == considered(views(vols@).take(i as int), provider),
        decreases vols@.len() - i,
    {
        assert(views(vols@).take(i + 1).drop_last() =~= views(vols@).take(i as int));
        let p = &vols[i];
        let is_root = crate::text::str_eq(p.as_str(), "/");
        let in_google = listed_in(&google, p.as_str());
        let is_icloud = match &c.icloud {
            Some(q) => crate::text::str_eq(q.as_str(), p.as_str()),
            None => false,
        };
        let ghost before = cs@;
        if !(is_root || in_google || is_icloud) {
            cs.push(p.clone());
            assert(views(cs@) =~= views(before).push(p@));
        }
        assert(views(cs@) =~= considered(views(vols@).take(i + 1), provider));
        i = i + 1;
    }
    assert(views(vols@).take(i as int) =~= views(vols@));
    let ghost cv = views(cs@);
    // Volumes without a name, and the names that the others give.
    let mut names: Vec<String> = Vec::new();
    let mut given: Vec<Option<String>> = Vec::new();
    let mut k: usize = 0;
    assert(views(names@).to_set() =~= Set::<Seq<char>>::empty());
    while k < cs.len()
        invariant
            k <= cs@.len(),
            cv == views(cs@),
            given@.len() == k,
            forall|m: int| 0 <= m < k ==> match #[trigger] given@[m] {
                Some(n) => volume_name(cv[m]) == Some(n@),
                None => volume_name(cv[m]) is None,
            },
            strictly_sorted(views(names@)),
            views(names@).to_set() == name_list(cv.take(k as int)).to_set(),
            skipped_models(skipped@) == provider_skipped(c) + invalid_volumes(cv.take(k as int)),
        decreases cs@.len() - k,
    {
        assert(cv.take(k + 1).drop_last() =~= cv.take(k as int));
        assert(cv.take(k + 1).last() == cv[k as int]);
        let n = volume_name_of(cs[k].as_str());
        match &n {
            Some(name) => {
                insert_sorted(&mut names, name.clone());
                proof {
                    assert(name_list(cv.take(k + 1)) =~= name_list(cv.take(k as int)).push(name@));
                    name_list(cv.take(k as int)).lemma_push_to_set_commute(name@);
                }
                assert(invalid_volumes(cv.take(k + 1)) =~= invalid_volumes(cv.take(k as int)));
            },
            None => {
                let mut one: Vec<String> = Vec::new();
                one.push(cs[k].clone());
                let ghost before = skipped@;
                skipped.push(SkippedMount {
                    name: owned("volume"),
                    source: Source::Volume,
                    status: SkipStatus::Skipped,
                    reason: owned("invalid-volume-name"),
                    candidates: one,
                });
                assert(views(one@) =~= seq![cv[k as int]]);
                assert(skipped_models(skipped@) =~= skipped_models(before).push(skipped_model(skipped@[skipped@.len() - 1])));
                assert(name_list(cv.take(k + 1)) =~= name_list(cv.take(k as int)));
            },
        }
        given.push(n);
        k = k + 1;
    }
    assert(cv.take(k as int) =~= cv);
    proof {
        lemma_sorted_seq(views(names@));
    }
    let ghost nv = views(names@);
    let ghost ready0 = ready_models(ready@);
    let ghost skipped0 = skipped_models(skipped@);
    let provider_count = ready.len();
    assert(ready_models(ready@).take(provider_count as int) =~= ready0);
    let mut j: usize = 0;
    while j < names.len()
        invariant
            j <= names@.len(),
            nv == views(names@),
            cv == views(cs@),
            given@.len() == cv.len(),
            forall|m: int| 0 <= m < cv.len() ==> match #[trigger] given@[m] {
                Some(n) => volume_name(cv[m]) == Some(n@),
                None => volume_name(cv[m]) is None,
            },
            taken == provider_ready(c).map_values(|m: ReadyModel| m.name).to_set(),
            ready0 == provider_ready(c),
            ready_models(ready@) == ready0 + volume_ready(nv.take(j as int), cv, taken),
            skipped_models(skipped@) == skipped0 + volume_skipped(nv.take(j as int), cv, taken),
            provider_count == ready0.len(),
            provider_count <= ready@.len(),
            ready_models(ready@).take(provider_count as int) == ready0,
        decreases names@.len() - j,
    {
        let ghost n = nv[j as int];
        assert(nv.take(j + 1).drop_last() =~= nv.take(j as int));
        assert(nv.take(j + 1).last() == n);
        let mut paths: Vec<String> = Vec::new();
        let mut m: usize = 0;
        while m < cs.len()
            invariant
                m <= cs@.len(),
                j < names@.len(),
                n == names@[j as int]@,
                cv == views(cs@),
                given@.len() == cv.len(),
                forall|q: int| 0 <= q < cv.len() ==> match #[trigger] given@[q] {
                    Some(x) => volume_name(cv[q]) == Some(x@),
                    None => volume_name(cv[q]) is None,
                },
                views(paths@) == named_paths(cv.take(m as int), n),
            decreases cs@.len() - m,
        {
            assert(cv.take(m + 1).drop_last() =~= cv.take(m as int));
            assert(cv.take(m + 1).last() == cv[m as int]);
            let same = match &given[m] {
                Some(x) => crate::text::str_eq(x.as_str(), names[j].as_str()),
                None => false,
            };
            assert(same == (volume_name(cv[m as int]) == Some(n)));
            if same {
                let ghost before = paths@;
                paths.push(cs[m].clone());
                assert(views(paths@) =~= views(before).push(cv[m as int]));
            }
            assert(views(paths@) =~= named_paths(cv.take(m + 1), n));
            m = m + 1;
        }
        assert(cv.take(m as int) =~= cv);
        let mut is_taken = false;
        let mut q: usize = 0;
        while q < provider_count
            invariant
                q <= provider_count <= ready@.len(),
                j < names@.len(),
                n == names@[j as int]@,
                ready0.len() == provider_count,
                ready_models(ready@).take(provider_count as int) == ready0,
                is_taken == exists|x: int| 0 <= x < q && #[trigger] ready0[x].name == n,
            decreases provider_count - q,
        {
            assert(ready_models(ready@).take(provider_count as int)[q as int] == ready_model(ready@[q as int]));
            assert(ready0[q as int].name == ready@[q as int].name@);
            if crate::text::str_eq(ready[q].name.as_str(), names[j].as_str()) {
                is_taken = true;
            }
            assert(is_taken == exists|x: int| 0 <= x < q + 1 && #[trigger] ready0[x].name == n) by {
                if ready0[q as int].name == n {
                    assert(0 <= q < q + 1 && ready0[q as int].name == n);
                }
            }
            q = q + 1;
        }
        proof {
            let ns = ready0.map_values(|m: ReadyModel| m.name);
            if is_taken {
                let x = choose|x: int| 0 <= x < provider_count && #[trigger] ready0[x].name == n;
                assert(ns[x] == n);
            }
            if taken.contains(n) {
                let x = choose|x: int| 0 <= x < ns.len() && ns[x] == n;
                assert(ready0[x].name == n);
            }
        }
        let name = names[j].clone();
        let ghost rbefore = ready@;
        let ghost sbefore = skipped@;
        if paths.len() == 1 && !is_taken {
            ready.push(ReadyMount { name, source: Source::Volume, path: paths[0].clone() });
            assert(ready_models(ready@) =~= ready_models(rbefore).push(ready_model(ready@[ready@.len() - 1])));
        } else {
            skipped.push(SkippedMount {
                name,
                source: Source::Volume,
                status: SkipStatus::Ambiguous,
                reason: owned("mount-name-collision"),
                candidates: paths,
            });
            assert(skipped_models(skipped@) =~= skipped_models(sbefore).push(skipped_model(skipped@[skipped@.len() - 1])));
        }
        assert(ready_models(ready@) =~= ready0 + volume_ready(nv.take(j + 1), cv, taken));
        assert(ready_models(ready@).take(provider_count as int) =~= ready0);
        assert(skipped_models(skipped@) =~= skipped0 + volume_skipped(nv.take(j + 1), cv, taken));
        j = j + 1;
    }
    assert(nv.take(j as int) =~= nv);
    let sorted_ready = sort_ready(&ready);
    let sorted_skipped = sort_skipped(&skipped);
    ScanReport { ready: sorted_ready, skipped: sorted_skipped, warnings }
}


/// What discovery finds.
pub fn scan(context: &DiscoveryContext) -> (r: ScanReport)
    ensures
        report_model(&r) == scan_model(context),
{
    match context.platform {
        Platform::Windows => scan_windows(context),
        Platform::Other => {
            let mut warnings: Vec<String> = Vec::new();
            warnings.push(owned("automatic mount discovery is supported only on macOS and Windows"));
            let r = ScanReport { ready: Vec::new(), skipped: Vec::new(), warnings };
            assert(report_model(&r).ready =~= Seq::<ReadyModel>::empty());
            assert(report_model(&r).skipped =~= Seq::<SkippedModel>::empty());
            assert(report_model(&r).warnings =~= seq!["automatic mount discovery is supported only on macOS and Windows"@]);
            r
        },
        Platform::Macos => scan_macos(context),
    }
}

impl ScanReport {
    /// The names and paths of the ready mounts, in order.
    pub fn ready_mounts(&self) -> (v: Vec<(String, String)>)
        ensures
            v@.len() == self.ready@.len(),
            forall|i: int|
                0 <= i < v@.len() ==> (#[trigger] v@[i]).0@ == self.ready@[i].name@ && v@[i].1@
                    == self.ready@[i].path@,
    {
        let mut v: Vec<(String, String)> = Vec::new();
        let mut i: usize = 0;
        while i < self.ready.len()
            invariant
                i <= self.ready@.len(),
                v@.len() == i,
                forall|k: int|
                    0 <= k < i ==> (#[trigger] v@[k]).0@ == self.ready@[k].name@ && v@[k].1@
                        == self.ready@[k].path@,
            decreases self.ready@.len() - i,
        {
            v.push((self.ready[i].name.clone(), self.ready[i].path.clone()));
            i = i + 1;
        }
        v
    }
}

/// The TOML that `toml` writes for a table `mounts` holding one table `name`
/// whose `path` is the given string.
pub uninterp spec fn toml_mount_snippet(name: Seq<char>, path: Seq<char>) -> Seq<char>;

/// A `[mounts]` entry for a path, as `toml::to_string` writes it.
#[verifier::external_body]
fn mount_toml(name: &str, path: &str) -> (snippet: String)
    ensures
        snippet@ == toml_mount_snippet(name@, path@),
{
    let mut entry = toml::Table::new();
    entry.insert("path".to_owned(), toml::Value::String(path.to_owned()));
    let mut mounts = toml::Table::new();
    mounts.insert(name.to_owned(), toml::Value::Table(entry));
    let mut root = toml::Table::new();
    root.insert("mounts".to_owned(), toml::Value::Table(mounts));
    toml::to_string(&root).unwrap_or_default()
}

/// The UTF-8 length of a text, which `str::len` gives.
pub open spec fn byte_len(s: Seq<char>) -> nat {
    vstd::utf8::encode_utf8(s).len()
}

/// A row of the table.
pub struct RowModel {
    pub name: Seq<char>,
    pub source: Seq<char>,
    pub status: Seq<char>,
    pub path: Seq<char>,
}

/// The status of a skipped mount as the table shows it.
pub open spec fn status_text(s: SkipStatus) -> Seq<char> {
    match s {
        SkipStatus::Ambiguous => "ambiguous"@,
        SkipStatus::Skipped => "skipped"@,
    }
}

/// The rows of the table: a header, the ready mounts, then the skipped ones
/// with their number of candidates.
pub open spec fn table_rows(r: ReportModel) -> Seq<RowModel> {
    seq![RowModel { name: "NAME"@, source: "SOURCE"@, status: "STATUS"@, path: "PATH"@ }]
        + r.ready.map_values(
        |m: ReadyModel| RowModel { name: m.name, source: source_text(m.source), status: "ready"@, path: m.path },
    ) + r.skipped.map_values(
        |m: SkippedModel|
            RowModel {
                name: m.name,
                source: source_text(m.source),
                status: status_text(m.status),
                path: decimal_text(m.candidates.len()) + " candidate(s)"@,
            },
    )
}

/// The text of column `c` (0 to 2) of a row.
pub open spec fn column(row: RowModel, c: int) -> Seq<char> {
    if c == 0 {
        row.name
    } else if c == 1 {
        row.source
    } else {
        row.status
    }
}

/// The width of column `c` over the first `n` rows: the largest UTF-8 length.
pub open spec fn width(rows: Seq<RowModel>, c: int, n: int) -> nat
    decreases n,
{
    if n <= 0 {
        0
    } else {
        let w = width(rows, c, n - 1);
        let l = byte_len(column(rows[n - 1], c));
        if l > w {
            l
        } else {
            w
        }
    }
}

/// `n` spaces.
pub open spec fn spaces(n: int) -> Seq<char> {
    Seq::new(if n > 0 { n as nat } else { 0 }, |i: int| ' ')
}

/// A text left-aligned in a field of `w` characters (`{:<w$}`).
pub open spec fn padded(s: Seq<char>, w: nat) -> Seq<char> {
    s + spaces(w - s.len())
}

/// One line of the table.
pub open spec fn table_line(row: RowModel, w0: nat, w1: nat, w2: nat) -> Seq<char> {
    padded(row.name, w0) + "  "@ + padded(row.source, w1) + "  "@ + padded(row.status, w2) + "  "@
        + row.path
}

/// The table of a report.
pub open spec fn table_text(r: ReportModel) -> Seq<char> {
    let rows = table_rows(r);
    let n = rows.len() as int;
    joined(
        rows.map_values(|row: RowModel| table_line(row, width(rows, 0, n), width(rows, 1, n), width(rows, 2, n))),
        "\n"@,
    )
}

/// What a skipped mount's reason says in the diagnostics.
pub open spec fn detail_text(m: SkippedModel) -> Seq<char> {
    if m.reason == "multiple-provider-paths"@ {
        decimal_text(m.candidates.len()) + " possible paths"@
    } else if m.reason == "mount-name-collision"@ {
        decimal_text(m.candidates.len()) + " paths produce the same mount name"@
    } else if m.reason == "invalid-volume-name"@ {
        "path cannot be converted to a mount name"@
    } else {
        crate::text::replace_char(m.reason, '-', " "@)
    }
}

/// The diagnostics of one skipped mount.
pub open spec fn skipped_lines(m: SkippedModel, verbose: bool) -> Seq<Seq<char>> {
    seq![
        "  [warn] "@ + m.name + ": "@ + detail_text(m) + if verbose {
            Seq::empty()
        } else {
            "; rerun with --verbose for candidate paths"@
        },
    ] + if verbose {
        candidate_lines(m.name, m.candidates)
    } else {
        Seq::empty()
    }
}

/// For each candidate, its path and the configuration it would take.
pub open spec fn candidate_lines(name: Seq<char>, cands: Seq<Seq<char>>) -> Seq<Seq<char>>
    decreases cands.len(),
{
    if cands.len() == 0 {
        Seq::empty()
    } else {
        candidate_lines(name, cands.drop_last()) + seq![
            "    candidate: "@ + cands.last(),
            crate::text::trim_end(toml_mount_snippet(name, cands.last())),
        ]
    }
}

/// The diagnostics of all skipped mounts.
pub open spec fn all_skipped_lines(ms: Seq<SkippedModel>, verbose: bool) -> Seq<Seq<char>>
    decreases ms.len(),
{
    if ms.len() == 0 {
        Seq::empty()
    } else {
        all_skipped_lines(ms.drop_last(), verbose) + skipped_lines(ms.last(), verbose)
    }
}

/// The suggested configuration of the ready mounts.
pub open spec fn suggestion_lines(ms: Seq<ReadyModel>) -> Seq<Seq<char>> {
    ms.map_values(|m: ReadyModel| crate::text::trim_end(toml_mount_snippet(m.name, m.path)))
}

/// The diagnostics of a report: the skipped mounts, the warnings, and with
/// `verbose` the suggested configuration of the ready mounts.
pub open spec fn diagnostics(r: ReportModel, verbose: bool) -> Seq<Seq<char>> {
    (if r.skipped.len() > 0 {
        seq!["Skipped:"@] + all_skipped_lines(r.skipped, verbose)
    } else {
        Seq::empty()
    }) + r.warnings.map_values(|w: Seq<char>| "cj: warning: "@ + w) + if verbose && r.ready.len() > 0 {
        seq!["Suggested config:"@] + suggestion_lines(r.ready)
    } else {
        Seq::empty()
    }
}


/// A row of the table.
struct Row {
    name: String,
    source: String,
    status: String,
    path: String,
}

spec fn row_model(r: Row) -> RowModel {
    RowModel { name: r.name@, source: r.source@, status: r.status@, path: r.path@ }
}

spec fn row_models(v: Seq<Row>) -> Seq<RowModel> {
    v.map_values(|r: Row| row_model(r))
}

fn table_rows_of(report: &ScanReport) -> (rows: Vec<Row>)
    ensures
        row_models(rows@) == table_rows(report_model(report)),
{
    let ghost r = report_model(report);
    let mut rows: Vec<Row> = Vec::new();
    rows.push(Row { name: owned("NAME"), source: owned("SOURCE"), status: owned("STATUS"), path: owned("PATH") });
    let ghost head = row_models(rows@);
    let mut i: usize = 0;
    while i < report.ready.len()
        invariant
            i <= report.ready@.len(),
            r == report_model(report),
            head == seq![RowModel { name: "NAME"@, source: "SOURCE"@, status: "STATUS"@, path: "PATH"@ }],
            row_models(rows@) == head + r.ready.take(i as int).map_values(
                |m: ReadyModel| RowModel { name: m.name, source: source_text(m.source), status: "ready"@, path: m.path },
            ),
        decreases report.ready@.len() - i,
    {
        let m = &report.ready[i];
        let ghost before = rows@;
        rows.push(Row { name: m.name.clone(), source: owned(source_name(m.source)), status: owned("ready"), path: m.path.clone() });
        assert(r.ready[i as int] == ready_model(*m));
        assert(row_models(rows@) =~= row_models(before).push(RowModel { name: m.name@, source: source_text(m.source), status: "ready"@, path: m.path@ }));
        assert(r.ready.take(i + 1).map_values(
            |m: ReadyModel| RowModel { name: m.name, source: source_text(m.source), status: "ready"@, path: m.path },
        ) =~= r.ready.take(i as int).map_values(
            |m: ReadyModel| RowModel { name: m.name, source: source_text(m.source), status: "ready"@, path: m.path },
        ).push(RowModel { name: m.name@, source: source_text(m.source), status: "ready"@, path: m.path@ }));
        i = i + 1;
    }
    assert(r.ready.take(i as int) =~= r.ready);
    let ghost mid = row_models(rows@);
    let mut j: usize = 0;
    while j < report.skipped.len()
        invariant
            j <= report.skipped@.len(),
            r == report_model(report),
            row_models(rows@) == mid + r.skipped.take(j as int).map_values(
                |m: SkippedModel|
                    RowModel {
                        name: m.name,
                        source: source_text(m.source),
                        status: status_text(m.status),
                        path: decimal_text(m.candidates.len()) + " candidate(s)"@,
                    },
            ),
        decreases report.skipped@.len() - j,
    {
        let m = &report.skipped[j];
        let status = match m.status {
            SkipStatus::Ambiguous => owned("ambiguous"),
            SkipStatus::Skipped => owned("skipped"),
        };
        let mut count = decimal(m.candidates.len());
        push_str(&mut count, " candidate(s)");
        let ghost before = rows@;
        let ghost row = RowModel {
            name: m.name@,
            source: source_text(m.source),
            status: status_text(m.status),
            path: decimal_text(views(m.candidates@).len()) + " candidate(s)"@,
        };
        rows.push(Row { name: m.name.clone(), source: owned(source_name(m.source)), status, path: count });
        assert(r.skipped[j as int] == skipped_model(*m));
        assert(row_models(rows@) =~= row_models(before).push(row));
        assert(r.skipped.take(j + 1).map_values(
            |m: SkippedModel|
                RowModel {
                    name: m.name,
                    source: source_text(m.source),
                    status: status_text(m.status),
                    path: decimal_text(m.candidates.len()) + " candidate(s)"@,
                },
        ) =~= r.skipped.take(j as int).map_values(
            |m: SkippedModel|
                RowModel {
                    name: m.name,
                    source: source_text(m.source),
                    status: status_text(m.status),
                    path: decimal_text(m.candidates.len()) + " candidate(s)"@,
                },
        ).push(row));
        j = j + 1;
    }
    assert(r.skipped.take(j as int) =~= r.skipped);
    rows
}

fn column_of(row: &Row, c: usize) -> (t: &str)
    requires
        c < 3,
    ensures
        t@ == column(row_model(*row), c as int),
{
    if c == 0 {
        row.name.as_str()
    } else if c == 1 {
        row.source.as_str()
    } else {
        row.status.as_str()
    }
}

fn column_width(rows: &Vec<Row>, c: usize) -> (w: usize)
    requires
        c < 3,
    ensures
        w as nat == width(row_models(rows@), c as int, rows@.len() as int),
{
    let mut w: usize = 0;
    let mut i: usize = 0;
    while i < rows.len()
        invariant
            i <= rows@.len(),
            c < 3,
            w as nat == width(row_models(rows@), c as int, i as int),
        decreases rows@.len() - i,
    {
        let t = column_of(&rows[i], c);
        let l = t.as_bytes().len();
        assert(row_models(rows@)[i as int] == row_model(rows@[i as int]));
        assert(l as nat == byte_len(column(row_models(rows@)[i as int], c as int)));
        if l > w {
            w = l;
        }
        i = i + 1;
    }
    w
}

fn pad(out: &mut String, s: &str, w: usize)
    ensures
        final(out)@ == old(out)@ + padded(s@, w as nat),
{
    push_str(out, s);
    let n = chars_of(s).len();
    let ghost start = old(out)@ + s@;
    let mut k = n;
    while k < w
        invariant
            n == s@.len(),
            n <= k <= w || (k == n && n >= w),
            out@ == start + spaces(k - n),
        decreases w - k,
    {
        push_char(out, ' ');
        assert(spaces(k + 1 - n) =~= spaces(k - n).push(' '));
        k = k + 1;
    }
    assert(spaces(k - n) =~= spaces(w - n));
}

/// The table and the diagnostics of a scan.
pub open spec fn rendered_model(r: ReportModel, verbose: bool) -> (Seq<char>, Seq<char>) {
    (table_text(r), joined(diagnostics(r, verbose), "\n"@))
}

/// Renders a scan as a table on stdout and diagnostics on stderr.
pub fn render_table(report: &ScanReport, verbose: bool) -> (out: RenderedScan)
    ensures
        (out.stdout@, out.stderr@) == rendered_model(report_model(report), verbose),
{
    let rows = table_rows_of(report);
    let ghost rm = row_models(rows@);
    let w0 = column_width(&rows, 0);
    let w1 = column_width(&rows, 1);
    let w2 = column_width(&rows, 2);
    let mut lines: Vec<String> = Vec::new();
    let mut i: usize = 0;
    while i < rows.len()
        invariant
            i <= rows@.len(),
            rm == row_models(rows@),
            views(lines@) == rm.take(i as int).map_values(|row: RowModel| table_line(row, w0 as nat, w1 as nat, w2 as nat)),
        decreases rows@.len() - i,
    {
        let row = &rows[i];
        let mut line = String::new();
        pad(&mut line, row.name.as_str(), w0);
        push_str(&mut line, "  ");
        pad(&mut line, row.source.as_str(), w1);
        push_str(&mut line, "  ");
        pad(&mut line, row.status.as_str(), w2);
        push_str(&mut line, "  ");
        push_str(&mut line, row.path.as_str());
        assert(line@ =~= table_line(row_model(*row), w0 as nat, w1 as nat, w2 as nat));
        let ghost before = lines@;
        lines.push(line);
        assert(views(lines@) =~= views(before).push(table_line(rm[i as int], w0 as nat, w1 as nat, w2 as nat)));
        assert(rm.take(i + 1).map_values(|row: RowModel| table_line(row, w0 as nat, w1 as nat, w2 as nat)) =~= rm.take(
            i as int,
        ).map_values(|row: RowModel| table_line(row, w0 as nat, w1 as nat, w2 as nat)).push(
            table_line(rm[i as int], w0 as nat, w1 as nat, w2 as nat),
        ));
        i = i + 1;
    }
    assert(rm.take(i as int) =~= rm);
    let stdout = join(&lines, "\n");
    let ghost r = report_model(report);
    let mut diagnostics_v: Vec<String> = Vec::new();
    if report.skipped.len() > 0 {
        diagnostics_v.push(owned("Skipped:"));
        let mut j: usize = 0;
        while j < report.skipped.len()
            invariant
                j <= report.skipped@.len(),
                r == report_model(report),
                report.skipped@.len() > 0,
                views(diagnostics_v@) == seq!["Skipped:"@] + all_skipped_lines(r.skipped.take(j as int), verbose),
            decreases report.skipped@.len() - j,
        {
            let m = &report.skipped[j];
            assert(r.skipped[j as int] == skipped_model(*m));
            assert(r.skipped.take(j + 1).drop_last() =~= r.skipped.take(j as int));
            let mut head = owned("  [warn] ");
            push_str(&mut head, m.name.as_str());
            push_str(&mut head, ": ");
            let n = m.candidates.len();
            if crate::text::str_eq(m.reason.as_str(), "multiple-provider-paths") {
                push_str(&mut head, decimal(n).as_str());
                push_str(&mut head, " possible paths");
            } else if crate::text::str_eq(m.reason.as_str(), "mount-name-collision") {
                push_str(&mut head, decimal(n).as_str());
                push_str(&mut head, " paths produce the same mount name");
            } else if crate::text::str_eq(m.reason.as_str(), "invalid-volume-name") {
                push_str(&mut head, "path cannot be converted to a mount name");
            } else {
                push_str(&mut head, crate::text::replace(m.reason.as_str(), '-', " ").as_str());
            }
            if !verbose {
                push_str(&mut head, "; rerun with --verbose for candidate paths");
            }
            let ghost before = diagnostics_v@;
            let ghost head_line = head@;
            assert(head_line == "  [warn] "@ + r.skipped[j as int].name + ": "@ + detail_text(r.skipped[j as int]) + if verbose {
                Seq::<char>::empty()
            } else {
                "; rerun with --verbose for candidate paths"@
            });
            diagnostics_v.push(head);
            assert(views(diagnostics_v@) =~= views(before).push(head_line));
            if verbose {
                let ghost cands = views(m.candidates@);
                let mut k: usize = 0;
                assert(cands.take(0) =~= Seq::<Seq<char>>::empty());
                assert(views(diagnostics_v@) =~= views(before).push(head_line) + candidate_lines(m.name@, cands.take(0)));
                while k < m.candidates.len()
                    invariant
                        k <= m.candidates@.len(),
                        cands == views(m.candidates@),
                        views(diagnostics_v@) == views(before).push(head_line) + candidate_lines(m.name@, cands.take(k as int)),
                    decreases m.candidates@.len() - k,
                {
                    let ghost mid = views(diagnostics_v@);
                    let mut c = owned("    candidate: ");
                    push_str(&mut c, m.candidates[k].as_str());
                    let ghost c_line = c@;
                    diagnostics_v.push(c);
                    let snippet = mount_toml(m.name.as_str(), m.candidates[k].as_str());
                    let t = crate::text::trim_trailing(snippet.as_str());
                    let ghost t_line = t@;
                    diagnostics_v.push(t);
                    assert(views(diagnostics_v@) =~= mid.push(c_line).push(t_line));
                    assert(cands.take(k + 1).drop_last() =~= cands.take(k as int));
                    assert(cands.take(k + 1).last() == m.candidates@[k as int]@);
                    assert(candidate_lines(m.name@, cands.take(k + 1)) =~= candidate_lines(m.name@, cands.take(k as int)) + seq![c_line, t_line]);
                    assert(views(diagnostics_v@) =~= views(before).push(head_line) + candidate_lines(m.name@, cands.take(k + 1)));
                    k = k + 1;
                }
                assert(cands.take(k as int) =~= cands);
            }
            assert(views(diagnostics_v@) =~= views(before) + skipped_lines(r.skipped[j as int], verbose));
            assert(views(diagnostics_v@) =~= seq!["Skipped:"@] + all_skipped_lines(r.skipped.take(j + 1), verbose));
            j = j + 1;
        }
        assert(r.skipped.take(j as int) =~= r.skipped);
    }
    let ghost after_skipped = views(diagnostics_v@);
    let mut w: usize = 0;
    while w < report.warnings.len()
        invariant
            w <= report.warnings@.len(),
            r == report_model(report),
            views(diagnostics_v@) == after_skipped + r.warnings.take(w as int).map_values(|x: Seq<char>| "cj: warning: "@ + x),
        decreases report.warnings@.len() - w,
    {
        let mut line = owned("cj: warning: ");
        push_str(&mut line, report.warnings[w].as_str());
        let ghost before = diagnostics_v@;
        diagnostics_v.push(line);
        assert(views(diagnostics_v@) =~= views(before).push("cj: warning: "@ + r.warnings[w as int]));
        assert(r.warnings.take(w + 1).map_values(|x: Seq<char>| "cj: warning: "@ + x) =~= r.warnings.take(w as int).map_values(|x: Seq<char>| "cj: warning: "@ + x).push("cj: warning: "@ + r.warnings[w as int]));
        w = w + 1;
    }
    assert(r.warnings.take(w as int) =~= r.warnings);
    let ghost after_warnings = views(diagnostics_v@);
    if verbose && report.ready.len() > 0 {
        diagnostics_v.push(owned("Suggested config:"));
        let mut q: usize = 0;
        while q < report.ready.len()
            invariant
                q <= report.ready@.len(),
                r == report_model(report),
                views(diagnostics_v@) == after_warnings + seq!["Suggested config:"@] + suggestion_lines(r.ready.take(q as int)),
            decreases report.ready@.len() - q,
        {
            let m = &report.ready[q];
            assert(r.ready[q as int] == ready_model(*m));
            let snippet = mount_toml(m.name.as_str(), m.path.as_str());
            let ghost before = diagnostics_v@;
            diagnostics_v.push(crate::text::trim_trailing(snippet.as_str()));
            assert(suggestion_lines(r.ready.take(q + 1)) =~= suggestion_lines(r.ready.take(q as int)).push(crate::text::trim_end(toml_mount_snippet(m.name@, m.path@))));
            assert(views(diagnostics_v@) =~= views(before).push(crate::text::trim_end(toml_mount_snippet(m.name@, m.path@))));
            q = q + 1;
        }
        assert(r.ready.take(q as int) =~= r.ready);
    }
    assert(views(diagnostics_v@) =~= diagnostics(r, verbose));
    let stderr = join(&diagnostics_v, "\n");
    RenderedScan { stdout, stderr }
}


/// How a configured mount is found: by its path, or through its provider.
#[derive(Debug)]
pub enum MountTarget {
    Configured(String),
    Provider(MountProvider, Option<OneDriveAccount>),
}

/// How a configured mount is found, or why it cannot be.
pub fn mount_target(name: &str, mount: &MountSpec) -> (r: Result<MountTarget, String>)
    ensures
        match mount.path {
            Some(p) => r matches Ok(MountTarget::Configured(q)) && q@ == p@,
            None => match mount.provider {
                Some(provider) => r matches Ok(MountTarget::Provider(x, a)) && x == provider && a
                    == mount.account,
                None => r matches Err(e) && e@ == "mount "@ + crate::text::debug_text(name@)
                    + " has no path or provider"@,
            },
        },
{
    match &mount.path {
        Some(p) => Ok(MountTarget::Configured(p.clone())),
        None => match mount.provider {
            Some(provider) => Ok(MountTarget::Provider(provider, mount.account)),
            None => {
                let mut e = owned("mount ");
                push_str(&mut e, crate::text::debug_str(name).as_str());
                push_str(&mut e, " has no path or provider");
                Err(e)
            },
        },
    }
}

/// The folder of a provider mount, with failures labelled by the mount.
pub fn provider_destination(
    name: &str,
    provider: MountProvider,
    account: Option<OneDriveAccount>,
    context: &DiscoveryContext,
) -> (r: Result<String, String>)
    ensures
        text_result(r) == match resolve_provider_model(provider, account, context) {
            Ok(p) => Ok(p),
            Err(e) => Err("mount "@ + crate::text::debug_text(name@) + ": "@ + e),
        },
{
    match resolve_provider(provider, account, context) {
        Ok(p) => Ok(p),
        Err(e) => {
            let mut m = owned("mount ");
            push_str(&mut m, crate::text::debug_str(name).as_str());
            push_str(&mut m, ": ");
            push_str(&mut m, e.as_str());
            Err(m)
        },
    }
}

} // verus!
