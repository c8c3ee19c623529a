//! Destination resolution: which resolver applies to a target, in the
//! documented order, and the pure steps that follow it.
use vstd::prelude::*;

use crate::cli::{arg_text, OsArg, ResolverOverride};
use crate::config::{
    home_relative_suffix, home_suffix, is_absolute_path, is_separator, Config, DefaultResolver, MountProvider,
    MountSpec, OneDriveAccount,
};
use crate::path_bytes::{
    from_bytes, from_bytes_model, path_model, path_result, strip_line_ending, without_line_ending,
    PathModel,
};
use crate::paths::{has_drive, component_model, components, components_model, path_components, Component, ComponentModel};
use crate::text::{chars_of, debug_str, debug_text, decimal, decimal_text, owned, parse_bounded_decimal, push_char, push_str, str_eq, trim, trimmed, utf8_lossy, lossy_utf8, views};

verus! {

/// Where the shell is and where it last came down from.
pub struct NavigationContext {
    pub cwd: String,
    pub down_route: Option<String>,
    pub windows: bool,
}

impl NavigationContext {
    /// A context for the given current directory and remembered route.
    pub fn new(cwd: String, down_route: Option<String>, windows: bool) -> (n: NavigationContext)
        ensures
            n.cwd == cwd,
            n.down_route == down_route,
            n.windows == windows,
    {
        NavigationContext { cwd, down_route, windows }
    }
}

/// What resolving a target leads to.
#[derive(Debug)]
pub enum Resolution {
    /// The destination itself.
    Path(OsArg),
    /// The home directory.
    Home,
    /// A zoxide query with every target; unless forced, a failed query falls
    /// back to the literal target.
    Zoxide { forced: bool },
    /// A configured alias, which must be reachable.
    Alias { name: String, path: String },
    /// A configured mount, which must be reachable.
    Mount { name: String, mount: MountSpec },
    /// The top level of the current Git repository.
    GitTop,
    /// The main worktree of the current Git repository.
    MainWorktree,
}

/// `Resolution` with text as character sequences.
pub enum ResolutionModel {
    Path(PathModel),
    Home,
    Zoxide { forced: bool },
    Alias { name: Seq<char>, path: Seq<char> },
    Mount {
        name: Seq<char>,
        mount_path: Option<Seq<char>>,
        provider: Option<MountProvider>,
        account: Option<OneDriveAccount>,
    },
    GitTop,
    MainWorktree,
}

/// The model of a resolution.
pub open spec fn resolution_model(r: Resolution) -> ResolutionModel {
    match r {
        Resolution::Path(p) => ResolutionModel::Path(path_model(p)),
        Resolution::Home => ResolutionModel::Home,
        Resolution::Zoxide { forced } => ResolutionModel::Zoxide { forced },
        Resolution::Alias { name, path } => ResolutionModel::Alias { name: name@, path: path@ },
        Resolution::Mount { name, mount } => ResolutionModel::Mount {
            name: name@,
            mount_path: match mount.path {
                Some(p) => Some(p@),
                None => None,
            },
            provider: mount.provider,
            account: mount.account,
        },
        Resolution::GitTop => ResolutionModel::GitTop,
        Resolution::MainWorktree => ResolutionModel::MainWorktree,
    }
}

/// The model of a planning result.
pub open spec fn plan_result_model(r: Result<Resolution, String>) -> Result<ResolutionModel, Seq<char>> {
    match r {
        Ok(p) => Ok(resolution_model(p)),
        Err(e) => Err(e@),
    }
}

/// The largest count a ticker may carry in its decimal form.
pub const MAX_TICKER_COUNT: u64 = 2147483647;

/// How many steps a navigation token asks for: the ticker repeated `n`
/// times, or the ticker followed by a decimal count from 1 to 2147483647.
pub open spec fn ticker_count(target: Seq<char>, ticker: Seq<char>) -> Option<nat> {
    if ticker.len() == 0 || target.len() == 0 || target[0] != ticker[0] {
        None
    } else if forall|k: int| 0 <= k < target.len() ==> #[trigger] target[k] == ticker[0] {
        Some(target.len())
    } else if target.len() >= 2 && crate::text::all_digits(target.skip(1)) && 1
        <= crate::text::decimal_value(target.skip(1)) <= MAX_TICKER_COUNT {
        Some(crate::text::decimal_value(target.skip(1)))
    } else {
        None
    }
}

/// The number of named components of a path.
pub open spec fn depth(c: Seq<ComponentModel>) -> nat
    decreases c.len(),
{
    if c.len() == 0 {
        0
    } else {
        depth(c.drop_last()) + if c.last() is Normal {
            1nat
        } else {
            0nat
        }
    }
}

/// The platform's separator.
pub open spec fn separator(windows: bool) -> char {
    if windows {
        '\\'
    } else {
        '/'
    }
}

/// `..` repeated `n` times (`n >= 1`), joined by the separator.
pub open spec fn parent_text(n: nat, windows: bool) -> Seq<char>
    decreases n,
{
    if n <= 1 {
        seq!['.', '.']
    } else {
        parent_text((n - 1) as nat, windows).push(separator(windows)) + seq!['.', '.']
    }
}

/// The number of upward steps taken for a count: capped at the root, and at
/// least one.
pub open spec fn up_steps(count: nat, cwd: Seq<char>, windows: bool) -> nat {
    let d = depth(path_components(cwd, windows));
    if count <= d {
        if count == 0 { 1 } else { count }
    } else if d == 0 {
        1
    } else {
        d
    }
}

/// The text of a component as `Component::as_os_str` gives it.
pub open spec fn component_text(c: ComponentModel, windows: bool) -> Seq<char> {
    match c {
        ComponentModel::Prefix(s) => s,
        ComponentModel::RootDir => seq![separator(windows)],
        ComponentModel::CurDir => seq!['.'],
        ComponentModel::ParentDir => seq!['.', '.'],
        ComponentModel::Normal(s) => s,
    }
}

/// The code of a character with ASCII upper case letters lowered.
pub open spec fn ascii_lower_code(c: char) -> u32 {
    if 'A' <= c && c <= 'Z' {
        (c as u32 + 32) as u32
    } else {
        c as u32
    }
}

/// Equality ignoring ASCII case (`eq_ignore_ascii_case`).
pub open spec fn eq_ignore_ascii_case(a: Seq<char>, b: Seq<char>) -> bool {
    a.len() == b.len() && forall|k: int|
        0 <= k < a.len() ==> ascii_lower_code(#[trigger] a[k]) == ascii_lower_code(b[k])
}

/// Component equality: exact on Unix, ASCII-case-insensitive on Windows.
pub open spec fn component_eq(a: ComponentModel, b: ComponentModel, windows: bool) -> bool {
    if windows {
        eq_ignore_ascii_case(component_text(a, windows), component_text(b, windows))
    } else {
        a == b
    }
}

/// Whether the route's components begin with the current directory's.
pub open spec fn route_below(route: Seq<ComponentModel>, cwd: Seq<ComponentModel>, windows: bool) -> bool {
    route.len() >= cwd.len() && forall|k: int| 0 <= k < cwd.len() ==> component_eq(#[trigger] route[k], cwd[k], windows)
}

/// The names of the normal components among `c`.
pub open spec fn normal_names(c: Seq<ComponentModel>) -> Seq<Seq<char>>
    decreases c.len(),
{
    if c.len() == 0 {
        Seq::empty()
    } else {
        normal_names(c.drop_last()) + match c.last() {
            ComponentModel::Normal(s) => seq![s],
            _ => Seq::empty(),
        }
    }
}

/// Names joined by the separator.
pub open spec fn join_names(names: Seq<Seq<char>>, windows: bool) -> Seq<char>
    decreases names.len(),
{
    if names.len() == 0 {
        Seq::empty()
    } else if names.len() == 1 {
        names[0]
    } else {
        join_names(names.drop_last(), windows).push(separator(windows)) + names.last()
    }
}

/// `Path::join` of a relative path onto a base.
pub open spec fn join_path(base: Seq<char>, rel: Seq<char>, windows: bool) -> Seq<char> {
    if base.len() == 0 || is_separator(base.last(), windows) {
        base + rel
    } else {
        base.push(separator(windows)) + rel
    }
}

/// Going down `count` levels along the remembered route.
pub open spec fn navigate_down_model(
    count: nat,
    cwd: Seq<char>,
    route: Option<Seq<char>>,
    windows: bool,
) -> Result<Seq<char>, Seq<char>> {
    match route {
        None => Err("no remembered downward route"@),
        Some(route) => {
            let rc = path_components(route, windows);
            let cc = path_components(cwd, windows);
            if !route_below(rc, cc, windows) {
                Err("remembered downward route is not below the current directory"@)
            } else {
                let names = normal_names(rc.skip(cc.len() as int));
                if names.len() == 0 {
                    Err("already at the end of the remembered downward route"@)
                } else if count > names.len() {
                    Err(
                        "cannot navigate down "@ + decimal_text(count) + " levels; only "@
                            + decimal_text(names.len()) + " remembered"@,
                    )
                } else {
                    Ok(join_path(cwd, join_names(names.take(count as int), windows), windows))
                }
            }
        },
    }
}

/// `literal_target`: exactly one target, taken literally.
pub open spec fn literal_model(targets: Seq<OsArg>) -> Result<ResolutionModel, Seq<char>> {
    if targets.len() == 1 {
        Ok(ResolutionModel::Path(path_model(targets[0])))
    } else {
        Err("builtin cd accepts exactly one directory"@)
    }
}

/// Whether a list of strings holds `t`.
pub open spec fn holds(v: Seq<String>, t: Seq<char>) -> bool {
    exists|k: int| 0 <= k < v.len() && v[k]@ == t
}

/// What one textual target resolves to among the cj shortcuts, in the
/// documented order: navigation tickers, aliases, mounts, Git keywords.
pub open spec fn shortcut_model(t: Seq<char>, c: &Config, nav: &NavigationContext) -> Option<
    Result<ResolutionModel, Seq<char>>,
> {
    match ticker_count(t, c.tickers.navigate_up@) {
        Some(n) => Some(
            Ok(
                ResolutionModel::Path(
                    PathModel::Text(parent_text(up_steps(n, nav.cwd@, nav.windows), nav.windows)),
                ),
            ),
        ),
        None => match ticker_count(t, c.tickers.navigate_down@) {
            Some(n) => Some(
                match navigate_down_model(
                    n,
                    nav.cwd@,
                    match nav.down_route {
                        Some(r) => Some(r@),
                        None => None,
                    },
                    nav.windows,
                ) {
                    Ok(p) => Ok(ResolutionModel::Path(PathModel::Text(p))),
                    Err(e) => Err(e),
                },
            ),
            None => if c.aliases.contains(t) {
                Some(Ok(ResolutionModel::Alias { name: t, path: c.aliases.lookup(t)@ }))
            } else if c.mounts.contains(t) {
                let m = c.mounts.lookup(t);
                Some(
                    Ok(
                        ResolutionModel::Mount {
                            name: t,
                            mount_path: match m.path {
                                Some(p) => Some(p@),
                                None => None,
                            },
                            provider: m.provider,
                            account: m.account,
                        },
                    ),
                )
            } else if holds(c.keywords.top@, t) {
                Some(Ok(ResolutionModel::GitTop))
            } else if holds(c.keywords.main_worktree@, t) {
                Some(Ok(ResolutionModel::MainWorktree))
            } else {
                None
            },
        },
    }
}

/// What a command line's targets resolve to. The first match wins: the raw
/// override, the home directory, forced zoxide, an existing directory, a
/// shortcut, then zoxide or the literal fallback.
pub open spec fn plan_model(
    targets: Seq<OsArg>,
    resolver: ResolverOverride,
    c: &Config,
    nav: &NavigationContext,
    target_is_dir: bool,
) -> Result<ResolutionModel, Seq<char>> {
    if resolver == ResolverOverride::Raw {
        literal_model(targets)
    } else if targets.len() == 0 {
        Ok(ResolutionModel::Home)
    } else if resolver == ResolverOverride::Zoxide {
        Ok(ResolutionModel::Zoxide { forced: true })
    } else if targets.len() == 1 && target_is_dir {
        Ok(ResolutionModel::Path(path_model(targets[0])))
    } else if targets.len() == 1 && arg_text(targets[0]) is Some && shortcut_model(
        arg_text(targets[0])->0,
        c,
        nav,
    ) is Some {
        shortcut_model(arg_text(targets[0])->0, c, nav)->0
    } else if resolver == ResolverOverride::NoZoxide {
        literal_model(targets)
    } else if c.behavior.default == DefaultResolver::Zoxide {
        Ok(ResolutionModel::Zoxide { forced: false })
    } else {
        literal_model(targets)
    }
}


/// The count a navigation token carries for a ticker (see `ticker_count`).
pub fn repeated_count(target: &str, ticker: &str) -> (r: Option<usize>)
    ensures
        match r {
            Some(n) => ticker_count(target@, ticker@) == Some(n as nat),
            None => ticker_count(target@, ticker@) is None,
        },
{
    let t = chars_of(ticker);
    let c = chars_of(target);
    if t.len() == 0 || c.len() == 0 || c[0] != t[0] {
        return None;
    }
    let mark = t[0];
    let mut i: usize = 1;
    let mut all = true;
    while i < c.len()
        invariant
            1 <= i <= c@.len(),
            c@ == target@,
            mark == ticker@[0],
            all ==> forall|k: int| 0 <= k < i ==> #[trigger] c@[k] == mark,
            !all ==> exists|k: int| 0 <= k < c@.len() && #[trigger] c@[k] != mark,
        decreases c@.len() - i,
    {
        if c[i] != mark {
            all = false;
        }
        i = i + 1;
    }
    if all {
        return Some(c.len());
    }
    if c.len() < 2 {
        return None;
    }
    match parse_bounded_decimal(&c, 1, MAX_TICKER_COUNT) {
        Some(v) => {
            if v >= 1 {
                Some(v as usize)
            } else {
                None
            }
        },
        None => None,
    }
}

/// The number of named components among the first `n` of `v`.
fn count_normal(v: &Vec<Component>) -> (d: usize)
    ensures
        d as nat == depth(components_model(v@)),
{
    let mut d: usize = 0;
    let mut i: usize = 0;
    while i < v.len()
        invariant
            i <= v@.len(),
            d <= i,
            d as nat == depth(components_model(v@).take(i as int)),
        decreases v@.len() - i,
    {
        let ghost m = components_model(v@);
        assert(m.take(i + 1).drop_last() =~= m.take(i as int));
        assert(m.take(i + 1).last() == component_model(v@[i as int]));
        match &v[i] {
            Component::Normal(_) => {
                d = d + 1;
            },
            _ => {},
        }
        i = i + 1;
    }
    assert(components_model(v@).take(i as int) =~= components_model(v@));
    d
}

/// The relative path that goes `count` directories up from `cwd`, never
/// past the root and at least one level.
pub fn parent_path(count: usize, cwd: &str, windows: bool) -> (p: String)
    ensures
        p@ == parent_text(up_steps(count as nat, cwd@, windows), windows),
{
    let d = count_normal(&components(cwd, windows));
    let steps: usize = if count <= d {
        if count == 0 {
            1
        } else {
            count
        }
    } else if d == 0 {
        1
    } else {
        d
    };
    let sep = if windows {
        '\\'
    } else {
        '/'
    };
    let mut p = String::new();
    push_char(&mut p, '.');
    push_char(&mut p, '.');
    assert(p@ =~= parent_text(1, windows));
    let mut i: usize = 1;
    while i < steps
        invariant
            1 <= i <= steps,
            sep == separator(windows),
            p@ == parent_text(i as nat, windows),
        decreases steps - i,
    {
        push_char(&mut p, sep);
        push_char(&mut p, '.');
        push_char(&mut p, '.');
        assert(p@ =~= parent_text((i + 1) as nat, windows));
        i = i + 1;
    }
    p
}


/// A textual result as character sequences.
pub open spec fn text_result(r: Result<String, String>) -> Result<Seq<char>, Seq<char>> {
    match r {
        Ok(s) => Ok(s@),
        Err(e) => Err(e@),
    }
}

/// The text of a component (`Component::as_os_str`).
fn component_string(c: &Component, windows: bool) -> (s: String)
    ensures
        s@ == component_text(component_model(*c), windows),
{
    match c {
        Component::Prefix(p) => p.clone(),
        Component::RootDir => {
            let mut s = String::new();
            push_char(&mut s, if windows { '\\' } else { '/' });
            assert(s@ =~= seq![separator(windows)]);
            s
        },
        Component::CurDir => {
            let mut s = String::new();
            push_char(&mut s, '.');
            assert(s@ =~= seq!['.']);
            s
        },
        Component::ParentDir => {
            let mut s = String::new();
            push_char(&mut s, '.');
            push_char(&mut s, '.');
            assert(s@ =~= seq!['.', '.']);
            s
        },
        Component::Normal(n) => n.clone(),
    }
}

/// `eq_ignore_ascii_case` on strings.
pub fn eq_ignore_case(a: &str, b: &str) -> (same: bool)
    ensures
        same == eq_ignore_ascii_case(a@, b@),
{
    let x = chars_of(a);
    let y = chars_of(b);
    if x.len() != y.len() {
        return false;
    }
    let mut i: usize = 0;
    while i < x.len()
        invariant
            i <= x@.len(),
            x@ == a@,
            y@ == b@,
            x@.len() == y@.len(),
            forall|k: int| 0 <= k < i ==> ascii_lower_code(#[trigger] x@[k]) == ascii_lower_code(y@[k]),
        decreases x@.len() - i,
    {
        let c = x[i];
        let d = y[i];
        let lc: u32 = if 'A' <= c && c <= 'Z' { c as u32 + 32 } else { c as u32 };
        let ld: u32 = if 'A' <= d && d <= 'Z' { d as u32 + 32 } else { d as u32 };
        if lc != ld {
            assert(ascii_lower_code(a@[i as int]) != ascii_lower_code(b@[i as int]));
            return false;
        }
        i = i + 1;
    }
    true
}

/// Component equality: exact on Unix, ignoring ASCII case on Windows.
pub fn components_equal(a: &Component, b: &Component, windows: bool) -> (same: bool)
    ensures
        same == component_eq(component_model(*a), component_model(*b), windows),
{
    if windows {
        let x = component_string(a, windows);
        let y = component_string(b, windows);
        eq_ignore_case(x.as_str(), y.as_str())
    } else {
        match (a, b) {
            (Component::Prefix(x), Component::Prefix(y)) => str_eq(x.as_str(), y.as_str()),
            (Component::RootDir, Component::RootDir) => true,
            (Component::CurDir, Component::CurDir) => true,
            (Component::ParentDir, Component::ParentDir) => true,
            (Component::Normal(x), Component::Normal(y)) => str_eq(x.as_str(), y.as_str()),
            _ => false,
        }
    }
}

/// Goes `count` levels down from the current directory along the
/// remembered route.
pub fn navigate_down(count: usize, navigation: &NavigationContext) -> (r: Result<String, String>)
    ensures
        text_result(r) == navigate_down_model(
            count as nat,
            navigation.cwd@,
            match navigation.down_route {
                Some(p) => Some(p@),
                None => None,
            },
            navigation.windows,
        ),
{
    let windows = navigation.windows;
    let route = match &navigation.down_route {
        None => {
            return Err(owned("no remembered downward route"));
        },
        Some(r) => r,
    };
    let rc = components(route.as_str(), windows);
    let cc = components(navigation.cwd.as_str(), windows);
    let ghost rm = components_model(rc@);
    let ghost cm = components_model(cc@);
    if rc.len() < cc.len() {
        return Err(owned("remembered downward route is not below the current directory"));
    }
    let mut k: usize = 0;
    while k < cc.len()
        invariant
            k <= cc@.len(),
            cc@.len() <= rc@.len(),
            rm == components_model(rc@),
            cm == components_model(cc@),
            rm == path_components(route@, windows),
            cm == path_components(navigation.cwd@, windows),
            windows == navigation.windows,
            navigation.down_route == Some(*route),
            forall|j: int| 0 <= j < k ==> component_eq(#[trigger] rm[j], cm[j], windows),
        decreases cc@.len() - k,
    {
        if !components_equal(&rc[k], &cc[k], windows) {
            assert(!component_eq(rm[k as int], cm[k as int], windows));
            return Err(owned("remembered downward route is not below the current directory"));
        }
        k = k + 1;
    }
    assert(route_below(rm, cm, windows));
    let base = cc.len();
    let ghost below = rm.skip(base as int);
    let mut names: Vec<String> = Vec::new();
    let mut j: usize = base;
    while j < rc.len()
        invariant
            base <= j <= rc@.len(),
            rm == components_model(rc@),
            below == rm.skip(base as int),
            views(names@) == normal_names(below.take(j - base)),
        decreases rc@.len() - j,
    {
        assert(below.take(j + 1 - base).drop_last() =~= below.take(j - base));
        assert(below.take(j + 1 - base).last() == component_model(rc@[j as int]));
        match &rc[j] {
            Component::Normal(n) => {
                let ghost before = names@;
                names.push(n.clone());
                assert(views(names@) =~= views(before) + seq![n@]);
            },
            _ => {
                assert(normal_names(below.take(j + 1 - base)) =~= normal_names(below.take(j - base)));
            },
        }
        j = j + 1;
    }
    assert(below.take(j - base) =~= below);
    if names.len() == 0 {
        return Err(owned("already at the end of the remembered downward route"));
    }
    if count > names.len() {
        let mut e = owned("cannot navigate down ");
        push_str(&mut e, decimal(count).as_str());
        push_str(&mut e, " levels; only ");
        push_str(&mut e, decimal(names.len()).as_str());
        push_str(&mut e, " remembered");
        return Err(e);
    }
    let sep = if windows { '\\' } else { '/' };
    let mut rel = String::new();
    let mut i: usize = 0;
    while i < count
        invariant
            i <= count <= names@.len(),
            sep == separator(windows),
            rel@ == join_names(views(names@).take(i as int), windows),
        decreases count - i,
    {
        let ghost vs = views(names@);
        assert(vs.take(i + 1).drop_last() =~= vs.take(i as int));
        assert(vs.take(i + 1).last() == names@[i as int]@);
        if i == 0 {
            assert(rel@ =~= Seq::<char>::empty());
            push_str(&mut rel, names[i].as_str());
            assert(rel@ =~= vs.take(1)[0]);
        } else {
            push_char(&mut rel, sep);
            push_str(&mut rel, names[i].as_str());
        }
        i = i + 1;
    }
    let cwd = chars_of(navigation.cwd.as_str());
    let mut out = navigation.cwd.clone();
    let ends = cwd.len() == 0 || cwd[cwd.len() - 1] == '/' || (windows && cwd[cwd.len() - 1] == '\\');
    if !ends {
        push_char(&mut out, sep);
    }
    push_str(&mut out, rel.as_str());
    Ok(out)
}


/// A copy of an argument.
pub fn copy_arg(a: &OsArg) -> (b: OsArg)
    ensures
        path_model(b) == path_model(*a),
        arg_text(b) == arg_text(*a),
{
    match a {
        OsArg::Text(s) => OsArg::Text(s.clone()),
        OsArg::Raw(v) => OsArg::Raw(v.clone()),
    }
}

/// A copy of a mount entry.
fn copy_mount(m: &MountSpec) -> (c: MountSpec)
    ensures
        c.provider == m.provider,
        c.account == m.account,
        match (c.path, m.path) {
            (Some(x), Some(y)) => x@ == y@,
            (None, None) => true,
            _ => false,
        },
{
    MountSpec {
        path: match &m.path {
            Some(p) => Some(p.clone()),
            None => None,
        },
        provider: m.provider,
        account: m.account,
    }
}

/// The single target taken literally.
pub fn literal_target(targets: &Vec<OsArg>) -> (r: Result<Resolution, String>)
    ensures
        plan_result_model(r) == literal_model(targets@),
{
    if targets.len() == 1 {
        Ok(Resolution::Path(copy_arg(&targets[0])))
    } else {
        Err(owned("builtin cd accepts exactly one directory"))
    }
}

/// The single target as a path, for the literal fallback after a failed
/// zoxide query.
pub fn literal_path(targets: &Vec<OsArg>) -> (r: Result<OsArg, String>)
    ensures
        match r {
            Ok(p) => literal_model(targets@) == Ok::<ResolutionModel, Seq<char>>(
                ResolutionModel::Path(path_model(p)),
            ),
            Err(e) => literal_model(targets@) == Err::<ResolutionModel, Seq<char>>(e@),
        },
{
    if targets.len() == 1 {
        Ok(copy_arg(&targets[0]))
    } else {
        Err(owned("builtin cd accepts exactly one directory"))
    }
}

/// Whether one of `list` equals `t`.
fn listed(list: &Vec<String>, t: &str) -> (found: bool)
    ensures
        found == holds(list@, t@),
{
    let mut i: usize = 0;
    while i < list.len()
        invariant
            i <= list@.len(),
            forall|k: int| 0 <= k < i ==> #[trigger] list@[k]@ != t@,
        decreases list@.len() - i,
    {
        if str_eq(list[i].as_str(), t) {
            return true;
        }
        i = i + 1;
    }
    false
}

/// What a textual target names among the shortcuts, if anything.
fn shortcut(t: &str, config: &Config, navigation: &NavigationContext) -> (r: Option<
    Result<Resolution, String>,
>)
    requires
        config.aliases.wf(),
        config.mounts.wf(),
    ensures
        match r {
            Some(x) => shortcut_model(t@, config, navigation) == Some(plan_result_model(x)),
            None => shortcut_model(t@, config, navigation) is None,
        },
{
    if let Some(n) = repeated_count(t, config.tickers.navigate_up.as_str()) {
        let p = parent_path(n, navigation.cwd.as_str(), navigation.windows);
        return Some(Ok(Resolution::Path(OsArg::Text(p))));
    }
    if let Some(n) = repeated_count(t, config.tickers.navigate_down.as_str()) {
        return Some(
            match navigate_down(n, navigation) {
                Ok(p) => Ok(Resolution::Path(OsArg::Text(p))),
                Err(e) => Err(e),
            },
        );
    }
    if let Some(path) = config.aliases.get(t) {
        return Some(Ok(Resolution::Alias { name: owned(t), path: path.clone() }));
    }
    if let Some(mount) = config.mounts.get(t) {
        return Some(Ok(Resolution::Mount { name: owned(t), mount: copy_mount(mount) }));
    }
    if listed(&config.keywords.top, t) {
        return Some(Ok(Resolution::GitTop));
    }
    if listed(&config.keywords.main_worktree, t) {
        return Some(Ok(Resolution::MainWorktree));
    }
    None
}

/// Decides how a command line's targets are resolved, in the documented
/// order. `target_is_dir` tells whether the single target names an existing
/// directory.
pub fn plan(
    targets: &Vec<OsArg>,
    resolver: ResolverOverride,
    config: &Config,
    navigation: &NavigationContext,
    target_is_dir: bool,
) -> (r: Result<Resolution, String>)
    ensures
        plan_result_model(r) == plan_model(targets@, resolver, config, navigation, target_is_dir),
{
    proof {
        use_type_invariant(&config.aliases);
        use_type_invariant(&config.mounts);
    }
    if resolver == ResolverOverride::Raw {
        return literal_target(targets);
    }
    if targets.len() == 0 {
        return Ok(Resolution::Home);
    }
    if resolver == ResolverOverride::Zoxide {
        return Ok(Resolution::Zoxide { forced: true });
    }
    if targets.len() == 1 {
        if target_is_dir {
            return Ok(Resolution::Path(copy_arg(&targets[0])));
        }
        if let Some(text) = targets[0].text() {
            if let Some(found) = shortcut(text, config, navigation) {
                return found;
            }
        }
    }
    if resolver == ResolverOverride::NoZoxide {
        return literal_target(targets);
    }
    match config.behavior.default {
        DefaultResolver::Zoxide => Ok(Resolution::Zoxide { forced: false }),
        DefaultResolver::Builtin => literal_target(targets),
    }
}

/// `Path::push`: an absolute path (or one with a drive) replaces the base; on
/// Windows a rooted path keeps only the base's drive; anything else is joined.
pub open spec fn push_path(base: Seq<char>, rel: Seq<char>, windows: bool) -> Seq<char> {
    if is_absolute_path(rel, windows) || has_drive(rel, windows) {
        rel
    } else if rel.len() > 0 && is_separator(rel[0], windows) {
        if has_drive(base, windows) {
            base.take(2) + rel
        } else {
            rel
        }
    } else {
        join_path(base, rel, windows)
    }
}

/// A configured path with a leading `~` expanded against the home directory.
pub open spec fn expand_model(path: Seq<char>, home: Option<Seq<char>>, windows: bool) -> Result<
    Seq<char>,
    Seq<char>,
> {
    match home_suffix(path, windows) {
        None => Ok(path),
        Some(suffix) => match home {
            None => Err("cannot expand ~ because home is not set"@),
            Some(h) => if suffix.len() == 0 {
                Ok(h)
            } else {
                Ok(push_path(h, suffix, windows))
            },
        },
    }
}

/// An optional string slice as an optional character sequence.
pub open spec fn opt_view(o: Option<&str>) -> Option<Seq<char>> {
    match o {
        Some(s) => Some(s@),
        None => None,
    }
}

/// Expands a configured path (`~`, `~/...`, on Windows also `~\...`).
pub fn expand_config_path(path: &str, home: Option<&str>, windows: bool) -> (r: Result<
    String,
    String,
>)
    ensures
        text_result(r) == expand_model(path@, opt_view(home), windows),
{
    let suffix = match home_relative_suffix(path, windows) {
        None => {
            return Ok(owned(path));
        },
        Some(s) => s,
    };
    let h = match home {
        None => {
            return Err(owned("cannot expand ~ because home is not set"));
        },
        Some(h) => h,
    };
    if chars_of(suffix.as_str()).len() == 0 {
        return Ok(owned(h));
    }
    Ok(join_paths(h, suffix.as_str(), windows))
}

/// `Path::join` of `rel` onto `base` (see `push_path`).
pub fn join_paths(base_text: &str, rel_text: &str, windows: bool) -> (out: String)
    ensures
        out@ == push_path(base_text@, rel_text@, windows),
{
    let rel = chars_of(rel_text);
    let base = chars_of(base_text);
    if rel.len() == 0 {
        let mut out = owned(base_text);
        let ends = base.len() == 0 || base[base.len() - 1] == '/' || (windows && base[base.len() - 1]
            == '\\');
        if !ends {
            push_char(&mut out, if windows { '\\' } else { '/' });
        }
        return out;
    }
    let rel_sep = rel[0] == '/' || (windows && rel[0] == '\\');
    let rel_drive = windows && rel.len() >= 2 && rel[1] == ':' && (('a' <= rel[0] && rel[0] <= 'z')
        || ('A' <= rel[0] && rel[0] <= 'Z'));
    let rel_abs = if windows {
        (rel.len() >= 3 && (('a' <= rel[0] && rel[0] <= 'z') || ('A' <= rel[0] && rel[0] <= 'Z'))
            && rel[1] == ':' && (rel[2] == '/' || rel[2] == '\\')) || (rel.len() >= 2 && (rel[0]
            == '/' || rel[0] == '\\') && (rel[1] == '/' || rel[1] == '\\'))
    } else {
        rel[0] == '/'
    };
    if rel_abs || rel_drive {
        return owned(rel_text);
    }
    let base_drive = windows && base.len() >= 2 && base[1] == ':' && (('a' <= base[0] && base[0]
        <= 'z') || ('A' <= base[0] && base[0] <= 'Z'));
    if rel_sep {
        if base_drive {
            let mut out = String::new();
            push_char(&mut out, base[0]);
            push_char(&mut out, base[1]);
            assert(out@ =~= base_text@.take(2));
            push_str(&mut out, rel_text);
            return out;
        }
        return owned(rel_text);
    }
    let sep = if windows { '\\' } else { '/' };
    let mut out = owned(base_text);
    let ends = base.len() == 0 || base[base.len() - 1] == '/' || (windows && base[base.len() - 1]
        == '\\');
    if !ends {
        push_char(&mut out, sep);
    }
    push_str(&mut out, rel_text);
    out
}

/// `{kind} {name:?}`, the head of messages about a configured destination.
pub open spec fn destination_label(kind: Seq<char>, name: Seq<char>) -> Seq<char> {
    kind + " "@ + debug_text(name)
}

fn label(kind: &str, name: &str) -> (s: String)
    ensures
        s@ == destination_label(kind@, name@),
{
    let mut s = owned(kind);
    push_str(&mut s, " ");
    push_str(&mut s, debug_str(name).as_str());
    s
}

/// The expanded path of a configured alias or mount, with expansion errors
/// labelled by the destination.
pub fn configured_directory(
    kind: &str,
    name: &str,
    path: &str,
    home: Option<&str>,
    windows: bool,
) -> (r: Result<String, String>)
    ensures
        text_result(r) == match expand_model(path@, opt_view(home), windows) {
            Ok(p) => Ok(p),
            Err(e) => Err(destination_label(kind@, name@) + ": "@ + e),
        },
{
    match expand_config_path(path, home, windows) {
        Ok(p) => Ok(p),
        Err(e) => {
            let mut m = label(kind, name);
            push_str(&mut m, ": ");
            push_str(&mut m, e.as_str());
            Err(m)
        },
    }
}

/// A configured destination is used only when it is a directory; otherwise
/// it is an error and no later resolver is tried.
pub fn reachable_directory(kind: &str, name: &str, path: String, is_dir: bool) -> (r: Result<
    String,
    String,
>)
    ensures
        text_result(r) == if is_dir {
            Ok::<Seq<char>, Seq<char>>(path@)
        } else {
            Err(destination_label(kind@, name@) + " is not reachable: "@ + debug_text(path@))
        },
{
    if is_dir {
        Ok(path)
    } else {
        let mut m = label(kind, name);
        push_str(&mut m, " is not reachable: ");
        push_str(&mut m, debug_str(path.as_str()).as_str());
        Err(m)
    }
}


/// Why a zoxide query gave no destination.
#[derive(Debug)]
pub enum ZoxideFailure {
    /// The configured executable does not exist.
    Missing(String),
    /// The query ran and failed, with its message.
    Query(String),
}

/// `ZoxideFailure` with text as character sequences.
pub enum ZoxideFailureModel {
    Missing(Seq<char>),
    Query(Seq<char>),
}

/// The model of a zoxide failure.
pub open spec fn failure_model(f: ZoxideFailure) -> ZoxideFailureModel {
    match f {
        ZoxideFailure::Missing(p) => ZoxideFailureModel::Missing(p@),
        ZoxideFailure::Query(m) => ZoxideFailureModel::Query(m@),
    }
}

/// What a finished zoxide query gives: its printed destination, or why
/// there is none.
pub open spec fn zoxide_output_model(
    success: bool,
    stdout: Seq<u8>,
    stderr: Seq<u8>,
    windows: bool,
) -> Result<PathModel, ZoxideFailureModel> {
    if !success {
        Err(ZoxideFailureModel::Query(trimmed(lossy_utf8(stderr))))
    } else {
        let path = strip_line_ending(stdout, windows);
        if path.len() == 0 {
            Err(ZoxideFailureModel::Query("zoxide did not return a destination"@))
        } else {
            match from_bytes_model(path, "zoxide returned a non-UTF-8 path"@, windows) {
                Ok(p) => Ok(p),
                Err(e) => Err(ZoxideFailureModel::Query(e)),
            }
        }
    }
}

/// Reads the outcome of `zoxide query`.
pub fn parse_zoxide_output(success: bool, stdout: &[u8], stderr: &[u8], windows: bool) -> (r: Result<
    OsArg,
    ZoxideFailure,
>)
    ensures
        match r {
            Ok(p) => zoxide_output_model(success, stdout@, stderr@, windows) == Ok::<
                PathModel,
                ZoxideFailureModel,
            >(path_model(p)),
            Err(f) => zoxide_output_model(success, stdout@, stderr@, windows) == Err::<
                PathModel,
                ZoxideFailureModel,
            >(failure_model(f)),
        },
{
    if !success {
        let text = utf8_lossy(stderr);
        return Err(ZoxideFailure::Query(trim(text.as_str())));
    }
    let path = without_line_ending(stdout, windows);
    if path.len() == 0 {
        return Err(ZoxideFailure::Query(owned("zoxide did not return a destination")));
    }
    match from_bytes(path.as_slice(), "zoxide returned a non-UTF-8 path", windows) {
        Ok(p) => Ok(p),
        Err(e) => Err(ZoxideFailure::Query(e)),
    }
}

/// The message for a failed forced zoxide query.
pub open spec fn zoxide_error_text(f: ZoxideFailureModel) -> Seq<char> {
    match f {
        ZoxideFailureModel::Missing(p) => "zoxide executable not found: "@ + p,
        ZoxideFailureModel::Query(m) => if m.len() == 0 {
            "zoxide query failed"@
        } else {
            "zoxide query failed: "@ + m
        },
    }
}

/// The message for a failed forced zoxide query.
pub fn zoxide_error(f: &ZoxideFailure) -> (m: String)
    ensures
        m@ == zoxide_error_text(failure_model(*f)),
{
    match f {
        ZoxideFailure::Missing(p) => {
            let mut m = owned("zoxide executable not found: ");
            push_str(&mut m, p.as_str());
            m
        },
        ZoxideFailure::Query(q) => {
            if chars_of(q.as_str()).len() == 0 {
                owned("zoxide query failed")
            } else {
                let mut m = owned("zoxide query failed: ");
                push_str(&mut m, q.as_str());
                m
            }
        },
    }
}

/// What a zoxide query leads to: its destination, or when it fails, the
/// failure's message for a forced query and the single target taken
/// literally for an unforced one.
pub open spec fn zoxide_resolution_model(
    targets: Seq<OsArg>,
    forced: bool,
    query: Result<PathModel, ZoxideFailureModel>,
) -> Result<PathModel, Seq<char>> {
    match query {
        Ok(p) => Ok(p),
        Err(f) => if forced {
            Err(zoxide_error_text(f))
        } else if targets.len() == 1 {
            Ok(path_model(targets[0]))
        } else {
            Err("builtin cd accepts exactly one directory"@)
        },
    }
}

/// The model of a zoxide query's outcome.
pub open spec fn query_model(q: Result<OsArg, ZoxideFailure>) -> Result<PathModel, ZoxideFailureModel> {
    match q {
        Ok(p) => Ok(path_model(p)),
        Err(f) => Err(failure_model(f)),
    }
}

/// The destination after a zoxide query (see `zoxide_resolution_model`).
pub fn zoxide_resolution(targets: &Vec<OsArg>, forced: bool, query: Result<OsArg, ZoxideFailure>) -> (r:
    Result<OsArg, String>)
    ensures
        path_result(r) == zoxide_resolution_model(targets@, forced, query_model(query)),
{
    match query {
        Ok(p) => Ok(p),
        Err(f) => if forced {
            Err(zoxide_error(&f))
        } else {
            literal_path(targets)
        },
    }
}

/// The arguments of the zoxide query: `query --exclude <cwd> -- <targets>`.
pub open spec fn zoxide_arguments_model(cwd: OsArg, targets: Seq<OsArg>) -> Seq<PathModel> {
    seq![
        PathModel::Text("query"@),
        PathModel::Text("--exclude"@),
        path_model(cwd),
        PathModel::Text("--"@),
    ] + targets.map_values(|a: OsArg| path_model(a))
}

/// The arguments passed to zoxide for a query.
pub fn zoxide_arguments(cwd: &OsArg, targets: &Vec<OsArg>) -> (args: Vec<OsArg>)
    ensures
        args@.map_values(|a: OsArg| path_model(a)) == zoxide_arguments_model(*cwd, targets@),
{
    let mut args: Vec<OsArg> = Vec::new();
    args.push(OsArg::Text(owned("query")));
    args.push(OsArg::Text(owned("--exclude")));
    args.push(copy_arg(cwd));
    args.push(OsArg::Text(owned("--")));
    let mut i: usize = 0;
    while i < targets.len()
        invariant
            i <= targets@.len(),
            args@.len() == 4 + i,
            args@.map_values(|a: OsArg| path_model(a)) == zoxide_arguments_model(
                *cwd,
                targets@.take(i as int),
            ),
        decreases targets@.len() - i,
    {
        let ghost before = args@;
        args.push(copy_arg(&targets[i]));
        assert(args@.map_values(|a: OsArg| path_model(a)) =~= before.map_values(
            |a: OsArg| path_model(a),
        ).push(path_model(targets@[i as int])));
        assert(targets@.take(i + 1).map_values(|a: OsArg| path_model(a)) =~= targets@.take(
            i as int,
        ).map_values(|a: OsArg| path_model(a)).push(path_model(targets@[i as int])));
        assert(args@.map_values(|a: OsArg| path_model(a)) =~= zoxide_arguments_model(
            *cwd,
            targets@.take(i + 1),
        ));
        i = i + 1;
    }
    assert(targets@.take(i as int) =~= targets@);
    args
}

/// Where the first NUL-terminated field of `b`, from `i` on, ends.
pub open spec fn field_end(b: Seq<u8>, i: int) -> int
    decreases b.len() - i,
{
    if i >= b.len() || b[i] == 0u8 {
        i
    } else {
        field_end(b, i + 1)
    }
}

/// The bytes `worktree ` that open a porcelain worktree record.
pub open spec fn worktree_tag() -> Seq<u8> {
    seq![119u8, 111u8, 114u8, 107u8, 116u8, 114u8, 101u8, 101u8, 32u8]
}

/// What `git worktree list --porcelain -z` says is the main worktree: the
/// path in its first field.
pub open spec fn main_worktree_model(success: bool, stdout: Seq<u8>, windows: bool) -> Result<
    PathModel,
    Seq<char>,
> {
    if !success {
        Err("current directory is not in a Git repository"@)
    } else {
        let field = stdout.take(field_end(stdout, 0));
        if field.len() < 9 || field.take(9) != worktree_tag() {
            Err("git did not return a main worktree"@)
        } else {
            from_bytes_model(field.skip(9), "git returned a non-UTF-8 main worktree path"@, windows)
        }
    }
}

/// The main worktree named by `git worktree list --porcelain -z`.
pub fn main_worktree_from(success: bool, stdout: &[u8], windows: bool) -> (r: Result<
    OsArg,
    String,
>)
    ensures
        path_result(r) == main_worktree_model(success, stdout@, windows),
{
    if !success {
        return Err(owned("current directory is not in a Git repository"));
    }
    let mut end: usize = 0;
    while end < stdout.len() && stdout[end] != 0u8
        invariant
            end <= stdout@.len(),
            field_end(stdout@, 0) == field_end(stdout@, end as int),
        decreases stdout@.len() - end,
    {
        end = end + 1;
    }
    let ghost field = stdout@.take(end as int);
    assert(field_end(stdout@, end as int) == end);
    let tag: Vec<u8> = vec![119u8, 111u8, 114u8, 107u8, 116u8, 114u8, 101u8, 101u8, 32u8];
    assert(tag@ =~= worktree_tag());
    if end < 9 {
        return Err(owned("git did not return a main worktree"));
    }
    let mut k: usize = 0;
    while k < 9
        invariant
            k <= 9 <= end <= stdout@.len(),
            tag@ == worktree_tag(),
            field == stdout@.take(end as int),
            field_end(stdout@, 0) == end,
            success,
            forall|j: int| 0 <= j < k ==> stdout@[j] == #[trigger] tag@[j],
        decreases 9 - k,
    {
        if stdout[k] != tag[k] {
            assert(field.take(9)[k as int] != worktree_tag()[k as int]);
            return Err(owned("git did not return a main worktree"));
        }
        k = k + 1;
    }
    assert(field.take(9) =~= worktree_tag());
    let mut path: Vec<u8> = Vec::new();
    let mut i: usize = 9;
    while i < end
        invariant
            9 <= i <= end <= stdout@.len(),
            path@ == stdout@.subrange(9, i as int),
        decreases end - i,
    {
        path.push(stdout[i]);
        assert(path@ =~= stdout@.subrange(9, i + 1));
        i = i + 1;
    }
    assert(path@ =~= field.skip(9));
    from_bytes(path.as_slice(), "git returned a non-UTF-8 main worktree path", windows)
}

/// What `git rev-parse --show-toplevel` names as the repository's top level.
pub open spec fn git_directory_model(success: bool, stdout: Seq<u8>, windows: bool) -> Result<
    PathModel,
    Seq<char>,
> {
    if !success {
        Err("current directory is not in a Git repository"@)
    } else {
        let path = strip_line_ending(stdout, windows);
        if path.len() == 0 {
            Err("git did not return a directory"@)
        } else {
            from_bytes_model(path, "git returned a non-UTF-8 directory"@, windows)
        }
    }
}

/// The directory printed by a Git query.
pub fn git_directory_from(success: bool, stdout: &[u8], windows: bool) -> (r: Result<
    OsArg,
    String,
>)
    ensures
        path_result(r) == git_directory_model(success, stdout@, windows),
{
    if !success {
        return Err(owned("current directory is not in a Git repository"));
    }
    let path = without_line_ending(stdout, windows);
    if path.len() == 0 {
        return Err(owned("git did not return a directory"));
    }
    from_bytes(path.as_slice(), "git returned a non-UTF-8 directory", windows)
}

} // verus!
