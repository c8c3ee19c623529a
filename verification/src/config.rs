//! The configuration model, its defaults, and its validation rules.
use vstd::prelude::*;

use crate::names::NameMap;
use crate::text::{contains_char, debug_str, debug_text, owned, push_str, starts_with, str_eq};

verus! {

/// The resolver used when no flag overrides it.
#[derive(Clone, Copy, Debug, PartialEq, Eq, Structural)]
pub enum DefaultResolver {
    Zoxide,
    Builtin,
}

/// A source that the directory key binding consults.
#[derive(Clone, Copy, Debug, PartialEq, Eq, Structural)]
pub enum KeyBindingBehavior {
    Zoxide,
    Cj,
}

/// The chord of the directory key binding.
#[derive(Clone, Copy, Debug, PartialEq, Eq, Structural)]
pub enum KeyBinding {
    CtrlO,
    AltO,
    Unbound,
}

/// A cloud storage provider whose root a mount can name.
#[derive(Clone, Copy, Debug, PartialEq, Eq, Structural)]
pub enum MountProvider {
    Icloud,
    GoogleDrive,
    OneDrive,
}

/// The OneDrive account kind a mount can select.
#[derive(Clone, Copy, Debug, PartialEq, Eq, Structural)]
pub enum OneDriveAccount {
    Personal,
    Business,
}

/// `[behavior]`.
#[derive(Debug, PartialEq)]
pub struct Behavior {
    pub default: DefaultResolver,
}

/// `[programs]`: the executables that cj runs.
#[derive(Debug, PartialEq)]
pub struct Programs {
    pub zoxide: String,
    pub fzf: String,
}

/// One OS's `key-bindings` entry.
#[derive(Debug, PartialEq)]
pub struct BindingConfig {
    pub key: KeyBinding,
    pub behaviors: Vec<KeyBindingBehavior>,
}

/// `[key-bindings]`.
#[derive(Debug, PartialEq)]
pub struct KeyBindings {
    pub macos: BindingConfig,
    pub linux: BindingConfig,
    pub windows: BindingConfig,
}

/// `[keywords]`: the Git shortcuts.
#[derive(Debug, PartialEq)]
pub struct Keywords {
    pub top: Vec<String>,
    pub main_worktree: Vec<String>,
}

/// `[tickers]`: the navigation characters.
#[derive(Debug, PartialEq)]
pub struct Tickers {
    pub navigate_up: String,
    pub navigate_down: String,
}

/// One `[mounts]` entry: an explicit path or a provider.
#[derive(Debug, PartialEq)]
pub struct MountSpec {
    pub path: Option<String>,
    pub provider: Option<MountProvider>,
    pub account: Option<OneDriveAccount>,
}

/// The whole configuration file.
pub struct Config {
    pub behavior: Behavior,
    pub programs: Programs,
    pub key_bindings: KeyBindings,
    pub keywords: Keywords,
    pub tickers: Tickers,
    pub aliases: NameMap<String>,
    pub mounts: NameMap<MountSpec>,
}

// ---------------------------------------------------------------------------
// Specification of validation

/// Chains two checks: the first error wins.
pub open spec fn then(first: Result<(), Seq<char>>, next: Result<(), Seq<char>>) -> Result<
    (),
    Seq<char>,
> {
    match first {
        Err(e) => Err(e),
        Ok(()) => next,
    }
}

/// Prefixes an error message.
pub open spec fn prefixed(prefix: Seq<char>, r: Result<(), Seq<char>>) -> Result<(), Seq<char>> {
    match r {
        Err(e) => Err(prefix + e),
        Ok(()) => Ok(()),
    }
}

/// The quoted name of a behavior as `{:?}` prints it.
pub open spec fn behavior_debug(b: KeyBindingBehavior) -> Seq<char> {
    match b {
        KeyBindingBehavior::Zoxide => "\"zoxide\""@,
        KeyBindingBehavior::Cj => "\"cj\""@,
    }
}

/// Whether the behavior at `i` already occurred before it.
pub open spec fn dup_at(s: Seq<KeyBindingBehavior>, i: int) -> bool {
    0 <= i < s.len() && s.take(i).contains(s[i])
}

/// The first position, below `n`, of a repeated behavior.
pub open spec fn first_dup(s: Seq<KeyBindingBehavior>, n: int) -> Option<int>
    decreases n,
{
    if n <= 0 {
        None
    } else {
        match first_dup(s, n - 1) {
            Some(k) => Some(k),
            None => if dup_at(s, n - 1) {
                Some(n - 1)
            } else {
                None
            },
        }
    }
}

/// A binding is valid unless a behavior repeats; the first repeat is reported.
pub open spec fn binding_result(s: Seq<KeyBindingBehavior>) -> Result<(), Seq<char>> {
    match first_dup(s, s.len() as int) {
        Some(i) => Err(
            "behaviors contains duplicate "@ + behavior_debug(s[i])
                + "; use each behavior at most once"@,
        ),
        None => Ok(()),
    }
}

/// Whether a sequence holds a line-breaking character.
pub open spec fn has_line_break(s: Seq<char>) -> bool {
    s.contains('\0') || s.contains('\n') || s.contains('\r')
}

/// `validate_name`: names are non-empty and fit on one line.
pub open spec fn name_result(kind: Seq<char>, name: Seq<char>) -> Result<(), Seq<char>> {
    if name.len() == 0 {
        Err(kind + " name must not be empty"@)
    } else if has_line_break(name) {
        Err(kind + " name "@ + debug_text(name) + " must fit on one line"@)
    } else {
        Ok(())
    }
}

/// The names of `names` below `n` checked in order.
pub open spec fn names_result(kind: Seq<char>, names: Seq<String>, n: int) -> Result<
    (),
    Seq<char>,
>
    decreases n,
{
    if n <= 0 {
        Ok(())
    } else {
        then(names_result(kind, names, n - 1), name_result(kind, names[n - 1]@))
    }
}

/// Whether `c` separates path components.
pub open spec fn is_separator(c: char, windows: bool) -> bool {
    c == '/' || (windows && c == '\\')
}

/// Whether a path is absolute (`Path::is_absolute`): rooted on Unix; on
/// Windows, a drive letter followed by a separator, or a UNC or verbatim
/// prefix beginning with two separators.
pub open spec fn is_absolute_path(s: Seq<char>, windows: bool) -> bool {
    if windows {
        (s.len() >= 3 && (('a' <= s[0] && s[0] <= 'z') || ('A' <= s[0] && s[0] <= 'Z')) && s[1]
            == ':' && is_separator(s[2], true)) || (s.len() >= 2 && is_separator(s[0], true)
            && is_separator(s[1], true))
    } else {
        s.len() >= 1 && s[0] == '/'
    }
}

/// The part after a leading home marker: `~` alone, `~/`, or on Windows `~\`.
pub open spec fn home_suffix(s: Seq<char>, windows: bool) -> Option<Seq<char>> {
    if s == "~"@ {
        Some(Seq::empty())
    } else if s.len() >= 2 && s[0] == '~' && (s[1] == '/' || (windows && s[1] == '\\')) {
        Some(s.skip(2))
    } else {
        None
    }
}

/// `validate_config_path`: a configured path fits on one line and is absolute
/// or home-relative.
pub open spec fn config_path_result(label: Seq<char>, path: Seq<char>, windows: bool) -> Result<
    (),
    Seq<char>,
> {
    if has_line_break(path) {
        Err(label + " must fit on one line"@)
    } else if is_absolute_path(path, windows) || home_suffix(path, windows) is Some {
        Ok(())
    } else {
        Err(
            label + " must be absolute or start with ~/"@ + (if windows {
                " or ~\\"@
            } else {
                Seq::empty()
            }),
        )
    }
}

/// The characters allowed as navigation tickers.
pub open spec fn allowed_ticker(c: char) -> bool {
    c == '^' || c == 'v' || c == 'u' || c == 'd' || c == 'j' || c == 'k'
}

/// `validate_ticker`: exactly one allowed character.
pub open spec fn ticker_result(name: Seq<char>, ticker: Seq<char>) -> Result<(), Seq<char>> {
    if ticker.len() != 1 {
        Err(name + " must be exactly one character"@)
    } else if !allowed_ticker(ticker[0]) {
        Err(
            name + " "@ + debug_text(ticker)
                + " is not allowed; allowed values: ^, v, u, d, j, k"@,
        )
    } else {
        Ok(())
    }
}

/// `MountSpec::validate`: exactly one of a path or a provider, with an
/// account only for OneDrive.
pub open spec fn mount_result(name: Seq<char>, m: &MountSpec, windows: bool) -> Result<
    (),
    Seq<char>,
> {
    match (m.path, m.provider, m.account) {
        (Some(path), None, None) => config_path_result(
            "mounts."@ + name + ".path"@,
            path@,
            windows,
        ),
        (None, Some(MountProvider::OneDrive), _) => Ok(()),
        (None, Some(_), None) => Ok(()),
        (None, None, None) => Err(
            "mounts."@ + name + " must specify exactly one of path or provider"@,
        ),
        (Some(_), _, _) => Err(
            "mounts."@ + name + " cannot specify both path and provider or account"@,
        ),
        (None, None, Some(_)) => Err(
            "mounts."@ + name + ".account requires provider = \"onedrive\""@,
        ),
        (None, Some(_), Some(_)) => Err(
            "mounts."@ + name + ".account is supported only by provider = \"onedrive\""@,
        ),
    }
}

/// One alias checked: its name, then its path.
pub open spec fn alias_result(name: Seq<char>, path: Seq<char>, windows: bool) -> Result<
    (),
    Seq<char>,
> {
    then(name_result("alias"@, name), config_path_result("aliases."@ + name, path, windows))
}

/// The aliases below position `n`, in name order.
pub open spec fn aliases_result(aliases: NameMap<String>, n: int, windows: bool) -> Result<
    (),
    Seq<char>,
>
    decreases n,
{
    if n <= 0 {
        Ok(())
    } else {
        then(
            aliases_result(aliases, n - 1, windows),
            alias_result(aliases.keys()[n - 1], aliases.values()[n - 1]@, windows),
        )
    }
}

/// One mount checked: its name, no collision with an alias, then its source.
pub open spec fn mount_entry_result(
    aliases: NameMap<String>,
    name: Seq<char>,
    m: &MountSpec,
    windows: bool,
) -> Result<(), Seq<char>> {
    then(
        name_result("mount"@, name),
        if aliases.contains(name) {
            Err("name "@ + debug_text(name) + " is used by both an alias and a mount"@)
        } else {
            mount_result(name, m, windows)
        },
    )
}

/// The mounts below position `n`, in name order.
pub open spec fn mounts_result(
    aliases: NameMap<String>,
    mounts: NameMap<MountSpec>,
    n: int,
    windows: bool,
) -> Result<(), Seq<char>>
    decreases n,
{
    if n <= 0 {
        Ok(())
    } else {
        then(
            mounts_result(aliases, mounts, n - 1, windows),
            mount_entry_result(aliases, mounts.keys()[n - 1], &mounts.values()[n - 1], windows),
        )
    }
}

/// The three OS bindings checked in the order macOS, Linux, Windows.
pub open spec fn bindings_result(k: &KeyBindings) -> Result<(), Seq<char>> {
    then(
        prefixed("key-bindings.macos: "@, binding_result(k.macos.behaviors@)),
        then(
            prefixed("key-bindings.linux: "@, binding_result(k.linux.behaviors@)),
            prefixed("key-bindings.windows: "@, binding_result(k.windows.behaviors@)),
        ),
    )
}

/// The tickers checked: each valid, and different from each other.
pub open spec fn tickers_result(t: &Tickers) -> Result<(), Seq<char>> {
    then(
        ticker_result("tickers.navigate_up"@, t.navigate_up@),
        then(
            ticker_result("tickers.navigate_down"@, t.navigate_down@),
            if t.navigate_up@ == t.navigate_down@ {
                Err("tickers.navigate_up and tickers.navigate_down must differ"@)
            } else {
                Ok(())
            },
        ),
    )
}

/// Every rule of `Config::validate`, in its order; the first failure is reported.
pub open spec fn config_result(c: &Config, windows: bool) -> Result<(), Seq<char>> {
    then(
        bindings_result(&c.key_bindings),
        then(
            tickers_result(&c.tickers),
            then(
                names_result("top keyword"@, c.keywords.top@, c.keywords.top@.len() as int),
                then(
                    names_result(
                        "main-worktree keyword"@,
                        c.keywords.main_worktree@,
                        c.keywords.main_worktree@.len() as int,
                    ),
                    then(
                        aliases_result(c.aliases, c.aliases.keys().len() as int, windows),
                        mounts_result(c.aliases, c.mounts, c.mounts.keys().len() as int, windows),
                    ),
                ),
            ),
        ),
    )
}

/// The error of a result, as an owned string in exec code.
pub open spec fn result_view(r: Result<(), String>) -> Result<(), Seq<char>> {
    match r {
        Ok(()) => Ok(()),
        Err(e) => Err(e@),
    }
}

// ---------------------------------------------------------------------------
// Validation

/// Joins two pieces into a new string.
fn join2(a: &str, b: &str) -> (out: String)
    ensures
        out@ == a@ + b@,
{
    let mut out = owned(a);
    push_str(&mut out, b);
    out
}

/// Joins three pieces into a new string.
fn join3(a: &str, b: &str, c: &str) -> (out: String)
    ensures
        out@ == a@ + b@ + c@,
{
    let mut out = owned(a);
    push_str(&mut out, b);
    push_str(&mut out, c);
    out
}

/// Whether a string holds NUL, LF, or CR.
fn line_break_in(s: &str) -> (found: bool)
    ensures
        found == has_line_break(s@),
{
    contains_char(s, '\0') || contains_char(s, '\n') || contains_char(s, '\r')
}

/// Checks that `name` is non-empty and fits on one line.
pub fn validate_name(kind: &str, name: &str) -> (r: Result<(), String>)
    ensures
        result_view(r) == name_result(kind@, name@),
{
    if name.is_empty() {
        return Err(join2(kind, " name must not be empty"));
    }
    if line_break_in(name) {
        let quoted = debug_str(name);
        let mut message = owned(kind);
        push_str(&mut message, " name ");
        push_str(&mut message, quoted.as_str());
        push_str(&mut message, " must fit on one line");
        return Err(message);
    }
    Ok(())
}

/// Whether `s` is absolute on the given platform (`Path::is_absolute`).
pub fn is_absolute(s: &str, windows: bool) -> (absolute: bool)
    ensures
        absolute == is_absolute_path(s@, windows),
{
    let chars = crate::text::chars_of(s);
    if windows {
        let drive = chars.len() >= 3 && (('a' <= chars[0] && chars[0] <= 'z') || ('A' <= chars[0]
            && chars[0] <= 'Z')) && chars[1] == ':' && (chars[2] == '/' || chars[2] == '\\');
        let unc = chars.len() >= 2 && (chars[0] == '/' || chars[0] == '\\') && (chars[1] == '/'
            || chars[1] == '\\');
        drive || unc
    } else {
        chars.len() >= 1 && chars[0] == '/'
    }
}

/// The rest of `value` after a leading home marker, if it has one.
pub fn home_relative_suffix(value: &str, windows: bool) -> (suffix: Option<String>)
    ensures
        match suffix {
            Some(s) => home_suffix(value@, windows) == Some(s@),
            None => home_suffix(value@, windows) is None,
        },
{
    let chars = crate::text::chars_of(value);
    if chars.len() == 1 && chars[0] == '~' {
        assert(value@ =~= "~"@) by {
            reveal_strlit("~");
        }
        return Some(String::new());
    }
    proof {
        reveal_strlit("~");
        if value@ == "~"@ {
            assert(chars@.len() == 1);
        }
    }
    if chars.len() >= 2 && chars[0] == '~' && (chars[1] == '/' || (windows && chars[1] == '\\')) {
        let mut rest = String::new();
        let mut i: usize = 2;
        while i < chars.len()
            invariant
                2 <= i <= chars@.len(),
                chars@ == value@,
                rest@ == value@.subrange(2, i as int),
            decreases chars@.len() - i,
        {
            crate::text::push_char(&mut rest, chars[i]);
            assert(value@.subrange(2, i + 1) =~= value@.subrange(2, i as int).push(chars@[i as int]));
            i = i + 1;
        }
        assert(value@.skip(2) =~= value@.subrange(2, i as int));
        return Some(rest);
    }
    None
}

/// Checks that a configured path fits on one line and is absolute or starts
/// with the home marker.
pub fn validate_config_path(label: &str, path: &str, windows: bool) -> (r: Result<(), String>)
    ensures
        result_view(r) == config_path_result(label@, path@, windows),
{
    if line_break_in(path) {
        return Err(join2(label, " must fit on one line"));
    }
    if is_absolute(path, windows) || home_relative_suffix(path, windows).is_some() {
        Ok(())
    } else if windows {
        Err(join3(label, " must be absolute or start with ~/", " or ~\\"))
    } else {
        let message = join2(label, " must be absolute or start with ~/");
        assert(message@ =~= label@ + " must be absolute or start with ~/"@ + Seq::<char>::empty());
        Err(message)
    }
}

/// Checks that a ticker is exactly one allowed character.
pub fn validate_ticker(name: &str, ticker: &str) -> (r: Result<(), String>)
    ensures
        result_view(r) == ticker_result(name@, ticker@),
{
    let chars = crate::text::chars_of(ticker);
    if chars.len() != 1 {
        return Err(join2(name, " must be exactly one character"));
    }
    let c = chars[0];
    if !(c == '^' || c == 'v' || c == 'u' || c == 'd' || c == 'j' || c == 'k') {
        let quoted = debug_str(ticker);
        let mut message = owned(name);
        push_str(&mut message, " ");
        push_str(&mut message, quoted.as_str());
        push_str(&mut message, " is not allowed; allowed values: ^, v, u, d, j, k");
        return Err(message);
    }
    Ok(())
}

/// The behavior chain a key starts with: none for `none`, otherwise zoxide then cj.
pub open spec fn default_behaviors(key: KeyBinding) -> Seq<KeyBindingBehavior> {
    if key == KeyBinding::Unbound {
        Seq::empty()
    } else {
        seq![KeyBindingBehavior::Zoxide, KeyBindingBehavior::Cj]
    }
}

impl BindingConfig {
    /// The binding for `key` with the default behavior chain, or none when the
    /// key is `none`.
    pub fn from_key(key: KeyBinding) -> (b: BindingConfig)
        ensures
            b.key == key,
            b.behaviors@ == default_behaviors(key),
    {
        let behaviors = if key == KeyBinding::Unbound {
            Vec::new()
        } else {
            let mut v = Vec::new();
            v.push(KeyBindingBehavior::Zoxide);
            v.push(KeyBindingBehavior::Cj);
            v
        };
        BindingConfig { key, behaviors }
    }

    /// Checks that no behavior occurs twice.
    pub fn validate(&self) -> (r: Result<(), String>)
        ensures
            result_view(r) == binding_result(self.behaviors@),
    {
        let s = &self.behaviors;
        let mut index: usize = 0;
        while index < s.len()
            invariant
                index <= s@.len(),
                s@ == self.behaviors@,
                first_dup(s@, index as int) is None,
            decreases s@.len() - index,
        {
            let mut j: usize = 0;
            let mut seen = false;
            while j < index
                invariant
                    j <= index < s@.len(),
                    seen == s@.take(j as int).contains(s@[index as int]),
                decreases index - j,
            {
                if s[j] == s[index as usize] {
                    seen = true;
                }
                proof {
                    assert(s@.take(j + 1) =~= s@.take(j as int).push(s@[j as int]));
                    crate::text::lemma_contains_push(s@.take(j as int), s@[j as int], s@[index as int]);
                }
                j = j + 1;
            }
            assert(s@.take(index as int).take(j as int) =~= s@.take(index as int));
            if seen {
                assert(dup_at(s@, index as int)) by {
                    assert(s@.take(j as int) =~= s@.take(index as int));
                }
                proof {
                    lemma_first_dup_stable(s@, index as int + 1, s@.len() as int);
                    assert(first_dup(s@, s@.len() as int) == Some(index as int));
                    assert(first_dup(self.behaviors@, self.behaviors@.len() as int) == Some(index as int));
                }
                let message = match s[index] {
                    KeyBindingBehavior::Zoxide => join3(
                        "behaviors contains duplicate ",
                        "\"zoxide\"",
                        "; use each behavior at most once",
                    ),
                    KeyBindingBehavior::Cj => join3(
                        "behaviors contains duplicate ",
                        "\"cj\"",
                        "; use each behavior at most once",
                    ),
                };
                assert(message@ == "behaviors contains duplicate "@ + behavior_debug(s@[index as int])
                    + "; use each behavior at most once"@);
                return Err(message);
            }
            assert(!dup_at(s@, index as int)) by {
                assert(s@.take(j as int) =~= s@.take(index as int));
            }
            index = index + 1;
        }
        Ok(())
    }

    /// Builds a binding from the fields of a structured entry: the key
    /// (defaulting to the OS's key) sets the default chain, which an explicit
    /// behavior list replaces; the result must not repeat a behavior.
    pub fn from_parts(
        default_key: KeyBinding,
        key: Option<KeyBinding>,
        behaviors: Option<Vec<KeyBindingBehavior>>,
    ) -> (r: Result<BindingConfig, String>)
        ensures
            match r {
                Ok(b) => {
                    &&& b.key == (match key {
                        Some(k) => k,
                        None => default_key,
                    })
                    &&& b.behaviors@ == (match behaviors {
                        Some(v) => v@,
                        None => default_behaviors(b.key),
                    })
                    &&& binding_result(b.behaviors@) is Ok
                },
                Err(e) => binding_result(
                    match behaviors {
                        Some(v) => v@,
                        None => default_behaviors(
                            match key {
                                Some(k) => k,
                                None => default_key,
                            },
                        ),
                    },
                ) == Err::<(), Seq<char>>(e@),
            },
    {
        let chosen = match key {
            Some(k) => k,
            None => default_key,
        };
        let mut binding = BindingConfig::from_key(chosen);
        match behaviors {
            Some(v) => {
                binding.behaviors = v;
            },
            None => {},
        }
        match binding.validate() {
            Ok(()) => Ok(binding),
            Err(e) => Err(e),
        }
    }
}

/// A repeat found below `n` stays the first one for every larger bound.
pub proof fn lemma_first_dup_stable(s: Seq<KeyBindingBehavior>, n: int, m: int)
    requires
        0 < n <= m,
        first_dup(s, n - 1) is None,
        dup_at(s, n - 1),
    ensures
        first_dup(s, m) == Some(n - 1),
    decreases m - n,
{
    if m > n {
        lemma_first_dup_stable(s, n, m - 1);
    }
}

impl KeyBindings {
    /// The entry for an OS name as Rust's `env::consts::OS` spells it.
    pub fn for_os(&self, os: &str) -> (b: Option<&BindingConfig>)
        ensures
            b == (if os@ == "macos"@ {
                Some(&self.macos)
            } else if os@ == "linux"@ {
                Some(&self.linux)
            } else if os@ == "windows"@ {
                Some(&self.windows)
            } else {
                None
            }),
    {
        if str_eq(os, "macos") {
            Some(&self.macos)
        } else if str_eq(os, "linux") {
            Some(&self.linux)
        } else if str_eq(os, "windows") {
            Some(&self.windows)
        } else {
            None
        }
    }
}

/// The behaviors that run for an OS: none when the OS has no entry or its key
/// is `none`.
pub open spec fn behaviors_for(k: &KeyBindings, os: Seq<char>) -> Seq<KeyBindingBehavior> {
    let b = if os == "macos"@ {
        Some(&k.macos)
    } else if os == "linux"@ {
        Some(&k.linux)
    } else if os == "windows"@ {
        Some(&k.windows)
    } else {
        None
    };
    match b {
        Some(b) => if b.key == KeyBinding::Unbound {
            Seq::empty()
        } else {
            b.behaviors@
        },
        None => Seq::empty(),
    }
}

/// The chord installed for an OS: none when no behavior would run.
pub open spec fn key_for(k: &KeyBindings, os: Seq<char>) -> KeyBinding {
    if behaviors_for(k, os).len() == 0 {
        KeyBinding::Unbound
    } else if os == "macos"@ {
        k.macos.key
    } else if os == "linux"@ {
        k.linux.key
    } else {
        k.windows.key
    }
}

impl Config {
    /// The chord of the binding for `os` (`env::consts::OS`).
    pub fn key_binding(&self, os: &str) -> (key: KeyBinding)
        ensures
            key == key_for(&self.key_bindings, os@),
    {
        if self.key_binding_behaviors(os).len() == 0 {
            return KeyBinding::Unbound;
        }
        match self.key_bindings.for_os(os) {
            Some(binding) => binding.key,
            None => KeyBinding::Unbound,
        }
    }

    /// The behaviors of the binding for `os`, in order.
    pub fn key_binding_behaviors(&self, os: &str) -> (behaviors: &[KeyBindingBehavior])
        ensures
            behaviors@ == behaviors_for(&self.key_bindings, os@),
    {
        match self.key_bindings.for_os(os) {
            Some(binding) => if binding.key != KeyBinding::Unbound {
                binding.behaviors.as_slice()
            } else {
                &[]
            },
            None => &[],
        }
    }

    /// Checks every rule of the configuration in order and reports the first
    /// violation.
    pub fn validate(&self, windows: bool) -> (r: Result<(), String>)
        ensures
            result_view(r) == config_result(self, windows),
    {
        proof {
            use_type_invariant(&self.aliases);
            use_type_invariant(&self.mounts);
        }
        match self.key_bindings.macos.validate() {
            Err(e) => return Err(join2("key-bindings.macos: ", e.as_str())),
            Ok(()) => {},
        }
        match self.key_bindings.linux.validate() {
            Err(e) => return Err(join2("key-bindings.linux: ", e.as_str())),
            Ok(()) => {},
        }
        match self.key_bindings.windows.validate() {
            Err(e) => return Err(join2("key-bindings.windows: ", e.as_str())),
            Ok(()) => {},
        }
        match validate_ticker("tickers.navigate_up", self.tickers.navigate_up.as_str()) {
            Err(e) => return Err(e),
            Ok(()) => {},
        }
        match validate_ticker("tickers.navigate_down", self.tickers.navigate_down.as_str()) {
            Err(e) => return Err(e),
            Ok(()) => {},
        }
        if self.tickers.navigate_up == self.tickers.navigate_down {
            return Err(owned("tickers.navigate_up and tickers.navigate_down must differ"));
        }
        match validate_names("top keyword", &self.keywords.top) {
            Err(e) => return Err(e),
            Ok(()) => {},
        }
        match validate_names("main-worktree keyword", &self.keywords.main_worktree) {
            Err(e) => return Err(e),
            Ok(()) => {},
        }
        match self.validate_aliases(windows) {
            Err(e) => return Err(e),
            Ok(()) => {},
        }
        self.validate_mounts(windows)
    }

    fn validate_aliases(&self, windows: bool) -> (r: Result<(), String>)
        requires
            self.aliases.wf(),
        ensures
            result_view(r) == aliases_result(
                self.aliases,
                self.aliases.keys().len() as int,
                windows,
            ),
    {
        let n = self.aliases.len();
        let mut i: usize = 0;
        while i < n
            invariant
                n == self.aliases.keys().len(),
                i <= n,
                aliases_result(self.aliases, i as int, windows) is Ok,
            decreases n - i,
        {
            let name = self.aliases.key_at(i);
            let path = self.aliases.value_at(i);
            let mut r = validate_name("alias", name.as_str());
            if r.is_ok() {
                let label = join2("aliases.", name.as_str());
                assert(label@ =~= "aliases."@ + name@);
                r = validate_config_path(label.as_str(), path.as_str(), windows);
            }
            match r {
                Err(e) => {
                    proof {
                        lemma_aliases_stop(self.aliases, i as int + 1, n as int, windows);
                    }
                    return Err(e);
                },
                Ok(()) => {},
            }
            i = i + 1;
        }
        Ok(())
    }

    fn validate_mounts(&self, windows: bool) -> (r: Result<(), String>)
        requires
            self.aliases.wf(),
            self.mounts.wf(),
        ensures
            result_view(r) == mounts_result(
                self.aliases,
                self.mounts,
                self.mounts.keys().len() as int,
                windows,
            ),
    {
        let n = self.mounts.len();
        let mut i: usize = 0;
        while i < n
            invariant
                n == self.mounts.keys().len(),
                self.aliases.wf(),
                i <= n,
                mounts_result(self.aliases, self.mounts, i as int, windows) is Ok,
            decreases n - i,
        {
            let name = self.mounts.key_at(i);
            let mount = self.mounts.value_at(i);
            let mut r = validate_name("mount", name.as_str());
            if r.is_ok() {
                if self.aliases.contains_key(name.as_str()) {
                    let quoted = debug_str(name.as_str());
                    r = Err(join3("name ", quoted.as_str(), " is used by both an alias and a mount"));
                } else {
                    r = mount.validate(name.as_str(), windows);
                }
            }
            match r {
                Err(e) => {
                    proof {
                        lemma_mounts_stop(self.aliases, self.mounts, i as int + 1, n as int, windows);
                    }
                    return Err(e);
                },
                Ok(()) => {},
            }
            i = i + 1;
        }
        Ok(())
    }
}

/// Checks the names of a list in order.
fn validate_names(kind: &str, names: &Vec<String>) -> (r: Result<(), String>)
    ensures
        result_view(r) == names_result(kind@, names@, names@.len() as int),
{
    let mut i: usize = 0;
    while i < names.len()
        invariant
            i <= names@.len(),
            names_result(kind@, names@, i as int) is Ok,
        decreases names@.len() - i,
    {
        match validate_name(kind, names[i].as_str()) {
            Err(e) => {
                proof {
                    lemma_names_stop(kind@, names@, i as int + 1, names@.len() as int);
                }
                return Err(e);
            },
            Ok(()) => {},
        }
        i = i + 1;
    }
    Ok(())
}

/// An error found at `n` is the error of every larger prefix.
proof fn lemma_names_stop(kind: Seq<char>, names: Seq<String>, n: int, m: int)
    requires
        0 < n <= m,
        names_result(kind, names, n) is Err,
    ensures
        names_result(kind, names, m) == names_result(kind, names, n),
    decreases m - n,
{
    if m > n {
        lemma_names_stop(kind, names, n, m - 1);
    }
}

proof fn lemma_aliases_stop(aliases: NameMap<String>, n: int, m: int, windows: bool)
    requires
        0 < n <= m,
        aliases_result(aliases, n, windows) is Err,
    ensures
        aliases_result(aliases, m, windows) == aliases_result(aliases, n, windows),
    decreases m - n,
{
    if m > n {
        lemma_aliases_stop(aliases, n, m - 1, windows);
    }
}

proof fn lemma_mounts_stop(
    aliases: NameMap<String>,
    mounts: NameMap<MountSpec>,
    n: int,
    m: int,
    windows: bool,
)
    requires
        0 < n <= m,
        mounts_result(aliases, mounts, n, windows) is Err,
    ensures
        mounts_result(aliases, mounts, m, windows) == mounts_result(aliases, mounts, n, windows),
    decreases m - n,
{
    if m > n {
        lemma_mounts_stop(aliases, mounts, n, m - 1, windows);
    }
}

impl MountSpec {
    /// Checks that the mount names exactly one source.
    pub fn validate(&self, name: &str, windows: bool) -> (r: Result<(), String>)
        ensures
            result_view(r) == mount_result(name@, self, windows),
    {
        match (&self.path, self.provider, self.account) {
            (Some(path), None, None) => {
                let mut label = join3("mounts.", name, ".path");
                validate_config_path(label.as_str(), path.as_str(), windows)
            },
            (None, Some(MountProvider::OneDrive), _) => Ok(()),
            (None, Some(_), None) => Ok(()),
            (None, None, None) => Err(
                join3("mounts.", name, " must specify exactly one of path or provider"),
            ),
            (Some(_), _, _) => Err(
                join3("mounts.", name, " cannot specify both path and provider or account"),
            ),
            (None, None, Some(_)) => Err(
                join3("mounts.", name, ".account requires provider = \"onedrive\""),
            ),
            (None, Some(_), Some(_)) => Err(
                join3("mounts.", name, ".account is supported only by provider = \"onedrive\""),
            ),
        }
    }
}


impl Default for Behavior {
    /// Zoxide resolves what nothing else does.
    fn default() -> (b: Behavior)
        ensures
            b.default == DefaultResolver::Zoxide,
    {
        Behavior { default: DefaultResolver::Zoxide }
    }
}

impl Default for Programs {
    /// The programs found on `PATH`.
    fn default() -> (p: Programs)
        ensures
            p.zoxide@ == "zoxide"@,
            p.fzf@ == "fzf"@,
    {
        Programs { zoxide: owned("zoxide"), fzf: owned("fzf") }
    }
}

impl Default for KeyBindings {
    /// Ctrl+O on macOS and Windows, Alt+O on Linux, each with the default
    /// behavior chain.
    fn default() -> (k: KeyBindings)
        ensures
            k.macos.key == KeyBinding::CtrlO,
            k.macos.behaviors@ == default_behaviors(KeyBinding::CtrlO),
            k.linux.key == KeyBinding::AltO,
            k.linux.behaviors@ == default_behaviors(KeyBinding::AltO),
            k.windows.key == KeyBinding::CtrlO,
            k.windows.behaviors@ == default_behaviors(KeyBinding::CtrlO),
    {
        KeyBindings {
            macos: BindingConfig::from_key(KeyBinding::CtrlO),
            linux: BindingConfig::from_key(KeyBinding::AltO),
            windows: BindingConfig::from_key(KeyBinding::CtrlO),
        }
    }
}

impl Default for Keywords {
    /// `top` for the repository's top level; `origin` and `og` for its main
    /// worktree.
    fn default() -> (k: Keywords)
        ensures
            crate::text::views(k.top@) == seq!["top"@],
            crate::text::views(k.main_worktree@) == seq!["origin"@, "og"@],
    {
        let mut top: Vec<String> = Vec::new();
        top.push(owned("top"));
        let mut main_worktree: Vec<String> = Vec::new();
        main_worktree.push(owned("origin"));
        main_worktree.push(owned("og"));
        let k = Keywords { top, main_worktree };
        assert(crate::text::views(k.top@) =~= seq!["top"@]);
        assert(crate::text::views(k.main_worktree@) =~= seq!["origin"@, "og"@]);
        k
    }
}

impl Default for Tickers {
    /// `^` goes up and `v` goes back down.
    fn default() -> (t: Tickers)
        ensures
            t.navigate_up@ == "^"@,
            t.navigate_down@ == "v"@,
    {
        Tickers { navigate_up: owned("^"), navigate_down: owned("v") }
    }
}

/// Whether every setting but the mounts is the default one.
pub open spec fn is_default_except_mounts(c: &Config) -> bool {
    &&& c.behavior.default == DefaultResolver::Zoxide
    &&& c.programs.zoxide@ == "zoxide"@
    &&& c.programs.fzf@ == "fzf"@
    &&& c.key_bindings.macos.key == KeyBinding::CtrlO
    &&& c.key_bindings.macos.behaviors@ == default_behaviors(KeyBinding::CtrlO)
    &&& c.key_bindings.linux.key == KeyBinding::AltO
    &&& c.key_bindings.linux.behaviors@ == default_behaviors(KeyBinding::AltO)
    &&& c.key_bindings.windows.key == KeyBinding::CtrlO
    &&& c.key_bindings.windows.behaviors@ == default_behaviors(KeyBinding::CtrlO)
    &&& crate::text::views(c.keywords.top@) == seq!["top"@]
    &&& crate::text::views(c.keywords.main_worktree@) == seq!["origin"@, "og"@]
    &&& c.tickers.navigate_up@ == "^"@
    &&& c.tickers.navigate_down@ == "v"@
    &&& c.aliases.wf()
    &&& c.aliases.keys().len() == 0
}

/// Whether a configuration is the default one.
pub open spec fn is_default(c: &Config) -> bool {
    &&& is_default_except_mounts(c)
    &&& c.mounts.wf()
    &&& c.mounts.keys().len() == 0
}

impl Default for Config {
    /// The configuration used when no file exists.
    fn default() -> (c: Config)
        ensures
            is_default(&c),
    {
        Config {
            behavior: Behavior::default(),
            programs: Programs::default(),
            key_bindings: KeyBindings::default(),
            keywords: Keywords::default(),
            tickers: Tickers::default(),
            aliases: NameMap::new(),
            mounts: NameMap::new(),
        }
    }
}

/// Where the configuration file is by default: under `XDG_CONFIG_HOME`, on
/// Windows under `APPDATA`, or under `~/.config`; each only when set and
/// not empty. `windows_paths` selects the path syntax the joins follow.
pub open spec fn config_path_model(
    xdg: Option<Seq<char>>,
    appdata: Option<Seq<char>>,
    home: Option<Seq<char>>,
    windows: bool,
    windows_paths: bool,
) -> Option<Seq<char>> {
    let base = if xdg matches Some(x) && x.len() > 0 {
        xdg
    } else if windows && (appdata matches Some(a) && a.len() > 0) {
        appdata
    } else if home matches Some(h) && h.len() > 0 {
        Some(crate::resolver::push_path(home->0, ".config"@, windows_paths))
    } else {
        None
    };
    match base {
        Some(b) => Some(crate::resolver::push_path(b, "cj/config.toml"@, windows_paths)),
        None => None,
    }
}

/// An optional string as an optional character sequence.
pub open spec fn opt_chars(o: Option<&str>) -> Option<Seq<char>> {
    match o {
        Some(s) => Some(s@),
        None => None,
    }
}

fn non_empty(o: Option<&str>) -> (r: Option<&str>)
    ensures
        match r {
            Some(s) => o == Some(s) && s@.len() > 0,
            None => !(o matches Some(s) && s@.len() > 0),
        },
{
    match o {
        Some(s) => if crate::text::chars_of(s).len() > 0 {
            Some(s)
        } else {
            None
        },
        None => None,
    }
}

/// The default configuration path for the given environment.
pub fn config_path_from(
    xdg: Option<&str>,
    appdata: Option<&str>,
    home: Option<&str>,
    windows: bool,
    windows_paths: bool,
) -> (r: Option<String>)
    ensures
        match r {
            Some(p) => config_path_model(opt_chars(xdg), opt_chars(appdata), opt_chars(home), windows, windows_paths)
                == Some(p@),
            None => config_path_model(opt_chars(xdg), opt_chars(appdata), opt_chars(home), windows, windows_paths) is None,
        },
{
    let base: String = match non_empty(xdg) {
        Some(x) => owned(x),
        None => {
            let a = if windows {
                non_empty(appdata)
            } else {
                None
            };
            match a {
                Some(a) => owned(a),
                None => match non_empty(home) {
                    Some(h) => crate::resolver::join_paths(h, ".config", windows_paths),
                    None => {
                        return None;
                    },
                },
            }
        },
    };
    Some(crate::resolver::join_paths(base.as_str(), "cj/config.toml", windows_paths))
}

/// A mount entry that names a path and nothing else.
pub open spec fn is_path_mount(m: MountSpec, p: Seq<char>) -> bool {
    m.path matches Some(x) && x@ == p && m.provider is None && m.account is None
}

/// Whether entry `i` of a list is the last one with its name.
pub open spec fn last_of_name(d: Seq<(String, String)>, i: int, n: int) -> bool {
    0 <= i < n && forall|j: int| i < j < n ==> #[trigger] d[j].0@ != d[i].0@
}

impl Config {
    /// The default configuration with discovered mounts added by path; a
    /// later mount of the same name replaces an earlier one.
    pub fn with_mounts(discovered: &Vec<(String, String)>) -> (c: Config)
        ensures
            is_default_except_mounts(&c),
            c.mounts.wf(),
            forall|k: Seq<char>| #[trigger] c.mounts.contains(k) <==> discovered@.map_values(|m: (String, String)| m.0@).contains(k),
            forall|i: int|
                last_of_name(discovered@, i, discovered@.len() as int) ==> is_path_mount(
                    #[trigger] c.mounts.lookup(discovered@[i].0@),
                    discovered@[i].1@,
                ),
    {
        let mut c = Config::default();
        assert forall|k: Seq<char>| #[trigger] c.mounts.contains(k) <==> discovered@.take(0).map_values(|m: (String, String)| m.0@).contains(k) by {
            c.mounts.lemma_keys_values_len();
            assert(discovered@.take(0).map_values(|m: (String, String)| m.0@) =~= Seq::<Seq<char>>::empty());
            if c.mounts.contains(k) {
                assert(c.mounts.index_of(k) >= 0);
            }
        }
        let mut i: usize = 0;
        while i < discovered.len()
            invariant
                i <= discovered@.len(),
                is_default_except_mounts(&c),
                c.mounts.wf(),
                forall|k: Seq<char>| #[trigger] c.mounts.contains(k) <==> discovered@.take(i as int).map_values(|m: (String, String)| m.0@).contains(k),
                forall|q: int|
                    last_of_name(discovered@, q, i as int) ==> is_path_mount(
                        #[trigger] c.mounts.lookup(discovered@[q].0@),
                        discovered@[q].1@,
                    ),
            decreases discovered@.len() - i,
        {
            let ghost old_mounts = c.mounts;
            let name = discovered[i].0.clone();
            let path = discovered[i].1.clone();
            c.mounts.insert(name, MountSpec { path: Some(path), provider: None, account: None });
            proof {
                let names_before = discovered@.take(i as int).map_values(|m: (String, String)| m.0@);
                let names_after = discovered@.take(i + 1).map_values(|m: (String, String)| m.0@);
                assert(names_after =~= names_before.push(discovered@[i as int].0@));
                assert forall|k: Seq<char>| #[trigger] c.mounts.contains(k) <==> names_after.contains(k) by {
                    crate::text::lemma_contains_push(names_before, discovered@[i as int].0@, k);
                }
                assert forall|q: int| last_of_name(discovered@, q, i + 1) implies is_path_mount(
                    #[trigger] c.mounts.lookup(discovered@[q].0@),
                    discovered@[q].1@,
                ) by {
                    if q < i {
                        assert(discovered@[i as int].0@ != discovered@[q].0@);
                        assert(last_of_name(discovered@, q, i as int));
                        assert(old_mounts.contains(discovered@[q].0@)) by {
                            assert(names_before[q] == discovered@[q].0@);
                        }
                    }
                }
            }
            i = i + 1;
        }
        assert(discovered@.take(i as int) =~= discovered@);
        c
    }
}

/// What a configuration file that could not be read gives: the default
/// configuration when the default file is missing, otherwise an error that
/// names the file (`error` is why it could not be read).
pub fn unreadable_config(path: &str, explicit: bool, not_found: bool, error: &str) -> (r: Result<
    Config,
    String,
>)
    ensures
        match r {
            Ok(c) => !explicit && not_found && is_default(&c),
            Err(e) => !(!explicit && not_found) && e@ == "cannot read config "@ + path@ + ": "@
                + error@,
        },
{
    if !explicit && not_found {
        return Ok(Config::default());
    }
    let mut e = owned("cannot read config ");
    push_str(&mut e, path);
    push_str(&mut e, ": ");
    push_str(&mut e, error);
    Err(e)
}

/// The message for a configuration file that does not parse or validate.
pub open spec fn invalid_config_text(path: Seq<char>, reason: Seq<char>) -> Seq<char> {
    "invalid config "@ + path + ": "@ + reason
}

/// A parsed configuration file, accepted only when it validates; a parse
/// error or the first rule it breaks is reported with the file's path.
pub fn checked_config(path: &str, parsed: Result<Config, String>, windows: bool) -> (r: Result<
    Config,
    String,
>)
    ensures
        match parsed {
            Err(p) => r matches Err(e) && e@ == invalid_config_text(path@, p@),
            Ok(c) => match config_result(&c, windows) {
                Ok(()) => r matches Ok(d) && d == c,
                Err(reason) => r matches Err(e) && e@ == invalid_config_text(path@, reason),
            },
        },
{
    match parsed {
        Err(p) => {
            let mut e = owned("invalid config ");
            push_str(&mut e, path);
            push_str(&mut e, ": ");
            push_str(&mut e, p.as_str());
            Err(e)
        },
        Ok(c) => match c.validate(windows) {
            Ok(()) => Ok(c),
            Err(reason) => {
                let mut e = owned("invalid config ");
                push_str(&mut e, path);
                push_str(&mut e, ": ");
                push_str(&mut e, reason.as_str());
                Err(e)
            },
        },
    }
}

} // verus!
