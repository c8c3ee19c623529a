//! Properties of the library as a whole, stated over the specifications that
//! the functions' contracts use, and proved.
use vstd::prelude::*;

use crate::cli::{arg_text, parse_model, scan_from, finish, initial_scan, CliModel, CommandModel, OsArg, ResolverOverride, Scan};
use crate::config::{
    allowed_ticker, binding_result, config_result, dup_at, first_dup, is_default, mounts_result, then,
    Config, KeyBindingBehavior, MountProvider, MountSpec, OneDriveAccount, mount_result, has_line_break,
    is_absolute_path, home_suffix,
};
use crate::path_bytes::{bytes_path, output_model, PathModel};
use crate::resolver::{
    depth, literal_model, plan_model, shortcut_model, ticker_count, up_steps, ResolutionModel,
    MAX_TICKER_COUNT,
};
use crate::text::{all_digits, decimal_text, decimal_value, digit_char, is_digit};
use crate::key_zoxide::{interactive_model, listing_model, unavailable_text};
use crate::paths::path_components;
use crate::powershell::{is_ps_quote, ps_escape, ps_escape_char};
use crate::resolver::{navigate_down_model, normal_names, route_below};
use crate::resolver::{
    zoxide_error_text, zoxide_resolution_model, NavigationContext, ZoxideFailureModel,
};
use crate::config::DefaultResolver;
use crate::worktree::{pick_model, run_end, WorktreeModel};
use crate::cli::Shell;
use crate::config::{behaviors_for, KeyBinding};
use crate::key_bindings::{
    apply_text, behavior_words, binding_text, cleanup_text, BASH4_CLOSE, BASH4_OPEN, key_bindings_text, posix_body, posix_widget,
    read_buffer_text, reset_text, resume_text, BODY_0, BODY_1, BODY_10, BODY_11, BODY_2, BODY_3,
    BODY_4, BODY_5, BODY_6, BODY_7, BODY_8, BODY_9,
};
use crate::key_history::history_text;
use crate::quote::posix_quoted;
use crate::mounts::{
    any_dynamic, considered, group_of, group_ready, insert_pos, invalid_volumes, mount_names, name_list,
    provider_ready, provider_set, provider_skipped, ready_name, scan_model, skipped_name, sort_by_key,
    volume_paths, volume_ready, volume_skipped, windows_ready, windows_skipped, DiscoveryContext, Platform, ReadyModel,
    SkippedModel, WindowsMount,
};
use crate::text::sorted_seq;
use crate::mounts::{dedup_model, onedrive_paths, resolve_provider_model};
use vstd::utf8::encode_utf8;

verus! {

#[verifier::spinoff_prover]
proof fn lemma_targets_after_double_dash(args: Seq<OsArg>, i: int, st: Scan)
    requires
        0 <= i <= args.len(),
        !st.options,
    ensures
        scan_from(args, i, st) == finish(Scan { targets: st.targets + args.skip(i), ..st }),
    decreases args.len() - i,
{
    if i == args.len() {
        assert(st.targets + args.skip(i) =~= st.targets);
    } else {
        let next = Scan { targets: st.targets.push(args[i]), ..st };
        lemma_targets_after_double_dash(args, i + 1, next);
        assert(next.targets + args.skip(i + 1) =~= st.targets + args.skip(i));
    }
}

/// Everything after `--` is a target: `cj -- a b` resolves `a b` with the
/// configured resolver, whatever the arguments look like.
pub proof fn law_double_dash_makes_targets(dash: OsArg, rest: Seq<OsArg>)
    requires
        arg_text(dash) == Some("--"@),
    ensures
        parse_model(seq![dash] + rest) == Ok::<CliModel, Seq<char>>(
            CliModel {
                config_path: None,
                verbose: false,
                command: CommandModel::Resolve { targets: rest, resolver: ResolverOverride::Configured },
            },
        ),
{
    let args = seq![dash] + rest;
    let st = initial_scan();
    let st1 = Scan { options: false, force_resolve: true, ..st };
    assert(args[0] == dash);
    lemma_targets_after_double_dash(args, 1, st1);
    assert(args.skip(1) =~= rest);
    assert(st1.targets + args.skip(1) =~= rest);
}


proof fn lemma_resolver_flag_class(a: OsArg)
    requires
        arg_text(a) == Some("-z"@) || arg_text(a) == Some("-Z"@) || arg_text(a) == Some("-r"@),
    ensures
        arg_text(a) == Some("-z"@) ==> crate::cli::classify(true, arg_text(a)) is Zoxide,
        arg_text(a) == Some("-Z"@) ==> crate::cli::classify(true, arg_text(a)) is NoZoxide,
        arg_text(a) == Some("-r"@) ==> crate::cli::classify(true, arg_text(a)) is Raw,
        arg_text(a) == Some("-z"@) ==> arg_text(a) != Some("-Z"@) && arg_text(a) != Some("-r"@),
        arg_text(a) == Some("-Z"@) ==> arg_text(a) != Some("-r"@),
{
    reveal_strlit("--");
    assert("--"@.len() == 2);
    assert("--"@[1] == '-');
    reveal_strlit("-h");
    assert("-h"@.len() == 2);
    assert("-h"@[1] == 'h');
    reveal_strlit("--help");
    assert("--help"@.len() == 6);
    reveal_strlit("-V");
    assert("-V"@.len() == 2);
    assert("-V"@[1] == 'V');
    reveal_strlit("--version");
    assert("--version"@.len() == 9);
    reveal_strlit("-C");
    assert("-C"@.len() == 2);
    assert("-C"@[1] == 'C');
    reveal_strlit("--config");
    assert("--config"@.len() == 8);
    reveal_strlit("-v");
    assert("-v"@.len() == 2);
    assert("-v"@[1] == 'v');
    reveal_strlit("--verbose");
    assert("--verbose"@.len() == 9);
    reveal_strlit("-z");
    assert("-z"@.len() == 2);
    assert("-z"@[1] == 'z');
    reveal_strlit("--zoxide");
    assert("--zoxide"@.len() == 8);
    reveal_strlit("-Z");
    assert("-Z"@.len() == 2);
    assert("-Z"@[1] == 'Z');
    reveal_strlit("--no-zoxide");
    assert("--no-zoxide"@.len() == 11);
    reveal_strlit("-r");
    assert("-r"@.len() == 2);
    assert("-r"@[1] == 'r');
    reveal_strlit("--raw");
    assert("--raw"@.len() == 5);
    assert("-z"@ != "--"@);
    assert("-z"@ != "-h"@);
    assert("-z"@ != "-V"@);
    assert("-z"@ != "-C"@);
    assert("-z"@ != "-v"@);
    assert("-z"@ != "-Z"@);
    assert("-Z"@ != "--"@);
    assert("-Z"@ != "-h"@);
    assert("-Z"@ != "-V"@);
    assert("-Z"@ != "-C"@);
    assert("-Z"@ != "-v"@);
    assert("-Z"@ != "-z"@);
    assert("-r"@ != "--"@);
    assert("-r"@ != "-h"@);
    assert("-r"@ != "-V"@);
    assert("-r"@ != "-C"@);
    assert("-r"@ != "-v"@);
    assert("-r"@ != "-z"@);
    assert("-r"@ != "-Z"@);
}

/// Two different resolver flags cannot be combined: `-r`, `-z` and `-Z`
/// exclude each other, whatever follows.
pub proof fn law_resolver_flags_exclude_each_other(first: OsArg, second: OsArg, rest: Seq<OsArg>)
    requires
        arg_text(first) == Some("-z"@) || arg_text(first) == Some("-Z"@) || arg_text(first) == Some(
            "-r"@,
        ),
        arg_text(second) == Some("-z"@) || arg_text(second) == Some("-Z"@) || arg_text(second)
            == Some("-r"@),
        arg_text(first) != arg_text(second),
    ensures
        parse_model(seq![first, second] + rest) == Err::<CliModel, Seq<char>>(
            "--raw, --zoxide, and --no-zoxide cannot be used together"@,
        ),
{
    let args = seq![first, second] + rest;
    assert(args[0] == first);
    assert(args[1] == second);
    lemma_resolver_flag_class(first);
    lemma_resolver_flag_class(second);
    let r1 = if arg_text(first) == Some("-z"@) {
        ResolverOverride::Zoxide
    } else if arg_text(first) == Some("-Z"@) {
        ResolverOverride::NoZoxide
    } else {
        ResolverOverride::Raw
    };
    let st1 = Scan { resolver: r1, ..initial_scan() };
    assert(crate::cli::step(args, 0, initial_scan()) == crate::cli::Step::Next(1, st1));
    assert(scan_from(args, 0, initial_scan()) == scan_from(args, 1, st1));
    assert(scan_from(args, 1, st1) == Err::<CliModel, Seq<char>>(
        "--raw, --zoxide, and --no-zoxide cannot be used together"@,
    ));
}

/// An existing directory always wins: a single target that is a directory
/// is used as it is, unless zoxide is forced (`-z`).
pub proof fn law_existing_directory_wins(
    target: OsArg,
    resolver: ResolverOverride,
    c: &Config,
    nav: &crate::resolver::NavigationContext,
)
    requires
        resolver != ResolverOverride::Zoxide,
    ensures
        plan_model(seq![target], resolver, c, nav, true) == Ok::<ResolutionModel, Seq<char>>(
            ResolutionModel::Path(crate::path_bytes::path_model(target)),
        ),
{
    assert(seq![target][0] == target);
}

/// `-r` takes its one target literally and bypasses every cj shortcut and
/// zoxide.
pub proof fn law_raw_is_literal(
    targets: Seq<OsArg>,
    c: &Config,
    nav: &crate::resolver::NavigationContext,
    target_is_dir: bool,
)
    ensures
        plan_model(targets, ResolverOverride::Raw, c, nav, target_is_dir) == literal_model(targets),
{
}

/// `-Z` never consults zoxide.
pub proof fn law_no_zoxide_never_queries_zoxide(
    targets: Seq<OsArg>,
    c: &Config,
    nav: &crate::resolver::NavigationContext,
    target_is_dir: bool,
)
    ensures
        !(plan_model(targets, ResolverOverride::NoZoxide, c, nav, target_is_dir) matches Ok(
            ResolutionModel::Zoxide { .. },
        )),
{
}

/// A configured alias is used even when zoxide is the default; if its
/// destination turns out unreachable that is an error, not a fall-through.
pub proof fn law_alias_does_not_fall_through(
    target: OsArg,
    resolver: ResolverOverride,
    c: &Config,
    nav: &crate::resolver::NavigationContext,
)
    requires
        resolver == ResolverOverride::Configured || resolver == ResolverOverride::NoZoxide,
        arg_text(target) matches Some(t) && c.aliases.contains(t) && ticker_count(
            t,
            c.tickers.navigate_up@,
        ) is None && ticker_count(t, c.tickers.navigate_down@) is None,
    ensures
        plan_model(seq![target], resolver, c, nav, false) matches Ok(ResolutionModel::Alias { name, path })
            && Some(name) == arg_text(target),
{
    assert(seq![target][0] == target);
}

/// Upward navigation never goes past the filesystem root: the steps taken
/// are at most the current directory's depth (and at least one).
pub proof fn law_upward_counts_cap_at_root(count: nat, cwd: Seq<char>, windows: bool)
    ensures
        up_steps(count, cwd, windows) >= 1,
        up_steps(count, cwd, windows) <= count || up_steps(count, cwd, windows) == 1,
        up_steps(count, cwd, windows) <= depth(crate::paths::path_components(cwd, windows)) || up_steps(
            count,
            cwd,
            windows,
        ) == 1,
{
}

proof fn lemma_decimal_digits(n: nat)
    ensures
        all_digits(decimal_text(n)),
        decimal_value(decimal_text(n)) == n,
        decimal_text(n).len() >= 1,
    decreases n,
{
    if n >= 10 {
        lemma_decimal_digits(n / 10);
        let d = decimal_text(n);
        assert(d.drop_last() =~= decimal_text(n / 10));
        assert(crate::text::digit_value(digit_char(n % 10)) == n % 10) by {
            assert(n % 10 < 10);
        }
        assert forall|k: int| 0 <= k < d.len() implies is_digit(#[trigger] d[k]) by {
            if k < d.len() - 1 {
                assert(d[k] == decimal_text(n / 10)[k]);
            }
        }
        assert(d.last() == digit_char(n % 10));
        assert(decimal_value(d) == decimal_value(d.drop_last()) * 10 + crate::text::digit_value(d.last()));
        assert(decimal_value(d) == decimal_value(decimal_text(n / 10)) * 10 + n % 10);
        assert(n == (n / 10) * 10 + n % 10);
    } else {
        let d = decimal_text(n);
        assert(d.drop_last() =~= Seq::<char>::empty());
        assert(d.last() == digit_char(n));
        assert(crate::text::digit_value(digit_char(n)) == n);
        assert(decimal_value(d) == decimal_value(d.drop_last()) * 10 + crate::text::digit_value(d.last()));
    }
}

/// A counted ticker means the same as the ticker repeated: `^3` and `^^^`
/// both go three levels, for every count from 1 to 2147483647.
pub proof fn law_counted_ticker_equals_repetition(ticker: char, n: nat)
    requires
        allowed_ticker(ticker),
        1 <= n <= MAX_TICKER_COUNT,
    ensures
        ticker_count(Seq::new(n, |i: int| ticker), seq![ticker]) == Some(n),
        ticker_count(seq![ticker] + decimal_text(n), seq![ticker]) == Some(n),
{
    let repeated = Seq::new(n, |i: int| ticker);
    assert(repeated[0] == ticker);
    lemma_decimal_digits(n);
    let counted = seq![ticker] + decimal_text(n);
    assert(counted[0] == ticker);
    assert(counted.skip(1) =~= decimal_text(n));
    assert(counted[1] == decimal_text(n)[0]);
    assert(is_digit(decimal_text(n)[0]));
    assert(!(forall|k: int| 0 <= k < counted.len() ==> #[trigger] counted[k] == ticker));
}


proof fn lemma_then_ok(a: Result<(), Seq<char>>, b: Result<(), Seq<char>>)
    requires
        then(a, b) == Ok::<(), Seq<char>>(()),
    ensures
        a is Ok,
        b is Ok,
{
}

proof fn lemma_mounts_ok(c: &Config, n: int, windows: bool, k: int)
    requires
        0 <= k < n <= c.mounts.keys().len(),
        mounts_result(c.aliases, c.mounts, n, windows) == Ok::<(), Seq<char>>(()),
    ensures
        !c.aliases.contains(c.mounts.keys()[k]),
    decreases n,
{
    lemma_then_ok(
        mounts_result(c.aliases, c.mounts, n - 1, windows),
        crate::config::mount_entry_result(c.aliases, c.mounts.keys()[n - 1], &c.mounts.values()[n - 1], windows),
    );
    if k < n - 1 {
        lemma_mounts_ok(c, n - 1, windows, k);
    } else {
        lemma_then_ok(
            crate::config::name_result("mount"@, c.mounts.keys()[k]),
            if c.aliases.contains(c.mounts.keys()[k]) {
                Err("name "@ + crate::text::debug_text(c.mounts.keys()[k]) + " is used by both an alias and a mount"@)
            } else {
                crate::config::mount_result(c.mounts.keys()[k], &c.mounts.values()[k], windows)
            },
        );
    }
}

proof fn lemma_no_dup(s: Seq<KeyBindingBehavior>, n: int, i: int, j: int)
    requires
        0 <= i < j < n <= s.len(),
        first_dup(s, n) is None,
    ensures
        s[i] != s[j],
    decreases n,
{
    if j < n - 1 {
        lemma_no_dup(s, n - 1, i, j);
    } else {
        assert(!dup_at(s, j));
        if s[i] == s[j] {
            assert(s.take(j)[i] == s[j]);
        }
    }
}

/// Whether no behavior occurs twice.
pub open spec fn distinct_behaviors(s: Seq<KeyBindingBehavior>) -> bool {
    forall|i: int, j: int| 0 <= i < j < s.len() ==> s[i] != s[j]
}

/// A configuration that validates has usable tickers (one allowed character
/// each, and different from each other), no name that is both an alias and a
/// mount, and no behavior listed twice for an OS.
pub proof fn law_valid_config_is_consistent(c: &Config, windows: bool)
    requires
        config_result(c, windows) == Ok::<(), Seq<char>>(()),
    ensures
        c.tickers.navigate_up@.len() == 1 && allowed_ticker(c.tickers.navigate_up@[0]),
        c.tickers.navigate_down@.len() == 1 && allowed_ticker(c.tickers.navigate_down@[0]),
        c.tickers.navigate_up@ != c.tickers.navigate_down@,
        forall|k: Seq<char>| #[trigger] c.mounts.contains(k) ==> !c.aliases.contains(k),
        distinct_behaviors(c.key_bindings.macos.behaviors@),
        distinct_behaviors(c.key_bindings.linux.behaviors@),
        distinct_behaviors(c.key_bindings.windows.behaviors@),
{
    let k = &c.key_bindings;
    let t = &c.tickers;
    let rest = then(
        crate::config::tickers_result(t),
        then(
            crate::config::names_result("top keyword"@, c.keywords.top@, c.keywords.top@.len() as int),
            then(
                crate::config::names_result(
                    "main-worktree keyword"@,
                    c.keywords.main_worktree@,
                    c.keywords.main_worktree@.len() as int,
                ),
                then(
                    crate::config::aliases_result(c.aliases, c.aliases.keys().len() as int, windows),
                    mounts_result(c.aliases, c.mounts, c.mounts.keys().len() as int, windows),
                ),
            ),
        ),
    );
    lemma_then_ok(crate::config::bindings_result(k), rest);
    assert forall|i: int, j: int| 0 <= i < j < k.macos.behaviors@.len() implies k.macos.behaviors@[i] != k.macos.behaviors@[j] by {
        lemma_no_dup(k.macos.behaviors@, k.macos.behaviors@.len() as int, i, j);
    }
    assert forall|i: int, j: int| 0 <= i < j < k.linux.behaviors@.len() implies k.linux.behaviors@[i] != k.linux.behaviors@[j] by {
        lemma_no_dup(k.linux.behaviors@, k.linux.behaviors@.len() as int, i, j);
    }
    assert forall|i: int, j: int| 0 <= i < j < k.windows.behaviors@.len() implies k.windows.behaviors@[i] != k.windows.behaviors@[j] by {
        lemma_no_dup(k.windows.behaviors@, k.windows.behaviors@.len() as int, i, j);
    }
    assert forall|name: Seq<char>| #[trigger] c.mounts.contains(name) implies !c.aliases.contains(name) by {
        let q = choose|q: int| 0 <= q < c.mounts.keys().len() && c.mounts.keys()[q] == name;
        lemma_mounts_ok(c, c.mounts.keys().len() as int, windows, q);
    }
}

/// The default configuration is valid on every platform.
pub proof fn law_default_config_is_valid(c: &Config, windows: bool)
    requires
        is_default(c),
    ensures
        config_result(c, windows) == Ok::<(), Seq<char>>(()),
{
    lemma_defaults_pass(c, windows);
}

/// With every setting but the mounts at its default, the configuration is
/// judged by its mounts alone.
proof fn lemma_defaults_pass(c: &Config, windows: bool)
    requires
        crate::config::is_default_except_mounts(c),
    ensures
        config_result(c, windows) == mounts_result(c.aliases, c.mounts, c.mounts.keys().len() as int, windows),
{
    reveal_strlit("^");
    reveal_strlit("v");
    reveal_strlit("top");
    reveal_strlit("origin");
    reveal_strlit("og");
    let top = c.keywords.top@;
    let main = c.keywords.main_worktree@;
    assert(crate::text::views(top).len() == 1);
    assert(crate::text::views(main).len() == 2);
    assert(crate::text::views(top)[0] == top[0]@);
    assert(crate::text::views(main)[0] == main[0]@);
    assert(crate::text::views(main)[1] == main[1]@);
    assert(top[0]@ == "top"@);
    assert(main[0]@ == "origin"@);
    assert(main[1]@ == "og"@);
    assert(!has_line_break_lit(top[0]@));
    assert(!has_line_break_lit(main[0]@));
    assert(!has_line_break_lit(main[1]@));
    assert(first_dup(crate::config::default_behaviors(crate::config::KeyBinding::CtrlO), 2) is None) by {
        let s = crate::config::default_behaviors(crate::config::KeyBinding::CtrlO);
        assert(s.take(0) =~= Seq::<KeyBindingBehavior>::empty());
        assert(!dup_at(s, 0));
        assert(s.take(1) =~= seq![KeyBindingBehavior::Zoxide]);
        assert(!s.take(1).contains(KeyBindingBehavior::Cj));
        assert(!dup_at(s, 1));
        assert(first_dup(s, 0) is None);
        assert(first_dup(s, 1) is None);
    }
    assert(first_dup(crate::config::default_behaviors(crate::config::KeyBinding::AltO), 2) is None) by {
        let s = crate::config::default_behaviors(crate::config::KeyBinding::AltO);
        assert(s.take(0) =~= Seq::<KeyBindingBehavior>::empty());
        assert(!dup_at(s, 0));
        assert(s.take(1) =~= seq![KeyBindingBehavior::Zoxide]);
        assert(!s.take(1).contains(KeyBindingBehavior::Cj));
        assert(!dup_at(s, 1));
        assert(first_dup(s, 0) is None);
        assert(first_dup(s, 1) is None);
    }
    lemma_plain_name("top"@);
    lemma_plain_name("origin"@);
    lemma_plain_name("og"@);
    assert(crate::config::names_result("top keyword"@, top, 0) == Ok::<(), Seq<char>>(()));
    assert(crate::config::names_result("top keyword"@, top, 1) == Ok::<(), Seq<char>>(()));
    assert(crate::config::names_result("main-worktree keyword"@, main, 0) == Ok::<(), Seq<char>>(()));
    assert(crate::config::name_result("main-worktree keyword"@, main[0]@) == Ok::<(), Seq<char>>(()));
    assert(crate::config::names_result("main-worktree keyword"@, main, 1) == Ok::<(), Seq<char>>(()));
    assert(crate::config::names_result("main-worktree keyword"@, main, 2) == Ok::<(), Seq<char>>(()));
}

proof fn lemma_plain_name(s: Seq<char>)
    requires
        s.len() > 0,
        forall|i: int| 0 <= i < s.len() ==> 'a' <= #[trigger] s[i] <= 'z',
    ensures
        !crate::config::has_line_break(s),
{
    if s.contains('\0') || s.contains('\n') || s.contains('\r') {
        let i = choose|i: int| 0 <= i < s.len() && (s[i] == '\0' || s[i] == '\n' || s[i] == '\r');
        assert('a' <= s[i] <= 'z');
    }
}

spec fn has_line_break_lit(s: Seq<char>) -> bool {
    crate::config::has_line_break(s)
}


/// Where a POSIX shell is while reading a word.
pub struct PosixReader {
    pub out: Seq<char>,
    pub inside: bool,
    pub escaped: bool,
}

/// One character of a word as a POSIX shell reads it: inside single quotes
/// everything but `'` is literal; outside, `'` opens quotes and `\` makes the
/// next character literal.
pub open spec fn posix_step(st: PosixReader, c: char) -> PosixReader {
    if st.inside {
        if c == '\'' {
            PosixReader { inside: false, ..st }
        } else {
            PosixReader { out: st.out.push(c), ..st }
        }
    } else if st.escaped {
        PosixReader { out: st.out.push(c), escaped: false, ..st }
    } else if c == '\'' {
        PosixReader { inside: true, ..st }
    } else if c == '\\' {
        PosixReader { escaped: true, ..st }
    } else {
        PosixReader { out: st.out.push(c), ..st }
    }
}

/// The reader after a run of characters.
pub open spec fn posix_run(s: Seq<char>, st: PosixReader) -> PosixReader
    decreases s.len(),
{
    if s.len() == 0 {
        st
    } else {
        posix_run(s.drop_first(), posix_step(st, s[0]))
    }
}

/// The value of a complete quoted word, if it is complete.
pub open spec fn posix_read(q: Seq<char>) -> Option<Seq<char>> {
    let st = posix_run(q, PosixReader { out: Seq::empty(), inside: false, escaped: false });
    if st.inside || st.escaped {
        None
    } else {
        Some(st.out)
    }
}

proof fn lemma_posix_run_concat(a: Seq<char>, b: Seq<char>, st: PosixReader)
    ensures
        posix_run(a + b, st) == posix_run(b, posix_run(a, st)),
    decreases a.len(),
{
    if a.len() > 0 {
        assert((a + b).drop_first() =~= a.drop_first() + b);
        assert((a + b)[0] == a[0]);
        lemma_posix_run_concat(a.drop_first(), b, posix_step(st, a[0]));
    } else {
        assert(a + b =~= b);
    }
}

proof fn lemma_posix_one(c: char, st: PosixReader)
    ensures
        posix_run(seq![c], st) == posix_step(st, c),
{
    reveal_with_fuel(posix_run, 2);
    assert(seq![c].drop_first() =~= Seq::<char>::empty());
}

proof fn lemma_posix_body(v: Seq<char>, out: Seq<char>)
    ensures
        posix_run(
            crate::text::replace_char(v, '\'', "'\\''"@),
            PosixReader { out, inside: true, escaped: false },
        ) == (PosixReader { out: out + v, inside: true, escaped: false }),
    decreases v.len(),
{
    reveal_strlit("'\\''");
    if v.len() == 0 {
        assert(out + v =~= out);
    } else {
        let c = v.last();
        let head = crate::text::replace_char(v.drop_last(), '\'', "'\\''"@);
        let piece = if c == '\'' { "'\\''"@ } else { seq![c] };
        assert(crate::text::replace_char(v, '\'', "'\\''"@) =~= head + piece);
        lemma_posix_body(v.drop_last(), out);
        lemma_posix_run_concat(head, piece, PosixReader { out, inside: true, escaped: false });
        let mid = PosixReader { out: out + v.drop_last(), inside: true, escaped: false };
        if c == '\'' {
            assert(piece =~= seq!['\''] + (seq!['\\'] + (seq!['\''] + seq!['\''])));
            lemma_posix_run_concat(seq!['\''], seq!['\\'] + (seq!['\''] + seq!['\'']), mid);
            lemma_posix_one('\'', mid);
            let s1 = posix_step(mid, '\'');
            lemma_posix_run_concat(seq!['\\'], seq!['\''] + seq!['\''], s1);
            lemma_posix_one('\\', s1);
            let s2 = posix_step(s1, '\\');
            lemma_posix_run_concat(seq!['\''], seq!['\''], s2);
            lemma_posix_one('\'', s2);
            let s3 = posix_step(s2, '\'');
            lemma_posix_one('\'', s3);
            assert(out + v =~= (out + v.drop_last()).push('\''));
        } else {
            lemma_posix_one(c, mid);
            assert(out + v =~= (out + v.drop_last()).push(c));
        }
    }
}

/// POSIX quoting is safe: a shell reads the quoted word back as exactly the
/// value, whatever characters it holds.
pub proof fn law_posix_quoting_round_trips(v: Seq<char>)
    ensures
        posix_read(crate::quote::posix_quoted(v)) == Some(v),
{
    let start = PosixReader { out: Seq::empty(), inside: false, escaped: false };
    let body = crate::text::replace_char(v, '\'', "'\\''"@);
    let q = crate::quote::posix_quoted(v);
    assert(q =~= seq!['\''] + (body + seq!['\'']));
    lemma_posix_run_concat(seq!['\''], body + seq!['\''], start);
    let opened = PosixReader { out: Seq::empty(), inside: true, escaped: false };
    lemma_posix_one('\'', start);
    lemma_posix_run_concat(body, seq!['\''], opened);
    lemma_posix_body(v, Seq::empty());
    assert(Seq::<char>::empty() + v =~= v);
    lemma_posix_one('\'', PosixReader { out: v, inside: true, escaped: false });
}

/// Where PowerShell is while reading a single-quoted string.
pub enum PsState {
    Start,
    Inside,
    QuoteSeen,
    Invalid,
}

/// One character of a single-quoted PowerShell string. Any quote character
/// (`'` or U+2018 through U+201B) opens the string; inside it, a quote
/// character followed by another stands for the second, and a lone one ends
/// the string.
pub open spec fn ps_step(st: (PsState, Seq<char>), c: char) -> (PsState, Seq<char>) {
    match st.0 {
        PsState::Start => if is_ps_quote(c) {
            (PsState::Inside, st.1)
        } else {
            (PsState::Invalid, st.1)
        },
        PsState::Inside => if is_ps_quote(c) {
            (PsState::QuoteSeen, st.1)
        } else {
            (PsState::Inside, st.1.push(c))
        },
        PsState::QuoteSeen => if is_ps_quote(c) {
            (PsState::Inside, st.1.push(c))
        } else {
            (PsState::Invalid, st.1)
        },
        PsState::Invalid => st,
    }
}

/// The reader after a run of characters.
pub open spec fn ps_run(s: Seq<char>, st: (PsState, Seq<char>)) -> (PsState, Seq<char>)
    decreases s.len(),
{
    if s.len() == 0 {
        st
    } else {
        ps_run(s.drop_first(), ps_step(st, s[0]))
    }
}

/// The value of a complete single-quoted string.
pub open spec fn ps_read(q: Seq<char>) -> Option<Seq<char>> {
    let st = ps_run(q, (PsState::Start, Seq::empty()));
    if st.0 is QuoteSeen {
        Some(st.1)
    } else {
        None
    }
}

proof fn lemma_ps_run_concat(a: Seq<char>, b: Seq<char>, st: (PsState, Seq<char>))
    ensures
        ps_run(a + b, st) == ps_run(b, ps_run(a, st)),
    decreases a.len(),
{
    if a.len() > 0 {
        assert((a + b).drop_first() =~= a.drop_first() + b);
        assert((a + b)[0] == a[0]);
        lemma_ps_run_concat(a.drop_first(), b, ps_step(st, a[0]));
    } else {
        assert(a + b =~= b);
    }
}

proof fn lemma_ps_one(c: char, st: (PsState, Seq<char>))
    ensures
        ps_run(seq![c], st) == ps_step(st, c),
{
    reveal_with_fuel(ps_run, 2);
    assert(seq![c].drop_first() =~= Seq::<char>::empty());
}

proof fn lemma_ps_body(v: Seq<char>, out: Seq<char>)
    ensures
        ps_run(ps_escape(v), (PsState::Inside, out)) == (PsState::Inside, out + v),
    decreases v.len(),
{
    if v.len() == 0 {
        assert(out + v =~= out);
    } else {
        let c = v.last();
        let head = ps_escape(v.drop_last());
        let piece = ps_escape_char(c);
        assert(ps_escape(v) == head + piece);
        lemma_ps_body(v.drop_last(), out);
        lemma_ps_run_concat(head, piece, (PsState::Inside, out));
        let mid = (PsState::Inside, out + v.drop_last());
        if is_ps_quote(c) {
            assert(piece =~= seq![c] + seq![c]);
            lemma_ps_run_concat(seq![c], seq![c], mid);
            lemma_ps_one(c, mid);
            lemma_ps_one(c, ps_step(mid, c));
        } else {
            lemma_ps_one(c, mid);
        }
        assert(out + v =~= (out + v.drop_last()).push(c));
    }
}

/// PowerShell quoting is safe: the single-quoted string reads back as
/// exactly the value, whatever quote characters it holds.
pub proof fn law_ps_quoting_round_trips(v: Seq<char>)
    ensures
        ps_read(crate::quote::ps_quoted(v)) == Some(v),
{
    let body = ps_escape(v);
    let q = crate::quote::ps_quoted(v);
    assert(q =~= seq!['\''] + (body + seq!['\'']));
    lemma_ps_run_concat(seq!['\''], body + seq!['\''], (PsState::Start, Seq::empty()));
    lemma_ps_one('\'', (PsState::Start, Seq::empty()));
    lemma_ps_run_concat(body, seq!['\''], (PsState::Inside, Seq::empty()));
    lemma_ps_body(v, Seq::empty());
    assert(Seq::<char>::empty() + v =~= v);
    lemma_ps_one('\'', (PsState::Inside, v));
}

proof fn lemma_free_hashes(v: Seq<char>, n: nat)
    requires
        n >= 1,
    ensures
        free_hashes_ok(v, crate::quote::free_hashes(v, n)),
        crate::quote::free_hashes(v, n) >= n,
    decreases v.len() + 1 - n,
{
    let m = crate::quote::free_hashes(v, n);
    if n > v.len() || !crate::text::contains_seq(v, crate::quote::nu_closer(n)) {
        if n > v.len() {
            if crate::text::contains_seq(v, crate::quote::nu_closer(n)) {
                let i = choose|i: int| crate::text::occurs_at(v, crate::quote::nu_closer(n), i);
                assert(crate::quote::nu_closer(n).len() == n + 1);
            }
        }
    } else {
        lemma_free_hashes(v, n + 1);
    }
}

spec fn free_hashes_ok(v: Seq<char>, n: nat) -> bool {
    !crate::text::contains_seq(v, crate::quote::nu_closer(n))
}

/// Nushell quoting is safe: in the raw string that holds the value, the
/// closing delimiter first occurs right after the value, so Nushell reads
/// back exactly the value.
pub proof fn law_nu_quoting_closes_after_the_value(v: Seq<char>)
    ensures
        ({
            let n = crate::quote::free_hashes(v, 1);
            let closer = crate::quote::nu_closer(n);
            let text = v + closer;
            &&& crate::quote::nu_quoted(v) == seq!['r'] + crate::quote::hash_run(n) + seq!['\''] + text
            &&& crate::text::occurs_at(text, closer, v.len() as int)
            &&& forall|p: int| 0 <= p < v.len() ==> !crate::text::occurs_at(text, closer, p)
        }),
{
    let n = crate::quote::free_hashes(v, 1);
    lemma_free_hashes(v, 1);
    let closer = crate::quote::nu_closer(n);
    let text = v + closer;
    assert(text.subrange(v.len() as int, (v.len() + closer.len()) as int) =~= closer);
    assert(crate::quote::nu_quoted(v) =~= seq!['r'] + crate::quote::hash_run(n) + seq!['\''] + text);
    assert forall|p: int| 0 <= p < v.len() implies !crate::text::occurs_at(text, closer, p) by {
        if crate::text::occurs_at(text, closer, p) {
            if p + closer.len() <= v.len() {
                assert(v.subrange(p, p + closer.len()) =~= text.subrange(p, p + closer.len()));
                assert(crate::text::occurs_at(v, closer, p));
            } else {
                let k = v.len() - p;
                assert(1 <= k <= n);
                assert(text.subrange(p, p + closer.len())[k] == text[v.len() as int]);
                assert(text[v.len() as int] == '\'');
                assert(closer[k] == '#');
            }
        }
    }
}

/// Raw paths keep their bytes: on Unix every byte string names a path, and
/// the bytes written for that path are the same bytes.
pub proof fn law_raw_path_bytes_round_trip(b: Seq<u8>, invalid: Seq<char>)
    ensures
        crate::path_bytes::from_bytes_model(b, invalid, false) == Ok::<PathModel, Seq<char>>(bytes_path(b)),
        output_model(bytes_path(b), false) == Ok::<Seq<u8>, Seq<char>>(b),
{
    if vstd::utf8::valid_utf8(b) {
        vstd::utf8::decode_utf8_encode_utf8(b);
    }
}

/// A worktree path relative to itself is `.`.
pub proof fn law_relative_to_itself_is_dot(p: Seq<char>, windows: bool)
    requires
        crate::paths::path_components(p, windows).len() > 0,
    ensures
        crate::worktree::relative_model(p, p, windows) == "."@,
{
    let c = crate::paths::path_components(p, windows);
    lemma_common_len_full(c, 0);
    let parts = Seq::new((c.len() - c.len()) as nat, |k: int| ".."@) + c.skip(c.len() as int).map_values(
        |x: crate::paths::ComponentModel| crate::resolver::component_text(x, windows),
    );
    assert(parts.len() == 0);
}

proof fn lemma_common_len_full(c: Seq<crate::paths::ComponentModel>, i: int)
    requires
        0 <= i <= c.len(),
    ensures
        crate::worktree::common_len(c, c, i) == c.len(),
    decreases c.len() - i,
{
    if i < c.len() {
        lemma_common_len_full(c, i + 1);
    }
}

/// How many directories a remembered route leads down from `cwd`: none
/// when it does not lead down from it.
pub open spec fn remembered_levels(cwd: Seq<char>, route: Seq<char>, windows: bool) -> nat {
    let rc = path_components(route, windows);
    let cc = path_components(cwd, windows);
    if route_below(rc, cc, windows) {
        normal_names(rc.skip(cc.len() as int)).len()
    } else {
        0
    }
}

/// Going down further than the remembered route reaches fails, whatever the
/// route: the count never reaches past what is remembered.
pub proof fn law_down_count_beyond_route_fails(
    count: nat,
    cwd: Seq<char>,
    route: Option<Seq<char>>,
    windows: bool,
)
    requires
        count > match route {
            Some(r) => remembered_levels(cwd, r, windows),
            None => 0,
        },
    ensures
        navigate_down_model(count, cwd, route, windows) is Err,
{
}

/// Dismissing the standalone worktree picker (fzf exits with 1 or 130)
/// selects nothing, whatever else fzf reported.
pub proof fn law_dismissed_worktree_picker_selects_nothing(
    worktrees: Seq<WorktreeModel>,
    code: i32,
    success: bool,
    status: Seq<char>,
    stdout: Seq<u8>,
)
    requires
        code == 1 || code == 130,
    ensures
        pick_model(worktrees, Some(code), success, status, stdout) == Ok::<
            Option<Seq<char>>,
            Seq<char>,
        >(None),
{
}

/// Interrupting zoxide's picker cancels the key binding's chain, whatever
/// zoxide printed.
pub proof fn law_interrupted_zoxide_picker_cancels(
    success: bool,
    status: Seq<char>,
    stdout: Seq<u8>,
    windows: bool,
)
    ensures
        interactive_model(Some(130i32), success, status, stdout, windows) == Ok::<
            Seq<u8>,
            Seq<char>,
        >(encode_utf8("cancelled\n"@)),
{
}

/// An empty candidate source falls through to the next behavior: a
/// successful empty listing replies `empty`, and only a non-empty one opens
/// the picker.
pub proof fn law_empty_zoxide_listing_falls_through(status: Seq<char>, stderr: Seq<u8>)
    ensures
        listing_model(true, status, stderr, true) == Some(
            Ok::<Seq<u8>, Seq<char>>(encode_utf8("empty\n"@)),
        ),
        listing_model(true, status, stderr, false) is None,
{
}

/// A missing dependency falls through to the next behavior: the reply
/// opens with the `unavailable` line, whatever the program's name.
pub proof fn law_missing_program_replies_unavailable(kind: Seq<char>, program: Seq<char>)
    ensures
        unavailable_text(kind, program).take(12) == "unavailable\n"@,
{
    reveal_strlit("unavailable\n");
    assert(unavailable_text(kind, program).take(12) =~= "unavailable\n"@);
}

/// A needle occurs in any sequence built around it.
pub(crate) proof fn lemma_contains_middle(a: Seq<char>, n: Seq<char>, b: Seq<char>)
    ensures
        crate::text::contains_seq(a + n + b, n),
{
    assert((a + n + b).subrange(a.len() as int, (a.len() + n.len()) as int) =~= n);
    assert(crate::text::occurs_at(a + n + b, n, a.len() as int));
}

/// The POSIX widget's loop over the behaviors.
pub open spec fn behavior_loop(bs: Seq<KeyBindingBehavior>) -> Seq<char> {
    "for _cj_behavior in "@ + behavior_words(bs, false, " "@) + "; do"@
}

/// The widget's fixed text around the behaviors opens and closes the loop.
proof fn lemma_loop_text()
    ensures
        BODY_2@ == BODY_2@.take(BODY_2@.len() - 20) + "for _cj_behavior in "@,
        BODY_3@ == "; do"@ + BODY_3@.skip(4),
{
    reveal_strlit("for _cj_behavior in ");
    reveal_strlit("; do");
    reveal_strlit(r#"
    local _cj_behavior _cj_reply _cj_status _cj_target _cj_quoted _cj_quote _cj_separator _cj_missing='' _cj_empty='no matching directories'
    for _cj_behavior in "#);
    reveal_strlit(r#"; do
        case "$_cj_behavior" in
            cj)
                if _cj_key_history "$_cj_buffer" "$_cj_cursor"; then
                    "#);
    assert(BODY_2@ =~= BODY_2@.take(BODY_2@.len() - 20) + "for _cj_behavior in "@);
    assert(BODY_3@ =~= "; do"@ + BODY_3@.skip(4));
}

/// An occurrence survives text appended after it.
pub(crate) proof fn lemma_contains_append(x: Seq<char>, b: Seq<char>, n: Seq<char>)
    requires
        crate::text::contains_seq(x, n),
    ensures
        crate::text::contains_seq(x + b, n),
{
    let i = choose|i: int| crate::text::occurs_at(x, n, i);
    assert((x + b).subrange(i, i + n.len()) =~= x.subrange(i, i + n.len()));
    assert(crate::text::occurs_at(x + b, n, i));
}

/// An occurrence survives text prepended before it.
pub(crate) proof fn lemma_contains_prepend(a: Seq<char>, x: Seq<char>, n: Seq<char>)
    requires
        crate::text::contains_seq(x, n),
    ensures
        crate::text::contains_seq(a + x, n),
{
    let i = choose|i: int| crate::text::occurs_at(x, n, i);
    assert((a + x).subrange(a.len() + i, a.len() + i + n.len()) =~= x.subrange(i, i + n.len()));
    assert(crate::text::occurs_at(a + x, n, a.len() + i));
}

/// The widget's function holds the loop over the behaviors.
#[verifier::spinoff_prover]
#[verifier::rlimit(40)]
proof fn lemma_body_loop(shell: Shell, config: &Config, bs: Seq<KeyBindingBehavior>, history: bool)
    ensures
        crate::text::contains_seq(posix_body(shell, config, bs, history), behavior_loop(bs)),
{
    lemma_loop_text();
    let l = behavior_loop(bs);
    let pre2 = BODY_2@.take(BODY_2@.len() - 20);
    let post3 = BODY_3@.skip(4);
    let mid = BODY_2@ + behavior_words(bs, false, " "@) + BODY_3@;
    assert(mid =~= pre2 + l + post3);
    lemma_contains_middle(pre2, l, post3);
    let x = BODY_0@ + read_buffer_text(shell) + BODY_1@ + resume_text(shell, history);
    lemma_contains_prepend(x, mid, l);
    assert(x + mid =~= x + BODY_2@ + behavior_words(bs, false, " "@) + BODY_3@);
    let a0 = x + BODY_2@ + behavior_words(bs, false, " "@) + BODY_3@;
    lemma_contains_append(a0, apply_text(shell), l);
    let a1 = a0 + apply_text(shell);
    lemma_contains_append(a1, BODY_4@, l);
    let a2 = a1 + BODY_4@;
    lemma_contains_append(a2, posix_quoted(config.programs.zoxide@), l);
    let a3 = a2 + posix_quoted(config.programs.zoxide@);
    lemma_contains_append(a3, BODY_5@, l);
    let a4 = a3 + BODY_5@;
    lemma_contains_append(a4, posix_quoted(config.programs.fzf@), l);
    let a5 = a4 + posix_quoted(config.programs.fzf@);
    lemma_contains_append(a5, BODY_6@, l);
    let a6 = a5 + BODY_6@;
    lemma_contains_append(a6, reset_text(history), l);
    let a7 = a6 + reset_text(history);
    lemma_contains_append(a7, BODY_7@, l);
    let a8 = a7 + BODY_7@;
    lemma_contains_append(a8, reset_text(history), l);
    let a9 = a8 + reset_text(history);
    lemma_contains_append(a9, BODY_8@, l);
    let a10 = a9 + BODY_8@;
    lemma_contains_append(a10, apply_text(shell), l);
    let a11 = a10 + apply_text(shell);
    lemma_contains_append(a11, BODY_9@, l);
    let a12 = a11 + BODY_9@;
    lemma_contains_append(a12, reset_text(history), l);
    let a13 = a12 + reset_text(history);
    lemma_contains_append(a13, BODY_10@, l);
    let a14 = a13 + BODY_10@;
    lemma_contains_append(a14, reset_text(history), l);
    let a15 = a14 + reset_text(history);
    lemma_contains_append(a15, BODY_11@, l);
    let a16 = a15 + BODY_11@;
    assert(a16 == posix_body(shell, config, bs, history));
}

/// On Bash and Zsh the key widget tries the configured behaviors from left
/// to right, and includes cj's history helpers exactly when `cj` is one of
/// them (without it, the widget is built with no history part).
pub proof fn law_posix_widget_follows_configured_behaviors(
    shell: Shell,
    chord: KeyBinding,
    config: &Config,
    os: Seq<char>,
)
    requires
        shell == Shell::Bash || shell == Shell::Zsh,
        chord != KeyBinding::Unbound,
        behaviors_for(&config.key_bindings, os).len() > 0,
    ensures
        crate::text::contains_seq(
            key_bindings_text(shell, Some(chord), config, os),
            behavior_loop(behaviors_for(&config.key_bindings, os)),
        ),
        behaviors_for(&config.key_bindings, os).contains(KeyBindingBehavior::Cj) ==> crate::text::contains_seq(
            key_bindings_text(shell, Some(chord), config, os),
            history_text(shell),
        ),
        !behaviors_for(&config.key_bindings, os).contains(KeyBindingBehavior::Cj) ==> key_bindings_text(
            shell,
            Some(chord),
            config,
            os,
        ) == cleanup_text(shell) + "\n"@ + Seq::<char>::empty() + "\n"@ + posix_widget(
            shell,
            chord,
            config,
            behaviors_for(&config.key_bindings, os),
            false,
        ),
{
    let bs = behaviors_for(&config.key_bindings, os);
    let history = bs.contains(KeyBindingBehavior::Cj);
    let body = posix_body(shell, config, bs, history);
    let loop_text = behavior_loop(bs);
    let head = cleanup_text(shell) + "\n"@ + (if history {
        history_text(shell)
    } else {
        Seq::empty()
    }) + "\n"@;
    lemma_body_loop(shell, config, bs, history);
    if shell == Shell::Bash {
        lemma_contains_append(body, BASH4_OPEN@, loop_text);
        lemma_contains_append(body + BASH4_OPEN@, binding_text(shell, chord), loop_text);
        lemma_contains_append(body + BASH4_OPEN@ + binding_text(shell, chord), BASH4_CLOSE@, loop_text);
    } else {
        lemma_contains_append(body, "\n"@, loop_text);
        lemma_contains_append(body + "\n"@, binding_text(shell, chord), loop_text);
    }
    let widget = posix_widget(shell, chord, config, bs, history);
    lemma_contains_prepend(head, widget, loop_text);
    assert(key_bindings_text(shell, Some(chord), config, os) == head + widget);
    if history {
        let pre = cleanup_text(shell) + "\n"@;
        lemma_contains_middle(pre, history_text(shell), "\n"@);
        lemma_contains_append(pre + history_text(shell) + "\n"@, widget, history_text(shell));
    }
}

/// Whether no element's key is below an earlier element's key.
pub open spec fn sorted_by_key<T>(r: Seq<T>, key: spec_fn(T) -> Seq<char>) -> bool {
    forall|i: int, j: int|
        0 <= i < j < r.len() ==> !crate::text::seq_lt(#[trigger] key(r[j]), #[trigger] key(r[i]))
}

proof fn lemma_insert_pos<T>(r: Seq<T>, key: spec_fn(T) -> Seq<char>, k: Seq<char>, i: int)
    requires
        0 <= i <= r.len(),
    ensures
        i <= insert_pos(r, key, k, i) <= r.len(),
        forall|q: int| i <= q < insert_pos(r, key, k, i) ==> !crate::text::seq_lt(k, #[trigger] key(r[q])),
        insert_pos(r, key, k, i) < r.len() ==> crate::text::seq_lt(k, key(r[insert_pos(r, key, k, i)])),
    decreases r.len() - i,
{
    if i < r.len() && !crate::text::seq_lt(k, key(r[i])) {
        lemma_insert_pos(r, key, k, i + 1);
    }
}

proof fn lemma_sort_by_key_sorted<T>(s: Seq<T>, key: spec_fn(T) -> Seq<char>)
    ensures
        sorted_by_key(sort_by_key(s, key), key),
    decreases s.len(),
{
    if s.len() > 0 {
        let r = sort_by_key(s.drop_last(), key);
        lemma_sort_by_key_sorted(s.drop_last(), key);
        let x = s.last();
        let k = key(x);
        let p = insert_pos(r, key, k, 0);
        lemma_insert_pos(r, key, k, 0);
        let out = r.insert(p, x);
        assert(out == sort_by_key(s, key));
        assert forall|i: int, j: int| 0 <= i < j < out.len() implies !crate::text::seq_lt(
            #[trigger] key(out[j]),
            #[trigger] key(out[i]),
        ) by {
            if j < p {
                assert(out[i] == r[i] && out[j] == r[j]);
            } else if i < p && j == p {
                assert(out[i] == r[i] && out[j] == x);
            } else if i < p {
                assert(out[i] == r[i] && out[j] == r[j - 1]);
            } else if i == p {
                assert(out[i] == x && out[j] == r[j - 1]);
                let kp = key(r[p]);
                if crate::text::seq_lt(key(r[j - 1]), k) {
                    if j - 1 == p {
                        crate::text::lemma_seq_lt_asymmetric(k, kp);
                    } else {
                        crate::text::lemma_seq_lt_transitive(key(r[j - 1]), k, kp);
                        assert(!crate::text::seq_lt(key(r[j - 1]), key(r[p])));
                    }
                }
            } else {
                assert(out[i] == r[i - 1] && out[j] == r[j - 1]);
            }
        }
    }
}

/// On macOS a scan lists its ready and its skipped mounts in name order.
pub proof fn law_macos_scan_is_in_name_order(c: &DiscoveryContext)
    requires
        c.platform == Platform::Macos,
    ensures
        sorted_by_key(scan_model(c).ready, |m: ReadyModel| ready_name(m)),
        sorted_by_key(scan_model(c).skipped, |m: SkippedModel| skipped_name(m)),
{
    let cs = considered(volume_paths(c), provider_set(c));
    let names = sorted_seq(name_list(cs).to_set());
    let taken = provider_ready(c).map_values(|m: ReadyModel| m.name).to_set();
    lemma_sort_by_key_sorted(
        provider_ready(c) + volume_ready(names, cs, taken),
        |m: ReadyModel| ready_name(m),
    );
    lemma_sort_by_key_sorted(
        provider_skipped(c) + invalid_volumes(cs) + volume_skipped(names, cs, taken),
        |m: SkippedModel| skipped_name(m),
    );
}

proof fn lemma_ready_groups(names: Seq<Seq<char>>, ms: Seq<WindowsMount>)
    ensures
        forall|i: int|
            0 <= i < windows_ready(names, ms).len() ==> group_ready(
                group_of(ms, #[trigger] windows_ready(names, ms)[i].name),
            ),
    decreases names.len(),
{
    if names.len() > 0 {
        lemma_ready_groups(names.drop_last(), ms);
        let prev = windows_ready(names.drop_last(), ms);
        assert forall|i: int| 0 <= i < windows_ready(names, ms).len() implies group_ready(
            group_of(ms, #[trigger] windows_ready(names, ms)[i].name),
        ) by {
            if i < prev.len() {
                assert(windows_ready(names, ms)[i] == prev[i]);
            }
        }
    }
}

proof fn lemma_dynamic_in_group(ms: Seq<WindowsMount>, k: int)
    requires
        0 <= k < ms.len(),
        ms[k].dynamic,
    ensures
        any_dynamic(group_of(ms, ms[k].name@)),
    decreases ms.len(),
{
    let n = ms[k].name@;
    let g = group_of(ms.drop_last(), n);
    if k < ms.len() - 1 {
        assert(ms.drop_last()[k] == ms[k]);
        lemma_dynamic_in_group(ms.drop_last(), k);
        if ms.last().name@ == n {
            assert((g + seq![ms.last()]).drop_last() =~= g);
        } else {
            assert(g + Seq::<WindowsMount>::empty() =~= g);
        }
    } else {
        assert((g + seq![ms.last()]).drop_last() =~= g);
    }
}

/// On Windows a name that any unstable (dynamic drive letter) mount carries
/// is never offered as ready.
pub proof fn law_windows_dynamic_names_are_never_ready(c: &DiscoveryContext, i: int, k: int)
    requires
        c.platform == Platform::Windows,
        0 <= i < scan_model(c).ready.len(),
        0 <= k < c.windows_mounts@.len(),
        c.windows_mounts@[k].dynamic,
    ensures
        scan_model(c).ready[i].name != c.windows_mounts@[k].name@,
{
    let ms = c.windows_mounts@;
    let names = sorted_seq(mount_names(ms));
    lemma_ready_groups(names, ms);
    lemma_dynamic_in_group(ms, k);
    assert(group_ready(group_of(ms, windows_ready(names, ms)[i].name)));
}

/// A OneDrive mount resolves only to the one OneDrive root that remains once
/// paths differing only in ASCII case count once: no root is "not mounted",
/// several are "ambiguous" with their count.
pub proof fn law_onedrive_needs_one_distinct_root(
    account: Option<OneDriveAccount>,
    c: &DiscoveryContext,
)
    requires
        c.platform == Platform::Windows,
    ensures
        ({
            let d = dedup_model(onedrive_paths(c.windows_mounts@, account));
            let r = resolve_provider_model(MountProvider::OneDrive, account, c);
            &&& (r is Ok <==> d.len() == 1)
            &&& (d.len() == 1 ==> r == Ok::<Seq<char>, Seq<char>>(d[0]))
            &&& (d.len() == 0 ==> r == Err::<Seq<char>, Seq<char>>(
                "onedrive"@ + " provider is not mounted"@,
            ))
            &&& (d.len() >= 2 ==> r == Err::<Seq<char>, Seq<char>>(
                "onedrive"@ + " provider is ambiguous ("@ + decimal_text(d.len()) + " candidates)"@,
            ))
        }),
{
}

/// A text path round-trips through the bytes written for it: they are its
/// UTF-8 encoding, and reading them back gives the same text path on every
/// platform.
pub proof fn law_text_path_bytes_round_trip(s: Seq<char>, invalid: Seq<char>, windows: bool)
    ensures
        output_model(PathModel::Text(s), windows) == Ok::<Seq<u8>, Seq<char>>(encode_utf8(s)),
        crate::path_bytes::from_bytes_model(encode_utf8(s), invalid, windows) == Ok::<
            PathModel,
            Seq<char>,
        >(PathModel::Text(s)),
{
    vstd::utf8::encode_utf8_valid_utf8(s);
    vstd::utf8::encode_utf8_decode_utf8(s);
}

/// A mount entry is accepted exactly in one of its documented shapes: a
/// one-line absolute or `~`-based path alone; the OneDrive provider with or
/// without an account; or another provider without an account.
pub proof fn law_mount_shapes(name: Seq<char>, m: &MountSpec, windows: bool)
    ensures
        mount_result(name, m, windows) is Ok <==> {
            ||| (m.path matches Some(p) && m.provider is None && m.account is None
                && !has_line_break(p@) && (is_absolute_path(p@, windows) || home_suffix(
                p@,
                windows,
            ) is Some))
            ||| (m.path is None && m.provider == Some(MountProvider::OneDrive))
            ||| (m.provider matches Some(x) && x != MountProvider::OneDrive && m.path is None
                && m.account is None)
        },
{
}

proof fn lemma_run_end_skip(b: Seq<u8>, j: int, m: int, stop: u8)
    requires
        0 <= j <= m <= b.len(),
        forall|q: int| j <= q < m ==> b[q] != stop,
    ensures
        run_end(b, j, stop) == run_end(b, m, stop),
    decreases m - j,
{
    if j < m {
        lemma_run_end_skip(b, j + 1, m, stop);
    }
}

proof fn lemma_run_end_ge(b: Seq<u8>, j: int, stop: u8)
    requires
        0 <= j <= b.len(),
    ensures
        j <= run_end(b, j, stop) <= b.len(),
    decreases b.len() - j,
{
    if j < b.len() && b[j] != stop {
        lemma_run_end_ge(b, j + 1, stop);
    }
}

/// Choosing the picker line that starts with a worktree's index selects
/// that worktree, whatever follows the index's tab.
pub proof fn law_picked_index_selects_its_worktree(
    worktrees: Seq<WorktreeModel>,
    i: nat,
    status: Seq<char>,
    rest: Seq<u8>,
)
    requires
        i < worktrees.len(),
        i <= usize::MAX,
    ensures
        pick_model(
            worktrees,
            Some(0i32),
            true,
            status,
            encode_utf8(decimal_text(i)) + seq![9u8] + rest,
        ) == Ok::<Option<Seq<char>>, Seq<char>>(Some(worktrees[i as int].path)),
{
    let t = decimal_text(i);
    lemma_decimal_digits(i);
    assert(vstd::utf8::is_ascii_chars(t)) by {
        assert forall|k: int| 0 <= k < t.len() implies '\0' <= #[trigger] t[k] <= '\u{7f}' by {
            assert(is_digit(t[k]));
        }
    }
    vstd::utf8::is_ascii_chars_encode_utf8(t);
    vstd::utf8::encode_utf8_valid_utf8(t);
    vstd::utf8::encode_utf8_decode_utf8(t);
    let d = encode_utf8(t);
    let b = d + seq![9u8] + rest;
    assert forall|q: int| 0 <= q < d.len() implies b[q] != 0u8 && b[q] != 9u8 by {
        assert(is_digit(t[q]));
        assert(b[q] == d[q]);
        assert(t[q] as u8 == d[q]);
    }
    assert(b[d.len() as int] == 9u8);
    assert forall|q: int| 0 <= q < d.len() + 1 implies b[q] != 0u8 by {
        if q < d.len() {
            assert(b[q] != 0u8 && b[q] != 9u8);
        }
    }
    lemma_run_end_skip(b, 0, (d.len() + 1) as int, 0u8);
    lemma_run_end_ge(b, (d.len() + 1) as int, 0u8);
    let record = b.take(run_end(b, 0, 0u8));
    assert(record.len() > d.len());
    assert forall|q: int| 0 <= q < d.len() implies record[q] != 9u8 by {
        assert(record[q] == b[q]);
        assert(b[q] != 0u8 && b[q] != 9u8);
    }
    lemma_run_end_skip(record, 0, d.len() as int, 9u8);
    assert(record[d.len() as int] == 9u8);
    assert(run_end(record, 0, 9u8) == d.len());
    assert(record.take(d.len() as int) =~= d);
    assert(t[0] != '+') by {
        assert(is_digit(t[0]));
    }
    assert(crate::worktree::selected_index(b) == Some(i));
}

/// The picker's reply is `cancelled` on an interrupt or an empty choice, an
/// error on another failure or a path with NUL, and otherwise `selected`
/// followed by exactly what zoxide printed less its final line ending.
pub proof fn law_zoxide_picker_reply(
    code: Option<i32>,
    success: bool,
    status: Seq<char>,
    stdout: Seq<u8>,
    windows: bool,
)
    ensures
        ({
            let target = crate::path_bytes::strip_line_ending(stdout, windows);
            let r = interactive_model(code, success, status, stdout, windows);
            &&& (code == Some(130i32) || (success && target.len() == 0)) ==> r == Ok::<
                Seq<u8>,
                Seq<char>,
            >(encode_utf8("cancelled\n"@))
            &&& (code != Some(130i32) && !success) ==> r is Err
            &&& (code != Some(130i32) && success && target.len() > 0 && target.contains(0u8))
                ==> r is Err
            &&& (code != Some(130i32) && success && target.len() > 0 && !target.contains(0u8))
                ==> r == Ok::<Seq<u8>, Seq<char>>(encode_utf8("selected\n"@) + target)
        }),
{
}

/// When zoxide is the configured resolver and a single target is neither
/// an existing directory nor a shortcut, a failed or unavailable zoxide
/// gives the target taken literally; forcing zoxide (`-z`) reports the
/// failure instead (for a missing program: "zoxide executable not found").
pub proof fn law_failed_zoxide_falls_back_unless_forced(
    targets: Seq<OsArg>,
    c: &Config,
    nav: &NavigationContext,
    failure: ZoxideFailureModel,
)
    requires
        targets.len() == 1,
        c.behavior.default == DefaultResolver::Zoxide,
        arg_text(targets[0]) is None || shortcut_model(arg_text(targets[0])->0, c, nav) is None,
    ensures
        plan_model(targets, ResolverOverride::Configured, c, nav, false) == Ok::<
            ResolutionModel,
            Seq<char>,
        >(ResolutionModel::Zoxide { forced: false }),
        zoxide_resolution_model(targets, false, Err(failure)) == Ok::<PathModel, Seq<char>>(
            crate::path_bytes::path_model(targets[0]),
        ),
        plan_model(targets, ResolverOverride::Zoxide, c, nav, false) == Ok::<
            ResolutionModel,
            Seq<char>,
        >(ResolutionModel::Zoxide { forced: true }),
        zoxide_resolution_model(targets, true, Err(failure)) == Err::<PathModel, Seq<char>>(
            zoxide_error_text(failure),
        ),
        failure matches ZoxideFailureModel::Missing(p) ==> zoxide_error_text(failure)
            == "zoxide executable not found: "@ + p,
{
}

/// Outside `-r` and `-z`, a target that is not an existing directory and
/// is the up ticker counted (`^3`) resolves exactly as the ticker repeated
/// (`^^^`): to that many parent steps, capped at the root.
pub proof fn law_counted_up_ticker_resolves_like_repetition(
    counted: String,
    repeated: String,
    n: nat,
    resolver: ResolverOverride,
    c: &Config,
    nav: &NavigationContext,
)
    requires
        allowed_ticker(c.tickers.navigate_up@[0]),
        c.tickers.navigate_up@.len() == 1,
        1 <= n <= MAX_TICKER_COUNT,
        counted@ == seq![c.tickers.navigate_up@[0]] + decimal_text(n),
        repeated@ == Seq::new(n, |i: int| c.tickers.navigate_up@[0]),
        resolver == ResolverOverride::Configured || resolver == ResolverOverride::NoZoxide,
    ensures
        plan_model(seq![OsArg::Text(counted)], resolver, c, nav, false) == plan_model(
            seq![OsArg::Text(repeated)],
            resolver,
            c,
            nav,
            false,
        ),
        plan_model(seq![OsArg::Text(counted)], resolver, c, nav, false) == Ok::<
            ResolutionModel,
            Seq<char>,
        >(
            ResolutionModel::Path(
                PathModel::Text(
                    crate::resolver::parent_text(up_steps(n, nav.cwd@, nav.windows), nav.windows),
                ),
            ),
        ),
{
    let ticker = c.tickers.navigate_up@[0];
    law_counted_ticker_equals_repetition(ticker, n);
    assert(c.tickers.navigate_up@ =~= seq![ticker]);
}

/// Where `x` goes in a strictly increasing sequence: before the first
/// element above it.
pub open spec fn lt_pos(r: Seq<Seq<char>>, x: Seq<char>, i: int) -> int
    decreases r.len() - i,
{
    if i < 0 || i >= r.len() || crate::text::seq_lt(x, r[i]) {
        i
    } else {
        lt_pos(r, x, i + 1)
    }
}

proof fn lemma_lt_pos(r: Seq<Seq<char>>, x: Seq<char>, i: int)
    requires
        0 <= i <= r.len(),
    ensures
        i <= lt_pos(r, x, i) <= r.len(),
        forall|q: int| i <= q < lt_pos(r, x, i) ==> !crate::text::seq_lt(x, #[trigger] r[q]),
        lt_pos(r, x, i) < r.len() ==> crate::text::seq_lt(x, r[lt_pos(r, x, i)]),
    decreases r.len() - i,
{
    if i < r.len() && !crate::text::seq_lt(x, r[i]) {
        lemma_lt_pos(r, x, i + 1);
    }
}

/// Every finite set of strings listed by a sequence has its increasing
/// enumeration.
pub(crate) proof fn lemma_sorted_enumeration(q: Seq<Seq<char>>)
    ensures
        crate::text::strictly_sorted(sorted_seq(q.to_set())),
        sorted_seq(q.to_set()).to_set() == q.to_set(),
    decreases q.len(),
{
    if q.len() == 0 {
        let e = Seq::<Seq<char>>::empty();
        assert(e.to_set() =~= q.to_set());
        assert(crate::text::strictly_sorted(e));
    } else {
        let x = q.last();
        lemma_sorted_enumeration(q.drop_last());
        let r0 = sorted_seq(q.drop_last().to_set());
        q.drop_last().lemma_push_to_set_commute(x);
        assert(q.drop_last().push(x) =~= q);
        if r0.contains(x) {
            assert(r0.to_set().contains(x));
            assert(q.to_set() =~= r0.to_set());
            assert(crate::text::strictly_sorted(r0) && r0.to_set() == q.to_set());
        } else {
            let p = lt_pos(r0, x, 0);
            lemma_lt_pos(r0, x, 0);
            let r = r0.insert(p, x);
            assert forall|a: int, b: int| 0 <= a < b < r.len() implies crate::text::seq_lt(
                #[trigger] r[a],
                #[trigger] r[b],
            ) by {
                if b < p {
                    assert(r[a] == r0[a] && r[b] == r0[b]);
                } else if a < p && b == p {
                    assert(r[a] == r0[a] && r[b] == x);
                    crate::text::lemma_seq_lt_total(r0[a], x);
                    assert(r0[a] != x);
                } else if a < p {
                    assert(r[a] == r0[a] && r[b] == r0[b - 1]);
                } else if a == p {
                    assert(r[a] == x && r[b] == r0[b - 1]);
                    if b - 1 > p {
                        crate::text::lemma_seq_lt_transitive(x, r0[p], r0[b - 1]);
                    }
                } else {
                    assert(r[a] == r0[a - 1] && r[b] == r0[b - 1]);
                }
            }
            assert(r.to_set() =~= r0.to_set().insert(x)) by {
                assert forall|y: Seq<char>| r.to_set().contains(y) implies r0.to_set().insert(x).contains(y) by {
                    let k = choose|k: int| 0 <= k < r.len() && r[k] == y;
                    if k < p {
                        assert(r0[k] == y);
                    } else if k > p {
                        assert(r0[k - 1] == y);
                    }
                }
                assert forall|y: Seq<char>| r0.to_set().insert(x).contains(y) implies r.to_set().contains(y) by {
                    if y == x {
                        assert(r[p] == x);
                    } else {
                        let k = choose|k: int| 0 <= k < r0.len() && r0[k] == y;
                        if k < p {
                            assert(r[k] == y);
                        } else {
                            assert(r[k + 1] == y);
                        }
                    }
                }
            }
            assert(crate::text::strictly_sorted(r) && r.to_set() == q.to_set());
        }
    }
}

proof fn lemma_windows_ready_names(names: Seq<Seq<char>>, ms: Seq<WindowsMount>)
    requires
        crate::text::strictly_sorted(names),
    ensures
        forall|i: int|
            0 <= i < windows_ready(names, ms).len() ==> names.contains(
                #[trigger] windows_ready(names, ms)[i].name,
            ),
        forall|i: int, j: int|
            0 <= i < j < windows_ready(names, ms).len() ==> crate::text::seq_lt(
                #[trigger] windows_ready(names, ms)[i].name,
                #[trigger] windows_ready(names, ms)[j].name,
            ),
    decreases names.len(),
{
    if names.len() > 0 {
        let d = names.drop_last();
        assert(crate::text::strictly_sorted(d)) by {
            assert forall|a: int, b: int| 0 <= a < b < d.len() implies crate::text::seq_lt(
                #[trigger] d[a],
                #[trigger] d[b],
            ) by {
                assert(d[a] == names[a] && d[b] == names[b]);
            }
        }
        lemma_windows_ready_names(d, ms);
        let prev = windows_ready(d, ms);
        let cur = windows_ready(names, ms);
        assert forall|i: int| 0 <= i < cur.len() implies names.contains(#[trigger] cur[i].name) by {
            if i < prev.len() {
                assert(cur[i] == prev[i]);
                let k = choose|k: int| 0 <= k < d.len() && d[k] == prev[i].name;
                assert(names[k] == d[k]);
            } else {
                assert(cur[i].name == names.last());
                assert(names[names.len() - 1] == names.last());
            }
        }
        assert forall|i: int, j: int| 0 <= i < j < cur.len() implies crate::text::seq_lt(
            #[trigger] cur[i].name,
            #[trigger] cur[j].name,
        ) by {
            assert(cur[i] == prev[i]);
            if j < prev.len() {
                assert(cur[j] == prev[j]);
            } else {
                let k = choose|k: int| 0 <= k < d.len() && d[k] == prev[i].name;
                assert(names[k] == d[k]);
                assert(cur[j].name == names[names.len() - 1]);
            }
        }
    }
}

proof fn lemma_windows_skipped_names(names: Seq<Seq<char>>, ms: Seq<WindowsMount>)
    requires
        crate::text::strictly_sorted(names),
    ensures
        forall|i: int|
            0 <= i < windows_skipped(names, ms).len() ==> names.contains(
                #[trigger] windows_skipped(names, ms)[i].name,
            ),
        forall|i: int, j: int|
            0 <= i < j < windows_skipped(names, ms).len() ==> crate::text::seq_lt(
                #[trigger] windows_skipped(names, ms)[i].name,
                #[trigger] windows_skipped(names, ms)[j].name,
            ),
    decreases names.len(),
{
    if names.len() > 0 {
        let d = names.drop_last();
        assert(crate::text::strictly_sorted(d)) by {
            assert forall|a: int, b: int| 0 <= a < b < d.len() implies crate::text::seq_lt(
                #[trigger] d[a],
                #[trigger] d[b],
            ) by {
                assert(d[a] == names[a] && d[b] == names[b]);
            }
        }
        lemma_windows_skipped_names(d, ms);
        let prev = windows_skipped(d, ms);
        let cur = windows_skipped(names, ms);
        assert forall|i: int| 0 <= i < cur.len() implies names.contains(#[trigger] cur[i].name) by {
            if i < prev.len() {
                assert(cur[i] == prev[i]);
                let k = choose|k: int| 0 <= k < d.len() && d[k] == prev[i].name;
                assert(names[k] == d[k]);
            } else {
                assert(cur[i].name == names.last());
                assert(names[names.len() - 1] == names.last());
            }
        }
        assert forall|i: int, j: int| 0 <= i < j < cur.len() implies crate::text::seq_lt(
            #[trigger] cur[i].name,
            #[trigger] cur[j].name,
        ) by {
            assert(cur[i] == prev[i]);
            if j < prev.len() {
                assert(cur[j] == prev[j]);
            } else {
                let k = choose|k: int| 0 <= k < d.len() && d[k] == prev[i].name;
                assert(names[k] == d[k]);
                assert(cur[j].name == names[names.len() - 1]);
            }
        }
    }
}

/// On Windows a scan lists its ready and its skipped mounts in strictly
/// increasing name order, so each name is ready or skipped at most once.
pub proof fn law_windows_scan_names_are_sorted_and_unique(c: &DiscoveryContext)
    requires
        c.platform == Platform::Windows,
    ensures
        forall|i: int, j: int|
            0 <= i < j < scan_model(c).ready.len() ==> crate::text::seq_lt(
                #[trigger] scan_model(c).ready[i].name,
                #[trigger] scan_model(c).ready[j].name,
            ),
        forall|i: int, j: int|
            0 <= i < j < scan_model(c).skipped.len() ==> crate::text::seq_lt(
                #[trigger] scan_model(c).skipped[i].name,
                #[trigger] scan_model(c).skipped[j].name,
            ),
{
    let ms = c.windows_mounts@;
    lemma_sorted_enumeration(ms.map_values(|m: WindowsMount| m.name@));
    let names = sorted_seq(mount_names(ms));
    lemma_windows_ready_names(names, ms);
    lemma_windows_skipped_names(names, ms);
}

/// Whether no two elements share a key.
pub open spec fn distinct_keys<T>(r: Seq<T>, key: spec_fn(T) -> Seq<char>) -> bool {
    forall|i: int, j: int| 0 <= i < j < r.len() ==> #[trigger] key(r[i]) != #[trigger] key(r[j])
}

proof fn lemma_sort_members<T>(s: Seq<T>, key: spec_fn(T) -> Seq<char>)
    ensures
        sort_by_key(s, key).len() == s.len(),
        forall|i: int| 0 <= i < sort_by_key(s, key).len() ==> s.contains(#[trigger] sort_by_key(s, key)[i]),
    decreases s.len(),
{
    if s.len() > 0 {
        let d = s.drop_last();
        lemma_sort_members(d, key);
        let r = sort_by_key(d, key);
        let p = insert_pos(r, key, key(s.last()), 0);
        lemma_insert_pos(r, key, key(s.last()), 0);
        let out = r.insert(p, s.last());
        assert forall|i: int| 0 <= i < out.len() implies s.contains(#[trigger] out[i]) by {
            if i < p {
                assert(out[i] == r[i]);
                let k = choose|k: int| 0 <= k < d.len() && d[k] == r[i];
                assert(s[k] == d[k]);
            } else if i == p {
                assert(s[s.len() - 1] == s.last());
            } else {
                assert(out[i] == r[i - 1]);
                let k = choose|k: int| 0 <= k < d.len() && d[k] == r[i - 1];
                assert(s[k] == d[k]);
            }
        }
    }
}

proof fn lemma_sort_distinct<T>(s: Seq<T>, key: spec_fn(T) -> Seq<char>)
    requires
        distinct_keys(s, key),
    ensures
        distinct_keys(sort_by_key(s, key), key),
    decreases s.len(),
{
    if s.len() > 0 {
        let d = s.drop_last();
        assert(distinct_keys(d, key)) by {
            assert forall|i: int, j: int| 0 <= i < j < d.len() implies #[trigger] key(d[i]) != #[trigger] key(d[j]) by {
                assert(d[i] == s[i] && d[j] == s[j]);
            }
        }
        lemma_sort_distinct(d, key);
        lemma_sort_members(d, key);
        let r = sort_by_key(d, key);
        let x = s.last();
        let p = insert_pos(r, key, key(x), 0);
        lemma_insert_pos(r, key, key(x), 0);
        let out = r.insert(p, x);
        assert forall|q: int| 0 <= q < r.len() implies key(#[trigger] r[q]) != key(x) by {
            let k = choose|k: int| 0 <= k < d.len() && d[k] == r[q];
            assert(s[k] == d[k]);
            assert(s[s.len() - 1] == x);
        }
        assert forall|i: int, j: int| 0 <= i < j < out.len() implies #[trigger] key(out[i]) != #[trigger] key(out[j]) by {
            if j < p {
                assert(out[i] == r[i] && out[j] == r[j]);
            } else if i < p && j == p {
                assert(out[i] == r[i]);
            } else if i < p {
                assert(out[i] == r[i] && out[j] == r[j - 1]);
            } else if i == p {
                assert(out[j] == r[j - 1]);
            } else {
                assert(out[i] == r[i - 1] && out[j] == r[j - 1]);
            }
        }
    }
}

proof fn lemma_volume_ready_names(names: Seq<Seq<char>>, cs: Seq<Seq<char>>, taken: Set<Seq<char>>)
    requires
        crate::text::strictly_sorted(names),
    ensures
        forall|i: int|
            0 <= i < volume_ready(names, cs, taken).len() ==> names.contains(
                #[trigger] volume_ready(names, cs, taken)[i].name,
            ) && !taken.contains(volume_ready(names, cs, taken)[i].name),
        forall|i: int, j: int|
            0 <= i < j < volume_ready(names, cs, taken).len() ==> crate::text::seq_lt(
                #[trigger] volume_ready(names, cs, taken)[i].name,
                #[trigger] volume_ready(names, cs, taken)[j].name,
            ),
    decreases names.len(),
{
    if names.len() > 0 {
        let d = names.drop_last();
        assert(crate::text::strictly_sorted(d)) by {
            assert forall|a: int, b: int| 0 <= a < b < d.len() implies crate::text::seq_lt(
                #[trigger] d[a],
                #[trigger] d[b],
            ) by {
                assert(d[a] == names[a] && d[b] == names[b]);
            }
        }
        lemma_volume_ready_names(d, cs, taken);
        let prev = volume_ready(d, cs, taken);
        let cur = volume_ready(names, cs, taken);
        assert forall|i: int| 0 <= i < cur.len() implies names.contains(#[trigger] cur[i].name)
            && !taken.contains(cur[i].name) by {
            if i < prev.len() {
                assert(cur[i] == prev[i]);
                let k = choose|k: int| 0 <= k < d.len() && d[k] == prev[i].name;
                assert(names[k] == d[k]);
            } else {
                assert(cur[i].name == names.last());
                assert(names[names.len() - 1] == names.last());
            }
        }
        assert forall|i: int, j: int| 0 <= i < j < cur.len() implies crate::text::seq_lt(
            #[trigger] cur[i].name,
            #[trigger] cur[j].name,
        ) by {
            assert(cur[i] == prev[i]);
            if j < prev.len() {
                assert(cur[j] == prev[j]);
            } else {
                let k = choose|k: int| 0 <= k < d.len() && d[k] == prev[i].name;
                assert(names[k] == d[k]);
                assert(cur[j].name == names[names.len() - 1]);
            }
        }
    }
}

/// On macOS the ready mounts have distinct names, listed in strictly
/// increasing order.
pub proof fn law_macos_ready_names_are_unique(c: &DiscoveryContext)
    requires
        c.platform == Platform::Macos,
    ensures
        forall|i: int, j: int|
            0 <= i < j < scan_model(c).ready.len() ==> crate::text::seq_lt(
                #[trigger] scan_model(c).ready[i].name,
                #[trigger] scan_model(c).ready[j].name,
            ),
{
    let cs = considered(volume_paths(c), provider_set(c));
    lemma_sorted_enumeration(name_list(cs));
    let names = sorted_seq(name_list(cs).to_set());
    let pr = provider_ready(c);
    let taken = pr.map_values(|m: ReadyModel| m.name).to_set();
    let vr = volume_ready(names, cs, taken);
    lemma_volume_ready_names(names, cs, taken);
    let all = pr + vr;
    let key = |m: ReadyModel| ready_name(m);
    reveal_strlit("icloud");
    reveal_strlit("google-drive");
    assert(pr.len() <= 2);
    assert(pr.len() == 2 ==> pr[0].name != pr[1].name) by {
        if pr.len() == 2 {
            assert(pr[0].name == "icloud"@);
            assert(pr[1].name == "google-drive"@);
            assert(pr[0].name[1] != pr[1].name[1]);
        }
    }
    assert(distinct_keys(all, key)) by {
        assert forall|i: int, j: int| 0 <= i < j < all.len() implies #[trigger] key(all[i]) != #[trigger] key(all[j]) by {
            if j < pr.len() {
                assert(all[i] == pr[i] && all[j] == pr[j]);
            } else if i < pr.len() {
                assert(all[i] == pr[i] && all[j] == vr[j - pr.len()]);
                assert(taken.contains(pr[i].name)) by {
                    assert(pr.map_values(|m: ReadyModel| m.name)[i] == pr[i].name);
                }
            } else {
                assert(all[i] == vr[i - pr.len()] && all[j] == vr[j - pr.len()]);
                crate::text::lemma_seq_lt_irreflexive(vr[i - pr.len()].name);
            }
        }
    }
    lemma_sort_distinct(all, key);
    lemma_sort_by_key_sorted(all, key);
    let out = sort_by_key(all, key);
    assert(scan_model(c).ready == out);
    assert forall|i: int, j: int| 0 <= i < j < out.len() implies crate::text::seq_lt(
        #[trigger] out[i].name,
        #[trigger] out[j].name,
    ) by {
        assert(key(out[i]) != key(out[j]));
        assert(!crate::text::seq_lt(key(out[j]), key(out[i])));
        crate::text::lemma_seq_lt_total(out[i].name, out[j].name);
    }
}

/// The default configuration with one mount under a valid one-line name is
/// valid exactly when the mount has one of its accepted shapes (see
/// `law_mount_shapes`); otherwise the mount's own error is reported.
pub proof fn law_single_mount_config(c: &Config, windows: bool)
    requires
        crate::config::is_default_except_mounts(c),
        c.mounts.keys().len() == 1,
        crate::config::name_result("mount"@, c.mounts.keys()[0]) is Ok,
    ensures
        config_result(c, windows) == mount_result(c.mounts.keys()[0], &c.mounts.values()[0], windows),
{
    lemma_defaults_pass(c, windows);
    let n = c.mounts.keys()[0];
    assert(!c.aliases.contains(n));
    assert(mounts_result(c.aliases, c.mounts, 0, windows) == Ok::<(), Seq<char>>(()));
}

} // verus!
