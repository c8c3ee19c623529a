//! Shell completion scripts for `cj` itself: options, subcommands and the
//! configured destinations.
use vstd::prelude::*;

use crate::cli::Shell;
use crate::config::Config;
use crate::names::NameMap;
use crate::quote::{join, joined, nu_quoted, posix_words, ps_array, ps_words, quote_nu, shell_array};
use crate::text::{insert_sorted, lemma_sorted_set_unique, owned, push_str, strictly_sorted, views};

verus! {

/// A fixed part of the Bash completion script.
pub const BASH_0: &'static str = r#"_cj_complete() {
    local current previous command subcommand token candidate i command_value forced_resolve worktree_mode pick_mode literal_mode
    local -a candidates destinations flags common_flags commands shells formats
    COMPREPLY=()
    current="${COMP_WORDS[COMP_CWORD]}"
    previous="${COMP_WORDS[COMP_CWORD-1]-}"
    destinations=("#;
/// A fixed part of the Bash completion script.
pub const BASH_1: &'static str = r#")
    flags=("#;
/// A fixed part of the Bash completion script.
pub const BASH_2: &'static str = r#")
    common_flags=("#;
/// A fixed part of the Bash completion script.
pub const BASH_3: &'static str = r#")
    commands=("#;
/// A fixed part of the Bash completion script.
pub const BASH_4: &'static str = r#")
    shells=("#;
/// A fixed part of the Bash completion script.
pub const BASH_5: &'static str = r#")
    formats=("#;
/// A fixed part of the Bash completion script.
pub const BASH_6: &'static str = r#")

    literal_mode=
    for ((i = 1; i < COMP_CWORD; i++)); do
        [[ "${COMP_WORDS[i]}" == -- ]] && literal_mode=1 && break
    done
    if [[ -n "$literal_mode" ]]; then
        candidates=("${destinations[@]}")
    else case "$previous" in
        -C|--config|-o|--output)
            compopt -o filenames 2>/dev/null || :
            while IFS= read -r candidate; do COMPREPLY+=("$candidate"); done < <(compgen -f -- "$current")
            return
            ;;
        -f|--format) candidates=("${formats[@]}") ;;
        *)
            command=
            subcommand=
            command_value=
            forced_resolve=
            worktree_mode=
            pick_mode=
            i=1
            while (( i < COMP_CWORD )); do
                token="${COMP_WORDS[i]}"
                case "$token" in
                    -C|--config|-f|--format|-o|--output) ((i += 2)); continue ;;
                    --) forced_resolve=1; command=; subcommand=; break ;;
                    -r|--raw|-z|--zoxide|-Z|--no-zoxide) forced_resolve=1; command=; subcommand=; ((i++)); continue ;;
                    -w|--worktree) worktree_mode=1; ((i++)); continue ;;
                    --pick-worktree) worktree_mode=1; pick_mode=1; ((i++)); continue ;;
                    config|mounts|init|completions)
                        [[ -n "$forced_resolve" ]] && break
                        if [[ -z "$command" ]]; then command="$token"; else subcommand="$token"; fi
                        ((i++)); continue
                        ;;
                    scan)
                        [[ "$command" == mounts ]] && subcommand=scan
                        ((i++)); continue
                        ;;
                    -*) ((i++)); continue ;;
                    *)
                        [[ "$command" == init || "$command" == completions ]] && command_value=1
                        break
                        ;;
                esac
            done
            if [[ -n "$forced_resolve" ]]; then
                candidates=("${destinations[@]}" "${common_flags[@]}")
            elif [[ -n "$pick_mode" ]]; then
                candidates=("${common_flags[@]}")
            elif [[ -n "$worktree_mode" ]]; then
                candidates=(-f --format -R --relative "${common_flags[@]}")
            else case "$command:$subcommand" in
                config:) candidates=(init "${common_flags[@]}") ;;
                config:init) candidates=(--preamp "${common_flags[@]}") ;;
                mounts:) candidates=(scan "${common_flags[@]}") ;;
                mounts:scan) candidates=(-f --format "${common_flags[@]}") ;;
                init:) if [[ -n "$command_value" ]]; then candidates=(-o --output --setup-key-binding --no-setup-key-binding "${common_flags[@]}"); else candidates=("${shells[@]}" -o --output --setup-key-binding --no-setup-key-binding "${common_flags[@]}"); fi ;;
                completions:) if [[ -n "$command_value" ]]; then candidates=("${common_flags[@]}"); else candidates=("${shells[@]}" "${common_flags[@]}"); fi ;;
                *) candidates=("${commands[@]}" "${destinations[@]}" "${flags[@]}") ;;
            esac; fi
            ;;
    esac; fi

    for candidate in "${candidates[@]}"; do
        [[ "$candidate" == "$current"* ]] && COMPREPLY+=("$candidate")
    done
}
complete -F _cj_complete cj"#;

/// A fixed part of the Zsh completion script.
pub const ZSH_0: &'static str = r#"#compdef cj
_cj_complete() {
    local previous command subcommand token command_value forced_resolve worktree_mode pick_mode literal_mode
    local -i i
    local -a candidates destinations flags common_flags commands shells formats
    previous="${words[CURRENT-1]-}"
    destinations=("#;
/// A fixed part of the Zsh completion script.
pub const ZSH_1: &'static str = r#")
    flags=("#;
/// A fixed part of the Zsh completion script.
pub const ZSH_2: &'static str = r#")
    common_flags=("#;
/// A fixed part of the Zsh completion script.
pub const ZSH_3: &'static str = r#")
    commands=("#;
/// A fixed part of the Zsh completion script.
pub const ZSH_4: &'static str = r#")
    shells=("#;
/// A fixed part of the Zsh completion script.
pub const ZSH_5: &'static str = r#")
    formats=("#;
/// A fixed part of the Zsh completion script.
pub const ZSH_6: &'static str = r#")

    literal_mode=
    for ((i = 2; i < CURRENT; i++)); do
        [[ "${words[i]}" == -- ]] && literal_mode=1 && break
    done
    if [[ -n "$literal_mode" ]]; then
        candidates=("${destinations[@]}")
    else case "$previous" in
        -C|--config|-o|--output) _files; return ;;
        -f|--format) candidates=("${formats[@]}") ;;
        *)
            command=
            subcommand=
            command_value=
            forced_resolve=
            worktree_mode=
            pick_mode=
            i=2
            while (( i < CURRENT )); do
                token="${words[i]}"
                case "$token" in
                    -C|--config|-f|--format|-o|--output) ((i += 2)); continue ;;
                    --) forced_resolve=1; command=; subcommand=; break ;;
                    -r|--raw|-z|--zoxide|-Z|--no-zoxide) forced_resolve=1; command=; subcommand=; ((i++)); continue ;;
                    -w|--worktree) worktree_mode=1; ((i++)); continue ;;
                    --pick-worktree) worktree_mode=1; pick_mode=1; ((i++)); continue ;;
                    config|mounts|init|completions)
                        [[ -n "$forced_resolve" ]] && break
                        if [[ -z "$command" ]]; then command="$token"; else subcommand="$token"; fi
                        ((i++)); continue
                        ;;
                    scan)
                        [[ "$command" == mounts ]] && subcommand=scan
                        ((i++)); continue
                        ;;
                    -*) ((i++)); continue ;;
                    *)
                        [[ "$command" == init || "$command" == completions ]] && command_value=1
                        break
                        ;;
                esac
            done
            if [[ -n "$forced_resolve" ]]; then
                candidates=("${destinations[@]}" "${common_flags[@]}")
            elif [[ -n "$pick_mode" ]]; then
                candidates=("${common_flags[@]}")
            elif [[ -n "$worktree_mode" ]]; then
                candidates=(-f --format -R --relative "${common_flags[@]}")
            else case "$command:$subcommand" in
                config:) candidates=(init "${common_flags[@]}") ;;
                config:init) candidates=(--preamp "${common_flags[@]}") ;;
                mounts:) candidates=(scan "${common_flags[@]}") ;;
                mounts:scan) candidates=(-f --format "${common_flags[@]}") ;;
                init:) if [[ -n "$command_value" ]]; then candidates=(-o --output --setup-key-binding --no-setup-key-binding "${common_flags[@]}"); else candidates=("${shells[@]}" -o --output --setup-key-binding --no-setup-key-binding "${common_flags[@]}"); fi ;;
                completions:) if [[ -n "$command_value" ]]; then candidates=("${common_flags[@]}"); else candidates=("${shells[@]}" "${common_flags[@]}"); fi ;;
                *) candidates=("${commands[@]}" "${destinations[@]}" "${flags[@]}") ;;
            esac; fi
            ;;
    esac; fi
    compadd -- "${candidates[@]}"
}
compdef _cj_complete cj"#;

/// A fixed part of the Nushell completion module.
pub const NU_0: &'static str = r#"def "nu-complete cj destinations" [] {
    ["#;
/// A fixed part of the Nushell completion module.
pub const NU_1: &'static str = r#"]
}

def "nu-complete cj shells" [] {
    [bash zsh nu powershell]
}

def "nu-complete cj formats" [] {
    [table json]
}

export extern cj [
    ...target: string@"nu-complete cj destinations"
    --config(-C): path
    --verbose(-v)
    --raw(-r)
    --zoxide(-z)
    --no-zoxide(-Z)
    --worktree(-w)
    --format(-f): string@"nu-complete cj formats"
    --relative(-R)
    --pick-worktree
    --help(-h)
    --version(-V)
]

export extern "cj init" [
    shell: string@"nu-complete cj shells"
    --setup-key-binding
    --no-setup-key-binding
    --output(-o): path
    --config(-C): path
    --verbose(-v)
    --help(-h)
    --version(-V)
]

export extern "cj completions" [
    shell: string@"nu-complete cj shells"
    --config(-C): path
    --verbose(-v)
    --help(-h)
    --version(-V)
]

export extern "cj config init" [
    --preamp
    --config(-C): path
    --verbose(-v)
    --help(-h)
    --version(-V)
]

export extern "cj config" [
    --config(-C): path
    --verbose(-v)
    --help(-h)
    --version(-V)
]

export extern "cj mounts" [
    --config(-C): path
    --verbose(-v)
    --help(-h)
    --version(-V)
]

export extern "cj mounts scan" [
    --format(-f): string@"nu-complete cj formats"
    --config(-C): path
    --verbose(-v)
    --help(-h)
    --version(-V)
]"#;

/// A fixed part of the PowerShell completion script.
pub const POWERSHELL_0: &'static str = r#"Register-ArgumentCompleter -Native -CommandName @('cj', 'cj.exe') -ScriptBlock {
    param($wordToComplete, $commandAst, $cursorPosition)
    $destinations = @("#;
/// A fixed part of the PowerShell completion script.
pub const POWERSHELL_1: &'static str = r#")
    $flags = @("#;
/// A fixed part of the PowerShell completion script.
pub const POWERSHELL_2: &'static str = r#")
    $commonFlags = @("#;
/// A fixed part of the PowerShell completion script.
pub const POWERSHELL_3: &'static str = r#")
    $commands = @("#;
/// A fixed part of the PowerShell completion script.
pub const POWERSHELL_4: &'static str = r#")
    $shells = @("#;
/// A fixed part of the PowerShell completion script.
pub const POWERSHELL_5: &'static str = r#")
    $formats = @("#;
/// A fixed part of the PowerShell completion script.
pub const POWERSHELL_6: &'static str = r#")
    $elements = @($commandAst.CommandElements | Where-Object { $_.Extent.StartOffset -lt $cursorPosition } | ForEach-Object { $_.Extent.Text })
    $previous = if ([string]::IsNullOrEmpty($wordToComplete)) { if ($elements.Count -gt 0) { $elements[-1] } else { '' } } elseif ($elements.Count -gt 1) { $elements[-2] } else { '' }
    $literalMode = $elements -ccontains '--'

    if ($literalMode) {
        $candidates = $destinations
    } elseif (@('-C', '--config', '-o', '--output') -ccontains $previous) {
        return
    } elseif (@('-f', '--format') -ccontains $previous) {
        $candidates = $formats
    } else {
        $command = ''
        $subcommand = ''
        $commandValue = $false
        $forcedResolve = $false
        $worktreeMode = $false
        $pickMode = $false
        $skipValue = $false
        $scanLimit = $elements.Count
        if (-not [string]::IsNullOrEmpty($wordToComplete)) { $scanLimit-- }
        for ($index = 1; $index -lt $scanLimit; $index++) {
            $token = $elements[$index]
            if ($skipValue) { $skipValue = $false; continue }
            if (($token -ceq '-C') -or ($token -ceq '--config') -or ($token -ceq '-f') -or ($token -ceq '--format') -or ($token -ceq '-o') -or ($token -ceq '--output')) { $skipValue = $true; continue }
            if ($token -ceq '--') { $forcedResolve = $true; $command = ''; $subcommand = ''; break }
            if (($token -ceq '-r') -or ($token -ceq '--raw') -or ($token -ceq '-z') -or ($token -ceq '--zoxide') -or ($token -ceq '-Z') -or ($token -ceq '--no-zoxide')) { $forcedResolve = $true; $command = ''; $subcommand = ''; continue }
            if (($token -ceq '-w') -or ($token -ceq '--worktree')) { $worktreeMode = $true; continue }
            if ($token -ceq '--pick-worktree') { $worktreeMode = $true; $pickMode = $true; continue }
            if ($token.StartsWith('-')) { continue }
            if ([string]::IsNullOrEmpty($command)) {
                if (-not $forcedResolve -and ($commands -ccontains $token)) { $command = $token; continue }
                break
            }
            if (($command -ceq 'config') -and ($token -ceq 'init')) { $subcommand = 'init'; continue }
            if (($command -ceq 'mounts') -and ($token -ceq 'scan')) { $subcommand = 'scan'; continue }
            if (($command -ceq 'init') -or ($command -ceq 'completions')) { $commandValue = $true }
            break
        }
        $candidates = if ($forcedResolve) { $destinations + $commonFlags } elseif ($pickMode) { $commonFlags } elseif ($worktreeMode) { @('-f', '--format', '-R', '--relative') + $commonFlags } else { switch ("$command`:$subcommand") {
            'config:' { @('init') + $commonFlags }
            'config:init' { @('--preamp') + $commonFlags }
            'mounts:' { @('scan') + $commonFlags }
            'mounts:scan' { @('-f', '--format') + $commonFlags }
            'init:' { if ($commandValue) { @('-o', '--output', '--setup-key-binding', '--no-setup-key-binding') + $commonFlags } else { $shells + @('-o', '--output', '--setup-key-binding', '--no-setup-key-binding') + $commonFlags } }
            'completions:' { if ($commandValue) { $commonFlags } else { $shells + $commonFlags } }
            default { $commands + $destinations + $flags }
        } }
    }

    $candidates | Where-Object { $_.StartsWith($wordToComplete, [System.StringComparison]::OrdinalIgnoreCase) } | ForEach-Object {
        $completionText = if ($_ -match '[^\p{L}\p{N}_./:\\-]') { "'" + $_.Replace("'", "''") + "'" } else { $_ }
        [System.Management.Automation.CompletionResult]::new($completionText, $_, 'ParameterValue', $_)
    }
}"#;

/// The options offered where any option fits.
pub open spec fn flag_names() -> Seq<Seq<char>> {
    seq!["-C"@, "--config"@, "-v"@, "--verbose"@, "-r"@, "--raw"@, "-z"@, "--zoxide"@, "-Z"@, "--no-zoxide"@, "-w"@, "--worktree"@, "-f"@, "--format"@, "-R"@, "--relative"@, "--pick-worktree"@, "-h"@, "--help"@, "-V"@, "--version"@]
}

fn flags() -> (v: Vec<String>)
    ensures
        views(v@) == flag_names(),
{
    let mut v: Vec<String> = Vec::new();
    v.push(owned("-C"));
    v.push(owned("--config"));
    v.push(owned("-v"));
    v.push(owned("--verbose"));
    v.push(owned("-r"));
    v.push(owned("--raw"));
    v.push(owned("-z"));
    v.push(owned("--zoxide"));
    v.push(owned("-Z"));
    v.push(owned("--no-zoxide"));
    v.push(owned("-w"));
    v.push(owned("--worktree"));
    v.push(owned("-f"));
    v.push(owned("--format"));
    v.push(owned("-R"));
    v.push(owned("--relative"));
    v.push(owned("--pick-worktree"));
    v.push(owned("-h"));
    v.push(owned("--help"));
    v.push(owned("-V"));
    v.push(owned("--version"));
    assert(views(v@) =~= flag_names());
    v
}

/// The options that every command accepts.
pub open spec fn common_flag_names() -> Seq<Seq<char>> {
    seq!["-C"@, "--config"@, "-v"@, "--verbose"@, "-h"@, "--help"@, "-V"@, "--version"@]
}

fn common_flags() -> (v: Vec<String>)
    ensures
        views(v@) == common_flag_names(),
{
    let mut v: Vec<String> = Vec::new();
    v.push(owned("-C"));
    v.push(owned("--config"));
    v.push(owned("-v"));
    v.push(owned("--verbose"));
    v.push(owned("-h"));
    v.push(owned("--help"));
    v.push(owned("-V"));
    v.push(owned("--version"));
    assert(views(v@) =~= common_flag_names());
    v
}

/// The subcommands.
pub open spec fn command_names() -> Seq<Seq<char>> {
    seq!["completions"@, "config"@, "init"@, "mounts"@]
}

fn commands() -> (v: Vec<String>)
    ensures
        views(v@) == command_names(),
{
    let mut v: Vec<String> = Vec::new();
    v.push(owned("completions"));
    v.push(owned("config"));
    v.push(owned("init"));
    v.push(owned("mounts"));
    assert(views(v@) =~= command_names());
    v
}

/// The shells that integration can be generated for.
pub open spec fn shell_names() -> Seq<Seq<char>> {
    seq!["bash"@, "zsh"@, "nu"@, "powershell"@]
}

fn shells() -> (v: Vec<String>)
    ensures
        views(v@) == shell_names(),
{
    let mut v: Vec<String> = Vec::new();
    v.push(owned("bash"));
    v.push(owned("zsh"));
    v.push(owned("nu"));
    v.push(owned("powershell"));
    assert(views(v@) =~= shell_names());
    v
}

/// The listing formats.
pub open spec fn format_names() -> Seq<Seq<char>> {
    seq!["table"@, "json"@]
}

fn formats() -> (v: Vec<String>)
    ensures
        views(v@) == format_names(),
{
    let mut v: Vec<String> = Vec::new();
    v.push(owned("table"));
    v.push(owned("json"));
    assert(views(v@) =~= format_names());
    v
}

/// Every name that completes as a destination: the Git keywords, the alias
/// and mount names, and the two tickers.
pub open spec fn destination_set(c: &Config) -> Set<Seq<char>> {
    views(c.keywords.top@).to_set() + views(c.keywords.main_worktree@).to_set()
        + c.aliases.keys().to_set() + c.mounts.keys().to_set() + set![
        c.tickers.navigate_up@,
        c.tickers.navigate_down@,
    ]
}

fn add_all(v: &mut Vec<String>, items: &Vec<String>)
    requires
        strictly_sorted(views(old(v)@)),
    ensures
        strictly_sorted(views(final(v)@)),
        views(final(v)@).to_set() == views(old(v)@).to_set() + views(items@).to_set(),
{
    let ghost start = views(v@).to_set();
    let mut i: usize = 0;
    while i < items.len()
        invariant
            i <= items@.len(),
            strictly_sorted(views(v@)),
            views(v@).to_set() == start + views(items@).take(i as int).to_set(),
        decreases items@.len() - i,
    {
        insert_sorted(v, items[i].clone());
        proof {
        assert(views(items@).take(i + 1) =~= views(items@).take(i as int).push(items@[i as int]@));
        views(items@).take(i as int).lemma_push_to_set_commute(items@[i as int]@);
        }
        i = i + 1;
    }
    assert(views(items@).take(i as int) =~= views(items@));
}

fn add_keys<V>(v: &mut Vec<String>, map: &NameMap<V>)
    requires
        strictly_sorted(views(old(v)@)),
    ensures
        strictly_sorted(views(final(v)@)),
        views(final(v)@).to_set() == views(old(v)@).to_set() + map.keys().to_set(),
{
    let ghost start = views(v@).to_set();
    let mut i: usize = 0;
    while i < map.len()
        invariant
            i <= map.keys().len(),
            strictly_sorted(views(v@)),
            views(v@).to_set() == start + map.keys().take(i as int).to_set(),
        decreases map.keys().len() - i,
    {
        insert_sorted(v, map.key_at(i).clone());
        proof {
        assert(map.keys().take(i + 1) =~= map.keys().take(i as int).push(map.keys()[i as int]));
        map.keys().take(i as int).lemma_push_to_set_commute(map.keys()[i as int]);
        }
        i = i + 1;
    }
    assert(map.keys().take(i as int) =~= map.keys());
}

/// The configured destinations, each once, in increasing order.
pub open spec fn sorted_destinations(c: &Config) -> Seq<Seq<char>> {
    choose|s: Seq<Seq<char>>| strictly_sorted(s) && s.to_set() == destination_set(c)
}

/// The destinations offered for completion: every configured name once, in
/// increasing order.
pub fn destinations(config: &Config) -> (v: Vec<String>)
    ensures
        strictly_sorted(views(v@)),
        views(v@).to_set() == destination_set(config),
        views(v@) == sorted_destinations(config),
{
    let mut v: Vec<String> = Vec::new();
    assert(views(v@).to_set() =~= Set::<Seq<char>>::empty());
    add_all(&mut v, &config.keywords.top);
    add_all(&mut v, &config.keywords.main_worktree);
    add_keys(&mut v, &config.aliases);
    add_keys(&mut v, &config.mounts);
    let ghost before = views(v@).to_set();
    insert_sorted(&mut v, config.tickers.navigate_up.clone());
    insert_sorted(&mut v, config.tickers.navigate_down.clone());
    assert(views(v@).to_set() =~= destination_set(config));
    proof {
        let c = sorted_destinations(config);
        assert(strictly_sorted(c) && c.to_set() == destination_set(config));
        lemma_sorted_set_unique(views(v@), c);
    }
    v
}

/// The Bash completion script for sorted destinations.
pub open spec fn bash_text(destinations: Seq<Seq<char>>) -> Seq<char> {
    BASH_0@ + posix_words(destinations) + BASH_1@ + posix_words(flag_names()) + BASH_2@ + posix_words(common_flag_names()) + BASH_3@ + posix_words(command_names()) + BASH_4@ + posix_words(shell_names()) + BASH_5@ + posix_words(format_names()) + BASH_6@
}

/// The Zsh completion script for sorted destinations.
pub open spec fn zsh_text(destinations: Seq<Seq<char>>) -> Seq<char> {
    ZSH_0@ + posix_words(destinations) + ZSH_1@ + posix_words(flag_names()) + ZSH_2@ + posix_words(common_flag_names()) + ZSH_3@ + posix_words(command_names()) + ZSH_4@ + posix_words(shell_names()) + ZSH_5@ + posix_words(format_names()) + ZSH_6@
}

/// One Nushell completion record.
pub open spec fn nu_record(v: Seq<char>) -> Seq<char> {
    "{ value: "@ + nu_quoted(v) + ", description: 'configured destination' }"@
}

/// Nushell completion records separated by commas.
pub open spec fn nu_records_text(values: Seq<Seq<char>>) -> Seq<char> {
    joined(values.map_values(|v: Seq<char>| nu_record(v)), ", "@)
}

/// Nushell completes the subcommands beside the destinations, each once, in
/// increasing order.
pub open spec fn nu_value_set(destinations: Seq<Seq<char>>) -> Set<Seq<char>> {
    destinations.to_set() + command_names().to_set()
}

/// The sorted values that Nushell offers: `destinations` and the subcommands.
pub open spec fn nu_values(destinations: Seq<Seq<char>>) -> Seq<Seq<char>> {
    choose|s: Seq<Seq<char>>| strictly_sorted(s) && s.to_set() == nu_value_set(destinations)
}

/// The Nushell completion module for sorted destinations.
pub open spec fn nu_text(destinations: Seq<Seq<char>>) -> Seq<char> {
    NU_0@ + nu_records_text(nu_values(destinations)) + NU_1@
}

/// The PowerShell completion script for sorted destinations.
pub open spec fn powershell_text(destinations: Seq<Seq<char>>) -> Seq<char> {
    POWERSHELL_0@ + ps_words(destinations) + POWERSHELL_1@ + ps_words(flag_names()) + POWERSHELL_2@ + ps_words(common_flag_names()) + POWERSHELL_3@ + ps_words(command_names()) + POWERSHELL_4@ + ps_words(shell_names()) + POWERSHELL_5@ + ps_words(format_names()) + POWERSHELL_6@
}

/// The Bash completion script.
pub fn bash(destinations: &Vec<String>) -> (out: String)
    ensures
        out@ == bash_text(views(destinations@)),
{
    let dest = shell_array(destinations);
    let flags = shell_array(&flags());
    let common = shell_array(&common_flags());
    let commands = shell_array(&commands());
    let shells = shell_array(&shells());
    let formats = shell_array(&formats());
    let mut out = String::new();
    push_str(&mut out, BASH_0);
    push_str(&mut out, dest.as_str());
    push_str(&mut out, BASH_1);
    push_str(&mut out, flags.as_str());
    push_str(&mut out, BASH_2);
    push_str(&mut out, common.as_str());
    push_str(&mut out, BASH_3);
    push_str(&mut out, commands.as_str());
    push_str(&mut out, BASH_4);
    push_str(&mut out, shells.as_str());
    push_str(&mut out, BASH_5);
    push_str(&mut out, formats.as_str());
    push_str(&mut out, BASH_6);
    assert(out@ =~= bash_text(views(destinations@)));
    out
}

/// The Zsh completion script.
pub fn zsh(destinations: &Vec<String>) -> (out: String)
    ensures
        out@ == zsh_text(views(destinations@)),
{
    let dest = shell_array(destinations);
    let flags = shell_array(&flags());
    let common = shell_array(&common_flags());
    let commands = shell_array(&commands());
    let shells = shell_array(&shells());
    let formats = shell_array(&formats());
    let mut out = String::new();
    push_str(&mut out, ZSH_0);
    push_str(&mut out, dest.as_str());
    push_str(&mut out, ZSH_1);
    push_str(&mut out, flags.as_str());
    push_str(&mut out, ZSH_2);
    push_str(&mut out, common.as_str());
    push_str(&mut out, ZSH_3);
    push_str(&mut out, commands.as_str());
    push_str(&mut out, ZSH_4);
    push_str(&mut out, shells.as_str());
    push_str(&mut out, ZSH_5);
    push_str(&mut out, formats.as_str());
    push_str(&mut out, ZSH_6);
    assert(out@ =~= zsh_text(views(destinations@)));
    out
}

/// Nushell completion records for values.
pub fn nu_records(values: &Vec<String>) -> (out: String)
    ensures
        out@ == nu_records_text(views(values@)),
{
    let mut records: Vec<String> = Vec::new();
    let mut i: usize = 0;
    while i < values.len()
        invariant
            i <= values@.len(),
            views(records@) == views(values@).take(i as int).map_values(|v: Seq<char>| nu_record(v)),
        decreases values@.len() - i,
    {
        let ghost before = records@;
        let mut r = owned("{ value: ");
        push_str(&mut r, quote_nu(values[i].as_str()).as_str());
        push_str(&mut r, ", description: 'configured destination' }");
        records.push(r);
        assert(views(records@) =~= views(before).push(nu_record(values@[i as int]@)));
        assert(views(values@).take(i + 1).map_values(|v: Seq<char>| nu_record(v)) =~= views(
            values@,
        ).take(i as int).map_values(|v: Seq<char>| nu_record(v)).push(nu_record(values@[i as int]@)));
        i = i + 1;
    }
    assert(views(values@).take(i as int) =~= views(values@));
    join(&records, ", ")
}

/// The Nushell completion module.
pub fn nu(destinations: &Vec<String>) -> (out: String)
    ensures
        out@ == nu_text(views(destinations@)),
{
    let mut values: Vec<String> = Vec::new();
    assert(views(values@).to_set() =~= Set::<Seq<char>>::empty());
    add_all(&mut values, destinations);
    add_all(&mut values, &commands());
    proof {
        let s = views(values@);
        assert(s.to_set() =~= nu_value_set(views(destinations@)));
        let c = nu_values(views(destinations@));
        assert(strictly_sorted(c) && c.to_set() == nu_value_set(views(destinations@)));
        lemma_sorted_set_unique(s, c);
    }
    let records = nu_records(&values);
    let mut out = String::new();
    push_str(&mut out, NU_0);
    push_str(&mut out, records.as_str());
    push_str(&mut out, NU_1);
    assert(out@ =~= nu_text(views(destinations@)));
    out
}

/// The PowerShell completion script.
pub fn powershell(destinations: &Vec<String>) -> (out: String)
    ensures
        out@ == powershell_text(views(destinations@)),
{
    let dest = ps_array(destinations);
    let flags = ps_array(&flags());
    let common = ps_array(&common_flags());
    let commands = ps_array(&commands());
    let shells = ps_array(&shells());
    let formats = ps_array(&formats());
    let mut out = String::new();
    push_str(&mut out, POWERSHELL_0);
    push_str(&mut out, dest.as_str());
    push_str(&mut out, POWERSHELL_1);
    push_str(&mut out, flags.as_str());
    push_str(&mut out, POWERSHELL_2);
    push_str(&mut out, common.as_str());
    push_str(&mut out, POWERSHELL_3);
    push_str(&mut out, commands.as_str());
    push_str(&mut out, POWERSHELL_4);
    push_str(&mut out, shells.as_str());
    push_str(&mut out, POWERSHELL_5);
    push_str(&mut out, formats.as_str());
    push_str(&mut out, POWERSHELL_6);
    assert(out@ =~= powershell_text(views(destinations@)));
    out
}

/// The completion script of a shell for a configuration's sorted
/// destinations.
pub open spec fn completions_text(shell: Shell, destinations: Seq<Seq<char>>) -> Seq<char> {
    match shell {
        Shell::Bash => bash_text(destinations),
        Shell::Zsh => zsh_text(destinations),
        Shell::Nu => nu_text(destinations),
        Shell::Pwsh => powershell_text(destinations),
    }
}

/// The completion script of a shell for a configuration.
pub fn render(shell: Shell, config: &Config) -> (out: String)
    ensures
        out@ == completions_text(shell, sorted_destinations(config)),
{
    let destinations = destinations(config);
    let out = match shell {
        Shell::Bash => bash(&destinations),
        Shell::Zsh => zsh(&destinations),
        Shell::Nu => nu(&destinations),
        Shell::Pwsh => powershell(&destinations),
    };
    out
}

} // verus!
