//! The shell integration that `cj init` prints: a `cd` wrapper with
//! directory history and completion, followed by the key-binding widget.
use vstd::prelude::*;

use crate::cli::Shell;
use crate::completions::{destinations, sorted_destinations};
use crate::config::{is_absolute, Config, KeyBinding};
use crate::key_bindings::{key_bindings_text, render as render_key_bindings};
use crate::quote::{join, joined, nu_quoted, posix_quoted, posix_words, ps_array, ps_quoted, ps_words, quote_nu, quote_posix, quote_ps, shell_array};
use crate::resolver::{join_paths, push_path};
use crate::text::{owned, push_str, views};
use crate::config::is_absolute_path;

verus! {

/// A fixed part of the POSIX shell wrapper.
pub const POSIX_0: &'static str = r#"_cj_navigate_up="#;
/// A fixed part of the POSIX shell wrapper.
pub const POSIX_1: &'static str = r#"
_cj_navigate_down="#;
/// A fixed part of the POSIX shell wrapper.
pub const POSIX_2: &'static str = r#"
_cj_history=()

function _cj_is_repeated() {
    local value="$1" ticker="$2"
    [[ -n "$value" && -n "$ticker" ]] || return 1
    while [[ -n "$value" ]]; do
        [[ "${value#"$ticker"}" != "$value" ]] || return 1
        value="${value#"$ticker"}"
    done
    return 0
}

function _cj_record_move() {
    local before="$1" after="$2" mode="${3-other}" parent physical previous
    [[ "$before" != "$after" ]] || return 0
    if typeset -f _cj_key_history_reset >/dev/null; then _cj_key_history_reset; fi
    _cj_history+=("$before")
    if [[ "$mode" == up ]]; then
        # The native cd resolves .. against its logical path, including symlinks.
        parent="${OLDPWD%/*}"
        previous="$before"
        [[ -n "$parent" ]] || parent=/
        while [[ "$parent" != / ]]; do
            physical="$(\builtin cd -- "$parent" && \builtin pwd -P)" || break
            [[ "$physical" != "$after" ]] || break
            if [[ "$physical" != "$previous" ]]; then _cj_history+=("$physical"); fi
            previous="$physical"
            parent="${parent%/*}"
            [[ -n "$parent" ]] || parent=/
        done
    fi
    if (( ${#_cj_history[@]} > 100 )); then
        _cj_history=("${_cj_history[@]: -100}")
    fi
    return 0
}

function _cj_builtin_cd() {
    local before after result
    before="$(\builtin pwd -P)" || return
    \"#;
/// A fixed part of the POSIX shell wrapper.
pub const POSIX_3: &'static str = r#" cd "$@"
    result=$?
    (( result == 0 )) || return "$result"
    after="$(\builtin pwd -P)" || return
    _cj_record_move "$before" "$after"
}

\builtin unalias cd 2>/dev/null || :
function cd() {
    local target _cj_status _cj_before _cj_after _cj_nav_arg _cj_nav_mode
    local _cj_count _cj_remaining _cj_index _cj_value
    local -a _cj_args

    if [[ $# -eq 0 ]]; then
        _cj_builtin_cd
        return
    fi

    case "${1-}" in
        -r|--raw)
            shift
            if [[ $# -ne 1 ]]; then
                printf '%s\n' 'cj: --raw requires exactly one target' >&2
                return 2
            fi
            _cj_builtin_cd -- "$1"
            return
            ;;
        -z|--zoxide)
            _cj_nav_arg=
            ;;
        -jw|--jump-worktree)
            if [[ $# -eq 2 && -n "$2" ]]; then
                _cj_builtin_cd -- "$2"
                return
            fi
            printf '%s\n' 'cj: type cd -jw and press Tab to select a worktree' >&2
            return 2
            ;;
        -Z|--no-zoxide)
            if [[ $# -eq 2 ]]; then
                if _cj_builtin_cd -- "$2" 2>/dev/null; then return 0; fi
                _cj_nav_arg="$2"
            fi
            ;;
        -*)
            _cj_builtin_cd "$@"
            return
            ;;
        *)
            if _cj_builtin_cd "$@" 2>/dev/null; then return 0; fi
            [[ $# -eq 1 ]] && _cj_nav_arg="$1"
            ;;
    esac

    _cj_nav_mode=other
    if _cj_is_repeated "${_cj_nav_arg-}" "$_cj_navigate_up"; then
        _cj_nav_mode=up
    elif _cj_is_repeated "${_cj_nav_arg-}" "$_cj_navigate_down"; then
        _cj_count=0
        _cj_value="$_cj_nav_arg"
        while [[ -n "$_cj_value" ]]; do
            _cj_count=$((_cj_count + 1))
            _cj_value="${_cj_value#"$_cj_navigate_down"}"
        done
        _cj_remaining=$((${#_cj_history[@]} - _cj_count))
        if (( _cj_remaining < 0 )); then
            printf '%s\n' 'cj: directory history exhausted' >&2
            return 2
        fi
        _cj_index=$_cj_remaining
        [[ -n "${ZSH_VERSION-}" ]] && _cj_index=$((_cj_index + 1))
        target="${_cj_history[_cj_index]}"
        _cj_before="$(\builtin pwd -P)" || return
        \"#;
/// A fixed part of the POSIX shell wrapper.
pub const POSIX_4: &'static str = r#" cd -- "$target" || return
        _cj_after="$(\builtin pwd -P)" || return
        [[ "$_cj_before" != "$_cj_after" ]] || return 0
        _cj_history=("${_cj_history[@]:0:_cj_remaining}")
        if typeset -f _cj_key_history_reset >/dev/null; then _cj_key_history_reset; fi
        return 0
    fi
    case "${1-}" in
        -z|--zoxide|-Z|--no-zoxide) _cj_args=("$@") ;;
        *) _cj_args=(-- "$@") ;;
    esac
    _cj_before="$(\builtin pwd -P)" || return
    target="$(\command cj"#;
/// A fixed part of the POSIX shell wrapper.
pub const POSIX_5: &'static str = r#" "${_cj_args[@]}")"
    _cj_status=$?
    (( _cj_status == 0 )) || return "$_cj_status"
    [[ -n "$target" ]] || return 1
    \"#;
/// A fixed part of the POSIX shell wrapper.
pub const POSIX_6: &'static str = r#" cd -- "$target" || return
    _cj_after="$(\builtin pwd -P)" || return
    _cj_record_move "$_cj_before" "$_cj_after" "$_cj_nav_mode"
}

function _cj_complete_cd() {
    local current candidate
    local -a destinations candidates
    destinations=("#;
/// A fixed part of the POSIX shell wrapper.
pub const POSIX_7: &'static str = r#")

    if [[ -n "${BASH_VERSION-}" ]]; then
        current="${COMP_WORDS[COMP_CWORD]}"
        if { (( COMP_CWORD == 1 )) && [[ "$current" == -jw || "$current" == --jump-worktree ]]; } ||
            { (( COMP_CWORD == 2 )) && [[ "${COMP_WORDS[1]}" == -jw || "${COMP_WORDS[1]}" == --jump-worktree ]]; }; then
            COMPREPLY=()
            while IFS= read -r -d '' candidate; do
                (( COMP_CWORD == 1 )) || [[ "$candidate" == "$current"* ]] || continue
                COMPREPLY+=("$candidate")
            done < <(\command cj"#;
/// A fixed part of the POSIX shell wrapper.
pub const POSIX_8: &'static str = r#" --worktree-paths0 2>/dev/null)
            compopt -o filenames 2>/dev/null || :
            return 0
        fi

        if declare -F _cd >/dev/null; then
            _cd "$@"
        else
            COMPREPLY=()
            while IFS= read -r candidate; do COMPREPLY+=("$candidate"); done < <(compgen -d -- "$current")
        fi
        for candidate in "${destinations[@]}"; do
            [[ "$candidate" == "$current"* ]] && COMPREPLY+=("$candidate")
        done
        compopt -o filenames 2>/dev/null || :
        return 0
    fi

    current="${words[CURRENT]}"
    if { (( CURRENT == 2 )) && [[ "$current" == -jw || "$current" == --jump-worktree ]]; } ||
        { (( CURRENT == 3 )) && [[ "${words[2]}" == -jw || "${words[2]}" == --jump-worktree ]]; }; then
        candidates=()
        while IFS= read -r -d '' candidate; do
            candidates+=("$candidate")
        done < <(\command cj"#;
/// A fixed part of the POSIX shell wrapper.
pub const POSIX_9: &'static str = r#" --worktree-paths0 2>/dev/null)
        (( ${#candidates[@]} )) || return 0
        # Replace the jump token instead of matching paths against it.
        if (( CURRENT == 2 )); then PREFIX='' SUFFIX=''; fi
        # Offer complete destinations instead of inserting their common parent.
        compstate[insert]=menu
        compadd -f -- "${candidates[@]}"
        return
    fi

    compadd -X 'cj destination' -- "${destinations[@]}"
    "${_cj_cd_completion_fallback:-_cd}" "$@"
}

function _cj_register_cd_completion() {
    (( $+functions[compdef] )) || return 0
    if [[ "${_comps[cd]-}" != _cj_complete_cd ]]; then
        _cj_cd_completion_fallback="${_comps[cd]-_cd}"
        compdef _cj_complete_cd cd
    fi
}

if [[ -n "${BASH_VERSION-}" ]]; then
    complete -F _cj_complete_cd cd
elif [[ -n "${ZSH_VERSION-}" ]]; then
    autoload -Uz add-zsh-hook
    add-zsh-hook -d precmd _cj_register_cd_completion 2>/dev/null || :
    add-zsh-hook precmd _cj_register_cd_completion
    _cj_register_cd_completion
fi"#;

/// A fixed part of the Nushell wrapper.
pub const NU_0: &'static str = r#"def _cj-is-repeated [value: string, ticker: string] {
    ($value | str length) > 0 and (($value | split chars | all { |char| $char == $ticker }))
}

def --env _cj-record-move [before: string, mode: string = 'other', logical: string = ''] {
    let after = ($env.PWD | path expand)
    if $before == $after { return }
    mut entries = [$before]
    if $mode == 'up' {
        mut parent = ($logical | path dirname)
        mut previous = $before
        while $parent != ($parent | path dirname) {
            let physical = ($parent | path expand)
            if $physical == $after { break }
            if $physical != $previous { $entries = ($entries | append $physical) }
            $previous = $physical
            $parent = ($parent | path dirname)
        }
    }
    $env.__cj_history = ($env.__cj_history | append $entries | last 100)
}

def _cj-complete-cd [spans: list<string>] {
    let current = ($spans | last)
    let attached = (($spans | length) == 2) and ($current in ['-jw' '--jump-worktree'])
    let separated = (($spans | length) == 3) and ($spans.1 in ['-jw' '--jump-worktree'])
    if $attached or $separated {
        let prefix = if $separated {
            try { $current | from nuon | into string } catch {
                $current | str trim --char '`' | str trim --char '"' | str trim --char "'"
            }
        } else { '' }
        let config = "#;
/// A fixed part of the Nushell wrapper.
pub const NU_1: &'static str = r#"
        let result = (^cj ...$config --worktree --format json | complete)
        if $result.exit_code != 0 { return [] }
        return (try {
            $result.stdout | from json | where { |row| $row.path | str starts-with $prefix } | each { |row|
                { value: ($row.path | to nuon), description: 'Git worktree' }
            }
        } catch { [] })
    }
    let configured = (["#;
/// A fixed part of the Nushell wrapper.
pub const NU_2: &'static str = r#"] | where value starts-with $current)
    let directories = ($current | commandline complete --detailed --type directory | each { |entry|
        { value: $entry.value, description: 'directory' }
    })
    $configured | append $directories
}

@complete '_cj-complete-cd'
export def --env --wrapped __cj_cd [...args: string] {
    let config = "#;
/// A fixed part of the Nushell wrapper.
pub const NU_3: &'static str = r#"
    let navigate_up = "#;
/// A fixed part of the Nushell wrapper.
pub const NU_4: &'static str = r#"
    let navigate_down = "#;
/// A fixed part of the Nushell wrapper.
pub const NU_5: &'static str = r#"
    let logical = $env.PWD
    let before = ($env.PWD | path expand)

    if ($args | is-empty) {
        cd
        _cj-record-move $before
        return
    }

    if ($args.0 in ['-jw' '--jump-worktree']) {
        if (($args | length) != 2) or ($args.1 | is-empty) {
            error make { msg: 'cj: type cd -jw and press Tab to select a worktree' }
        }
        cd $args.1
        _cj-record-move $before
        return
    }

    if (($args.0 == '-r') or ($args.0 == '--raw')) {
        if ($args | length) != 2 {
            error make { msg: 'cj: --raw requires exactly one target' }
        }
        cd $args.1
        _cj-record-move $before
        return
    }

    if (($args.0 == '-P') or ($args.0 == '--physical')) {
        if ($args | length) > 2 { error make { msg: 'cj: --physical accepts at most one target' } }
        if ($args | length) == 1 { cd --physical } else { cd --physical $args.1 }
        _cj-record-move $before
        return
    }

    if (($args | length) == 1) and (($args.0 == '-h') or ($args.0 == '--help')) {
        help cd
        return
    }

    if (($args | length) == 1) and (not ($args.0 | str starts-with '-')) {
        let direct = (try { cd $args.0; true } catch { false })
        if $direct {
            _cj-record-move $before
            return
        }
    } else if (($args | length) == 2) and (($args.0 == '-Z') or ($args.0 == '--no-zoxide')) {
        let direct = (try { cd $args.1; true } catch { false })
        if $direct {
            _cj-record-move $before
            return
        }
    } else if ($args.0 | str starts-with '-') and (not ($args.0 in ['-z' '--zoxide' '-Z' '--no-zoxide'])) {
        if ($args | length) != 1 { error make { msg: 'cj: Nushell cd accepts one target' } }
        cd $args.0
        _cj-record-move $before
        return
    }

    let nav_arg = if (($args | length) == 1) { $args.0 } else if (($args | length) == 2) and (($args.0 == '-Z') or ($args.0 == '--no-zoxide')) { $args.1 } else { '' }
    let invoke_args = if ($args.0 in ['-z' '--zoxide' '-Z' '--no-zoxide']) { $args } else { ['--'] | append $args }
    if (_cj-is-repeated $nav_arg $navigate_down) {
        let count = ($nav_arg | str length)
        let remaining = (($env.__cj_history | length) - $count)
        if $remaining < 0 { error make { msg: 'cj: directory history exhausted' } }
        let target = ($env.__cj_history | get $remaining)
        cd $target
        if ($env.PWD | path expand) != $before {
            $env.__cj_history = ($env.__cj_history | first $remaining)
        }
        return
    }
    let result = (^cj ...$config ...$invoke_args | complete)
    if $result.exit_code != 0 {
        if not ($result.stderr | is-empty) { print --stderr --no-newline $result.stderr }
        error make { msg: $'cj exited with status ($result.exit_code)' }
    }
    let target = ($result.stdout | str replace --regex '\r?\n$' '')
    if ($target | is-empty) { error make { msg: 'cj returned an empty destination' } }
    cd $target
    let mode = if (_cj-is-repeated $nav_arg $navigate_up) { 'up' } else { 'other' }
    _cj-record-move $before $mode $logical
}

export alias cd = __cj_cd"#;

/// A fixed part of the PowerShell wrapper.
pub const POWERSHELL_0: &'static str = r#"$script:__cj_executable = Get-Command cj -CommandType Application -ErrorAction Stop | Select-Object -First 1
$script:__cj_config = "#;
/// A fixed part of the PowerShell wrapper.
pub const POWERSHELL_1: &'static str = r#"
$script:__cj_destinations = @("#;
/// A fixed part of the PowerShell wrapper.
pub const POWERSHELL_2: &'static str = r#")
$global:__cj_history = @()
$script:__cj_navigate_up = "#;
/// A fixed part of the PowerShell wrapper.
pub const POWERSHELL_3: &'static str = r#"
$script:__cj_navigate_down = "#;
/// A fixed part of the PowerShell wrapper.
pub const POWERSHELL_4: &'static str = r#"
$script:__cj_path_comparison = if ($env:OS -eq 'Windows_NT') { [System.StringComparison]::OrdinalIgnoreCase } else { [System.StringComparison]::Ordinal }

function script:Test-CjRepeated {
    param([string]$Value, [string]$Ticker)
    if ([string]::IsNullOrEmpty($Value) -or [string]::IsNullOrEmpty($Ticker)) { return $false }
    return $Value.Replace($Ticker, '').Length -eq 0
}

function script:Add-CjHistory {
    param([string]$Before, [string]$Mode = 'other')
    $after = (Microsoft.PowerShell.Management\Get-Location).ProviderPath
    if ($after.Equals($Before, $script:__cj_path_comparison)) { return }
    if (Get-Command Reset-CjKeyHistory -CommandType Function -ErrorAction SilentlyContinue) { Reset-CjKeyHistory }
    $entries = @($Before)
    if ($Mode -eq 'up') {
        $parent = [System.IO.Path]::GetDirectoryName($Before)
        while (-not [string]::IsNullOrEmpty($parent) -and -not $parent.Equals($after, $script:__cj_path_comparison)) {
            $entries += $parent
            $parent = [System.IO.Path]::GetDirectoryName($parent)
        }
    }
    $global:__cj_history = @(($global:__cj_history + $entries) | Select-Object -Last 100)
}

function script:ConvertTo-CjCompletionText {
    param([string]$Value)
    return "'" + $Value.Replace("'", "''") + "'"
}

function script:Complete-CjCdArgument {
    param([string]$WordToComplete)

    if (($WordToComplete -ceq '-jw') -or ($WordToComplete -ceq '--jump-worktree')) {
        $configArgs = $script:__cj_config
        $executable = $script:__cj_executable.Path
        $json = @(& $executable @configArgs --worktree --format json 2>$null)
        if ($LASTEXITCODE -ne 0) { return }
        try {
            $worktrees = ($json -join [Environment]::NewLine) | ConvertFrom-Json -ErrorAction Stop
        } catch {
            return
        }
        foreach ($worktree in @($worktrees)) {
            $path = [string]$worktree.path
            if (-not [string]::IsNullOrEmpty($path)) {
                $completion = ConvertTo-CjCompletionText $path
                [System.Management.Automation.CompletionResult]::new($completion, $path, 'ProviderContainer', $path)
            }
        }
        return
    }

    foreach ($destination in $script:__cj_destinations) {
        if ($destination.StartsWith($WordToComplete, [System.StringComparison]::OrdinalIgnoreCase)) {
            $completion = ConvertTo-CjCompletionText $destination
            [System.Management.Automation.CompletionResult]::new($completion, $destination, 'ParameterValue', 'cj destination')
        }
    }
    [System.Management.Automation.CompletionCompleters]::CompleteFilename($WordToComplete) |
        Where-Object ResultType -eq ([System.Management.Automation.CompletionResultType]::ProviderContainer)
}

Remove-Item Alias:cd -Force -ErrorAction SilentlyContinue
function global:cd {
    $cjArgs = @($args)
    $before = (Microsoft.PowerShell.Management\Get-Location).ProviderPath
    if ($cjArgs.Count -eq 0) {
        Microsoft.PowerShell.Management\Set-Location -LiteralPath $HOME -ErrorAction Stop
        Add-CjHistory $before
        return
    }
    $first = [string]$cjArgs[0]

    if (($first -ceq '-jw') -or ($first -ceq '--jump-worktree')) {
        if ($cjArgs.Count -ne 2 -or [string]::IsNullOrEmpty([string]$cjArgs[1])) { throw 'cj: type cd -jw and press Tab to select a worktree' }
        Microsoft.PowerShell.Management\Set-Location -LiteralPath $cjArgs[1] -ErrorAction Stop
        Add-CjHistory $before
        return
    }

    if (($first -ceq '-r') -or ($first -ceq '--raw')) {
        if ($cjArgs.Count -ne 2) { throw 'cj: --raw requires exactly one target' }
        Microsoft.PowerShell.Management\Set-Location -LiteralPath $cjArgs[1] -ErrorAction Stop
        Add-CjHistory $before
        return
    }

    if (($cjArgs.Count -eq 1) -and (Test-Path -LiteralPath $cjArgs[0] -PathType Container)) {
        Microsoft.PowerShell.Management\Set-Location -LiteralPath $cjArgs[0] -ErrorAction Stop
        Add-CjHistory $before
        return
    }
    if (($cjArgs.Count -eq 1) -and ($first -ceq '-')) {
        Microsoft.PowerShell.Management\Set-Location -Path '-' -ErrorAction Stop
        Add-CjHistory $before
        return
    }
    if (($first -ceq '-Path') -and ($cjArgs.Count -eq 2)) {
        Microsoft.PowerShell.Management\Set-Location -Path $cjArgs[1] -ErrorAction Stop
        Add-CjHistory $before
        return
    }
    if (($first -ceq '-LiteralPath') -and ($cjArgs.Count -eq 2)) {
        Microsoft.PowerShell.Management\Set-Location -LiteralPath $cjArgs[1] -ErrorAction Stop
        Add-CjHistory $before
        return
    }
    if ($first.StartsWith('-') -and -not (($first -ceq '-z') -or ($first -ceq '--zoxide') -or ($first -ceq '-Z') -or ($first -ceq '--no-zoxide'))) { throw "cj: unsupported PowerShell cd option: $first" }

    $navArg = if ($cjArgs.Count -eq 1) { $first } elseif (($cjArgs.Count -eq 2) -and (($first -ceq '-Z') -or ($first -ceq '--no-zoxide'))) { [string]$cjArgs[1] } else { '' }
    [string[]]$invokeArgs = if (($first -ceq '-z') -or ($first -ceq '--zoxide') -or ($first -ceq '-Z') -or ($first -ceq '--no-zoxide')) { $cjArgs } else { @('--') + $cjArgs }
    if (Test-CjRepeated $navArg $script:__cj_navigate_down) {
        $remaining = $global:__cj_history.Count - $navArg.Length
        if ($remaining -lt 0) { throw 'cj: directory history exhausted' }
        $target = $global:__cj_history[$remaining]
        Microsoft.PowerShell.Management\Set-Location -LiteralPath $target -ErrorAction Stop
        $after = (Microsoft.PowerShell.Management\Get-Location).ProviderPath
        if (-not $after.Equals($before, $script:__cj_path_comparison)) {
            $global:__cj_history = @($global:__cj_history | Select-Object -First $remaining)
            if (Get-Command Reset-CjKeyHistory -CommandType Function -ErrorAction SilentlyContinue) { Reset-CjKeyHistory }
        }
        return
    }
    $configArgs = $script:__cj_config
    $executable = $script:__cj_executable.Path
    $target = @(& $executable @configArgs @invokeArgs)
    $status = $LASTEXITCODE
    if ($status -ne 0) { throw "cj exited with status $status" }
    if ($target.Count -ne 1 -or [string]::IsNullOrEmpty($target[0])) { throw 'cj returned an invalid destination' }
    Microsoft.PowerShell.Management\Set-Location -LiteralPath $target[0] -ErrorAction Stop
    $mode = if (Test-CjRepeated $navArg $script:__cj_navigate_up) { 'up' } else { 'other' }
    Add-CjHistory $before $mode
}

if (Test-Path Function:TabExpansion2) {
    if (-not (Test-Path Variable:script:__cj_tab_expansion2)) {
        $script:__cj_tab_expansion2 = $function:TabExpansion2
    }
    function global:TabExpansion2 {
        [CmdletBinding(DefaultParameterSetName = 'ScriptInputSet')]
        param(
            [Parameter(ParameterSetName = 'ScriptInputSet', Mandatory = $true, Position = 0)]
            [string]$inputScript,
            [Parameter(ParameterSetName = 'ScriptInputSet', Position = 1)]
            [int]$cursorColumn = $inputScript.Length,
            [Parameter(ParameterSetName = 'AstInputSet', Mandatory = $true, Position = 0)]
            [System.Management.Automation.Language.Ast]$ast,
            [Parameter(ParameterSetName = 'AstInputSet', Mandatory = $true, Position = 1)]
            [System.Management.Automation.Language.Token[]]$tokens,
            [Parameter(ParameterSetName = 'AstInputSet', Mandatory = $true, Position = 2)]
            [System.Management.Automation.Language.IScriptPosition]$positionOfCursor,
            [Parameter(ParameterSetName = 'ScriptInputSet', Position = 2)]
            [Parameter(ParameterSetName = 'AstInputSet', Position = 3)]
            [hashtable]$options = $null
        )

        if ($PSCmdlet.ParameterSetName -ceq 'ScriptInputSet') {
            $beforeCursor = $inputScript.Substring(0, $cursorColumn)
            $jump = [regex]::Match($beforeCursor, '^\s*cd\s+(?<flag>-jw|--jump-worktree)[ \t]*$')
            if ($jump.Success) {
                $matches = @(Complete-CjCdArgument $jump.Groups['flag'].Value)
                $results = [System.Collections.ObjectModel.Collection[System.Management.Automation.CompletionResult]]::new()
                foreach ($match in $matches) { [void]$results.Add($match) }
                return [System.Management.Automation.CommandCompletion]::new(
                    $results,
                    -1,
                    $jump.Groups['flag'].Index,
                    ($cursorColumn - $jump.Groups['flag'].Index)
                )
            }
        }
        return & $script:__cj_tab_expansion2 @PSBoundParameters
    }
}"#;

/// A path made absolute against the current directory, which is handed
/// over as read or as the reason it could not be read.
pub open spec fn absolute_model(path: Seq<char>, cwd: Result<Seq<char>, Seq<char>>, windows: bool) -> Result<
    Seq<char>,
    Seq<char>,
> {
    if is_absolute_path(path, windows) {
        Ok(path)
    } else {
        match cwd {
            Ok(c) => Ok(push_path(c, path, windows)),
            Err(e) => Err("cannot resolve config path: "@ + e),
        }
    }
}

/// The view of a textual result.
pub open spec fn result_text(r: Result<String, String>) -> Result<Seq<char>, Seq<char>> {
    match r {
        Ok(s) => Ok(s@),
        Err(e) => Err(e@),
    }
}

/// The configuration path made absolute.
pub fn absolute(path: &str, cwd: &Result<String, String>, windows: bool) -> (r: Result<String, String>)
    ensures
        result_text(r) == absolute_model(path@, result_text(*cwd), windows),
{
    if is_absolute(path, windows) {
        return Ok(owned(path));
    }
    match cwd {
        Ok(c) => Ok(join_paths(c.as_str(), path, windows)),
        Err(e) => {
            let mut m = owned("cannot resolve config path: ");
            push_str(&mut m, e.as_str());
            Err(m)
        },
    }
}

/// The POSIX wrapper's `-C` argument, if any.
pub open spec fn posix_config_text(path: Option<Seq<char>>) -> Seq<char> {
    match path {
        Some(p) => " -C "@ + posix_quoted(p),
        None => Seq::empty(),
    }
}

/// The Nushell wrapper's configuration argument list.
pub open spec fn nu_config_text(path: Option<Seq<char>>) -> Seq<char> {
    match path {
        Some(p) => "[-C "@ + nu_quoted(p) + "]"@,
        None => "[]"@,
    }
}

/// The PowerShell wrapper's configuration argument array.
pub open spec fn ps_config_text(path: Option<Seq<char>>) -> Seq<char> {
    match path {
        Some(p) => "@('-C', "@ + ps_quoted(p) + ")"@,
        None => "@()"@,
    }
}

/// One Nushell completion record of the wrapper.
pub open spec fn nu_destination(v: Seq<char>) -> Seq<char> {
    "{ value: "@ + nu_quoted(v) + ", description: 'cj destination' }"@
}

/// The wrapper's Nushell completion records.
pub open spec fn nu_destinations_text(values: Seq<Seq<char>>) -> Seq<char> {
    joined(values.map_values(|v: Seq<char>| nu_destination(v)), ", "@)
}

/// The POSIX `cd` wrapper.
pub open spec fn posix_wrapper(path: Option<Seq<char>>, c: &Config) -> Seq<char> {
    POSIX_0@ + posix_quoted(c.tickers.navigate_up@) + POSIX_1@ + posix_quoted(c.tickers.navigate_down@) + POSIX_2@ + "builtin"@ + POSIX_3@ + "builtin"@ + POSIX_4@ + posix_config_text(path) + POSIX_5@ + "builtin"@ + POSIX_6@ + posix_words(sorted_destinations(c)) + POSIX_7@ + posix_config_text(path) + POSIX_8@ + posix_config_text(path) + POSIX_9@
}

/// The Nushell `cd` wrapper.
pub open spec fn nu_wrapper(path: Option<Seq<char>>, c: &Config) -> Seq<char> {
    NU_0@ + nu_config_text(path) + NU_1@ + nu_destinations_text(sorted_destinations(c)) + NU_2@ + nu_config_text(path) + NU_3@ + nu_quoted(c.tickers.navigate_up@) + NU_4@ + nu_quoted(c.tickers.navigate_down@) + NU_5@
}

/// The PowerShell `cd` wrapper.
pub open spec fn ps_wrapper(path: Option<Seq<char>>, c: &Config) -> Seq<char> {
    POWERSHELL_0@ + ps_config_text(path) + POWERSHELL_1@ + ps_words(sorted_destinations(c)) + POWERSHELL_2@ + ps_quoted(c.tickers.navigate_up@) + POWERSHELL_3@ + ps_quoted(c.tickers.navigate_down@) + POWERSHELL_4@
}

/// The integration of a shell for an absolute configuration path: the
/// wrapper, a line break, and the key-binding part.
pub open spec fn integration_text(
    shell: Shell,
    path: Option<Seq<char>>,
    binding: Option<KeyBinding>,
    c: &Config,
    os: Seq<char>,
) -> Seq<char> {
    (match shell {
        Shell::Bash | Shell::Zsh => posix_wrapper(path, c),
        Shell::Nu => nu_wrapper(path, c),
        Shell::Pwsh => ps_wrapper(path, c),
    }) + "\n"@ + key_bindings_text(shell, binding, c, os)
}

/// What `cj init` prints, or why it cannot.
pub open spec fn shell_model(
    shell: Shell,
    config_path: Option<Seq<char>>,
    cwd: Result<Seq<char>, Seq<char>>,
    binding: Option<KeyBinding>,
    c: &Config,
    os: Seq<char>,
    windows: bool,
) -> Result<Seq<char>, Seq<char>> {
    match config_path {
        None => Ok(integration_text(shell, None, binding, c, os)),
        Some(p) => match absolute_model(p, cwd, windows) {
            Ok(a) => Ok(integration_text(shell, Some(a), binding, c, os)),
            Err(e) => Err(e),
        },
    }
}

fn posix_config(path: &Option<String>) -> (s: String)
    ensures
        s@ == posix_config_text(match path {
            Some(p) => Some(p@),
            None => None,
        }),
{
    match path {
        Some(p) => {
            let mut s = owned(" -C ");
            push_str(&mut s, quote_posix(p.as_str()).as_str());
            s
        },
        None => {
            let s = String::new();
            assert(s@ =~= Seq::<char>::empty());
            s
        },
    }
}

fn nu_config(path: &Option<String>) -> (s: String)
    ensures
        s@ == nu_config_text(match path {
            Some(p) => Some(p@),
            None => None,
        }),
{
    match path {
        Some(p) => {
            let mut s = owned("[-C ");
            push_str(&mut s, quote_nu(p.as_str()).as_str());
            push_str(&mut s, "]");
            s
        },
        None => owned("[]"),
    }
}

fn ps_config(path: &Option<String>) -> (s: String)
    ensures
        s@ == ps_config_text(match path {
            Some(p) => Some(p@),
            None => None,
        }),
{
    match path {
        Some(p) => {
            let mut s = owned("@('-C', ");
            push_str(&mut s, quote_ps(p.as_str()).as_str());
            push_str(&mut s, ")");
            s
        },
        None => owned("@()"),
    }
}

/// The wrapper's Nushell completion records.
fn nu_destinations(values: &Vec<String>) -> (out: String)
    ensures
        out@ == nu_destinations_text(views(values@)),
{
    let mut records: Vec<String> = Vec::new();
    let mut i: usize = 0;
    while i < values.len()
        invariant
            i <= values@.len(),
            views(records@) == views(values@).take(i as int).map_values(|v: Seq<char>| nu_destination(v)),
        decreases values@.len() - i,
    {
        let ghost before = records@;
        let mut r = owned("{ value: ");
        push_str(&mut r, quote_nu(values[i].as_str()).as_str());
        push_str(&mut r, ", description: 'cj destination' }");
        records.push(r);
        assert(views(records@) =~= views(before).push(nu_destination(values@[i as int]@)));
        assert(views(values@).take(i + 1).map_values(|v: Seq<char>| nu_destination(v)) =~= views(
            values@,
        ).take(i as int).map_values(|v: Seq<char>| nu_destination(v)).push(nu_destination(values@[i as int]@)));
        i = i + 1;
    }
    assert(views(values@).take(i as int) =~= views(values@));
    join(&records, ", ")
}

fn render_posix(path: &Option<String>, c: &Config) -> (out: String)
    ensures
        out@ == posix_wrapper(match path {
            Some(p) => Some(p@),
            None => None,
        }, c),
{
    let config = posix_config(path);
    let up = quote_posix(c.tickers.navigate_up.as_str());
    let down = quote_posix(c.tickers.navigate_down.as_str());
    let destinations = shell_array(&destinations(c));
    let mut out = String::new();
    push_str(&mut out, POSIX_0);
    push_str(&mut out, up.as_str());
    push_str(&mut out, POSIX_1);
    push_str(&mut out, down.as_str());
    push_str(&mut out, POSIX_2);
    push_str(&mut out, "builtin");
    push_str(&mut out, POSIX_3);
    push_str(&mut out, "builtin");
    push_str(&mut out, POSIX_4);
    push_str(&mut out, config.as_str());
    push_str(&mut out, POSIX_5);
    push_str(&mut out, "builtin");
    push_str(&mut out, POSIX_6);
    push_str(&mut out, destinations.as_str());
    push_str(&mut out, POSIX_7);
    push_str(&mut out, config.as_str());
    push_str(&mut out, POSIX_8);
    push_str(&mut out, config.as_str());
    push_str(&mut out, POSIX_9);
    assert(out@ =~= posix_wrapper(match path {
        Some(p) => Some(p@),
        None => None,
    }, c));
    out
}

fn render_nu(path: &Option<String>, c: &Config) -> (out: String)
    ensures
        out@ == nu_wrapper(match path {
            Some(p) => Some(p@),
            None => None,
        }, c),
{
    let config = nu_config(path);
    let up = quote_nu(c.tickers.navigate_up.as_str());
    let down = quote_nu(c.tickers.navigate_down.as_str());
    let destinations = nu_destinations(&destinations(c));
    let mut out = String::new();
    push_str(&mut out, NU_0);
    push_str(&mut out, config.as_str());
    push_str(&mut out, NU_1);
    push_str(&mut out, destinations.as_str());
    push_str(&mut out, NU_2);
    push_str(&mut out, config.as_str());
    push_str(&mut out, NU_3);
    push_str(&mut out, up.as_str());
    push_str(&mut out, NU_4);
    push_str(&mut out, down.as_str());
    push_str(&mut out, NU_5);
    assert(out@ =~= nu_wrapper(match path {
        Some(p) => Some(p@),
        None => None,
    }, c));
    out
}

fn render_powershell(path: &Option<String>, c: &Config) -> (out: String)
    ensures
        out@ == ps_wrapper(match path {
            Some(p) => Some(p@),
            None => None,
        }, c),
{
    let config = ps_config(path);
    let up = quote_ps(c.tickers.navigate_up.as_str());
    let down = quote_ps(c.tickers.navigate_down.as_str());
    let destinations = ps_array(&destinations(c));
    let mut out = String::new();
    push_str(&mut out, POWERSHELL_0);
    push_str(&mut out, config.as_str());
    push_str(&mut out, POWERSHELL_1);
    push_str(&mut out, destinations.as_str());
    push_str(&mut out, POWERSHELL_2);
    push_str(&mut out, up.as_str());
    push_str(&mut out, POWERSHELL_3);
    push_str(&mut out, down.as_str());
    push_str(&mut out, POWERSHELL_4);
    assert(out@ =~= ps_wrapper(match path {
        Some(p) => Some(p@),
        None => None,
    }, c));
    out
}

/// The shell integration: the configuration path (made absolute against
/// `cwd`), the chord to bind (none for `--no-setup-key-binding`), the
/// configuration, and the OS whose key-binding entry applies.
pub fn render(
    shell: Shell,
    config_path: Option<&str>,
    cwd: &Result<String, String>,
    binding: Option<KeyBinding>,
    config: &Config,
    os: &str,
    windows: bool,
) -> (r: Result<String, String>)
    ensures
        result_text(r) == shell_model(
            shell,
            match config_path {
                Some(p) => Some(p@),
                None => None,
            },
            result_text(*cwd),
            binding,
            config,
            os@,
            windows,
        ),
{
    let path: Option<String> = match config_path {
        Some(p) => match absolute(p, cwd, windows) {
            Ok(a) => Some(a),
            Err(e) => {
                return Err(e);
            },
        },
        None => None,
    };
    let mut out = match shell {
        Shell::Bash | Shell::Zsh => render_posix(&path, config),
        Shell::Nu => render_nu(&path, config),
        Shell::Pwsh => render_powershell(&path, config),
    };
    push_str(&mut out, "\n");
    push_str(&mut out, render_key_bindings(shell, binding, config, os).as_str());
    Ok(out)
}

} // verus!
