//! The directory-history completion helpers that the key widgets call.
use vstd::prelude::*;

use crate::cli::Shell;

verus! {

/// The POSIX helpers: cycling through directory history from newest to
/// oldest, restoring the original line after the oldest entry.
pub const POSIX: &'static str = r#"function _cj_key_history_reset() {
    unset _cj_key_history_original _cj_key_history_original_cursor
    unset _cj_key_history_last _cj_key_history_last_cursor _cj_key_history_next
    unset _cj_key_history_items
}
_cj_key_history_reset

function _cj_key_history() {
    local buffer="$1" cursor="$2" target quoted index remainder
    # Bash 5+ and ZLE use character offsets; older Readline uses bytes.
    if [[ -n "${BASH_VERSION-}" ]] && (( BASH_VERSINFO[0] < 5 )); then local LC_ALL=C; fi
    _cj_key_buffer="$buffer"
    _cj_key_cursor="$cursor"
    if [[ -z "${_cj_key_history_next-}" || "$buffer" != "${_cj_key_history_last-}" || "$cursor" != "${_cj_key_history_last_cursor-}" ]]; then
        _cj_key_history_reset
        (( ${#_cj_history[@]} > 0 )) || return 1
        _cj_key_history_original="$buffer"
        _cj_key_history_original_cursor="$cursor"
        _cj_key_history_items=("${_cj_history[@]}")
        _cj_key_history_next=${#_cj_key_history_items[@]}
    fi
    if (( _cj_key_history_next == 0 )); then
        _cj_key_buffer="$_cj_key_history_original"
        _cj_key_cursor="$_cj_key_history_original_cursor"
        _cj_key_history_reset
        return 0
    fi
    index=$((_cj_key_history_next - 1))
    [[ -n "${ZSH_VERSION-}" ]] && index=$((index + 1))
    target="${_cj_key_history_items[$index]}"
    _cj_key_history_next=$((_cj_key_history_next - 1))
    # Single quotes preserve spaces, newlines, and metacharacters literally.
    quoted="'"
    remainder="$target"
    while [[ "$remainder" == *"'"* ]]; do
        quoted="$quoted${remainder%%\'*}'\\''"
        remainder="${remainder#*\'}"
    done
    quoted="$quoted$remainder'"
    _cj_key_buffer="$_cj_key_history_original"
    if [[ -n "$_cj_key_buffer" && "$_cj_key_buffer" != *[[:space:]] ]]; then
        _cj_key_buffer="$_cj_key_buffer "
    fi
    _cj_key_buffer="$_cj_key_buffer$quoted"
    _cj_key_cursor=${#_cj_key_buffer}
    _cj_key_history_last="$_cj_key_buffer"
    _cj_key_history_last_cursor="$_cj_key_cursor"
    return 0
}"#;

/// The PowerShell helpers for the same cycle.
pub const POWERSHELL: &'static str = r#"function global:Reset-CjKeyHistory {
    $global:__cj_key_history_cycle = $null
}
Reset-CjKeyHistory

function global:Invoke-CjKeyHistory {
    param([string] $Buffer, [int] $Cursor)
    $cycle = $global:__cj_key_history_cycle
    if ($null -eq $cycle -or $Buffer -cne $cycle.LastBuffer -or $Cursor -ne $cycle.LastCursor) {
        Reset-CjKeyHistory
        $history = Get-Variable -Name __cj_history -Scope Global -ErrorAction SilentlyContinue
        $items = @()
        if ($null -ne $history) { $items = @($history.Value) }
        if ($items.Count -eq 0) { return $null }
        $cycle = @{
            OriginalBuffer = $Buffer; OriginalCursor = $Cursor
            LastBuffer = $Buffer; LastCursor = $Cursor
            Items = $items; Next = $items.Count - 1
        }
        $global:__cj_key_history_cycle = $cycle
    }
    if ($cycle.Next -lt 0) {
        $result = @{ Buffer = $cycle.OriginalBuffer; Cursor = $cycle.OriginalCursor }
        Reset-CjKeyHistory
        return $result
    }
    $target = [string] $cycle.Items[$cycle.Next]
    $cycle.Next -= 1
    $completed = $cycle.OriginalBuffer
    if ($completed.Length -gt 0 -and -not [char]::IsWhiteSpace($completed[$completed.Length - 1])) {
        $completed += ' '
    }
    $completed += "'" + [System.Management.Automation.Language.CodeGeneration]::EscapeSingleQuotedStringContent($target) + "'"
    $cycle.LastBuffer = $completed
    $cycle.LastCursor = $completed.Length
    return @{ Buffer = $completed; Cursor = $completed.Length }
}"#;

/// The helpers for a shell; Nushell's widget carries its own.
pub open spec fn history_text(shell: Shell) -> Seq<char> {
    match shell {
        Shell::Bash | Shell::Zsh => POSIX@,
        Shell::Pwsh => POWERSHELL@,
        Shell::Nu => Seq::empty(),
    }
}

/// The history helpers for a shell.
pub fn render(shell: Shell) -> (source: &'static str)
    ensures
        source@ == history_text(shell),
{
    match shell {
        Shell::Bash => POSIX,
        Shell::Zsh => POSIX,
        Shell::Pwsh => POWERSHELL,
        Shell::Nu => {
            proof {
                reveal_strlit("");
            }
            ""
        },
    }
}

} // verus!
