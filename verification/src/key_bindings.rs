//! Foreground line-editor widgets for ordered directory completion.
use vstd::prelude::*;

use crate::cli::Shell;
use crate::config::{behaviors_for, Config, KeyBinding, KeyBindingBehavior};
use crate::key_history::{history_text, render as history_helpers};
use crate::quote::{join, joined, posix_quoted, ps_quoted, quote_posix, quote_ps};
use crate::text::{views, owned, push_str};

verus! {

/// Removes a Bash binding that an earlier load installed.
pub const CLEANUP_BASH: &'static str = r#"if [[ -n "${_cj_bound_key-}" ]]; then
    while IFS= read -r _cj_existing_binding; do
        if [[ "$_cj_existing_binding" == "\"$_cj_bound_key\" \"${_cj_bound_widget-}\"" || "$_cj_existing_binding" == "\"$_cj_bound_key\": \"${_cj_bound_widget-}\"" ]]; then
            \builtin bind -r "$_cj_bound_key" 2>/dev/null || :
        fi
    done < <(\builtin bind -X 2>/dev/null)
fi
unset _cj_bound_key _cj_bound_widget _cj_existing_binding"#;

/// Removes a Zsh binding that an earlier load installed.
pub const CLEANUP_ZSH: &'static str = r#"if [[ -n "${_cj_bound_key-}" && "$(\builtin bindkey "$_cj_bound_key" 2>/dev/null)" == "\"$_cj_bound_key\" ${_cj_bound_widget-}" ]]; then
    \builtin bindkey -r "$_cj_bound_key"
fi
unset _cj_bound_key _cj_bound_widget"#;

/// Removes a PowerShell handler that an earlier load installed.
pub const CLEANUP_POWERSHELL: &'static str = r#"$__cj_previous_chord = Get-Variable -Name __cj_bound_chord -Scope Global -ValueOnly -ErrorAction SilentlyContinue
if ($__cj_previous_chord -and (Get-Command Get-PSReadLineKeyHandler -ErrorAction SilentlyContinue)) {
    $__cj_previous_handler = Get-PSReadLineKeyHandler -Chord $__cj_previous_chord
    if ($__cj_previous_handler.Function -eq 'cj directory' -and $__cj_previous_handler.Description -eq 'cj managed directory completion') {
        Remove-PSReadLineKeyHandler -Chord $__cj_previous_chord
    }
}
Remove-Variable -Name __cj_bound_chord -Scope Global -ErrorAction SilentlyContinue
Remove-Variable -Name __cj_previous_chord, __cj_previous_handler -ErrorAction SilentlyContinue"#;

/// Bash reads its line and cursor; old Bash counts bytes.
pub const READ_BASH: &'static str = "local _cj_buffer=\"${READLINE_LINE-}\" _cj_cursor=\"${READLINE_POINT-0}\"\n    if (( BASH_VERSINFO[0] < 5 )); then local LC_ALL=C; fi";

/// Zsh reads its line and cursor.
pub const READ_ZSH: &'static str = "emulate -L zsh\n    local _cj_buffer=\"$BUFFER\" _cj_cursor=\"$CURSOR\"";

/// Bash writes the edited line back.
pub const APPLY_BASH: &'static str = "READLINE_LINE=\"$_cj_key_buffer\" READLINE_POINT=\"$_cj_key_cursor\"";

/// Zsh writes the edited line back.
pub const APPLY_ZSH: &'static str = "BUFFER=\"$_cj_key_buffer\" CURSOR=\"$_cj_key_cursor\"";

/// Ends a history cycle.
pub const RESET_HISTORY: &'static str = "_cj_key_history_reset";

/// Does nothing where no history cycle exists.
pub const RESET_NOTHING: &'static str = ":";

/// A fixed part of the POSIX widget's history resumption.
pub const RESUME_0: &'static str = r#"if [[ -n "${_cj_key_history_next-}" && "$_cj_buffer" == "${_cj_key_history_last-}" && "$_cj_cursor" == "${_cj_key_history_last_cursor-}" ]]; then
        _cj_key_history "$_cj_buffer" "$_cj_cursor"
        "#;
/// A fixed part of the POSIX widget's history resumption.
pub const RESUME_1: &'static str = r#"
        return 0
    fi
    _cj_key_history_reset"#;

/// A fixed part of the POSIX key widget.
pub const BODY_0: &'static str = r#"_cj_key_widget() {
    "#;
/// A fixed part of the POSIX key widget.
pub const BODY_1: &'static str = r#"
    "#;
/// A fixed part of the POSIX key widget.
pub const BODY_2: &'static str = r#"
    local _cj_behavior _cj_reply _cj_status _cj_target _cj_quoted _cj_quote _cj_separator _cj_missing='' _cj_empty='no matching directories'
    for _cj_behavior in "#;
/// A fixed part of the POSIX key widget.
pub const BODY_3: &'static str = r#"; do
        case "$_cj_behavior" in
            cj)
                if _cj_key_history "$_cj_buffer" "$_cj_cursor"; then
                    "#;
/// A fixed part of the POSIX key widget.
pub const BODY_4: &'static str = r#"
                    return 0
                fi
                _cj_empty='no directory history'
                ;;
            zoxide)
                if [[ -n "${ZSH_VERSION-}" ]]; then \builtin zle -I 2>/dev/null || :; fi
                if _cj_reply="$(\command cj --internal-key-binding-zoxide "#;
/// A fixed part of the POSIX key widget.
pub const BODY_5: &'static str = r#" "#;
/// A fixed part of the POSIX key widget.
pub const BODY_6: &'static str = r#"; _cj_status=$?; printf '.'; exit "$_cj_status")"; then
                    _cj_status=0
                else
                    _cj_status=$?
                fi
                _cj_reply="${_cj_reply%.}"
                if (( _cj_status != 0 )); then
                    "#;
/// A fixed part of the POSIX key widget.
pub const BODY_7: &'static str = r#"
                    return 0
                fi
                case "$_cj_reply" in
                    selected$'\n'*)
                        _cj_target="${_cj_reply#*$'\n'}"
                        "#;
/// A fixed part of the POSIX key widget.
pub const BODY_8: &'static str = r#"
                        [[ "$_cj_target" != -* ]] || _cj_target="./$_cj_target"
                        _cj_quote="'\\''"
                        _cj_quoted="'${_cj_target//\'/$_cj_quote}'"
                        _cj_separator=''
                        [[ -z "$_cj_buffer" || "$_cj_buffer" == *[[:space:]] ]] || _cj_separator=' '
                        _cj_key_buffer="$_cj_buffer$_cj_separator$_cj_quoted"
                        _cj_key_cursor=${#_cj_key_buffer}
                        "#;
/// A fixed part of the POSIX key widget.
pub const BODY_9: &'static str = r#"
                        return 0
                        ;;
                    unavailable$'\n'*) _cj_missing="${_cj_reply#*$'\n'}" ;;
                    empty$'\n') ;;
                    cancelled$'\n')
                        "#;
/// A fixed part of the POSIX key widget.
pub const BODY_10: &'static str = r#"
                        return 0
                        ;;
                    *)
                        printf '%s\n' 'cj: invalid interactive zoxide response' >&2
                        "#;
/// A fixed part of the POSIX key widget.
pub const BODY_11: &'static str = r#"
                        return 0
                        ;;
                esac
                ;;
        esac
    done
    printf 'cj: %s\n' "${_cj_missing:-$_cj_empty}" >&2
    return 0
}"#;

/// Binds Ctrl+O in Bash.
pub const BIND_BASH_CTRL: &'static str = r#"\builtin bind -x '"\C-o":_cj_key_widget'"#;

/// Binds Alt+O in Bash.
pub const BIND_BASH_ALT: &'static str = r#"\builtin bind -x '"\eo":_cj_key_widget'"#;

/// Binds Ctrl+O in Zsh.
pub const BIND_ZSH_CTRL: &'static str = "\\builtin zle -N _cj_key_widget\n\\builtin bindkey '^O' _cj_key_widget";

/// Binds Alt+O in Zsh.
pub const BIND_ZSH_ALT: &'static str = "\\builtin zle -N _cj_key_widget\n\\builtin bindkey '^[o' _cj_key_widget";

/// Bash's name of Ctrl+O.
pub const KEY_BASH_CTRL: &'static str = r"\C-o";

/// Bash's name of Alt+O.
pub const KEY_BASH_ALT: &'static str = r"\eo";

/// Zsh's name of Ctrl+O.
pub const KEY_ZSH_CTRL: &'static str = "^O";

/// Zsh's name of Alt+O.
pub const KEY_ZSH_ALT: &'static str = "^[o";

/// Records which key and widget this load bound.
pub const BOUND_KEY_OPEN: &'static str = "\n_cj_bound_key='";

/// Closes the record of the bound key.
pub const BOUND_KEY_CLOSE: &'static str = "'\n_cj_bound_widget=_cj_key_widget";

/// Bash before 4 has no `bind -x`.
pub const BASH4_OPEN: &'static str = "\nif (( BASH_VERSINFO[0] >= 4 )); then\n    ";

/// Closes the Bash version guard.
pub const BASH4_CLOSE: &'static str = "\nfi";

/// PowerShell resumes a history cycle that the previous press started.
pub const PS_RESUME: &'static str = r#"$cycle = $global:__cj_key_history_cycle
    if ($null -ne $cycle -and $buffer -ceq $cycle.LastBuffer -and $cursor -eq $cycle.LastCursor) {
        $result = Invoke-CjKeyHistory -Buffer $buffer -Cursor $cursor
        [Microsoft.PowerShell.PSConsoleReadLine]::Replace(0, $buffer.Length, $result.Buffer)
        [Microsoft.PowerShell.PSConsoleReadLine]::SetCursorPosition($result.Cursor)
        return
    }
    Reset-CjKeyHistory"#;

/// Ends a PowerShell history cycle.
pub const PS_RESET: &'static str = "Reset-CjKeyHistory";

/// PSReadLine's name of Ctrl+O.
pub const CHORD_CTRL: &'static str = "Ctrl+o";

/// PSReadLine's name of Alt+O.
pub const CHORD_ALT: &'static str = "Alt+o";

/// A fixed part of the PowerShell key widget.
pub const PS_WIDGET_0: &'static str = r#"function global:Invoke-CjKeyWidget {
    $buffer = ''; $cursor = 0
    [Microsoft.PowerShell.PSConsoleReadLine]::GetBufferState([ref]$buffer, [ref]$cursor)
    "#;
/// A fixed part of the PowerShell key widget.
pub const PS_WIDGET_1: &'static str = r#"
    $missing = $null
    $empty = 'no matching directories'
    foreach ($behavior in @("#;
/// A fixed part of the PowerShell key widget.
pub const PS_WIDGET_2: &'static str = r#")) {
        if ($behavior -eq 'cj') {
            $result = Invoke-CjKeyHistory -Buffer $buffer -Cursor $cursor
            if ($null -ne $result) {
                [Microsoft.PowerShell.PSConsoleReadLine]::Replace(0, $buffer.Length, $result.Buffer)
                [Microsoft.PowerShell.PSConsoleReadLine]::SetCursorPosition($result.Cursor)
                return
            }
            $empty = 'no directory history'
            continue
        }
        # PowerShell's native pipeline captures stderr even inside PSReadLine.
        # Redirect only the private stdout protocol; leave the picker on the tty.
        $process = [System.Diagnostics.Process]::new()
        try {
            $process.StartInfo.FileName = $script:__cj_executable.Path
            $process.StartInfo.UseShellExecute = $false
            $process.StartInfo.RedirectStandardOutput = $true
            $process.StartInfo.StandardOutputEncoding = [System.Text.UTF8Encoding]::new($false)
            $process.StartInfo.WorkingDirectory = (Get-Location).ProviderPath
            foreach ($argument in @('--internal-key-binding-zoxide', "#;
/// A fixed part of the PowerShell key widget.
pub const PS_WIDGET_3: &'static str = r#", "#;
/// A fixed part of the PowerShell key widget.
pub const PS_WIDGET_4: &'static str = r#")) {
                $process.StartInfo.ArgumentList.Add($argument)
            }
            [void]$process.Start()
            $raw = $process.StandardOutput.ReadToEnd()
            $process.WaitForExit()
            $status = $process.ExitCode
        } catch {
            [Console]::Error.WriteLine("cj: cannot launch interactive zoxide query: $_")
            "#;
/// A fixed part of the PowerShell key widget.
pub const PS_WIDGET_5: &'static str = r#"; return
        } finally {
            $process.Dispose()
        }
        if ($status -ne 0) { [Console]::Error.WriteLine("cj: interactive zoxide query failed (exit $status)"); "#;
/// A fixed part of the PowerShell key widget.
pub const PS_WIDGET_6: &'static str = r#"; return }
        $reply = $raw -split "`n", 2
        if ($reply.Count -ne 2) { [Console]::Error.WriteLine('cj: invalid interactive zoxide response'); "#;
/// A fixed part of the PowerShell key widget.
pub const PS_WIDGET_7: &'static str = r#"; return }
        switch ($reply[0]) {
            'selected' {
                if ($reply[1].Length -eq 0) { [Console]::Error.WriteLine('cj: invalid interactive zoxide path'); "#;
/// A fixed part of the PowerShell key widget.
pub const PS_WIDGET_8: &'static str = r#"; return }
                "#;
/// A fixed part of the PowerShell key widget.
pub const PS_WIDGET_9: &'static str = r#"
                $separator = if ($buffer.Length -eq 0 -or [char]::IsWhiteSpace($buffer[$buffer.Length - 1])) { '' } else { ' ' }
                $target = [string]$reply[1]
                if ($target.StartsWith('-')) { $target = './' + $target }
                $quoted = [System.Management.Automation.Language.CodeGeneration]::EscapeSingleQuotedStringContent($target)
                $updated = $buffer + $separator + "'" + $quoted + "'"
                [Microsoft.PowerShell.PSConsoleReadLine]::Replace(0, $buffer.Length, $updated)
                [Microsoft.PowerShell.PSConsoleReadLine]::SetCursorPosition($updated.Length)
                return
            }
            'unavailable' { $missing = $reply[1] }
            'empty' { }
            'cancelled' { "#;
/// A fixed part of the PowerShell key widget.
pub const PS_WIDGET_10: &'static str = r#"; return }
            default { [Console]::Error.WriteLine('cj: invalid interactive zoxide response'); "#;
/// A fixed part of the PowerShell key widget.
pub const PS_WIDGET_11: &'static str = r#"; return }
        }
    }
    if ($missing) { [Console]::Error.WriteLine("cj: $missing") } else { [Console]::Error.WriteLine("cj: $empty") }
}
if (Get-Command Set-PSReadLineKeyHandler -ErrorAction SilentlyContinue) {
    Set-PSReadLineKeyHandler -Chord '"#;
/// A fixed part of the PowerShell key widget.
pub const PS_WIDGET_12: &'static str = r#"' -BriefDescription 'cj directory' -Description 'cj managed directory completion' -ScriptBlock { Invoke-CjKeyWidget }
    $global:__cj_bound_chord = '"#;
/// A fixed part of the PowerShell key widget.
pub const PS_WIDGET_13: &'static str = r#"'
}"#;

/// The cleanup that removes a binding an earlier load installed.
pub open spec fn cleanup_text(shell: Shell) -> Seq<char> {
    match shell {
        Shell::Bash => CLEANUP_BASH@,
        Shell::Zsh => CLEANUP_ZSH@,
        Shell::Pwsh => CLEANUP_POWERSHELL@,
        Shell::Nu => crate::key_bindings_nu::CLEANUP@,
    }
}

/// The cleanup that removes a binding an earlier load installed.
pub fn cleanup(shell: Shell) -> (text: &'static str)
    ensures
        text@ == cleanup_text(shell),
{
    match shell {
        Shell::Bash => CLEANUP_BASH,
        Shell::Zsh => CLEANUP_ZSH,
        Shell::Pwsh => CLEANUP_POWERSHELL,
        Shell::Nu => crate::key_bindings_nu::cleanup(),
    }
}

/// The name of a behavior, bare or single-quoted.
pub open spec fn behavior_word(b: KeyBindingBehavior, quoted: bool) -> Seq<char> {
    match (b, quoted) {
        (KeyBindingBehavior::Zoxide, false) => "zoxide"@,
        (KeyBindingBehavior::Cj, false) => "cj"@,
        (KeyBindingBehavior::Zoxide, true) => "'zoxide'"@,
        (KeyBindingBehavior::Cj, true) => "'cj'"@,
    }
}

/// The behavior chain as words separated by `sep`.
pub open spec fn behavior_words(bs: Seq<KeyBindingBehavior>, quoted: bool, sep: Seq<char>) -> Seq<
    char,
> {
    joined(bs.map_values(|b: KeyBindingBehavior| behavior_word(b, quoted)), sep)
}

/// The behavior chain as words separated by `sep`.
pub fn behavior_list(bs: &[KeyBindingBehavior], quoted: bool, sep: &str) -> (s: String)
    ensures
        s@ == behavior_words(bs@, quoted, sep@),
{
    let mut words: Vec<String> = Vec::new();
    let mut i: usize = 0;
    while i < bs.len()
        invariant
            i <= bs@.len(),
            views(words@) == bs@.take(i as int).map_values(
                |b: KeyBindingBehavior| behavior_word(b, quoted),
            ),
        decreases bs@.len() - i,
    {
        let ghost before = words@;
        let w = match (bs[i], quoted) {
            (KeyBindingBehavior::Zoxide, false) => owned("zoxide"),
            (KeyBindingBehavior::Cj, false) => owned("cj"),
            (KeyBindingBehavior::Zoxide, true) => owned("'zoxide'"),
            (KeyBindingBehavior::Cj, true) => owned("'cj'"),
        };
        words.push(w);
        assert(views(words@) =~= views(before).push(
            behavior_word(bs@[i as int], quoted),
        ));
        assert(bs@.take(i + 1).map_values(|b: KeyBindingBehavior| behavior_word(b, quoted))
            =~= bs@.take(i as int).map_values(|b: KeyBindingBehavior| behavior_word(b, quoted)).push(
            behavior_word(bs@[i as int], quoted),
        ));
        i = i + 1;
    }
    assert(bs@.take(i as int) =~= bs@);
    join(&words, sep)
}

/// How the POSIX widget reads the line.
pub open spec fn read_buffer_text(shell: Shell) -> Seq<char> {
    if shell == Shell::Bash {
        READ_BASH@
    } else {
        READ_ZSH@
    }
}

fn read_buffer(shell: Shell) -> (t: &'static str)
    ensures
        t@ == read_buffer_text(shell),
{
    if shell == Shell::Bash {
        READ_BASH
    } else {
        READ_ZSH
    }
}

/// How the POSIX widget writes the line back.
pub open spec fn apply_text(shell: Shell) -> Seq<char> {
    if shell == Shell::Bash {
        APPLY_BASH@
    } else {
        APPLY_ZSH@
    }
}

fn apply_line(shell: Shell) -> (t: &'static str)
    ensures
        t@ == apply_text(shell),
{
    if shell == Shell::Bash {
        APPLY_BASH
    } else {
        APPLY_ZSH
    }
}

/// How the POSIX widget ends a history cycle, if there is one.
pub open spec fn reset_text(history: bool) -> Seq<char> {
    if history {
        RESET_HISTORY@
    } else {
        RESET_NOTHING@
    }
}

fn reset_command(history: bool) -> (t: &'static str)
    ensures
        t@ == reset_text(history),
{
    if history {
        RESET_HISTORY
    } else {
        RESET_NOTHING
    }
}

/// The POSIX widget's resumption of a history cycle.
pub open spec fn resume_text(shell: Shell, history: bool) -> Seq<char> {
    if history {
        RESUME_0@ + apply_text(shell) + RESUME_1@
    } else {
        Seq::empty()
    }
}

fn resume_posix(shell: Shell, history: bool) -> (out: String)
    ensures
        out@ == resume_text(shell, history),
{
    let mut out = String::new();
    if history {
        push_str(&mut out, RESUME_0);
        push_str(&mut out, apply_line(shell));
        push_str(&mut out, RESUME_1);
        assert(out@ =~= resume_text(shell, history));
    }
    out
}

/// The POSIX widget's function.
pub open spec fn posix_body(shell: Shell, config: &Config, behaviors: Seq<KeyBindingBehavior>, history: bool) -> Seq<char> {
    BODY_0@ + read_buffer_text(shell) + BODY_1@ + resume_text(shell, history) + BODY_2@ + behavior_words(behaviors, false, " "@) + BODY_3@ + apply_text(shell) + BODY_4@ + posix_quoted(config.programs.zoxide@) + BODY_5@ + posix_quoted(config.programs.fzf@) + BODY_6@ + reset_text(history) + BODY_7@ + reset_text(history) + BODY_8@ + apply_text(shell) + BODY_9@ + reset_text(history) + BODY_10@ + reset_text(history) + BODY_11@
}

/// The shell's binding command for a chord.
pub open spec fn bind_text(shell: Shell, chord: KeyBinding) -> Seq<char> {
    match (shell, chord) {
        (Shell::Bash, KeyBinding::CtrlO) => BIND_BASH_CTRL@,
        (Shell::Bash, _) => BIND_BASH_ALT@,
        (_, KeyBinding::CtrlO) => BIND_ZSH_CTRL@,
        (_, _) => BIND_ZSH_ALT@,
    }
}

/// The shell's name of a chord.
pub open spec fn key_text(shell: Shell, chord: KeyBinding) -> Seq<char> {
    match (shell, chord) {
        (Shell::Bash, KeyBinding::CtrlO) => KEY_BASH_CTRL@,
        (Shell::Bash, _) => KEY_BASH_ALT@,
        (_, KeyBinding::CtrlO) => KEY_ZSH_CTRL@,
        (_, _) => KEY_ZSH_ALT@,
    }
}

/// The binding and its record.
pub open spec fn binding_text(shell: Shell, chord: KeyBinding) -> Seq<char> {
    bind_text(shell, chord) + BOUND_KEY_OPEN@ + key_text(shell, chord) + BOUND_KEY_CLOSE@
}

/// The whole POSIX widget: its function, then its binding (guarded by the
/// Bash version in Bash).
pub open spec fn posix_widget(shell: Shell, chord: KeyBinding, config: &Config, behaviors: Seq<KeyBindingBehavior>, history: bool) -> Seq<char> {
    let body = posix_body(shell, config, behaviors, history);
    if shell == Shell::Bash {
        body + BASH4_OPEN@ + binding_text(shell, chord) + BASH4_CLOSE@
    } else {
        body + "\n"@ + binding_text(shell, chord)
    }
}

fn bind_command(shell: Shell, chord: KeyBinding) -> (t: &'static str)
    ensures
        t@ == bind_text(shell, chord),
{
    match (shell, chord) {
        (Shell::Bash, KeyBinding::CtrlO) => BIND_BASH_CTRL,
        (Shell::Bash, _) => BIND_BASH_ALT,
        (_, KeyBinding::CtrlO) => BIND_ZSH_CTRL,
        (_, _) => BIND_ZSH_ALT,
    }
}

fn key_name(shell: Shell, chord: KeyBinding) -> (t: &'static str)
    ensures
        t@ == key_text(shell, chord),
{
    match (shell, chord) {
        (Shell::Bash, KeyBinding::CtrlO) => KEY_BASH_CTRL,
        (Shell::Bash, _) => KEY_BASH_ALT,
        (_, KeyBinding::CtrlO) => KEY_ZSH_CTRL,
        (_, _) => KEY_ZSH_ALT,
    }
}

/// The POSIX widget for a chord.
fn render_posix(shell: Shell, chord: KeyBinding, config: &Config, behaviors: &[KeyBindingBehavior], history: bool) -> (out: String)
    ensures
        out@ == posix_widget(shell, chord, config, behaviors@, history),
{
    let resume = resume_posix(shell, history);
    let words = behavior_list(behaviors, false, " ");
    let zoxide = quote_posix(config.programs.zoxide.as_str());
    let fzf = quote_posix(config.programs.fzf.as_str());
    let mut out = String::new();
    push_str(&mut out, BODY_0);
    push_str(&mut out, read_buffer(shell));
    push_str(&mut out, BODY_1);
    push_str(&mut out, resume.as_str());
    push_str(&mut out, BODY_2);
    push_str(&mut out, words.as_str());
    push_str(&mut out, BODY_3);
    push_str(&mut out, apply_line(shell));
    push_str(&mut out, BODY_4);
    push_str(&mut out, zoxide.as_str());
    push_str(&mut out, BODY_5);
    push_str(&mut out, fzf.as_str());
    push_str(&mut out, BODY_6);
    push_str(&mut out, reset_command(history));
    push_str(&mut out, BODY_7);
    push_str(&mut out, reset_command(history));
    push_str(&mut out, BODY_8);
    push_str(&mut out, apply_line(shell));
    push_str(&mut out, BODY_9);
    push_str(&mut out, reset_command(history));
    push_str(&mut out, BODY_10);
    push_str(&mut out, reset_command(history));
    push_str(&mut out, BODY_11);
    assert(out@ =~= posix_body(shell, config, behaviors@, history));
    if shell == Shell::Bash {
        push_str(&mut out, BASH4_OPEN);
    } else {
        push_str(&mut out, "\n");
    }
    push_str(&mut out, bind_command(shell, chord));
    push_str(&mut out, BOUND_KEY_OPEN);
    push_str(&mut out, key_name(shell, chord));
    push_str(&mut out, BOUND_KEY_CLOSE);
    if shell == Shell::Bash {
        push_str(&mut out, BASH4_CLOSE);
    }
    assert(out@ =~= posix_widget(shell, chord, config, behaviors@, history));
    out
}

/// PowerShell's resumption of a history cycle.
pub open spec fn ps_resume_text(history: bool) -> Seq<char> {
    if history {
        PS_RESUME@
    } else {
        Seq::empty()
    }
}

fn ps_resume(history: bool) -> (t: &'static str)
    ensures
        t@ == ps_resume_text(history),
{
    if history {
        PS_RESUME
    } else {
        proof {
            reveal_strlit("");
        }
        ""
    }
}

/// How the PowerShell widget ends a history cycle, if there is one.
pub open spec fn ps_reset_text(history: bool) -> Seq<char> {
    if history {
        PS_RESET@
    } else {
        Seq::empty()
    }
}

fn ps_reset(history: bool) -> (t: &'static str)
    ensures
        t@ == ps_reset_text(history),
{
    if history {
        PS_RESET
    } else {
        proof {
            reveal_strlit("");
        }
        ""
    }
}

/// PSReadLine's name of a chord.
pub open spec fn chord_text(chord: KeyBinding) -> Seq<char> {
    if chord == KeyBinding::CtrlO {
        CHORD_CTRL@
    } else {
        CHORD_ALT@
    }
}

fn chord_name(chord: KeyBinding) -> (t: &'static str)
    ensures
        t@ == chord_text(chord),
{
    if chord == KeyBinding::CtrlO {
        CHORD_CTRL
    } else {
        CHORD_ALT
    }
}

/// The PowerShell widget and its PSReadLine handler.
pub open spec fn ps_widget(chord: KeyBinding, config: &Config, behaviors: Seq<KeyBindingBehavior>, history: bool) -> Seq<char> {
    PS_WIDGET_0@ + ps_resume_text(history) + PS_WIDGET_1@ + behavior_words(behaviors, true, ", "@) + PS_WIDGET_2@ + ps_quoted(config.programs.zoxide@) + PS_WIDGET_3@ + ps_quoted(config.programs.fzf@) + PS_WIDGET_4@ + ps_reset_text(history) + PS_WIDGET_5@ + ps_reset_text(history) + PS_WIDGET_6@ + ps_reset_text(history) + PS_WIDGET_7@ + ps_reset_text(history) + PS_WIDGET_8@ + ps_reset_text(history) + PS_WIDGET_9@ + ps_reset_text(history) + PS_WIDGET_10@ + ps_reset_text(history) + PS_WIDGET_11@ + chord_text(chord) + PS_WIDGET_12@ + chord_text(chord) + PS_WIDGET_13@
}

fn render_powershell(chord: KeyBinding, config: &Config, behaviors: &[KeyBindingBehavior], history: bool) -> (out: String)
    ensures
        out@ == ps_widget(chord, config, behaviors@, history),
{
    let zoxide = quote_ps(config.programs.zoxide.as_str());
    let fzf = quote_ps(config.programs.fzf.as_str());
    let words = behavior_list(behaviors, true, ", ");
    let mut out = String::new();
    push_str(&mut out, PS_WIDGET_0);
    push_str(&mut out, ps_resume(history));
    push_str(&mut out, PS_WIDGET_1);
    push_str(&mut out, words.as_str());
    push_str(&mut out, PS_WIDGET_2);
    push_str(&mut out, zoxide.as_str());
    push_str(&mut out, PS_WIDGET_3);
    push_str(&mut out, fzf.as_str());
    push_str(&mut out, PS_WIDGET_4);
    push_str(&mut out, ps_reset(history));
    push_str(&mut out, PS_WIDGET_5);
    push_str(&mut out, ps_reset(history));
    push_str(&mut out, PS_WIDGET_6);
    push_str(&mut out, ps_reset(history));
    push_str(&mut out, PS_WIDGET_7);
    push_str(&mut out, ps_reset(history));
    push_str(&mut out, PS_WIDGET_8);
    push_str(&mut out, ps_reset(history));
    push_str(&mut out, PS_WIDGET_9);
    push_str(&mut out, ps_reset(history));
    push_str(&mut out, PS_WIDGET_10);
    push_str(&mut out, ps_reset(history));
    push_str(&mut out, PS_WIDGET_11);
    push_str(&mut out, chord_name(chord));
    push_str(&mut out, PS_WIDGET_12);
    push_str(&mut out, chord_name(chord));
    push_str(&mut out, PS_WIDGET_13);
    assert(out@ =~= ps_widget(chord, config, behaviors@, history));
    out
}

/// The key-binding part of the shell integration: always the cleanup of an
/// earlier binding; then, for a bound chord with at least one behavior, the
/// history helpers when the `cj` behavior is listed and the widget.
pub open spec fn key_bindings_text(shell: Shell, chord: Option<KeyBinding>, config: &Config, os: Seq<char>) -> Seq<char> {
    let behaviors = behaviors_for(&config.key_bindings, os);
    match chord {
        Some(c) => if c == KeyBinding::Unbound || behaviors.len() == 0 {
            cleanup_text(shell)
        } else if shell == Shell::Nu {
            cleanup_text(shell) + "\n"@ + crate::key_bindings_nu::nu_widget(c, config, behaviors)
        } else {
            let history = behaviors.contains(KeyBindingBehavior::Cj);
            cleanup_text(shell) + "\n"@ + (if history {
                history_text(shell)
            } else {
                Seq::empty()
            }) + "\n"@ + if shell == Shell::Pwsh {
                ps_widget(c, config, behaviors, history)
            } else {
                posix_widget(shell, c, config, behaviors, history)
            }
        },
        None => cleanup_text(shell),
    }
}

fn lists_cj(bs: &[KeyBindingBehavior]) -> (found: bool)
    ensures
        found == bs@.contains(KeyBindingBehavior::Cj),
{
    let mut i: usize = 0;
    while i < bs.len()
        invariant
            i <= bs@.len(),
            forall|k: int| 0 <= k < i ==> bs@[k] != KeyBindingBehavior::Cj,
        decreases bs@.len() - i,
    {
        if bs[i] == KeyBindingBehavior::Cj {
            return true;
        }
        i = i + 1;
    }
    false
}

/// The key-binding part of the shell integration for `os` (see
/// `key_bindings_text`).
pub fn render(shell: Shell, chord: Option<KeyBinding>, config: &Config, os: &str) -> (out: String)
    ensures
        out@ == key_bindings_text(shell, chord, config, os@),
{
    let cleanup = cleanup(shell);
    let c = match chord {
        Some(c) => c,
        None => {
            return owned(cleanup);
        },
    };
    let behaviors = config.key_binding_behaviors(os);
    if c == KeyBinding::Unbound || behaviors.len() == 0 {
        return owned(cleanup);
    }
    let mut out = owned(cleanup);
    push_str(&mut out, "\n");
    if shell == Shell::Nu {
        push_str(&mut out, crate::key_bindings_nu::render(c, config, behaviors).as_str());
        return out;
    }
    let history = lists_cj(behaviors);
    if history {
        push_str(&mut out, history_helpers(shell));
    }
    push_str(&mut out, "\n");
    if shell == Shell::Pwsh {
        push_str(&mut out, render_powershell(c, config, behaviors, history).as_str());
    } else {
        push_str(&mut out, render_posix(shell, c, config, behaviors, history).as_str());
    }
    assert(out@ =~= key_bindings_text(shell, chord, config, os@));
    out
}

} // verus!
