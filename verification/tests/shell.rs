use cj::cli::Shell;
use cj::config::{Config, KeyBinding, KeyBindingBehavior};
use cj::shell::render;

fn cwd() -> Result<String, String> {
    Ok("/home/me/work".to_owned())
}

fn generate(shell: Shell, config_path: Option<&str>, binding: Option<KeyBinding>) -> String {
    render(shell, config_path, &cwd(), binding, &Config::default(), "linux", false).unwrap()
}

#[test]
fn wrapper_uses_command_and_builtin_boundaries() {
    let output = generate(Shell::Zsh, None, None);
    assert!(output.contains("\\command cj \"${_cj_args[@]}\""));
    assert!(output.contains("\\builtin cd -- \"$target\""));
    assert!(output.contains("-Z|--no-zoxide"));
    assert!(output.contains("\\builtin unalias cd"));
    assert!(output.contains("function cd()"));
    assert!(output.contains("_cj_history"));
}

#[test]
fn config_path_is_shell_quoted() {
    let output = generate(Shell::Bash, Some("it's here/config.toml"), None);
    assert!(output.contains("it'\\''s here/config.toml'"));
    assert!(output.contains("/home/me/work"));
}

#[test]
fn renders_os_binding_for_each_shell() {
    let bash = generate(Shell::Bash, None, Some(KeyBinding::CtrlO));
    assert!(bash.contains(r#"\builtin bind -x '"\C-o":_cj_key_widget'"#));
    assert!(bash.contains("--internal-key-binding-zoxide"));

    let zsh = generate(Shell::Zsh, None, Some(KeyBinding::AltO));
    assert!(zsh.contains("\\builtin bindkey '^[o' _cj_key_widget"));

    let powershell = generate(Shell::Pwsh, None, Some(KeyBinding::CtrlO));
    assert!(powershell.contains("Set-PSReadLineKeyHandler -Chord 'Ctrl+o'"));
    assert!(powershell.contains("Microsoft.PowerShell.Management\\Set-Location"));
    assert!(!powershell.contains("Invoke-Expression"));
}

#[test]
fn wrappers_explain_that_jump_tokens_require_tab() {
    for shell in [Shell::Bash, Shell::Zsh, Shell::Nu, Shell::Pwsh] {
        let source = generate(shell, None, None);
        assert!(source.contains("type cd -jw and press Tab to select a worktree"));
    }
}

#[test]
fn renders_jump_worktree_completion_hooks() {
    let bash = generate(Shell::Bash, None, None);
    assert!(bash.contains("(( COMP_CWORD == 1 ))"));
    assert!(bash.contains("complete -F _cj_complete_cd cd"));
    assert!(bash.contains("\\command cj --worktree-paths0"));
    assert!(bash.contains("declare -F _cd"));

    let zsh = generate(Shell::Zsh, None, None);
    assert!(zsh.contains("(( CURRENT == 2 ))"));
    assert!(zsh.contains("compadd -f -- \"${candidates[@]}\""));
    assert!(zsh.contains("_cj_cd_completion_fallback"));
    assert!(zsh.contains("compdef _cj_complete_cd cd"));
    assert!(zsh.contains("add-zsh-hook precmd _cj_register_cd_completion"));

    let powershell = generate(Shell::Pwsh, None, None);
    assert!(powershell.contains("function script:Complete-CjCdArgument"));
    assert!(powershell.contains("--worktree --format json"));
    assert!(powershell.contains("$cjArgs = @($args)"));
    assert!(powershell.contains("function global:TabExpansion2"));
    assert!(powershell.contains("foreach ($match in $matches)"));
    assert!(powershell.contains("$script:__cj_tab_expansion2 @PSBoundParameters"));
    assert!(powershell.contains("CompletionCompleters]::CompleteFilename"));
    assert!(!powershell.contains("Set-PSReadLineKeyHandler -Key Tab"));

    let nu = generate(Shell::Nu, None, None);
    assert!(nu.contains("--worktree --format json"));
    assert!(!nu.contains("executehostcommand"));
}

#[test]
fn renders_environment_aware_nushell_integration() {
    let output = generate(Shell::Nu, Some("it's config.toml"), None);
    assert!(output.contains("export def --env --wrapped __cj_cd"));
    assert!(output.contains("export alias cd = __cj_cd"));
    assert!(output.contains("^cj ...$config ...$invoke_args | complete"));
    assert!(output.contains("r#'"));
    assert!(!output.contains("eval"));
}

#[test]
fn renders_literal_powershell_integration() {
    let output = generate(Shell::Pwsh, Some("it's config.toml"), None);
    assert!(output.contains("Microsoft.PowerShell.Management\\Set-Location -LiteralPath"));
    assert!(output.contains("Get-Command cj -CommandType Application"));
    assert!(output.contains("it''s config.toml'"));
    assert!(output.contains("-ceq '-z'"));
    assert!(!output.contains("Invoke-Expression"));
}

#[test]
fn relative_config_path_needs_the_current_directory() {
    let failed: Result<String, String> = Err("permission denied".to_owned());
    assert_eq!(
        render(Shell::Bash, Some("config.toml"), &failed, None, &Config::default(), "linux", false),
        Err("cannot resolve config path: permission denied".into())
    );
    let absolute = render(Shell::Bash, Some("/etc/cj.toml"), &failed, None, &Config::default(), "linux", false).unwrap();
    assert!(absolute.contains("cj -C '/etc/cj.toml'"));
}

#[test]
fn nushell_gets_its_widget_and_state_reset() {
    let output = generate(Shell::Nu, None, Some(KeyBinding::CtrlO));
    assert!(output.contains("$env.__cj_history = []"));
    assert!(output.contains("modifier: control"));
    assert!(output.contains("let behaviors = ['zoxide' 'cj']"));
    let unbound = generate(Shell::Nu, None, None);
    assert!(unbound.contains("$env.__cj_history = []"));
    assert!(!unbound.contains("cj-directory,"));
}

#[test]
fn history_helpers_come_only_with_the_cj_behavior() {
    let mut config = Config::default();
    config.key_bindings.linux.behaviors = vec![KeyBindingBehavior::Zoxide];
    let zoxide_only = render(Shell::Bash, None, &cwd(), Some(KeyBinding::AltO), &config, "linux", false).unwrap();
    assert!(!zoxide_only.contains("function _cj_key_history_reset()"));
    assert!(zoxide_only.contains("for _cj_behavior in zoxide; do"));
    let both = generate(Shell::Bash, None, Some(KeyBinding::AltO));
    assert!(both.contains("function _cj_key_history_reset()"));
    assert!(both.contains("for _cj_behavior in zoxide cj; do"));
    assert!(both.contains("if (( BASH_VERSINFO[0] >= 4 )); then"));
    assert!(both.contains("_cj_bound_key='\\eo'"));
}

#[test]
fn no_binding_leaves_only_the_cleanup() {
    let output = generate(Shell::Zsh, None, None);
    assert!(output.contains("unset _cj_bound_key _cj_bound_widget"));
    assert!(!output.contains("_cj_key_widget()"));
}

#[test]
fn key_widget_tries_behaviors_in_configured_order() {
    let mut config = Config::default();
    config.key_bindings.linux.behaviors = vec![KeyBindingBehavior::Cj, KeyBindingBehavior::Zoxide];
    let both = cj::key_bindings::render(Shell::Bash, Some(KeyBinding::AltO), &config, "linux");
    assert!(both.contains("for _cj_behavior in cj zoxide; do"));
    assert!(both.contains("function _cj_key_history()"));
    config.key_bindings.linux.behaviors = vec![KeyBindingBehavior::Zoxide];
    let zoxide = cj::key_bindings::render(Shell::Zsh, Some(KeyBinding::AltO), &config, "linux");
    assert!(zoxide.contains("for _cj_behavior in zoxide; do"));
    assert!(!zoxide.contains("function _cj_key_history()"));
}
