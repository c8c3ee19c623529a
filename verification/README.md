# cj

`cj` is a shell companion for jumping between useful directories: named aliases
and mounts, Git-aware shortcuts, navigation tickers, optional zoxide resolution,
worktree listing and picking, and generated shell integration for Bash, Zsh,
Nushell and PowerShell. The final directory change is left to the shell's own
`cd`.

## Layout

- `src/` is the library, verified with Verus. Every decision the command makes
  stands there with a contract: command-line parsing (`cli`), configuration
  and its validation (`config`, `names`), destination planning and navigation
  (`resolver`, `paths`), mount discovery and its report (`mounts`,
  `windows_mounts`), worktree parsing, tables and the picker protocol
  (`worktree`), generated shell source (`shell`, `completions`,
  `key_bindings`, `key_bindings_nu`, `key_history`, `quote`, `powershell`),
  the key helper's reply protocol (`key_zoxide`), path bytes (`path_bytes`)
  and what the command writes (`execution`). `laws` states and proves
  properties that span these functions.
- `app/` is the `cj` program around the library: it reads the command line,
  the environment, configuration files and directory listings, runs Git,
  zoxide and fzf, serializes JSON and TOML with serde, and hands the library
  plain values.
- `tests/` exercises the library on concrete values.
