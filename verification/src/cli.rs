//! Command-line parsing.
use vstd::prelude::*;

use crate::text::{owned, push_str, starts_with, str_eq};

verus! {

/// The help text printed by `-h`/`--help`.
pub const HELP: &'static str = "cj - jump between useful directories

Usage:
  cj [OPTIONS] [TARGET]...
  cj [OPTIONS] --worktree [--format table|json] [--relative]
  cj [OPTIONS] --jump-worktree
  cj [OPTIONS] config init [--preamp]
  cj [OPTIONS] mounts scan [--format table|json]
  cj [OPTIONS] init <bash|zsh|nu|powershell> [--no-setup-key-binding] [-o PATH]
  cj [OPTIONS] completions <bash|zsh|nu|powershell> [-o PATH]

Options:
  -C, --config <PATH>       Use a different config.toml
  -v, --verbose             Show discovery details and skipped candidates
  -r, --raw                 Treat the target as a literal directory
  -z, --zoxide             Force zoxide resolution
  -Z, --no-zoxide          Disable zoxide while retaining cj shortcuts
  -w, --worktree           List this repository's worktrees
  -f, --format <FORMAT>    Output format: table or json [default: table]
  -R, --relative           Render worktree paths relative to the current directory
  -jw, --jump-worktree     Select a worktree with fzf and print its path
      --no-setup-key-binding  Leave the directory key binding out of shell setup
      --setup-key-binding  Accepted for compatibility; the binding is installed by default
  -o, --output <PATH>      Write generated shell source and create parent directories
      --preamp             Add unambiguous mounts to a new config
  -h, --help               Print help
  -V, --version            Print version";

/// A command-line argument: text when it is valid Unicode, otherwise the
/// platform's raw encoding of it.
#[derive(Clone, Debug, PartialEq)]
pub enum OsArg {
    Text(String),
    Raw(Vec<u8>),
}

/// The argument as text (`OsStr::to_str`).
pub open spec fn arg_text(a: OsArg) -> Option<Seq<char>> {
    match a {
        OsArg::Text(s) => Some(s@),
        OsArg::Raw(_) => None,
    }
}

/// An optional string slice as an optional character sequence.
pub open spec fn opt_text(t: Option<&str>) -> Option<Seq<char>> {
    match t {
        Some(s) => Some(s@),
        None => None,
    }
}

impl OsArg {
    /// The argument as text, when it is valid Unicode.
    pub fn text(&self) -> (t: Option<&str>)
        ensures
            opt_text(t) == arg_text(*self),
    {
        match self {
            OsArg::Text(s) => Some(s.as_str()),
            OsArg::Raw(_) => None,
        }
    }
}

/// How the target is resolved.
#[derive(Clone, Copy, Debug, PartialEq, Eq, Structural)]
pub enum ResolverOverride {
    Configured,
    Zoxide,
    NoZoxide,
    Raw,
}

/// The format of listings.
#[derive(Clone, Copy, Debug, PartialEq, Eq, Structural)]
pub enum OutputFormat {
    Table,
    Json,
}

/// A supported shell.
#[derive(Clone, Copy, Debug, PartialEq, Eq, Structural)]
pub enum Shell {
    Bash,
    Zsh,
    Nu,
    Pwsh,
}

/// What the command line asks for.
#[derive(Debug, PartialEq)]
pub enum Command {
    Help,
    Version,
    Resolve { targets: Vec<OsArg>, resolver: ResolverOverride },
    Worktrees { format: OutputFormat, relative: bool, jump: bool },
    WorktreePaths0,
    KeyBindingZoxide { zoxide: OsArg, fzf: OsArg },
    Init { shell: Shell, setup_key_binding: bool, output: Option<OsArg> },
    Completions { shell: Shell, output: Option<OsArg> },
    ConfigInit { preamp: bool },
    MountsScan { format: OutputFormat },
}

/// The parsed command line.
#[derive(Debug, PartialEq)]
pub struct Cli {
    pub config_path: Option<OsArg>,
    pub verbose: bool,
    pub command: Command,
}

// ---------------------------------------------------------------------------
// Specification

/// `Command` with its target list as a sequence.
pub enum CommandModel {
    Help,
    Version,
    Resolve { targets: Seq<OsArg>, resolver: ResolverOverride },
    Worktrees { format: OutputFormat, relative: bool, jump: bool },
    WorktreePaths0,
    KeyBindingZoxide { zoxide: OsArg, fzf: OsArg },
    Init { shell: Shell, setup_key_binding: bool, output: Option<OsArg> },
    Completions { shell: Shell, output: Option<OsArg> },
    ConfigInit { preamp: bool },
    MountsScan { format: OutputFormat },
}

/// `Cli` with its command as a `CommandModel`.
pub struct CliModel {
    pub config_path: Option<OsArg>,
    pub verbose: bool,
    pub command: CommandModel,
}

/// The model of a parsed command.
pub open spec fn command_model(c: &Command) -> CommandModel {
    match c {
        Command::Help => CommandModel::Help,
        Command::Version => CommandModel::Version,
        Command::Resolve { targets, resolver } => CommandModel::Resolve {
            targets: targets@,
            resolver: *resolver,
        },
        Command::Worktrees { format, relative, jump } => CommandModel::Worktrees {
            format: *format,
            relative: *relative,
            jump: *jump,
        },
        Command::WorktreePaths0 => CommandModel::WorktreePaths0,
        Command::KeyBindingZoxide { zoxide, fzf } => CommandModel::KeyBindingZoxide {
            zoxide: *zoxide,
            fzf: *fzf,
        },
        Command::Init { shell, setup_key_binding, output } => CommandModel::Init {
            shell: *shell,
            setup_key_binding: *setup_key_binding,
            output: *output,
        },
        Command::Completions { shell, output } => CommandModel::Completions {
            shell: *shell,
            output: *output,
        },
        Command::ConfigInit { preamp } => CommandModel::ConfigInit { preamp: *preamp },
        Command::MountsScan { format } => CommandModel::MountsScan { format: *format },
    }
}

/// The model of a parse result.
pub open spec fn parsed_model(r: Result<Cli, String>) -> Result<CliModel, Seq<char>> {
    match r {
        Ok(cli) => Ok(
            CliModel {
                config_path: cli.config_path,
                verbose: cli.verbose,
                command: command_model(&cli.command),
            },
        ),
        Err(e) => Err(e@),
    }
}

/// Everything the option scan has collected so far.
pub struct Scan {
    pub config_path: Option<OsArg>,
    pub verbose: bool,
    pub resolver: ResolverOverride,
    pub worktree: bool,
    pub format: Option<OutputFormat>,
    pub relative: bool,
    pub jump: bool,
    pub worktree_paths0: bool,
    pub key_binding_zoxide: Option<(OsArg, OsArg)>,
    pub setup_key_binding: bool,
    pub no_setup_key_binding: bool,
    pub output: Option<OsArg>,
    pub preamp: bool,
    pub targets: Seq<OsArg>,
    pub options: bool,
    pub force_resolve: bool,
}

/// The scan before any argument.
pub open spec fn initial_scan() -> Scan {
    Scan {
        config_path: None,
        verbose: false,
        resolver: ResolverOverride::Configured,
        worktree: false,
        format: None,
        relative: false,
        jump: false,
        worktree_paths0: false,
        key_binding_zoxide: None,
        setup_key_binding: false,
        no_setup_key_binding: false,
        output: None,
        preamp: false,
        targets: Seq::empty(),
        options: true,
        force_resolve: false,
    }
}

/// One step of the scan: a final result, or the next position and state.
pub enum Step {
    Done(Result<CliModel, Seq<char>>),
    Next(int, Scan),
}

/// `set_resolver`: a second, different resolver flag is an error.
pub open spec fn resolver_step(current: ResolverOverride, requested: ResolverOverride) -> Result<
    ResolverOverride,
    Seq<char>,
> {
    if current != ResolverOverride::Configured && current != requested {
        Err("--raw, --zoxide, and --no-zoxide cannot be used together"@)
    } else {
        Ok(requested)
    }
}

/// `parse_format`.
pub open spec fn format_model(t: Option<Seq<char>>) -> Result<OutputFormat, Seq<char>> {
    if t == Some("table"@) {
        Ok(OutputFormat::Table)
    } else if t == Some("json"@) {
        Ok(OutputFormat::Json)
    } else {
        Err("--format must be table or json"@)
    }
}

/// Applies a resolver flag to the scan.
pub open spec fn with_resolver(
    args: Seq<OsArg>,
    i: int,
    st: Scan,
    requested: ResolverOverride,
) -> Step {
    match resolver_step(st.resolver, requested) {
        Err(e) => Step::Done(Err(e)),
        Ok(r) => Step::Next(i + 1, Scan { resolver: r, ..st }),
    }
}

/// What kind of argument a command-line word is.
#[derive(Clone, Copy, PartialEq, Eq, Structural)]
pub enum Opt {
    DoubleDash,
    Help,
    Version,
    Config,
    Verbose,
    Zoxide,
    NoZoxide,
    Raw,
    Worktree,
    Format,
    Relative,
    Jump,
    WorktreePaths0,
    KeyBindingZoxide,
    Setup,
    NoSetup,
    Output,
    Preamp,
    Unknown,
    Target,
}

/// Whether text is one of two spellings.
pub open spec fn either(t: Option<Seq<char>>, a: Seq<char>, b: Seq<char>) -> bool {
    t == Some(a) || t == Some(b)
}

/// Classifies an argument; after `--` every argument is a target.
pub open spec fn classify(options: bool, t: Option<Seq<char>>) -> Opt {
    if !options {
        Opt::Target
    } else if t == Some("--"@) {
        Opt::DoubleDash
    } else if either(t, "-h"@, "--help"@) {
        Opt::Help
    } else if either(t, "-V"@, "--version"@) {
        Opt::Version
    } else if either(t, "-C"@, "--config"@) {
        Opt::Config
    } else if either(t, "-v"@, "--verbose"@) {
        Opt::Verbose
    } else if either(t, "-z"@, "--zoxide"@) {
        Opt::Zoxide
    } else if either(t, "-Z"@, "--no-zoxide"@) {
        Opt::NoZoxide
    } else if either(t, "-r"@, "--raw"@) {
        Opt::Raw
    } else if either(t, "-w"@, "--worktree"@) {
        Opt::Worktree
    } else if either(t, "-f"@, "--format"@) {
        Opt::Format
    } else if either(t, "-R"@, "--relative"@) {
        Opt::Relative
    } else if either(t, "-jw"@, "--jump-worktree"@) {
        Opt::Jump
    } else if t == Some("--worktree-paths0"@) {
        Opt::WorktreePaths0
    } else if t == Some("--internal-key-binding-zoxide"@) {
        Opt::KeyBindingZoxide
    } else if t == Some("--setup-key-binding"@) {
        Opt::Setup
    } else if t == Some("--no-setup-key-binding"@) {
        Opt::NoSetup
    } else if either(t, "-o"@, "--output"@) {
        Opt::Output
    } else if t == Some("--preamp"@) {
        Opt::Preamp
    } else if t is Some && t->0.len() > 0 && t->0[0] == '-' {
        Opt::Unknown
    } else {
        Opt::Target
    }
}

/// Consumes the argument at `i`.
pub open spec fn step(args: Seq<OsArg>, i: int, st: Scan) -> Step {
    let argument = args[i];
    let t = arg_text(argument);
    match classify(st.options, t) {
        Opt::DoubleDash => Step::Next(i + 1, Scan { options: false, force_resolve: true, ..st }),
        Opt::Help => Step::Done(
            Ok(
                CliModel {
                    config_path: st.config_path,
                    verbose: st.verbose,
                    command: CommandModel::Help,
                },
            ),
        ),
        Opt::Version => Step::Done(
            Ok(
                CliModel {
                    config_path: st.config_path,
                    verbose: st.verbose,
                    command: CommandModel::Version,
                },
            ),
        ),
        Opt::Config => if i + 1 < args.len() {
            Step::Next(i + 2, Scan { config_path: Some(args[i + 1]), ..st })
        } else {
            Step::Done(Err("--config requires a path"@))
        },
        Opt::Verbose => Step::Next(i + 1, Scan { verbose: true, ..st }),
        Opt::Zoxide => with_resolver(args, i, st, ResolverOverride::Zoxide),
        Opt::NoZoxide => with_resolver(args, i, st, ResolverOverride::NoZoxide),
        Opt::Raw => with_resolver(args, i, st, ResolverOverride::Raw),
        Opt::Worktree => Step::Next(i + 1, Scan { worktree: true, ..st }),
        Opt::Format => if i + 1 < args.len() {
            match format_model(arg_text(args[i + 1])) {
                Ok(f) => Step::Next(i + 2, Scan { format: Some(f), ..st }),
                Err(e) => Step::Done(Err(e)),
            }
        } else {
            Step::Done(Err("--format requires table or json"@))
        },
        Opt::Relative => Step::Next(i + 1, Scan { relative: true, ..st }),
        Opt::Jump => Step::Next(i + 1, Scan { worktree: true, jump: true, ..st }),
        Opt::WorktreePaths0 => Step::Next(i + 1, Scan { worktree_paths0: true, ..st }),
        Opt::KeyBindingZoxide => if st.key_binding_zoxide is Some {
            Step::Done(Err("--internal-key-binding-zoxide cannot be repeated"@))
        } else if i + 2 < args.len() {
            Step::Next(i + 3, Scan { key_binding_zoxide: Some((args[i + 1], args[i + 2])), ..st })
        } else {
            Step::Done(Err("--internal-key-binding-zoxide requires zoxide and fzf paths"@))
        },
        Opt::Setup => Step::Next(i + 1, Scan { setup_key_binding: true, ..st }),
        Opt::NoSetup => Step::Next(i + 1, Scan { no_setup_key_binding: true, ..st }),
        Opt::Output => if i + 1 < args.len() {
            Step::Next(i + 2, Scan { output: Some(args[i + 1]), ..st })
        } else {
            Step::Done(Err("--output requires a path"@))
        },
        Opt::Preamp => Step::Next(i + 1, Scan { preamp: true, ..st }),
        Opt::Unknown => Step::Done(Err("unknown option: "@ + t->0)),
        Opt::Target => Step::Next(i + 1, Scan { targets: st.targets.push(argument), ..st }),
    }
}

/// Scans the arguments from position `i` and decides the command.
pub open spec fn scan_from(args: Seq<OsArg>, i: int, st: Scan) -> Result<CliModel, Seq<char>>
    decreases args.len() - i,
{
    if i < 0 || i >= args.len() {
        finish(st)
    } else {
        match step(args, i, st) {
            Step::Done(r) => r,
            Step::Next(j, next) => if i < j {
                scan_from(args, j, next)
            } else {
                finish(next)
            },
        }
    }
}

/// What `Cli::parse` gives for an argument list.
pub open spec fn parse_model(args: Seq<OsArg>) -> Result<CliModel, Seq<char>> {
    scan_from(args, 0, initial_scan())
}

/// Either setup flag.
pub open spec fn any_setup(st: Scan) -> bool {
    st.setup_key_binding || st.no_setup_key_binding
}

/// The first target as text.
pub open spec fn first_text(targets: Seq<OsArg>) -> Option<Seq<char>> {
    if targets.len() > 0 {
        arg_text(targets[0])
    } else {
        None
    }
}

/// `parse_shell`.
pub open spec fn shell_model(t: Option<Seq<char>>) -> Result<Shell, Seq<char>> {
    if t == Some("bash"@) {
        Ok(Shell::Bash)
    } else if t == Some("zsh"@) {
        Ok(Shell::Zsh)
    } else if t == Some("nu"@) {
        Ok(Shell::Nu)
    } else if t == Some("powershell"@) || t == Some("pwsh"@) {
        Ok(Shell::Pwsh)
    } else {
        Err("supported shells: bash, zsh, nu, powershell"@)
    }
}

/// `parse_init`: `init <shell>`, installing the key binding unless
/// `--no-setup-key-binding` is given.
pub open spec fn init_model(st: Scan) -> Result<CommandModel, Seq<char>> {
    if st.worktree || st.format is Some || st.relative || st.jump || st.preamp {
        Err("worktree and resolver flags cannot be used with init"@)
    } else if st.targets.len() != 2 {
        Err("usage: cj init <bash|zsh|nu|powershell> [--no-setup-key-binding] [-o PATH]"@)
    } else if st.setup_key_binding && st.no_setup_key_binding {
        Err("--setup-key-binding and --no-setup-key-binding cannot be used together"@)
    } else {
        match shell_model(arg_text(st.targets[1])) {
            Err(e) => Err(e),
            Ok(shell) => Ok(
                CommandModel::Init {
                    shell,
                    setup_key_binding: !st.no_setup_key_binding,
                    output: st.output,
                },
            ),
        }
    }
}

/// `parse_completions`.
pub open spec fn completions_model(st: Scan) -> Result<CommandModel, Seq<char>> {
    if any_setup(st) || st.worktree || st.format is Some || st.relative || st.jump || st.preamp {
        Err(
            "worktree, format, relative, preamp, and setup flags cannot be used with completions"@,
        )
    } else if st.targets.len() != 2 {
        Err("usage: cj completions <bash|zsh|nu|powershell> [-o PATH]"@)
    } else {
        match shell_model(arg_text(st.targets[1])) {
            Err(e) => Err(e),
            Ok(shell) => Ok(CommandModel::Completions { shell, output: st.output }),
        }
    }
}

/// `parse_config_init`.
pub open spec fn config_init_model(st: Scan) -> Result<CommandModel, Seq<char>> {
    if st.targets.len() != 2 || arg_text(st.targets[1]) != Some("init"@) {
        Err("usage: cj config init [--preamp]"@)
    } else if any_setup(st) || st.worktree || st.format is Some || st.relative || st.jump {
        Err("worktree, output, and shell setup flags cannot be used with config init"@)
    } else {
        Ok(CommandModel::ConfigInit { preamp: st.preamp })
    }
}

/// `parse_mounts_scan`.
pub open spec fn mounts_scan_model(st: Scan) -> Result<CommandModel, Seq<char>> {
    if st.targets.len() != 2 || arg_text(st.targets[1]) != Some("scan"@) {
        Err("usage: cj mounts scan [--format table|json]"@)
    } else if st.preamp || any_setup(st) || st.worktree || st.relative || st.jump {
        Err("worktree, relative, preamp, and shell setup flags cannot be used with mounts scan"@)
    } else {
        Ok(
            CommandModel::MountsScan {
                format: match st.format {
                    Some(f) => f,
                    None => OutputFormat::Table,
                },
            },
        )
    }
}

/// Whether the first target names a subcommand that applies.
pub open spec fn subcommand(st: Scan, name: Seq<char>) -> bool {
    !st.force_resolve && st.resolver == ResolverOverride::Configured && first_text(st.targets)
        == Some(name)
}

/// The command chosen after all arguments are scanned.
pub open spec fn command_of(st: Scan) -> Result<CommandModel, Seq<char>> {
    match st.key_binding_zoxide {
        Some((zoxide, fzf)) => if st.force_resolve || st.targets.len() != 0 || st.worktree_paths0
            || st.worktree || st.jump || st.format is Some || st.relative || st.resolver
            != ResolverOverride::Configured || any_setup(st) || st.preamp || st.config_path is Some
            || st.output is Some {
            Err("--internal-key-binding-zoxide cannot be combined with another mode"@)
        } else {
            Ok(CommandModel::KeyBindingZoxide { zoxide, fzf })
        },
        None => if st.worktree_paths0 {
            if st.force_resolve || st.targets.len() != 0 || st.worktree || st.format is Some
                || st.relative || st.resolver != ResolverOverride::Configured || any_setup(st)
                || st.preamp {
                Err("--worktree-paths0 cannot be combined with another mode"@)
            } else {
                Ok(CommandModel::WorktreePaths0)
            }
        } else if subcommand(st, "config"@) {
            config_init_model(st)
        } else if subcommand(st, "mounts"@) {
            mounts_scan_model(st)
        } else if subcommand(st, "init"@) {
            init_model(st)
        } else if subcommand(st, "completions"@) {
            completions_model(st)
        } else if st.worktree {
            if st.targets.len() != 0 {
                Err("--worktree does not accept a target"@)
            } else if st.resolver != ResolverOverride::Configured || any_setup(st) || st.preamp {
                Err("resolver and setup flags cannot be used with --worktree"@)
            } else if st.jump && (st.format is Some || st.relative) {
                Err("--format and --relative cannot be used with --jump-worktree"@)
            } else {
                Ok(
                    CommandModel::Worktrees {
                        format: match st.format {
                            Some(f) => f,
                            None => OutputFormat::Table,
                        },
                        relative: st.relative,
                        jump: st.jump,
                    },
                )
            }
        } else if st.format is Some || st.relative || st.jump || any_setup(st) || st.preamp {
            Err("--format, --relative, and setup flags require their matching mode"@)
        } else {
            Ok(CommandModel::Resolve { targets: st.targets, resolver: st.resolver })
        },
    }
}

/// The parse result once every argument is scanned.
pub open spec fn finish(st: Scan) -> Result<CliModel, Seq<char>> {
    match command_of(st) {
        Err(e) => Err(e),
        Ok(command) => if st.output is Some && !(command is Init || command is Completions) {
            Err("--output can only be used with init or completions"@)
        } else {
            Ok(CliModel { config_path: st.config_path, verbose: st.verbose, command })
        },
    }
}

// ---------------------------------------------------------------------------
// Parsing

/// Whether optional text equals a literal.
fn is_text(t: Option<&str>, lit: &str) -> (same: bool)
    ensures
        same == (opt_text(t) == Some(lit@)),
{
    match t {
        Some(s) => str_eq(s, lit),
        None => false,
    }
}

/// Whether optional text equals one of two literals.
fn is_either(t: Option<&str>, a: &str, b: &str) -> (same: bool)
    ensures
        same == (opt_text(t) == Some(a@) || opt_text(t) == Some(b@)),
{
    is_text(t, a) || is_text(t, b)
}

/// The collected options, as exec values.
struct ScanState {
    config_path: Option<OsArg>,
    verbose: bool,
    resolver: ResolverOverride,
    worktree: bool,
    format: Option<OutputFormat>,
    relative: bool,
    jump: bool,
    worktree_paths0: bool,
    key_binding_zoxide: Option<(OsArg, OsArg)>,
    setup_key_binding: bool,
    no_setup_key_binding: bool,
    output: Option<OsArg>,
    preamp: bool,
    targets: Vec<OsArg>,
    options: bool,
    force_resolve: bool,
}

/// The model of the collected options.
spec fn scan_of(s: &ScanState) -> Scan {
    Scan {
        config_path: s.config_path,
        verbose: s.verbose,
        resolver: s.resolver,
        worktree: s.worktree,
        format: s.format,
        relative: s.relative,
        jump: s.jump,
        worktree_paths0: s.worktree_paths0,
        key_binding_zoxide: s.key_binding_zoxide,
        setup_key_binding: s.setup_key_binding,
        no_setup_key_binding: s.no_setup_key_binding,
        output: s.output,
        preamp: s.preamp,
        targets: s.targets@,
        options: s.options,
        force_resolve: s.force_resolve,
    }
}

/// The arguments in reverse order, so that `pop` yields them in order.
fn reversed(args: Vec<OsArg>) -> (rest: Vec<OsArg>)
    ensures
        rest@.len() == args@.len(),
        forall|k: int| 0 <= k < rest@.len() ==> rest@[k] == args@[args@.len() - 1 - k],
{
    let ghost all = args@;
    let mut args = args;
    let mut rest: Vec<OsArg> = Vec::new();
    while args.len() > 0
        invariant
            args@.len() + rest@.len() == all.len(),
            forall|k: int| 0 <= k < args@.len() ==> args@[k] == all[k],
            forall|k: int| 0 <= k < rest@.len() ==> rest@[k] == all[all.len() - 1 - k],
        decreases args@.len(),
    {
        let a = args.pop().unwrap();
        rest.push(a);
    }
    rest
}

/// `set_resolver`.
fn set_resolver(current: &mut ResolverOverride, requested: ResolverOverride) -> (r: Result<(), String>)
    ensures
        match resolver_step(*old(current), requested) {
            Ok(v) => r is Ok && *final(current) == v,
            Err(e) => r matches Err(m) && m@ == e,
        },
{
    if *current != ResolverOverride::Configured && *current != requested {
        return Err(owned("--raw, --zoxide, and --no-zoxide cannot be used together"));
    }
    *current = requested;
    Ok(())
}

/// `parse_format`.
fn parse_format(value: &OsArg) -> (r: Result<OutputFormat, String>)
    ensures
        match format_model(arg_text(*value)) {
            Ok(f) => r == Ok::<OutputFormat, String>(f),
            Err(e) => r matches Err(m) && m@ == e,
        },
{
    let t = value.text();
    if is_text(t, "table") {
        Ok(OutputFormat::Table)
    } else if is_text(t, "json") {
        Ok(OutputFormat::Json)
    } else {
        Err(owned("--format must be table or json"))
    }
}

/// `parse_shell`.
fn parse_shell(value: &OsArg) -> (r: Result<Shell, String>)
    ensures
        match shell_model(arg_text(*value)) {
            Ok(s) => r == Ok::<Shell, String>(s),
            Err(e) => r matches Err(m) && m@ == e,
        },
{
    let t = value.text();
    if is_text(t, "bash") {
        Ok(Shell::Bash)
    } else if is_text(t, "zsh") {
        Ok(Shell::Zsh)
    } else if is_text(t, "nu") {
        Ok(Shell::Nu)
    } else if is_either(t, "powershell", "pwsh") {
        Ok(Shell::Pwsh)
    } else {
        Err(owned("supported shells: bash, zsh, nu, powershell"))
    }
}

/// The model of a command result.
pub open spec fn command_result_model(r: Result<Command, String>) -> Result<CommandModel, Seq<char>> {
    match r {
        Ok(c) => Ok(command_model(&c)),
        Err(e) => Err(e@),
    }
}

/// Whether the first target is the given word.
fn first_is(targets: &Vec<OsArg>, word: &str) -> (found: bool)
    ensures
        found == (first_text(targets@) == Some(word@)),
{
    if targets.len() > 0 {
        is_text(targets[0].text(), word)
    } else {
        false
    }
}

/// Whether the second target is the given word.
fn second_is(targets: &Vec<OsArg>, word: &str) -> (found: bool)
    requires
        targets@.len() == 2,
    ensures
        found == (arg_text(targets@[1]) == Some(word@)),
{
    is_text(targets[1].text(), word)
}

impl ScanState {
    /// `parse_init`.
    fn init(self) -> (r: Result<Command, String>)
        ensures
            command_result_model(r) == init_model(scan_of(&self)),
    {
        if self.worktree || self.format.is_some() || self.relative || self.jump || self.preamp {
            return Err(owned("worktree and resolver flags cannot be used with init"));
        }
        if self.targets.len() != 2 {
            return Err(
                owned("usage: cj init <bash|zsh|nu|powershell> [--no-setup-key-binding] [-o PATH]"),
            );
        }
        if self.setup_key_binding && self.no_setup_key_binding {
            return Err(
                owned("--setup-key-binding and --no-setup-key-binding cannot be used together"),
            );
        }
        let shell = parse_shell(&self.targets[1])?;
        Ok(Command::Init { shell, setup_key_binding: !self.no_setup_key_binding, output: self.output })
    }

    /// `parse_completions`.
    fn completions(self) -> (r: Result<Command, String>)
        ensures
            command_result_model(r) == completions_model(scan_of(&self)),
    {
        if self.setup_key_binding || self.no_setup_key_binding || self.worktree || self.format.is_some()
            || self.relative || self.jump || self.preamp {
            return Err(
                owned(
                    "worktree, format, relative, preamp, and setup flags cannot be used with completions",
                ),
            );
        }
        if self.targets.len() != 2 {
            return Err(owned("usage: cj completions <bash|zsh|nu|powershell> [-o PATH]"));
        }
        let shell = parse_shell(&self.targets[1])?;
        Ok(Command::Completions { shell, output: self.output })
    }

    /// `parse_config_init`.
    fn config_init(self) -> (r: Result<Command, String>)
        ensures
            command_result_model(r) == config_init_model(scan_of(&self)),
    {
        if self.targets.len() != 2 || !second_is(&self.targets, "init") {
            return Err(owned("usage: cj config init [--preamp]"));
        }
        if self.setup_key_binding || self.no_setup_key_binding || self.worktree || self.format.is_some()
            || self.relative || self.jump {
            return Err(
                owned("worktree, output, and shell setup flags cannot be used with config init"),
            );
        }
        Ok(Command::ConfigInit { preamp: self.preamp })
    }

    /// `parse_mounts_scan`.
    fn mounts_scan(self) -> (r: Result<Command, String>)
        ensures
            command_result_model(r) == mounts_scan_model(scan_of(&self)),
    {
        if self.targets.len() != 2 || !second_is(&self.targets, "scan") {
            return Err(owned("usage: cj mounts scan [--format table|json]"));
        }
        if self.preamp || self.setup_key_binding || self.no_setup_key_binding || self.worktree
            || self.relative || self.jump {
            return Err(
                owned(
                    "worktree, relative, preamp, and shell setup flags cannot be used with mounts scan",
                ),
            );
        }
        Ok(
            Command::MountsScan {
                format: match self.format {
                    Some(f) => f,
                    None => OutputFormat::Table,
                },
            },
        )
    }

    /// Whether the first target names a subcommand that applies.
    fn subcommand(&self, name: &str) -> (found: bool)
        ensures
            found == subcommand(scan_of(self), name@),
    {
        !self.force_resolve && self.resolver == ResolverOverride::Configured && first_is(
            &self.targets,
            name,
        )
    }

    /// Decides the command once every argument is scanned; also hands back
    /// the config path.
    fn command(self) -> (r: (Result<Command, String>, Option<OsArg>))
        ensures
            command_result_model(r.0) == command_of(scan_of(&self)),
            r.1 == self.config_path,
    {
        let mut this = self;
        let has_config = this.config_path.is_some();
        let config_path = this.config_path.take();
        let r = this.decide(has_config);
        (r, config_path)
    }

    /// `command_of`, with whether a config path was given passed separately.
    fn decide(self, has_config: bool) -> (r: Result<Command, String>)
        ensures
            command_result_model(r) == command_of(Scan { config_path: if has_config { Some(arbitrary()) } else { None }, ..scan_of(&self) }),
    {
        let any_setup = self.setup_key_binding || self.no_setup_key_binding;
        let configured = self.resolver == ResolverOverride::Configured;
        match self.key_binding_zoxide {
            Some((zoxide, fzf)) => {
                if self.force_resolve || self.targets.len() != 0 || self.worktree_paths0
                    || self.worktree || self.jump || self.format.is_some() || self.relative
                    || !configured || any_setup || self.preamp || has_config
                    || self.output.is_some() {
                    return Err(
                        owned("--internal-key-binding-zoxide cannot be combined with another mode"),
                    );
                }
                return Ok(Command::KeyBindingZoxide { zoxide, fzf });
            },
            None => {},
        }
        if self.worktree_paths0 {
            if self.force_resolve || self.targets.len() != 0 || self.worktree
                || self.format.is_some() || self.relative || !configured || any_setup
                || self.preamp {
                return Err(owned("--worktree-paths0 cannot be combined with another mode"));
            }
            return Ok(Command::WorktreePaths0);
        }
        if self.subcommand("config") {
            return self.config_init();
        }
        if self.subcommand("mounts") {
            return self.mounts_scan();
        }
        if self.subcommand("init") {
            return self.init();
        }
        if self.subcommand("completions") {
            return self.completions();
        }
        if self.worktree {
            if self.targets.len() != 0 {
                return Err(owned("--worktree does not accept a target"));
            }
            if !configured || any_setup || self.preamp {
                return Err(owned("resolver and setup flags cannot be used with --worktree"));
            }
            if self.jump && (self.format.is_some() || self.relative) {
                return Err(owned("--format and --relative cannot be used with --jump-worktree"));
            }
            return Ok(
                Command::Worktrees {
                    format: match self.format {
                        Some(f) => f,
                        None => OutputFormat::Table,
                    },
                    relative: self.relative,
                    jump: self.jump,
                },
            );
        }
        if self.format.is_some() || self.relative || self.jump || any_setup || self.preamp {
            return Err(owned("--format, --relative, and setup flags require their matching mode"));
        }
        Ok(Command::Resolve { targets: self.targets, resolver: self.resolver })
    }

    /// The parse result once every argument is scanned.
    fn finish(self) -> (r: Result<Cli, String>)
        ensures
            parsed_model(r) == finish(scan_of(&self)),
    {
        let verbose = self.verbose;
        let has_output = self.output.is_some();
        let ghost st = scan_of(&self);
        let (command, config_path) = self.command();
        let command = command?;
        if has_output && !matches!(command, Command::Init { .. } | Command::Completions { .. }) {
            return Err(owned("--output can only be used with init or completions"));
        }
        Ok(Cli { config_path, verbose, command })
    }
}

impl Cli {
    /// Parses the arguments after the program name.
    pub fn parse(args: Vec<OsArg>) -> (r: Result<Cli, String>)
        ensures
            parsed_model(r) == parse_model(args@),
    {
        let ghost all = args@;
        let n = args.len();
        let mut rest = reversed(args);
        let mut st = ScanState {
            config_path: None,
            verbose: false,
            resolver: ResolverOverride::Configured,
            worktree: false,
            format: None,
            relative: false,
            jump: false,
            worktree_paths0: false,
            key_binding_zoxide: None,
            setup_key_binding: false,
            no_setup_key_binding: false,
            output: None,
            preamp: false,
            targets: Vec::new(),
            options: true,
            force_resolve: false,
        };
        assert(scan_of(&st) == initial_scan()) by {
            assert(st.targets@ =~= Seq::<OsArg>::empty());
        }
        loop
            invariant
                n == all.len(),
                all == args@,
                rest@.len() <= n,
                forall|k: int| 0 <= k < rest@.len() ==> rest@[k] == all[n - 1 - k],
                scan_from(all, n - rest@.len(), scan_of(&st)) == parse_model(all),
            ensures
                rest@.len() == 0,
                scan_from(all, n as int, scan_of(&st)) == parse_model(all),
            decreases rest@.len(),
        {
            let argument = match rest.pop() {
                Some(a) => a,
                None => {
                    break;
                },
            };
            match advance(&mut st, &mut rest, argument, Ghost(all)) {
                Some(r) => {
                    return r;
                },
                None => {},
            }
        }
        st.finish()
    }
}


/// Consumes the argument at position `i` (already popped from `rest`),
/// and any values it takes, following `step`.
#[verifier::rlimit(40)]
#[verifier::spinoff_prover]
fn advance(st: &mut ScanState, rest: &mut Vec<OsArg>, argument: OsArg, Ghost(all): Ghost<Seq<OsArg>>) -> (o: Option<Result<Cli, String>>)
    requires
        old(rest)@.len() < all.len(),
        forall|k: int| 0 <= k < old(rest)@.len() ==> old(rest)@[k] == all[all.len() - 1 - k],
        argument == all[all.len() - 1 - old(rest)@.len()],
    ensures
        final(rest)@.len() <= old(rest)@.len(),
        forall|k: int| 0 <= k < final(rest)@.len() ==> final(rest)@[k] == all[all.len() - 1 - k],
        match o {
            Some(r) => step(all, all.len() - 1 - old(rest)@.len(), scan_of(old(st))) == Step::Done(parsed_model(r)),
            None => step(all, all.len() - 1 - old(rest)@.len(), scan_of(old(st))) == Step::Next(all.len() - final(rest)@.len(), scan_of(final(st))),
        },
{
    let ghost i = all.len() - 1 - rest@.len();
    let opt = classify_exec(st.options, argument.text());
    match opt {
        Opt::DoubleDash => {
            st.options = false;
            st.force_resolve = true;
        },
        Opt::Help => {
            return Some(Ok(Cli { config_path: st.config_path.take(), verbose: st.verbose, command: Command::Help }));
        },
        Opt::Version => {
            return Some(Ok(Cli { config_path: st.config_path.take(), verbose: st.verbose, command: Command::Version }));
        },
        Opt::Config => match rest.pop() {
            Some(path) => {
                st.config_path = Some(path);
            },
            None => {
                return Some(Err(owned("--config requires a path")));
            },
        },
        Opt::Verbose => {
            st.verbose = true;
        },
        Opt::Zoxide => {
            if let Err(e) = set_resolver(&mut st.resolver, ResolverOverride::Zoxide) {
                return Some(Err(e));
            }
        },
        Opt::NoZoxide => {
            if let Err(e) = set_resolver(&mut st.resolver, ResolverOverride::NoZoxide) {
                return Some(Err(e));
            }
        },
        Opt::Raw => {
            if let Err(e) = set_resolver(&mut st.resolver, ResolverOverride::Raw) {
                return Some(Err(e));
            }
        },
        Opt::Worktree => {
            st.worktree = true;
        },
        Opt::Format => match rest.pop() {
            Some(value) => match parse_format(&value) {
                Ok(format) => {
                    st.format = Some(format);
                },
                Err(e) => {
                    return Some(Err(e));
                },
            },
            None => {
                return Some(Err(owned("--format requires table or json")));
            },
        },
        Opt::Relative => {
            st.relative = true;
        },
        Opt::Jump => {
            st.worktree = true;
            st.jump = true;
        },
        Opt::WorktreePaths0 => {
            st.worktree_paths0 = true;
        },
        Opt::KeyBindingZoxide => {
            if st.key_binding_zoxide.is_some() {
                return Some(Err(owned("--internal-key-binding-zoxide cannot be repeated")));
            }
            let zoxide = match rest.pop() {
                Some(a) => a,
                None => {
                    return Some(Err(owned("--internal-key-binding-zoxide requires zoxide and fzf paths")));
                },
            };
            let fzf = match rest.pop() {
                Some(a) => a,
                None => {
                    return Some(Err(owned("--internal-key-binding-zoxide requires zoxide and fzf paths")));
                },
            };
            st.key_binding_zoxide = Some((zoxide, fzf));
        },
        Opt::Setup => {
            st.setup_key_binding = true;
        },
        Opt::NoSetup => {
            st.no_setup_key_binding = true;
        },
        Opt::Output => match rest.pop() {
            Some(path) => {
                st.output = Some(path);
            },
            None => {
                return Some(Err(owned("--output requires a path")));
            },
        },
        Opt::Preamp => {
            st.preamp = true;
        },
        Opt::Unknown => {
            let mut message = owned("unknown option: ");
            match argument.text() {
                Some(t) => push_str(&mut message, t),
                None => {},
            }
            return Some(Err(message));
        },
        Opt::Target => {
            st.targets.push(argument);
        },
    }
    None
}

/// `classify` for exec values.
fn classify_exec(options: bool, t: Option<&str>) -> (o: Opt)
    ensures
        o == classify(options, opt_text(t)),
{
    if !options {
        Opt::Target
    } else if is_text(t, "--") {
        Opt::DoubleDash
    } else if is_either(t, "-h", "--help") {
        Opt::Help
    } else if is_either(t, "-V", "--version") {
        Opt::Version
    } else if is_either(t, "-C", "--config") {
        Opt::Config
    } else if is_either(t, "-v", "--verbose") {
        Opt::Verbose
    } else if is_either(t, "-z", "--zoxide") {
        Opt::Zoxide
    } else if is_either(t, "-Z", "--no-zoxide") {
        Opt::NoZoxide
    } else if is_either(t, "-r", "--raw") {
        Opt::Raw
    } else if is_either(t, "-w", "--worktree") {
        Opt::Worktree
    } else if is_either(t, "-f", "--format") {
        Opt::Format
    } else if is_either(t, "-R", "--relative") {
        Opt::Relative
    } else if is_either(t, "-jw", "--jump-worktree") {
        Opt::Jump
    } else if is_text(t, "--worktree-paths0") {
        Opt::WorktreePaths0
    } else if is_text(t, "--internal-key-binding-zoxide") {
        Opt::KeyBindingZoxide
    } else if is_text(t, "--setup-key-binding") {
        Opt::Setup
    } else if is_text(t, "--no-setup-key-binding") {
        Opt::NoSetup
    } else if is_either(t, "-o", "--output") {
        Opt::Output
    } else if is_text(t, "--preamp") {
        Opt::Preamp
    } else if dash_prefixed(t) {
        Opt::Unknown
    } else {
        Opt::Target
    }
}

/// Whether optional text is present and starts with `-`.
fn dash_prefixed(t: Option<&str>) -> (found: bool)
    ensures
        found == (opt_text(t) is Some && opt_text(t)->0.len() > 0 && opt_text(t)->0[0] == '-'),
{
    match t {
        Some(s) => {
            let chars = crate::text::chars_of(s);
            chars.len() > 0 && chars[0] == '-'
        },
        None => false,
    }
}

} // verus!
