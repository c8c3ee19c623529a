use cj::cli::Shell;
use cj::completions::{destinations, render};
use cj::config::Config;
use cj::quote::quote_nu;

fn configured() -> Config {
    let mut config = Config::default();
    config.aliases.insert("work space".into(), "/tmp/work".into());
    config.aliases.insert("it's-here".into(), "/tmp/quote".into());
    config
}

#[test]
fn destinations_are_sorted_and_deduplicated() {
    let values = destinations(&configured());
    assert_eq!(values.iter().filter(|value| *value == "top").count(), 1);
    assert!(values.windows(2).all(|pair| pair[0] < pair[1]));
}

#[test]
fn generated_completions_quote_configured_names() {
    let config = configured();
    let bash = render(Shell::Bash, &config);
    assert!(bash.contains("'work space'"));
    assert!(bash.contains("'it'\\''s-here'"));

    let nu = render(Shell::Nu, &config);
    assert!(nu.contains("r#'work space'#"));
    assert!(nu.contains("r#'it's-here'#"));

    let powershell = render(Shell::Pwsh, &config);
    assert!(powershell.contains("'work space'"));
    assert!(powershell.contains("'it''s-here'"));
}

#[test]
fn generated_completions_offer_init_output() {
    for shell in [Shell::Bash, Shell::Zsh, Shell::Nu, Shell::Pwsh] {
        let output = render(shell, &configured());
        assert!(output.contains("-o"));
        assert!(output.contains("--output"));
    }
}

#[test]
fn nushell_raw_literals_expand_their_delimiter() {
    assert_eq!(quote_nu("plain's value"), "r#'plain's value'#");
    assert_eq!(quote_nu("closing'#marker"), "r##'closing'#marker'##");
}

#[test]
fn destinations_hold_keywords_names_and_tickers_once() {
    let mut config = configured();
    config.aliases.insert("top".into(), "/tmp/top".into());
    let values = destinations(&config);
    assert_eq!(
        values,
        vec!["^", "it's-here", "og", "origin", "top", "v", "work space"]
    );
}

#[test]
fn completions_offer_the_key_binding_opt_out() {
    for shell in [Shell::Bash, Shell::Zsh, Shell::Nu, Shell::Pwsh] {
        assert!(render(shell, &Config::default()).contains("--no-setup-key-binding"));
    }
}

#[test]
fn powershell_smart_quotes_round_trip_in_source_and_completions() {
    assert_eq!(cj::quote::quote_ps("it’s-here"), "'it’’s-here'");
    assert_eq!(
        cj::quote::quote_ps("/t/config's ‘left’ ‚low‛.toml"),
        "'/t/config''s ‘‘left’’ ‚‚low‛‛.toml'"
    );
    let mut config = Config::default();
    config.aliases.insert("it’s-here".into(), "/tmp/quote".into());
    for (index, quote) in ['\'', '‘', '’', '‚', '‛'].into_iter().enumerate() {
        config.aliases.insert(
            format!("quote{index}{quote}; $global:CjInjected=1; #{quote}"),
            "/tmp/quote".into(),
        );
    }
    let powershell = render(Shell::Pwsh, &config);
    assert!(powershell.contains("'it’’s-here'"));
    for (index, quote) in ['\'', '‘', '’', '‚', '‛'].into_iter().enumerate() {
        let doubled = format!("{quote}{quote}");
        assert!(powershell.contains(&format!(
            "'quote{index}{doubled}; $global:CjInjected=1; #{doubled}'"
        )));
    }
    let source = cj::shell::render(
        Shell::Pwsh,
        Some("/t/config's ‘left’ ‚low‛.toml"),
        &Ok("/t".to_owned()),
        None,
        &config,
        "linux",
        false,
    )
    .unwrap();
    assert!(source.contains("'/t/config''s ‘‘left’’ ‚‚low‛‛.toml'"));
    assert!(source.contains("'quote2’’; $global:CjInjected=1; #’’'"));
}
