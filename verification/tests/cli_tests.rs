use rusty_server::cli::Cli;

#[test]
fn cli_defaults_apply() {
    let cli = Cli { root: None, port: None };

    assert_eq!(cli.effective_port(), 8080);
    assert_eq!(cli.effective_root(), "static");
}

#[test]
fn cli_configured_values_win() {
    let cli = Cli { root: Some("www".to_string()), port: Some(7878) };

    assert_eq!(cli.effective_port(), 7878);
    assert_eq!(cli.effective_root(), "www");
}

#[test]
fn cli_default_trait_leaves_both_unset() {
    let cli = Cli::default();

    assert!(cli.root.is_none());
    assert!(cli.port.is_none());
}
