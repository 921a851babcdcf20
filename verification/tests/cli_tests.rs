use zond::cli::{CliError, CommandLine, Commands, Config};

fn args(v: &[&str]) -> Vec<String> {
    v.iter().map(|s| s.to_string()).collect()
}

#[test]
fn parses_discover_with_targets() {
    let cl = CommandLine::parse_args(&args(&["zond", "discover", "10.0.0.0/24", "192.168.1.1"])).unwrap();
    match cl.command {
        Commands::Discover { targets } => assert_eq!(targets, vec!["10.0.0.0/24", "192.168.1.1"]),
        _ => panic!("expected discover"),
    }
    assert!(!cl.no_banner && !cl.no_dns && !cl.redact);
    assert_eq!(cl.quiet, 0);
    assert_eq!(cl.verbosity, 0);
    assert!(cl.ports.is_empty());
}

#[test]
fn parses_global_flags_on_both_sides_of_the_subcommand() {
    let cl = CommandLine::parse_args(&args(&[
        "zond", "-qq", "scan", "-p", "80,443", "--ports=22", "host", "-v", "--redact",
    ]))
    .unwrap();
    match cl.command {
        Commands::Scan { targets } => assert_eq!(targets, vec!["host"]),
        _ => panic!("expected scan"),
    }
    assert_eq!(cl.quiet, 2);
    assert_eq!(cl.verbosity, 1);
    assert!(cl.redact);
    assert_eq!(cl.ports, vec!["80", "443", "22"]);
}

#[test]
fn parses_aliases_and_clusters() {
    let cl = CommandLine::parse_args(&args(&["zond", "-np80", "i"])).unwrap();
    assert!(matches!(cl.command, Commands::Info));
    assert!(cl.no_dns);
    assert_eq!(cl.ports, vec!["80"]);
    let cl = CommandLine::parse_args(&args(&["zond", "l", "--no-banner", "-vvv"])).unwrap();
    assert!(matches!(cl.command, Commands::Listen));
    assert!(cl.no_banner);
    assert_eq!(cl.verbosity, 3);
    let cl = CommandLine::parse_args(&args(&["zond", "s", "-p=1-1024,u:53", "a"])).unwrap();
    assert_eq!(cl.ports, vec!["1-1024", "u:53"]);
    assert!(matches!(cl.command, Commands::Scan { .. }));
}

#[test]
fn double_dash_makes_arguments_positional() {
    let cl = CommandLine::parse_args(&args(&["zond", "d", "--", "-weird", "-q"])).unwrap();
    match cl.command {
        Commands::Discover { targets } => assert_eq!(targets, vec!["-weird", "-q"]),
        _ => panic!("expected discover"),
    }
    assert_eq!(cl.quiet, 0);
}

#[test]
fn quiet_count_saturates() {
    let mut v = vec!["zond".to_string()];
    for _ in 0..300 {
        v.push("-q".to_string());
    }
    v.push("info".to_string());
    let cl = CommandLine::parse_args(&v).unwrap();
    assert_eq!(cl.quiet, 255);
}

#[test]
fn reports_each_error() {
    let e = |v: &[&str]| CommandLine::parse_args(&args(v)).err().unwrap();
    assert_eq!(e(&["zond"]), CliError::MissingSubcommand);
    assert_eq!(e(&["zond", "scan"]), CliError::MissingTargets);
    assert_eq!(e(&["zond", "bogus"]), CliError::InvalidSubcommand(1));
    assert_eq!(e(&["zond", "--redact", "--redact", "info"]), CliError::RepeatedFlag(2));
    assert_eq!(e(&["zond", "-nn", "info"]), CliError::RepeatedFlag(1));
    assert_eq!(e(&["zond", "info", "-p"]), CliError::MissingValue(2));
    assert_eq!(e(&["zond", "-p", "-q", "info"]), CliError::MissingValue(1));
    assert_eq!(e(&["zond", "info", "-x"]), CliError::UnknownArgument(2));
    assert_eq!(e(&["zond", "info", "--bogus"]), CliError::UnknownArgument(2));
    assert_eq!(e(&["zond", "--no-dns=1", "info"]), CliError::UnexpectedValue(1));
    assert_eq!(e(&["zond", "-h"]), CliError::HelpRequested);
    assert_eq!(e(&["zond", "help"]), CliError::HelpRequested);
    assert_eq!(e(&["zond", "--help", "info"]), CliError::HelpRequested);
    assert_eq!(e(&["zond", "info", "extra"]), CliError::UnexpectedArgument(2));
}

#[test]
fn config_copies_the_flags() {
    let cl = CommandLine::parse_args(&args(&["zond", "--no-banner", "-n", "-q", "--redact", "info"])).unwrap();
    let cfg = Config::from(&cl);
    assert_eq!(
        cfg,
        Config { no_banner: true, no_dns: true, redact: true, quiet: 1, disable_input: false }
    );
}
