use gaia::cli::{help_page, parse_args, Command, HelpPage, UsageError};

fn args(list: &[&str]) -> Vec<String> {
    let mut v = vec!["gaia".to_string()];
    v.extend(list.iter().map(|s| s.to_string()));
    v
}

#[test]
fn no_operation() {
    let e = parse_args(&args(&[])).err().unwrap();
    assert!(matches!(e, UsageError::NoOperation));
    assert_eq!(e.message(), "No operation specified");
    assert_eq!(e.exit_code(), 3);
}

#[test]
fn unknown_subcommand() {
    let e = parse_args(&args(&["upgrade"])).err().unwrap();
    assert_eq!(e.message(), "upgrade is not a valid subcommand");
}

#[test]
fn install_needs_an_application() {
    let e = parse_args(&args(&["install"])).err().unwrap();
    assert!(matches!(e, UsageError::NoApplication));
    assert_eq!(e.message(), "No application specified");
}

#[test]
fn install_rejects_names_without_exactly_one_slash() {
    for bad in ["gump", "a/b/c", "ralyrona//gump"] {
        let e = parse_args(&args(&["install", bad])).err().unwrap();
        assert_eq!(
            e.message(),
            format!("{} is not a valid application name. Run 'gaia help install' for more information.", bad)
        );
    }
}

#[test]
fn install_and_override() {
    match parse_args(&args(&["install", "ralyrona/gump"])).ok().unwrap() {
        Command::Install { app, repo, overwrite } => {
            assert_eq!(app, "ralyrona/gump");
            assert_eq!(repo.owner, "ralyrona");
            assert_eq!(repo.name, "gump");
            assert!(!overwrite);
        }
        _ => panic!("expected install"),
    }
    match parse_args(&args(&["override", "fish-shell/fish-shell", "extra"])).ok().unwrap() {
        Command::Install { repo, overwrite, .. } => {
            assert_eq!(repo.owner, "fish-shell");
            assert_eq!(repo.name, "fish-shell");
            assert!(overwrite);
        }
        _ => panic!("expected override"),
    }
}

#[test]
fn remove_keeps_the_name_and_shows_the_repository() {
    match parse_args(&args(&["remove", "Ralyrona/Gump"])).ok().unwrap() {
        Command::Remove { app, display_name } => {
            assert_eq!(app, "Ralyrona/Gump");
            assert_eq!(display_name, "Gump");
        }
        _ => panic!("expected remove"),
    }
    assert!(matches!(parse_args(&args(&["remove"])).err().unwrap(), UsageError::NoApplication));
}

#[test]
fn setup_help_and_test() {
    assert!(matches!(parse_args(&args(&["setup"])).ok().unwrap(), Command::Setup));
    let e = parse_args(&args(&["setup", "now"])).err().unwrap();
    assert_eq!(e.message(), "Subcommand setup needs no additional arguments");
    match parse_args(&args(&["help"])).ok().unwrap() {
        Command::Help { topic } => assert!(topic.is_none()),
        _ => panic!("expected help"),
    }
    match parse_args(&args(&["help", "remove"])).ok().unwrap() {
        Command::Help { topic } => assert_eq!(topic.unwrap(), "remove"),
        _ => panic!("expected help"),
    }
    assert!(matches!(parse_args(&args(&["test"])).ok().unwrap(), Command::Test));
}

#[test]
fn help_pages() {
    assert!(matches!(help_page(None), Some(HelpPage::Overview)));
    assert!(matches!(help_page(Some("install")), Some(HelpPage::Install)));
    assert!(matches!(help_page(Some("remove")), Some(HelpPage::Remove)));
    assert!(help_page(Some("override")).is_none());
}
