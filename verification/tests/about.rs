use lcli::about::handle_about_command;
use lcli::cli::{Cli, Commands};

#[test]
fn the_about_screen_has_title_and_body() {
    let (title, body) = handle_about_command();
    assert_eq!(title, "Lagos Command Line Interface - lcli");
    assert_eq!(
        body,
        "Version: 0.1.0\nAuthor: lhagfoss\n\nWebsite: https://lhagfoss.com\nGithub: https://github.com/lhagfoss"
    );
}

#[test]
fn a_command_line_carries_its_subcommand() {
    let cli = Cli { command: Some(Commands::List { path: Some(String::from("C:\\")) }), json: true };
    assert!(cli.json);
    match cli.command {
        Some(Commands::List { path }) => assert_eq!(path.as_deref(), Some("C:\\")),
        _ => unreachable!(),
    }
    let none = Cli { command: None, json: false };
    assert!(none.command.is_none());
}
