use base_framework::cli::{Cli, CommandCommands, Commands};

#[test]
fn test_cli_version_flag() {
    let cli = Cli { command: None, version_flag: true, help_flag: false };
    assert_eq!(cli.get_command_name(), Some("version".to_string()));
}

#[test]
fn test_cli_help_flag() {
    let cli = Cli { command: None, version_flag: false, help_flag: true };
    assert_eq!(cli.get_command_name(), Some("help".to_string()));
}

#[test]
fn test_cli_version_command() {
    let cli = Cli { command: Some(Commands::Version), version_flag: false, help_flag: false };
    assert_eq!(cli.get_command_name(), Some("version".to_string()));
}

#[test]
fn version_flag_wins_over_help_flag_and_command() {
    let cli = Cli { command: Some(Commands::List), version_flag: true, help_flag: true };
    assert_eq!(cli.get_command_name(), Some("version".to_string()));
    let cli = Cli { command: Some(Commands::List), version_flag: false, help_flag: true };
    assert_eq!(cli.get_command_name(), Some("help".to_string()));
}

#[test]
fn every_command_has_its_name() {
    let cases = vec![
        (Commands::Help, "help"),
        (Commands::Sysinfo, "sysinfo"),
        (Commands::Status, "status"),
        (Commands::Command(CommandCommands::List), "command"),
        (
            Commands::Command(CommandCommands::Add {
                command: "a".to_string(),
                action: "b".to_string(),
                description: String::new(),
            }),
            "command",
        ),
        (Commands::Load { name: "n".to_string(), path: "p".to_string() }, "load"),
        (Commands::Unload { name: "n".to_string() }, "unload"),
        (Commands::List, "list"),
    ];
    for (command, name) in cases {
        let cli = Cli { command: Some(command), version_flag: false, help_flag: false };
        assert_eq!(cli.get_command_name(), Some(name.to_string()));
    }
}

#[test]
fn no_command_and_no_flag_has_no_name() {
    let cli = Cli { command: None, version_flag: false, help_flag: false };
    assert_eq!(cli.get_command_name(), None);
}
