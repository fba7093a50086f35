use base_framework::database::{
    default_command_mappings, mapping_details, mapping_table, CommandMapping,
};

#[test]
fn default_mappings() {
    let ms = default_command_mappings();
    let rows: Vec<(&str, &str, &str, bool)> = ms
        .iter()
        .map(|m| (m.command.as_str(), m.action.as_str(), m.description.as_str(), m.enabled))
        .collect();
    assert_eq!(
        rows,
        vec![
            ("version", "show_version", "Display version information", true),
            ("help", "show_help", "Display help information", true),
            ("sysinfo", "call_sysinfo_dll", "Display system information", true),
            ("status", "show_status", "Display framework status", true),
        ]
    );
}

#[test]
fn enabled_column_round_trip() {
    let m = CommandMapping::from_row("t".to_string(), "a".to_string(), "d".to_string(), 1);
    assert!(m.enabled);
    assert_eq!(m.enabled_flag(), 1);
    let m = CommandMapping::from_row("t".to_string(), "a".to_string(), "d".to_string(), 0);
    assert!(!m.enabled);
    assert_eq!(m.enabled_flag(), 0);
    let m = CommandMapping::from_row("t".to_string(), "a".to_string(), "d".to_string(), -7);
    assert!(m.enabled);
    assert_eq!(m.command, "t");
}

#[test]
fn mapping_table_lines_match_the_listing_format() {
    let mut ms = default_command_mappings();
    ms.push(CommandMapping::from_row(
        "a-command-name-that-is-long".to_string(),
        "act".to_string(),
        "désc".to_string(),
        0,
    ));
    let lines = mapping_table(&ms);
    assert_eq!(lines.len(), ms.len() + 3);
    assert_eq!(lines[0], "=== Command Mappings ===");
    assert_eq!(
        lines[1],
        format!("{:<20} {:<25} {:<30} {}", "Command", "Action", "Description", "Enabled")
    );
    assert_eq!(lines[2], "-".repeat(80));
    for (m, line) in ms.iter().zip(&lines[3..]) {
        let expected = format!(
            "{:<20} {:<25} {:<30} {}",
            m.command,
            m.action,
            m.description,
            if m.enabled { "Yes" } else { "No" }
        );
        assert_eq!(*line, expected);
    }
    assert_eq!(
        lines[3],
        "version              show_version              Display version information    Yes"
    );
}

#[test]
fn mapping_details_of_found_and_missing_commands() {
    let m = CommandMapping::from_row("help".to_string(), "show_help".to_string(), "Help".to_string(), 1);
    assert_eq!(
        mapping_details("help", Some(&m)),
        vec!["Command:     help", "Action:      show_help", "Description: Help", "Enabled:     Yes"]
    );
    assert_eq!(mapping_details("nope", None), vec!["Command 'nope' not found."]);
}
