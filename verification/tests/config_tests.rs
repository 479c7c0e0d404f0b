use loco_pilot::config::{Config, ColorConfig};

fn create_mock_config() -> Config {
    Config {
        style: "test_style".to_string(),
        show_git: true,
        colors: ColorConfig {
            username: "test_green".to_string(),
            hostname: "test_yellow".to_string(),
            directory: "test_cyan".to_string(),
            git_branch: "test_green".to_string(),
            git_dirty: "test_red".to_string(),
            time: "test_blue".to_string(),
        },
    }
}

#[test]
fn test_config_default() {
    // Test default configuration values
    let config = Config::default();
    assert_eq!(config.style, "default");
    assert_eq!(config.show_git, true);
    assert_eq!(config.colors.username, "green");
    assert_eq!(config.colors.hostname, "yellow");
    assert_eq!(config.colors.directory, "cyan");
    assert_eq!(config.colors.git_branch, "green");
    assert_eq!(config.colors.git_dirty, "red");
    assert_eq!(config.colors.time, "blue");
}

#[test]
fn test_mock_config() {
    let mock_config = create_mock_config();

    assert_eq!(mock_config.style, "test_style");
    assert_eq!(mock_config.show_git, true);
    assert_eq!(mock_config.colors.username, "test_green");
    assert_eq!(mock_config.colors.hostname, "test_yellow");
    assert_eq!(mock_config.colors.directory, "test_cyan");
    assert_eq!(mock_config.colors.git_branch, "test_green");
    assert_eq!(mock_config.colors.git_dirty, "test_red");
    assert_eq!(mock_config.colors.time, "test_blue");
}

#[test]
fn test_emit_default_text() {
    let text = Config::default().emit();
    let expected = "style = \"default\"\nshow_git = true\n\n[colors]\nusername = \"green\"\nhostname = \"yellow\"\ndirectory = \"cyan\"\ngit_branch = \"green\"\ngit_dirty = \"red\"\ntime = \"blue\"\n";
    assert_eq!(text, expected);
}

#[test]
fn test_parse_emitted_text_round_trip() {
    let mut c = Config::default();
    assert!(c.set_key("style", "emoji"));
    assert!(c.set_key("color.username", "magenta"));
    let text = c.emit();
    let back = loco_pilot::config::parse_config(&text);
    assert_eq!(back.style, "emoji");
    assert_eq!(back.show_git, true);
    assert_eq!(back.colors.username, "magenta");
    assert_eq!(back.colors.hostname, "yellow");
    assert_eq!(back.colors.directory, "cyan");
    assert_eq!(back.colors.git_branch, "green");
    assert_eq!(back.colors.git_dirty, "red");
    assert_eq!(back.colors.time, "blue");
}

#[test]
fn test_round_trip_after_update_keeps_other_fields() {
    let mut c = Config::default();
    assert!(c.set_key("color.time", "bright_blue"));
    let reloaded = loco_pilot::config::parse_config(&c.emit());
    assert_eq!(reloaded.colors.time, "bright_blue");
    assert_eq!(reloaded.style, "default");
    assert_eq!(reloaded.show_git, true);
    assert_eq!(reloaded.colors.username, "green");
}

#[test]
fn test_unknown_key_changes_nothing() {
    let mut c = Config::default();
    let before = c.emit();
    let recognized = c.set_key("nonsense.key", "x");
    assert!(!recognized);
    let after = c.emit();
    assert_eq!(before, after);
    assert_eq!(c.style, "default");
}

#[test]
fn test_set_show_git_values() {
    let mut c = Config::default();
    assert!(c.set_key("show_git", "false"));
    assert_eq!(c.show_git, false);
    assert!(c.set_key("show_git", "True"));
    assert_eq!(c.show_git, true);
    assert!(c.set_key("show_git", "anything"));
    assert_eq!(c.show_git, false);
}

#[test]
fn test_parse_partial_file_takes_defaults() {
    let c = loco_pilot::config::parse_config("style = \"emoji\"\n");
    assert_eq!(c.style, "emoji");
    assert_eq!(c.show_git, true);
    assert_eq!(c.colors.username, "green");
}

#[test]
fn test_parse_ignores_unknown_fields_and_garbage() {
    let text = "style = \"info\"\nwhatever = 3\n<<garbage>>\n\n[colors]\nusername = \"red\"\nunknown = \"x\"\n";
    let c = loco_pilot::config::parse_config(&text);
    assert_eq!(c.style, "info");
    assert_eq!(c.colors.username, "red");
    assert_eq!(c.colors.hostname, "yellow");
}

#[test]
fn test_parse_unreadable_file_gives_defaults() {
    let c = loco_pilot::config::config_from_file(None);
    assert_eq!(c.style, "default");
    assert_eq!(c.show_git, true);
}

#[test]
fn test_parse_show_git_false_file() {
    let c = loco_pilot::config::parse_config("show_git = false\n");
    assert_eq!(c.show_git, false);
    assert_eq!(c.style, "default");
}
