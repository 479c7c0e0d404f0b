use loco_pilot::config::Config;
use loco_pilot::environ::EnvSnapshot;
use loco_pilot::gitstatus::parse_status_output;
use loco_pilot::render::{bash_color, color_code, generate_prompt, wants_git, choose_style, get_full_version};

fn snapshot() -> EnvSnapshot {
    EnvSnapshot {
        username: "alice".to_string(),
        hostname: "box".to_string(),
        directory: "~/code".to_string(),
        time: "12:34:56".to_string(),
    }
}

#[test]
fn test_color_mapping() {
    let green_code = "\x1b[32m";
    let result = bash_color(green_code);
    assert_eq!(result, "\\[\x1b[32m\\]");
}

#[test]
fn test_bash_color() {
    let color_code = "\x1b[32m"; // Green
    let bash_escaped = bash_color(color_code);
    assert_eq!(bash_escaped, "\\[\x1b[32m\\]");
}

#[test]
fn test_color_table() {
    assert_eq!(color_code("green"), "\x1b[32m");
    assert_eq!(color_code("red"), "\x1b[31m");
    assert_eq!(color_code("magenta"), "\x1b[35m");
    assert_eq!(color_code("purple"), "\x1b[35m");
    assert_eq!(color_code("gray"), "\x1b[90m");
    assert_eq!(color_code("bold_yellow"), "\x1b[1;33m");
    assert_eq!(color_code("bright_white"), "\x1b[97m");
}

#[test]
fn test_unknown_color_falls_back_to_bold_green() {
    assert_eq!(color_code("chartreuse"), color_code("bold_green"));
    assert_eq!(color_code("chartreuse"), "\x1b[1;32m");
}

#[test]
fn test_minimal_style_is_bare_marker() {
    let config = Config::default();
    let dirty = parse_status_output("# branch.head main\n? x\n");
    assert_eq!(generate_prompt("minimal", &config, &snapshot(), Some(&dirty)), "$ ");
    let mut hidden = Config::default();
    hidden.set_key("show_git", "false");
    assert_eq!(generate_prompt("minimal", &hidden, &snapshot(), None), "$ ");
}

#[test]
fn test_minimal_style_needs_no_probe() {
    let config = Config::default();
    assert!(!wants_git("minimal", &config));
    assert!(wants_git("info", &config));
    let mut hidden = Config::default();
    hidden.set_key("show_git", "false");
    assert!(!wants_git("info", &hidden));
}

#[test]
fn test_default_style_layout() {
    let mut config = Config::default();
    config.set_key("show_git", "false");
    let p = generate_prompt("default", &config, &snapshot(), None);
    let expected = "\\[\x1b[32m\\]alice\\[\x1b[0m\\]@\\[\x1b[33m\\]box\\[\x1b[0m\\]:\\[\x1b[36m\\]~/code\\[\x1b[0m\\] $ ";
    assert_eq!(p, expected);
}

#[test]
fn test_info_style_layout() {
    let mut config = Config::default();
    config.set_key("show_git", "false");
    let p = generate_prompt("info", &config, &snapshot(), None);
    let expected = "[\\[\x1b[34m\\]12:34:56\\[\x1b[0m\\]] \\[\x1b[32m\\]alice\\[\x1b[0m\\]@\\[\x1b[33m\\]box\\[\x1b[0m\\]: \\[\x1b[36m\\]~/code\\[\x1b[0m\\] $ ";
    assert_eq!(p, expected);
}

#[test]
fn test_default_style_git_segment() {
    let config = Config::default();
    let st = parse_status_output("# branch.head main\n# branch.ab -1 +2\n? x\n");
    let p = generate_prompt("default", &config, &snapshot(), Some(&st));
    let expected = "\\[\x1b[32m\\]alice\\[\x1b[0m\\]@\\[\x1b[33m\\]box\\[\x1b[0m\\]:\\[\x1b[36m\\]~/code\\[\x1b[0m\\] (\\[\x1b[32m\\]main\\[\x1b[0m\\]) \\[\x1b[01;33m\\]\u{2191}2\\[\x1b[0m\\] \\[\x1b[01;35m\\]\u{2193}1\\[\x1b[0m\\]\\[\x1b[31m\\]*\\[\x1b[0m\\] $ ";
    assert_eq!(p, expected);
}

#[test]
fn test_emoji_style_layout() {
    let config = Config::default();
    let st = parse_status_output("# branch.head main\n# branch.ab -1 +2\n? x\n");
    let p = generate_prompt("emoji", &config, &snapshot(), Some(&st));
    let expected = "\u{1f552} 12:34:56 \u{1f464} alice \u{1f5a5}\u{fe0f}  box \u{1f4c1} ~/code \u{1f516} main \u{2191}2 \u{2193}1 \u{1f534} \u{27a1}\u{fe0f}  ";
    assert_eq!(p, expected);
}

#[test]
fn test_show_git_false_suppresses_segment() {
    let mut config = Config::default();
    config.set_key("show_git", "false");
    let st = parse_status_output("# branch.head main\n? x\n");
    let with = generate_prompt("default", &config, &snapshot(), Some(&st));
    let without = generate_prompt("default", &config, &snapshot(), None);
    assert_eq!(with, without);
}

#[test]
fn test_unknown_style_renders_default_layout() {
    let mut config = Config::default();
    config.set_key("show_git", "false");
    let a = generate_prompt("zebra", &config, &snapshot(), None);
    let b = generate_prompt("default", &config, &snapshot(), None);
    assert_eq!(a, b);
}

#[test]
fn test_choose_style() {
    assert_eq!(choose_style("default", "emoji"), "emoji");
    assert_eq!(choose_style("info", "emoji"), "info");
}

#[test]
fn test_full_version_text() {
    assert_eq!(get_full_version("1.2.3", Some("abc1234".to_string())), "1.2.3 (abc1234)");
    assert_eq!(get_full_version("1.2.3", None), "1.2.3");
}
