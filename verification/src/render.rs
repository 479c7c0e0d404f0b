//! Prompt rendering: a pure function from style, configuration,
//! environment snapshot and optional git status to the final prompt text.
//! Color names map to terminal escape sequences, and every escape is
//! wrapped in the shell's zero-width markers so that line editing does not
//! miscount the prompt's width.

use vstd::prelude::*;

use crate::config::{Config, ConfigView};
use crate::environ::{EnvSnapshot, EnvSnapshotView};
use crate::gitstatus::{GitStatus, GitStatusView};
use crate::strutil::{dec_str, spec_dec_str, str_eq};

verus! {

broadcast use vstd::string::group_string_axioms;

/// The closed set of prompt styles. An unrecognized style name falls back
/// to the default style.
#[derive(PartialEq, Eq, Structural, Clone, Copy, Debug)]
pub enum Style {
    Minimal,
    Info,
    Emoji,
    Default,
}

pub open spec fn spec_style_of(name: Seq<char>) -> Style {
    if name == "minimal"@ {
        Style::Minimal
    } else if name == "info"@ {
        Style::Info
    } else if name == "emoji"@ {
        Style::Emoji
    } else {
        Style::Default
    }
}

pub fn style_from_name(name: &str) -> (r: Style)
    ensures
        r == spec_style_of(name@),
{
    if str_eq(name, "minimal") {
        Style::Minimal
    } else if str_eq(name, "info") {
        Style::Info
    } else if str_eq(name, "emoji") {
        Style::Emoji
    } else {
        Style::Default
    }
}

/// A recognized color name.
pub open spec fn spec_known_color(name: Seq<char>) -> bool {
    ||| name == "black"@
    ||| name == "red"@
    ||| name == "green"@
    ||| name == "yellow"@
    ||| name == "blue"@
    ||| name == "purple"@
    ||| name == "magenta"@
    ||| name == "cyan"@
    ||| name == "white"@
    ||| name == "bright_black"@
    ||| name == "gray"@
    ||| name == "bright_red"@
    ||| name == "bright_green"@
    ||| name == "bright_yellow"@
    ||| name == "bright_blue"@
    ||| name == "bright_magenta"@
    ||| name == "bright_purple"@
    ||| name == "bright_cyan"@
    ||| name == "bright_white"@
    ||| name == "bold_black"@
    ||| name == "bold_red"@
    ||| name == "bold_green"@
    ||| name == "bold_yellow"@
    ||| name == "bold_blue"@
    ||| name == "bold_magenta"@
    ||| name == "bold_purple"@
    ||| name == "bold_cyan"@
    ||| name == "bold_white"@
}

/// The terminal escape for a color name; any unrecognized name maps to
/// bold green.
pub open spec fn spec_color_code(name: Seq<char>) -> Seq<char> {
    if name == "black"@ {
        "\x1b[30m"@
    } else if name == "red"@ {
        "\x1b[31m"@
    } else if name == "green"@ {
        "\x1b[32m"@
    } else if name == "yellow"@ {
        "\x1b[33m"@
    } else if name == "blue"@ {
        "\x1b[34m"@
    } else if name == "purple"@ || name == "magenta"@ {
        "\x1b[35m"@
    } else if name == "cyan"@ {
        "\x1b[36m"@
    } else if name == "white"@ {
        "\x1b[37m"@
    } else if name == "bright_black"@ || name == "gray"@ {
        "\x1b[90m"@
    } else if name == "bright_red"@ {
        "\x1b[91m"@
    } else if name == "bright_green"@ {
        "\x1b[92m"@
    } else if name == "bright_yellow"@ {
        "\x1b[93m"@
    } else if name == "bright_blue"@ {
        "\x1b[94m"@
    } else if name == "bright_magenta"@ || name == "bright_purple"@ {
        "\x1b[95m"@
    } else if name == "bright_cyan"@ {
        "\x1b[96m"@
    } else if name == "bright_white"@ {
        "\x1b[97m"@
    } else if name == "bold_black"@ {
        "\x1b[1;30m"@
    } else if name == "bold_red"@ {
        "\x1b[1;31m"@
    } else if name == "bold_green"@ {
        "\x1b[1;32m"@
    } else if name == "bold_yellow"@ {
        "\x1b[1;33m"@
    } else if name == "bold_blue"@ {
        "\x1b[1;34m"@
    } else if name == "bold_magenta"@ || name == "bold_purple"@ {
        "\x1b[1;35m"@
    } else if name == "bold_cyan"@ {
        "\x1b[1;36m"@
    } else if name == "bold_white"@ {
        "\x1b[1;37m"@
    } else {
        "\x1b[1;32m"@
    }
}

/// Unknown-color law: a name outside the recognized set renders with the
/// same escape as bold green.
pub proof fn lemma_unknown_color_is_bold_green(name: Seq<char>)
    requires
        !spec_known_color(name),
    ensures
        spec_color_code(name) == spec_color_code("bold_green"@),
{
    reveal_strlit("black");
    assert("black"@ =~= seq!['b', 'l', 'a', 'c', 'k']);
    reveal_strlit("red");
    assert("red"@ =~= seq!['r', 'e', 'd']);
    reveal_strlit("green");
    assert("green"@ =~= seq!['g', 'r', 'e', 'e', 'n']);
    reveal_strlit("yellow");
    assert("yellow"@ =~= seq!['y', 'e', 'l', 'l', 'o', 'w']);
    reveal_strlit("blue");
    assert("blue"@ =~= seq!['b', 'l', 'u', 'e']);
    reveal_strlit("purple");
    assert("purple"@ =~= seq!['p', 'u', 'r', 'p', 'l', 'e']);
    reveal_strlit("magenta");
    assert("magenta"@ =~= seq!['m', 'a', 'g', 'e', 'n', 't', 'a']);
    reveal_strlit("cyan");
    assert("cyan"@ =~= seq!['c', 'y', 'a', 'n']);
    reveal_strlit("white");
    assert("white"@ =~= seq!['w', 'h', 'i', 't', 'e']);
    reveal_strlit("bright_black");
    assert("bright_black"@ =~= seq!['b', 'r', 'i', 'g', 'h', 't', '_', 'b', 'l', 'a', 'c', 'k']);
    reveal_strlit("gray");
    assert("gray"@ =~= seq!['g', 'r', 'a', 'y']);
    reveal_strlit("bright_red");
    assert("bright_red"@ =~= seq!['b', 'r', 'i', 'g', 'h', 't', '_', 'r', 'e', 'd']);
    reveal_strlit("bright_green");
    assert("bright_green"@ =~= seq!['b', 'r', 'i', 'g', 'h', 't', '_', 'g', 'r', 'e', 'e', 'n']);
    reveal_strlit("bright_yellow");
    assert("bright_yellow"@ =~= seq!['b', 'r', 'i', 'g', 'h', 't', '_', 'y', 'e', 'l', 'l', 'o', 'w']);
    reveal_strlit("bright_blue");
    assert("bright_blue"@ =~= seq!['b', 'r', 'i', 'g', 'h', 't', '_', 'b', 'l', 'u', 'e']);
    reveal_strlit("bright_magenta");
    assert("bright_magenta"@ =~= seq!['b', 'r', 'i', 'g', 'h', 't', '_', 'm', 'a', 'g', 'e', 'n', 't', 'a']);
    reveal_strlit("bright_purple");
    assert("bright_purple"@ =~= seq!['b', 'r', 'i', 'g', 'h', 't', '_', 'p', 'u', 'r', 'p', 'l', 'e']);
    reveal_strlit("bright_cyan");
    assert("bright_cyan"@ =~= seq!['b', 'r', 'i', 'g', 'h', 't', '_', 'c', 'y', 'a', 'n']);
    reveal_strlit("bright_white");
    assert("bright_white"@ =~= seq!['b', 'r', 'i', 'g', 'h', 't', '_', 'w', 'h', 'i', 't', 'e']);
    reveal_strlit("bold_black");
    assert("bold_black"@ =~= seq!['b', 'o', 'l', 'd', '_', 'b', 'l', 'a', 'c', 'k']);
    reveal_strlit("bold_red");
    assert("bold_red"@ =~= seq!['b', 'o', 'l', 'd', '_', 'r', 'e', 'd']);
    reveal_strlit("bold_green");
    assert("bold_green"@ =~= seq!['b', 'o', 'l', 'd', '_', 'g', 'r', 'e', 'e', 'n']);
}

pub fn color_code(name: &str) -> (r: &'static str)
    ensures
        r@ == spec_color_code(name@),
{
    if str_eq(name, "black") {
        "\x1b[30m"
    } else if str_eq(name, "red") {
        "\x1b[31m"
    } else if str_eq(name, "green") {
        "\x1b[32m"
    } else if str_eq(name, "yellow") {
        "\x1b[33m"
    } else if str_eq(name, "blue") {
        "\x1b[34m"
    } else if str_eq(name, "purple") || str_eq(name, "magenta") {
        "\x1b[35m"
    } else if str_eq(name, "cyan") {
        "\x1b[36m"
    } else if str_eq(name, "white") {
        "\x1b[37m"
    } else if str_eq(name, "bright_black") || str_eq(name, "gray") {
        "\x1b[90m"
    } else if str_eq(name, "bright_red") {
        "\x1b[91m"
    } else if str_eq(name, "bright_green") {
        "\x1b[92m"
    } else if str_eq(name, "bright_yellow") {
        "\x1b[93m"
    } else if str_eq(name, "bright_blue") {
        "\x1b[94m"
    } else if str_eq(name, "bright_magenta") || str_eq(name, "bright_purple") {
        "\x1b[95m"
    } else if str_eq(name, "bright_cyan") {
        "\x1b[96m"
    } else if str_eq(name, "bright_white") {
        "\x1b[97m"
    } else if str_eq(name, "bold_black") {
        "\x1b[1;30m"
    } else if str_eq(name, "bold_red") {
        "\x1b[1;31m"
    } else if str_eq(name, "bold_green") {
        "\x1b[1;32m"
    } else if str_eq(name, "bold_yellow") {
        "\x1b[1;33m"
    } else if str_eq(name, "bold_blue") {
        "\x1b[1;34m"
    } else if str_eq(name, "bold_magenta") || str_eq(name, "bold_purple") {
        "\x1b[1;35m"
    } else if str_eq(name, "bold_cyan") {
        "\x1b[1;36m"
    } else if str_eq(name, "bold_white") {
        "\x1b[1;37m"
    } else {
        "\x1b[1;32m"
    }
}

/// An escape sequence wrapped in the shell's zero-width markers.
pub open spec fn spec_bash_color(code: Seq<char>) -> Seq<char> {
    "\\["@ + code + "\\]"@
}

pub fn bash_color(ansi_code: &str) -> (r: String)
    ensures
        r@ == spec_bash_color(ansi_code@),
{
    let mut out = String::from_str("\\[");
    out.append(ansi_code);
    out.append("\\]");
    out
}

/// The wrapped reset escape that closes every colored segment.
pub open spec fn spec_reset() -> Seq<char> {
    spec_bash_color("\x1b[0m"@)
}

/// A piece of text colored by name and closed by a reset.
pub open spec fn spec_segment(color_name: Seq<char>, text: Seq<char>) -> Seq<char> {
    spec_bash_color(spec_color_code(color_name)) + text + spec_reset()
}

pub fn colored_segment(color_name: &str, text: &str) -> (r: String)
    ensures
        r@ == spec_segment(color_name@, text@),
{
    let mut out = bash_color(color_code(color_name));
    out.append(text);
    let reset = bash_color("\x1b[0m");
    out.append(reset.as_str());
    out
}

/// The branch part of the git segment.
pub open spec fn spec_branch_info(style: Style, c: ConfigView, g: GitStatusView) -> Seq<char> {
    if style is Emoji {
        " \u{1f516} "@ + g.branch
    } else {
        " ("@ + spec_bash_color(spec_color_code(c.colors.git_branch)) + g.branch + spec_reset()
            + ")"@
    }
}

/// The ahead indicator, present only for a nonzero count.
pub open spec fn spec_ahead_info(style: Style, g: GitStatusView) -> Seq<char> {
    if g.ahead > 0 {
        if style is Emoji {
            " \u{2191}"@ + spec_dec_str(g.ahead)
        } else {
            " "@ + spec_bash_color("\x1b[01;33m"@) + "\u{2191}"@ + spec_dec_str(g.ahead)
                + spec_reset()
        }
    } else {
        Seq::<char>::empty()
    }
}

/// The behind indicator, present only for a nonzero count.
pub open spec fn spec_behind_info(style: Style, g: GitStatusView) -> Seq<char> {
    if g.behind > 0 {
        if style is Emoji {
            " \u{2193}"@ + spec_dec_str(g.behind)
        } else {
            " "@ + spec_bash_color("\x1b[01;35m"@) + "\u{2193}"@ + spec_dec_str(g.behind)
                + spec_reset()
        }
    } else {
        Seq::<char>::empty()
    }
}

/// The dirty marker, present only for a dirty tree.
pub open spec fn spec_dirty_info(style: Style, c: ConfigView, g: GitStatusView) -> Seq<char> {
    if g.dirty {
        if style is Emoji {
            " \u{1f534}"@
        } else {
            spec_bash_color(spec_color_code(c.colors.git_dirty)) + "*"@ + spec_reset()
        }
    } else {
        Seq::<char>::empty()
    }
}

/// The git part of a prompt: the branch, then an ahead and a behind
/// indicator when the counts are nonzero, then a dirty marker.
pub open spec fn spec_git_segment(style: Style, c: ConfigView, g: GitStatusView) -> Seq<char> {
    spec_branch_info(style, c, g) + spec_ahead_info(style, g) + spec_behind_info(style, g)
        + spec_dirty_info(style, c, g)
}

#[verifier::rlimit(100)]
#[verifier::spinoff_prover]
pub fn git_segment(style: Style, config: &Config, g: &GitStatus) -> (r: String)
    ensures
        r@ == spec_git_segment(style, config@, g@),
{
    let is_emoji = matches!(style, Style::Emoji);
    let reset = bash_color("\x1b[0m");
    let mut out: String;
    if is_emoji {
        out = String::from_str(" \u{1f516} ");
        out.append(g.branch.as_str());
    } else {
        out = String::from_str(" (");
        let bc = bash_color(color_code(config.colors.git_branch.as_str()));
        out.append(bc.as_str());
        out.append(g.branch.as_str());
        out.append(reset.as_str());
        out.append(")");
    }
    proof {
        assert(out@ =~= spec_branch_info(style, config@, g@));
    }
    if g.ahead > 0 {
        let n = dec_str(g.ahead);
        if is_emoji {
            out.append(" \u{2191}");
            out.append(n.as_str());
        } else {
            out.append(" ");
            let ac = bash_color("\x1b[01;33m");
            out.append(ac.as_str());
            out.append("\u{2191}");
            out.append(n.as_str());
            out.append(reset.as_str());
        }
    }
    proof {
        assert(out@ =~= spec_branch_info(style, config@, g@) + spec_ahead_info(style, g@));
    }
    if g.behind > 0 {
        let n = dec_str(g.behind);
        if is_emoji {
            out.append(" \u{2193}");
            out.append(n.as_str());
        } else {
            out.append(" ");
            let bc = bash_color("\x1b[01;35m");
            out.append(bc.as_str());
            out.append("\u{2193}");
            out.append(n.as_str());
            out.append(reset.as_str());
        }
    }
    proof {
        assert(out@ =~= spec_branch_info(style, config@, g@) + spec_ahead_info(style, g@)
            + spec_behind_info(style, g@));
    }
    if g.dirty {
        if is_emoji {
            out.append(" \u{1f534}");
        } else {
            let dc = bash_color(color_code(config.colors.git_dirty.as_str()));
            out.append(dc.as_str());
            out.append("*");
            out.append(reset.as_str());
        }
    }
    proof {
        assert(out@ =~= spec_git_segment(style, config@, g@));
    }
    out
}

/// Whether a prompt for this style and configuration shows git
/// information at all — when it does not, the caller need not probe the
/// repository.
pub fn wants_git(style: &str, config: &Config) -> (r: bool)
    ensures
        r == (spec_style_of(style@) !is Minimal && config@.show_git),
{
    !str_eq(style, "minimal") && config.show_git
}

/// The whole prompt for one style. The minimal style is a bare prompt
/// marker whatever the configuration and git state; the other styles
/// compose colored segments and the git part.
pub open spec fn spec_render_prompt(
    style: Seq<char>,
    c: ConfigView,
    snap: EnvSnapshotView,
    git: Option<GitStatusView>,
) -> Seq<char> {
    let st = spec_style_of(style);
    let git_text = if st !is Minimal && c.show_git {
        match git {
            Some(g) => spec_git_segment(st, c, g),
            None => Seq::<char>::empty(),
        }
    } else {
        Seq::<char>::empty()
    };
    match st {
        Style::Minimal => "$ "@,
        Style::Info => "["@ + spec_segment(c.colors.time, snap.time) + "] "@ + spec_segment(
            c.colors.username,
            snap.username,
        ) + "@"@ + spec_segment(c.colors.hostname, snap.hostname) + ": "@ + spec_segment(
            c.colors.directory,
            snap.directory,
        ) + git_text + " $ "@,
        Style::Emoji => "\u{1f552} "@ + snap.time + " \u{1f464} "@ + snap.username
            + " \u{1f5a5}\u{fe0f}  "@ + snap.hostname + " \u{1f4c1} "@ + snap.directory + git_text
            + " \u{27a1}\u{fe0f}  "@,
        Style::Default => spec_segment(c.colors.username, snap.username) + "@"@ + spec_segment(
            c.colors.hostname,
            snap.hostname,
        ) + ":"@ + spec_segment(c.colors.directory, snap.directory) + git_text + " $ "@,
    }
}

/// The git status views behind an optional borrowed status.
pub open spec fn spec_git_view(git: Option<&GitStatus>) -> Option<GitStatusView> {
    match git {
        Some(g) => Some(g@),
        None => None,
    }
}

/// Render the prompt for a style name. The minimal style yields exactly
/// the bare prompt marker, whatever the configuration and git state.
#[verifier::rlimit(100)]
#[verifier::spinoff_prover]
pub fn generate_prompt(style: &str, config: &Config, snap: &EnvSnapshot, git: Option<&GitStatus>) -> (r:
    String)
    ensures
        r@ == spec_render_prompt(style@, config@, snap@, spec_git_view(git)),
        spec_style_of(style@) is Minimal ==> r@ == "$ "@,
{
    let st = style_from_name(style);
    if matches!(st, Style::Minimal) {
        return String::from_str("$ ");
    }
    let git_text: String = if config.show_git {
        match git {
            Some(g) => git_segment(st, config, g),
            None => String::new(),
        }
    } else {
        String::new()
    };
    match st {
        Style::Minimal => String::from_str("$ "),
        Style::Info => {
            let mut out = String::from_str("[");
            let t = colored_segment(config.colors.time.as_str(), snap.time.as_str());
            out.append(t.as_str());
            out.append("] ");
            let u = colored_segment(config.colors.username.as_str(), snap.username.as_str());
            out.append(u.as_str());
            out.append("@");
            let h = colored_segment(config.colors.hostname.as_str(), snap.hostname.as_str());
            out.append(h.as_str());
            out.append(": ");
            let d = colored_segment(config.colors.directory.as_str(), snap.directory.as_str());
            out.append(d.as_str());
            out.append(git_text.as_str());
            out.append(" $ ");
            proof {
                assert(out@ =~= spec_render_prompt(style@, config@, snap@, spec_git_view(git)));
            }
            out
        },
        Style::Emoji => {
            let mut out = String::from_str("\u{1f552} ");
            out.append(snap.time.as_str());
            out.append(" \u{1f464} ");
            out.append(snap.username.as_str());
            out.append(" \u{1f5a5}\u{fe0f}  ");
            out.append(snap.hostname.as_str());
            out.append(" \u{1f4c1} ");
            out.append(snap.directory.as_str());
            out.append(git_text.as_str());
            out.append(" \u{27a1}\u{fe0f}  ");
            proof {
                assert(out@ =~= spec_render_prompt(style@, config@, snap@, spec_git_view(git)));
            }
            out
        },
        Style::Default => {
            let mut out = colored_segment(config.colors.username.as_str(), snap.username.as_str());
            out.append("@");
            let h = colored_segment(config.colors.hostname.as_str(), snap.hostname.as_str());
            out.append(h.as_str());
            out.append(":");
            let d = colored_segment(config.colors.directory.as_str(), snap.directory.as_str());
            out.append(d.as_str());
            out.append(git_text.as_str());
            out.append(" $ ");
            proof {
                assert(out@ =~= spec_render_prompt(style@, config@, snap@, spec_git_view(git)));
            }
            out
        },
    }
}

/// The style a prompt request resolves to: the command-line style when it
/// is not the default name, else the configured style.
pub fn choose_style(arg_style: &str, config_style: &str) -> (r: String)
    ensures
        arg_style@ != "default"@ ==> r@ == arg_style@,
        arg_style@ == "default"@ ==> r@ == config_style@,
{
    if str_eq(arg_style, "default") {
        config_style.to_owned()
    } else {
        arg_style.to_owned()
    }
}

/// The version text: the package version, with the short commit hash in
/// parentheses when one could be resolved.
pub fn get_full_version(version: &str, sha: Option<String>) -> (r: String)
    ensures
        match sha {
            Some(s) => r@ == version@ + " ("@ + s@ + ")"@,
            None => r@ == version@,
        },
{
    match sha {
        Some(s) => {
            let mut out = version.to_owned();
            out.append(" (");
            out.append(s.as_str());
            out.append(")");
            proof {
                assert(out@ =~= version@ + " ("@ + s@ + ")"@);
            }
            out
        },
        None => version.to_owned(),
    }
}

} // verus!
