//! Environment facts for one prompt rendering: username, hostname,
//! current directory and wall-clock time, as plain strings. The rules for
//! abbreviating a directory path, substituting the home directory, and
//! choosing a hostname source live here; the operating-system lookups
//! themselves stay with the caller or behind the two trusted wrappers.

use vstd::prelude::*;

use crate::strutil::{
    has_prefix, is_digit, spec_has_prefix, spec_split, spec_trim, split_str, trim_str, views,
};

verus! {

broadcast use vstd::string::group_string_axioms;

/// One observation of the environment.
pub struct EnvSnapshot {
    pub username: String,
    pub hostname: String,
    pub directory: String,
    pub time: String,
}

pub struct EnvSnapshotView {
    pub username: Seq<char>,
    pub hostname: Seq<char>,
    pub directory: Seq<char>,
    pub time: Seq<char>,
}

impl View for EnvSnapshot {
    type V = EnvSnapshotView;

    open spec fn view(&self) -> EnvSnapshotView {
        EnvSnapshotView {
            username: self.username@,
            hostname: self.hostname@,
            directory: self.directory@,
            time: self.time@,
        }
    }
}

/// A clock reading rendered as `HH:MM:SS`.
pub open spec fn is_hms(s: Seq<char>) -> bool {
    s.len() == 8 && s[2] == ':' && s[5] == ':' && is_digit(s[0]) && is_digit(s[1]) && is_digit(
        s[3],
    ) && is_digit(s[4]) && is_digit(s[6]) && is_digit(s[7])
}

/// Relies on chrono's `Local::now` and its `%H:%M:%S` formatting: hour,
/// minute and second as two zero-padded digits each, separated by colons.
#[verifier::external_body]
fn now_hms() -> (r: String)
    ensures
        is_hms(r@),
{
    chrono::Local::now().format("%H:%M:%S").to_string()
}

/// Relies on dirs::home_dir: the user's home directory, if the platform
/// knows one. The result depends on the environment, so nothing more is
/// promised of it.
#[verifier::external_body]
fn home_dir_string() -> (r: Option<String>) {
    dirs::home_dir().map(|p| p.display().to_string())
}

/// A snapshot of the given values, stamped with the current wall-clock
/// time.
pub fn snapshot_now(username: String, hostname: String, directory: String) -> (r: EnvSnapshot)
    ensures
        r@.username == username@,
        r@.hostname == hostname@,
        r@.directory == directory@,
        is_hms(r@.time),
{
    EnvSnapshot { username, hostname, directory, time: now_hms() }
}

/// A path with a leading home directory replaced by `~`; any other path,
/// and any path when no home directory is known, stays whole.
pub open spec fn spec_substitute_home(cwd: Seq<char>, home: Seq<char>) -> Seq<char> {
    if home.len() > 0 && spec_has_prefix(cwd, home) {
        "~"@ + cwd.skip(home.len() as int)
    } else {
        cwd
    }
}

pub fn substitute_home(cwd: &str, home: &str) -> (r: String)
    ensures
        r@ == spec_substitute_home(cwd@, home@),
{
    let hn = home.unicode_len();
    if hn > 0 && has_prefix(cwd, home) {
        let n = cwd.unicode_len();
        let mut out = String::from_str("~");
        let tail = cwd.substring_char(hn, n);
        out.append(tail);
        proof {
            assert(cwd@.subrange(hn as int, n as int) =~= cwd@.skip(home@.len() as int));
            assert(out@ =~= "~"@ + cwd@.skip(home@.len() as int));
        }
        out
    } else {
        cwd.to_owned()
    }
}

/// The current directory for display: the given path with the home
/// directory, as the platform reports it, substituted by `~`.
pub fn display_directory(cwd: &str) -> (r: String)
    ensures
        exists|h: Seq<char>| r@ == spec_substitute_home(cwd@, h),
{
    match home_dir_string() {
        Some(h) => {
            let r = substitute_home(cwd, h.as_str());
            proof {
                assert(r@ == spec_substitute_home(cwd@, h@));
            }
            r
        },
        None => {
            let r = cwd.to_owned();
            proof {
                assert(r@ == spec_substitute_home(cwd@, Seq::<char>::empty()));
            }
            r
        },
    }
}

/// A directory path abbreviated for the prompt: a path of at most 15
/// characters, or of at most 3 segments, stays whole; a longer one keeps
/// its first segment, an ellipsis, and its last two segments.
pub open spec fn spec_shortened(s: Seq<char>) -> Seq<char> {
    if s.len() <= 15 {
        s
    } else {
        let parts = spec_split(s, '/');
        if parts.len() <= 3 {
            s
        } else {
            parts[0] + "/.../"@ + parts[parts.len() - 2] + "/"@ + parts[parts.len() - 1]
        }
    }
}

pub fn get_shortened_dir(full_path: &str) -> (r: String)
    ensures
        r@ == spec_shortened(full_path@),
        full_path@.len() <= 15 ==> r@ == full_path@,
        spec_split(full_path@, '/').len() <= 3 ==> r@ == full_path@,
{
    let n = full_path.unicode_len();
    if n <= 15 {
        return full_path.to_owned();
    }
    let parts = split_str(full_path, '/');
    if parts.len() <= 3 {
        return full_path.to_owned();
    }
    let k = parts.len();
    proof {
        assert(views(parts@)[0] == parts@[0]@);
        assert(views(parts@)[k - 2] == parts@[k - 2]@);
        assert(views(parts@)[k - 1] == parts@[k - 1]@);
    }
    let mut out = parts[0].clone();
    out.append("/.../");
    out.append(parts[k - 2].as_str());
    out.append("/");
    out.append(parts[k - 1].as_str());
    proof {
        assert(out@ =~= spec_shortened(full_path@));
    }
    out
}

/// The hostname, resolved in order: the first environment variable, then
/// the second, then the trimmed output of the hostname command, then the
/// literal fallback. The first source that answered wins.
pub fn resolve_hostname(env_a: Option<String>, env_b: Option<String>, cmd_out: Option<String>) -> (r:
    String)
    ensures
        env_a is Some ==> r@ == env_a->0@,
        env_a is None && env_b is Some ==> r@ == env_b->0@,
        env_a is None && env_b is None && cmd_out is Some ==> r@ == spec_trim(cmd_out->0@),
        env_a is None && env_b is None && cmd_out is None ==> r@ == "localhost"@,
{
    match env_a {
        Some(h) => h,
        None => match env_b {
            Some(h) => h,
            None => match cmd_out {
                Some(out) => trim_str(out.as_str()),
                None => String::from_str("localhost"),
            },
        },
    }
}

/// The username from the environment, or the literal fallback.
pub fn resolve_username(env_user: Option<String>) -> (r: String)
    ensures
        match env_user {
            Some(u) => r@ == u@,
            None => r@ == "user"@,
        },
{
    match env_user {
        Some(u) => u,
        None => String::from_str("user"),
    }
}

} // verus!
