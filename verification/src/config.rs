//! Persisted user preferences: the prompt style, whether git information
//! is shown, and a color name for each prompt segment. The on-disk form is
//! a human-readable key-value text with a nested color table; this module
//! holds its exact reading and writing rules. Unknown keys and malformed
//! lines in the file are ignored; missing fields keep their defaults.

use vstd::prelude::*;

use crate::strutil::{
    find_char, is_true_value, is_ws, spec_ascii_lower, spec_find, spec_split, spec_trim,
    spec_trim_end, spec_trim_start, split_str, str_eq, trim_str, views,
};

verus! {

broadcast use vstd::string::group_string_axioms;

/// Color names for the prompt segments.
pub struct ColorConfig {
    pub username: String,
    pub hostname: String,
    pub directory: String,
    pub git_branch: String,
    pub git_dirty: String,
    pub time: String,
}

#[verifier::ext_equal]
pub struct ColorConfigView {
    pub username: Seq<char>,
    pub hostname: Seq<char>,
    pub directory: Seq<char>,
    pub git_branch: Seq<char>,
    pub git_dirty: Seq<char>,
    pub time: Seq<char>,
}

impl View for ColorConfig {
    type V = ColorConfigView;

    open spec fn view(&self) -> ColorConfigView {
        ColorConfigView {
            username: self.username@,
            hostname: self.hostname@,
            directory: self.directory@,
            git_branch: self.git_branch@,
            git_dirty: self.git_dirty@,
            time: self.time@,
        }
    }
}

/// The whole persisted record.
pub struct Config {
    pub style: String,
    pub show_git: bool,
    pub colors: ColorConfig,
}

#[verifier::ext_equal]
pub struct ConfigView {
    pub style: Seq<char>,
    pub show_git: bool,
    pub colors: ColorConfigView,
}

impl View for Config {
    type V = ConfigView;

    open spec fn view(&self) -> ConfigView {
        ConfigView { style: self.style@, show_git: self.show_git, colors: self.colors@ }
    }
}

pub open spec fn spec_default_colors() -> ColorConfigView {
    ColorConfigView {
        username: "green"@,
        hostname: "yellow"@,
        directory: "cyan"@,
        git_branch: "green"@,
        git_dirty: "red"@,
        time: "blue"@,
    }
}

pub open spec fn spec_default_config() -> ConfigView {
    ConfigView { style: "default"@, show_git: true, colors: spec_default_colors() }
}

impl Default for ColorConfig {
    fn default() -> (r: Self)
        ensures
            r@ == spec_default_colors(),
    {
        ColorConfig {
            username: String::from_str("green"),
            hostname: String::from_str("yellow"),
            directory: String::from_str("cyan"),
            git_branch: String::from_str("green"),
            git_dirty: String::from_str("red"),
            time: String::from_str("blue"),
        }
    }
}

impl Default for Config {
    fn default() -> (r: Self)
        ensures
            r@ == spec_default_config(),
    {
        Config { style: String::from_str("default"), show_git: true, colors: ColorConfig::default() }
    }
}

impl ColorConfig {
    /// A copy whose fields equal this one's.
    pub fn duplicate(&self) -> (r: Self)
        ensures
            r@ == self@,
    {
        ColorConfig {
            username: self.username.clone(),
            hostname: self.hostname.clone(),
            directory: self.directory.clone(),
            git_branch: self.git_branch.clone(),
            git_dirty: self.git_dirty.clone(),
            time: self.time.clone(),
        }
    }
}

impl Config {
    /// A copy whose fields equal this one's.
    pub fn duplicate(&self) -> (r: Self)
        ensures
            r@ == self@,
    {
        Config { style: self.style.clone(), show_git: self.show_git, colors: self.colors.duplicate() }
    }
}

/// The record with one recognized key replaced, or nothing for an
/// unrecognized key.
pub open spec fn spec_set_key(c: ConfigView, key: Seq<char>, value: Seq<char>) -> Option<ConfigView> {
    if key == "style"@ {
        Some(ConfigView { style: value, ..c })
    } else if key == "show_git"@ {
        Some(ConfigView { show_git: spec_ascii_lower(value) == "true"@, ..c })
    } else if key == "color.username"@ {
        Some(ConfigView { colors: ColorConfigView { username: value, ..c.colors }, ..c })
    } else if key == "color.hostname"@ {
        Some(ConfigView { colors: ColorConfigView { hostname: value, ..c.colors }, ..c })
    } else if key == "color.directory"@ {
        Some(ConfigView { colors: ColorConfigView { directory: value, ..c.colors }, ..c })
    } else if key == "color.git_branch"@ {
        Some(ConfigView { colors: ColorConfigView { git_branch: value, ..c.colors }, ..c })
    } else if key == "color.git_dirty"@ {
        Some(ConfigView { colors: ColorConfigView { git_dirty: value, ..c.colors }, ..c })
    } else if key == "color.time"@ {
        Some(ConfigView { colors: ColorConfigView { time: value, ..c.colors }, ..c })
    } else {
        None
    }
}

impl Config {
    /// Apply one key/value update. An unrecognized key changes nothing and
    /// reports failure, so that nothing is persisted for it.
    pub fn set_key(&mut self, key: &str, value: &str) -> (r: bool)
        ensures
            match spec_set_key(old(self)@, key@, value@) {
                Some(c2) => r && final(self)@ == c2,
                None => !r && final(self)@ == old(self)@,
            },
    {
        if str_eq(key, "style") {
            self.style = value.to_owned();
            true
        } else if str_eq(key, "show_git") {
            self.show_git = is_true_value(value);
            true
        } else if str_eq(key, "color.username") {
            self.colors.username = value.to_owned();
            true
        } else if str_eq(key, "color.hostname") {
            self.colors.hostname = value.to_owned();
            true
        } else if str_eq(key, "color.directory") {
            self.colors.directory = value.to_owned();
            true
        } else if str_eq(key, "color.git_branch") {
            self.colors.git_branch = value.to_owned();
            true
        } else if str_eq(key, "color.git_dirty") {
            self.colors.git_dirty = value.to_owned();
            true
        } else if str_eq(key, "color.time") {
            self.colors.time = value.to_owned();
            true
        } else {
            false
        }
    }
}

/// The persisted text for a record: the two top-level fields, a blank
/// line, then the color table, each value quoted, each line ended by a
/// newline.
pub open spec fn spec_emit_config(c: ConfigView) -> Seq<char> {
    "style = \""@ + c.style + "\"\nshow_git = "@ + (if c.show_git {
        "true"@
    } else {
        "false"@
    }) + "\n\n[colors]\nusername = \""@ + c.colors.username + "\"\nhostname = \""@
        + c.colors.hostname + "\"\ndirectory = \""@ + c.colors.directory + "\"\ngit_branch = \""@
        + c.colors.git_branch + "\"\ngit_dirty = \""@ + c.colors.git_dirty + "\"\ntime = \""@
        + c.colors.time + "\"\n"@
}

impl Config {
    /// The persisted text for this record.
    pub fn emit(&self) -> (r: String)
        ensures
            r@ == spec_emit_config(self@),
    {
        let mut out = String::from_str("style = \"");
        out.append(self.style.as_str());
        out.append("\"\nshow_git = ");
        if self.show_git {
            out.append("true");
        } else {
            out.append("false");
        }
        out.append("\n\n[colors]\nusername = \"");
        out.append(self.colors.username.as_str());
        out.append("\"\nhostname = \"");
        out.append(self.colors.hostname.as_str());
        out.append("\"\ndirectory = \"");
        out.append(self.colors.directory.as_str());
        out.append("\"\ngit_branch = \"");
        out.append(self.colors.git_branch.as_str());
        out.append("\"\ngit_dirty = \"");
        out.append(self.colors.git_dirty.as_str());
        out.append("\"\ntime = \"");
        out.append(self.colors.time.as_str());
        out.append("\"\n");
        proof {
            assert(out@ =~= spec_emit_config(self@));
        }
        out
    }
}

/// A value written in quotes, with the quotes stripped.
pub open spec fn spec_quoted(v: Seq<char>) -> bool {
    v.len() >= 2 && v[0] == '"' && v.last() == '"'
}

pub open spec fn spec_unquote(v: Seq<char>) -> Seq<char> {
    v.subrange(1, v.len() - 1)
}

/// The recognized keys of the persisted text are pairwise distinct.
pub proof fn lemma_config_keys_distinct()
    ensures
        "style"@ != "show_git"@,
        "username"@ != "hostname"@,
        "username"@ != "directory"@,
        "username"@ != "git_branch"@,
        "username"@ != "git_dirty"@,
        "username"@ != "time"@,
        "hostname"@ != "directory"@,
        "hostname"@ != "git_branch"@,
        "hostname"@ != "git_dirty"@,
        "hostname"@ != "time"@,
        "directory"@ != "git_branch"@,
        "directory"@ != "git_dirty"@,
        "directory"@ != "time"@,
        "git_branch"@ != "git_dirty"@,
        "git_branch"@ != "time"@,
        "git_dirty"@ != "time"@,
        "true"@ != "false"@,
{
    reveal_strlit("style");
    reveal_strlit("show_git");
    reveal_strlit("username");
    reveal_strlit("hostname");
    reveal_strlit("directory");
    reveal_strlit("git_branch");
    reveal_strlit("git_dirty");
    reveal_strlit("time");
    reveal_strlit("true");
    reveal_strlit("false");
    assert("style"@.len() == 5);
    assert("show_git"@.len() == 8);
    assert("username"@.len() == 8);
    assert("hostname"@.len() == 8);
    assert("directory"@.len() == 9);
    assert("git_branch"@.len() == 10);
    assert("git_dirty"@.len() == 9);
    assert("time"@.len() == 4);
    assert("true"@.len() == 4);
    assert("false"@.len() == 5);
    assert("username"@[0] == 'u');
    assert("hostname"@[0] == 'h');
    assert("directory"@[0] == 'd');
    assert("git_dirty"@[0] == 'g');
    assert("true"@[0] == 't');
    assert("false"@[0] == 'f');
}

/// One line of the persisted text applied to the record being read.
/// The flag tracks whether the reader stands inside the color table.
pub open spec fn spec_config_line(st: (ConfigView, bool), line: Seq<char>) -> (ConfigView, bool) {
    let c = st.0;
    let in_colors = st.1;
    let t = spec_trim(line);
    if t == "[colors]"@ {
        (c, true)
    } else if t.len() > 0 && t[0] == '[' {
        (c, false)
    } else if spec_find(t, '=') >= 0 {
        let key = spec_trim(t.take(spec_find(t, '=')));
        let v = spec_trim(t.skip(spec_find(t, '=') + 1));
        if !in_colors && key == "style"@ && spec_quoted(v) {
            (ConfigView { style: spec_unquote(v), ..c }, in_colors)
        } else if !in_colors && key == "show_git"@ && v == "true"@ {
            (ConfigView { show_git: true, ..c }, in_colors)
        } else if !in_colors && key == "show_git"@ && v == "false"@ {
            (ConfigView { show_git: false, ..c }, in_colors)
        } else if in_colors && key == "username"@ && spec_quoted(v) {
            (ConfigView { colors: ColorConfigView { username: spec_unquote(v), ..c.colors }, ..c },
            in_colors)
        } else if in_colors && key == "hostname"@ && spec_quoted(v) {
            (ConfigView { colors: ColorConfigView { hostname: spec_unquote(v), ..c.colors }, ..c },
            in_colors)
        } else if in_colors && key == "directory"@ && spec_quoted(v) {
            (ConfigView { colors: ColorConfigView { directory: spec_unquote(v), ..c.colors }, ..c },
            in_colors)
        } else if in_colors && key == "git_branch"@ && spec_quoted(v) {
            (ConfigView { colors: ColorConfigView { git_branch: spec_unquote(v), ..c.colors }, ..c },
            in_colors)
        } else if in_colors && key == "git_dirty"@ && spec_quoted(v) {
            (ConfigView { colors: ColorConfigView { git_dirty: spec_unquote(v), ..c.colors }, ..c },
            in_colors)
        } else if in_colors && key == "time"@ && spec_quoted(v) {
            (ConfigView { colors: ColorConfigView { time: spec_unquote(v), ..c.colors }, ..c },
            in_colors)
        } else {
            st
        }
    } else {
        st
    }
}

/// The whole text read line by line, starting from the defaults.
pub open spec fn spec_config_scan(lines: Seq<Seq<char>>) -> (ConfigView, bool)
    decreases lines.len(),
{
    if lines.len() == 0 {
        (spec_default_config(), false)
    } else {
        spec_config_line(spec_config_scan(lines.drop_last()), lines.last())
    }
}

/// The record encoded by a persisted text.
pub open spec fn spec_parse_config(s: Seq<char>) -> ConfigView {
    spec_config_scan(spec_split(s, '\n')).0
}

/// Read a persisted text into a record.
pub fn parse_config(s: &str) -> (r: Config)
    ensures
        r@ == spec_parse_config(s@),
{
    let lines = split_str(s, '\n');
    let mut c = Config::default();
    let mut in_colors = false;
    proof {
        assert(views(lines@).take(0) =~= Seq::<Seq<char>>::empty());
    }
    let mut i: usize = 0;
    while i < lines.len()
        invariant
            i <= lines.len(),
            (c@, in_colors) == spec_config_scan(views(lines@).take(i as int)),
        decreases lines.len() - i,
    {
        let ghost prev = views(lines@).take(i as int);
        let ghost cur = views(lines@).take(i + 1);
        proof {
            assert(cur.drop_last() =~= prev);
            assert(cur.last() == views(lines@)[i as int]);
            assert(views(lines@)[i as int] == lines@[i as int]@);
        }
        proof {
            lemma_config_keys_distinct();
        }
        let t = trim_str(lines[i].as_str());
        let tn = t.as_str().unicode_len();
        if str_eq(t.as_str(), "[colors]") {
            in_colors = true;
        } else if tn > 0 && t.as_str().get_char(0) == '[' {
            in_colors = false;
        } else {
            match find_char(t.as_str(), '=') {
                Some(eq) => {
                    proof {
                        crate::strutil::lemma_find_bounds(t@, '=');
                        assert(spec_find(t@, '=') == eq as int);
                    }
                    let key = trim_str(t.as_str().substring_char(0, eq));
                    let rawv = trim_str(t.as_str().substring_char(eq + 1, tn));
                    proof {
                        assert(t@.subrange(0, eq as int) =~= t@.take(spec_find(t@, '=')));
                        assert(t@.subrange(eq + 1, tn as int) =~= t@.skip(spec_find(t@, '=') + 1));
                    }
                    proof {
                        assert(key@ == spec_trim(t@.take(spec_find(t@, '='))));
                        assert(rawv@ == spec_trim(t@.skip(spec_find(t@, '=') + 1)));
                    }
                    let vn = rawv.as_str().unicode_len();
                    let quoted = vn >= 2 && rawv.as_str().get_char(0) == '"' && rawv.as_str()
                        .get_char(vn - 1) == '"';
                    proof {
                        if vn >= 2 {
                            assert(rawv@[vn - 1] == rawv@.last());
                        }
                        assert(quoted == spec_quoted(rawv@));
                    }
                    if !in_colors && str_eq(key.as_str(), "style") {
                        if quoted {
                            let inner = rawv.as_str().substring_char(1, vn - 1);
                            proof {
                                assert(inner@ =~= spec_unquote(rawv@));
                            }
                            c.style = inner.to_owned();
                        }
                    } else if !in_colors && str_eq(key.as_str(), "show_git") {
                        if str_eq(rawv.as_str(), "true") {
                            c.show_git = true;
                        } else if str_eq(rawv.as_str(), "false") {
                            c.show_git = false;
                        }
                    } else if in_colors && str_eq(key.as_str(), "username") {
                        if quoted {
                            let inner = rawv.as_str().substring_char(1, vn - 1);
                            proof {
                                assert(inner@ =~= spec_unquote(rawv@));
                            }
                            c.colors.username = inner.to_owned();
                        }
                    } else if in_colors && str_eq(key.as_str(), "hostname") {
                        if quoted {
                            let inner = rawv.as_str().substring_char(1, vn - 1);
                            proof {
                                assert(inner@ =~= spec_unquote(rawv@));
                            }
                            c.colors.hostname = inner.to_owned();
                        }
                    } else if in_colors && str_eq(key.as_str(), "directory") {
                        if quoted {
                            let inner = rawv.as_str().substring_char(1, vn - 1);
                            proof {
                                assert(inner@ =~= spec_unquote(rawv@));
                            }
                            c.colors.directory = inner.to_owned();
                        }
                    } else if in_colors && str_eq(key.as_str(), "git_branch") {
                        if quoted {
                            let inner = rawv.as_str().substring_char(1, vn - 1);
                            proof {
                                assert(inner@ =~= spec_unquote(rawv@));
                            }
                            c.colors.git_branch = inner.to_owned();
                        }
                    } else if in_colors && str_eq(key.as_str(), "git_dirty") {
                        if quoted {
                            let inner = rawv.as_str().substring_char(1, vn - 1);
                            proof {
                                assert(inner@ =~= spec_unquote(rawv@));
                            }
                            c.colors.git_dirty = inner.to_owned();
                        }
                    } else if in_colors && str_eq(key.as_str(), "time") {
                        if quoted {
                            let inner = rawv.as_str().substring_char(1, vn - 1);
                            proof {
                                assert(inner@ =~= spec_unquote(rawv@));
                            }
                            c.colors.time = inner.to_owned();
                        }
                    }
                },
                None => {},
            }
        }
        proof {
            assert((c@, in_colors) == spec_config_line(spec_config_scan(prev), cur.last()));
        }
        i = i + 1;
    }
    proof {
        assert(views(lines@).take(lines@.len() as int) =~= views(lines@));
    }
    c
}


/// A value that survives the persisted text unchanged: it holds no quote
/// and no newline.
pub open spec fn spec_plain_value(s: Seq<char>) -> bool {
    forall|i: int| 0 <= i < s.len() ==> (s[i] != '"' && s[i] != '\n')
}

/// A key-value line of the persisted text, taken apart: the line is its
/// own trim, the first equals sign follows the key, and the trimmed parts
/// around it are the key and the raw value.
pub proof fn lemma_kv_line(key: Seq<char>, rawval: Seq<char>)
    requires
        key.len() > 0,
        !is_ws(key[0]),
        !is_ws(key.last()),
        forall|k: int| 0 <= k < key.len() ==> key[k] != '=',
        rawval.len() > 0,
        !is_ws(rawval[0]),
        !is_ws(rawval.last()),
    ensures
        spec_trim(key + " = "@ + rawval) == key + " = "@ + rawval,
        (key + " = "@ + rawval)[0] == key[0],
        spec_find(key + " = "@ + rawval, '=') == key.len() as int + 1,
        spec_trim((key + " = "@ + rawval).take(key.len() as int + 1)) == key,
        spec_trim((key + " = "@ + rawval).skip(key.len() as int + 2)) == rawval,
{
    reveal_strlit(" = ");
    assert(" = "@ =~= seq![' ', '=', ' ']);
    let line = key + " = "@ + rawval;
    assert(line.len() == key.len() as int + 3 + rawval.len());
    assert(line[0] == key[0]);
    assert(line.last() == rawval.last());
    crate::strutil::lemma_trim_id(line);
    assert(line[key.len() as int + 1] == '=');
    assert(forall|k: int| 0 <= k < key.len() as int + 1 ==> line[k] != '=');
    crate::strutil::lemma_find_at(line, '=', key.len() as int + 1);
    assert(line.take(key.len() as int + 1) =~= key + seq![' ']);
    crate::strutil::lemma_trim_space_after(key);
    assert(line.skip(key.len() as int + 2) =~= seq![' '] + rawval);
    crate::strutil::lemma_trim_space_before(rawval);
}

/// The lines of the persisted text for a record.
pub open spec fn spec_qline(key: Seq<char>, v: Seq<char>) -> Seq<char> {
    key + " = "@ + (seq!['"'] + v + seq!['"'])
}

pub open spec fn spec_bline(b: bool) -> Seq<char> {
    "show_git"@ + " = "@ + (if b {
        "true"@
    } else {
        "false"@
    })
}

pub open spec fn spec_emit_lines(c: ConfigView) -> Seq<Seq<char>> {
    seq![
        spec_qline("style"@, c.style),
        spec_bline(c.show_git),
        Seq::<char>::empty(),
        "[colors]"@,
        spec_qline("username"@, c.colors.username),
        spec_qline("hostname"@, c.colors.hostname),
        spec_qline("directory"@, c.colors.directory),
        spec_qline("git_branch"@, c.colors.git_branch),
        spec_qline("git_dirty"@, c.colors.git_dirty),
        spec_qline("time"@, c.colors.time),
        Seq::<char>::empty(),
    ]
}

/// The persisted text, written as its lines joined by newlines.
pub open spec fn spec_emit_nested(c: ConfigView) -> Seq<char> {
    spec_qline("style"@, c.style) + seq!['\n'] + (spec_bline(c.show_git) + seq!['\n'] + (
    Seq::<char>::empty() + seq!['\n'] + ("[colors]"@ + seq!['\n'] + (spec_qline(
        "username"@,
        c.colors.username,
    ) + seq!['\n'] + (spec_qline("hostname"@, c.colors.hostname) + seq!['\n'] + (spec_qline(
        "directory"@,
        c.colors.directory,
    ) + seq!['\n'] + (spec_qline("git_branch"@, c.colors.git_branch) + seq!['\n'] + (spec_qline(
        "git_dirty"@,
        c.colors.git_dirty,
    ) + seq!['\n'] + (spec_qline("time"@, c.colors.time) + seq!['\n']
        + Seq::<char>::empty())))))))))
}

/// The flat persisted text and its line-structured form are one sequence.
#[verifier::rlimit(100)]
#[verifier::spinoff_prover]
pub proof fn lemma_emit_shape(c: ConfigView)
    ensures
        spec_emit_config(c) == spec_emit_nested(c),
{
    reveal_strlit(" = ");
    assert(" = "@ =~= seq![' ', '=', ' ']);
    reveal_strlit("style = \"");
    reveal_strlit("style");
    assert("style = \""@ =~= "style"@ + " = "@ + seq!['"']);
    reveal_strlit("\"\nshow_git = ");
    reveal_strlit("show_git");
    assert("\"\nshow_git = "@ =~= seq!['"'] + seq!['\n'] + "show_git"@ + " = "@);
    reveal_strlit("\n\n[colors]\nusername = \"");
    reveal_strlit("[colors]");
    reveal_strlit("username");
    assert("\n\n[colors]\nusername = \""@ =~= seq!['\n'] + seq!['\n'] + "[colors]"@
        + seq!['\n'] + "username"@ + " = "@ + seq!['"']);
    reveal_strlit("\"\nhostname = \"");
    reveal_strlit("hostname");
    assert("\"\nhostname = \""@ =~= seq!['"'] + seq!['\n'] + "hostname"@ + " = "@ + seq!['"']);
    reveal_strlit("\"\ndirectory = \"");
    reveal_strlit("directory");
    assert("\"\ndirectory = \""@ =~= seq!['"'] + seq!['\n'] + "directory"@ + " = "@ + seq!['"']);
    reveal_strlit("\"\ngit_branch = \"");
    reveal_strlit("git_branch");
    assert("\"\ngit_branch = \""@ =~= seq!['"'] + seq!['\n'] + "git_branch"@ + " = "@
        + seq!['"']);
    reveal_strlit("\"\ngit_dirty = \"");
    reveal_strlit("git_dirty");
    assert("\"\ngit_dirty = \""@ =~= seq!['"'] + seq!['\n'] + "git_dirty"@ + " = "@ + seq!['"']);
    reveal_strlit("\"\ntime = \"");
    reveal_strlit("time");
    assert("\"\ntime = \""@ =~= seq!['"'] + seq!['\n'] + "time"@ + " = "@ + seq!['"']);
    reveal_strlit("\"\n");
    assert("\"\n"@ =~= seq!['"'] + seq!['\n']);
    assert(spec_emit_config(c) =~= spec_emit_nested(c));
}

/// No line of the persisted text holds a newline, for plain values.
pub proof fn lemma_qline_no_nl(key: Seq<char>, v: Seq<char>)
    requires
        forall|i: int| 0 <= i < key.len() ==> key[i] != '\n',
        spec_plain_value(v),
    ensures
        forall|i: int| 0 <= i < spec_qline(key, v).len() ==> spec_qline(key, v)[i] != '\n',
{
    reveal_strlit(" = ");
    assert(" = "@ =~= seq![' ', '=', ' ']);
}

/// The persisted text of a plain record splits on newlines into exactly
/// its lines.
#[verifier::rlimit(100)]
pub proof fn lemma_emit_split(c: ConfigView)
    requires
        spec_plain_value(c.style),
        spec_plain_value(c.colors.username),
        spec_plain_value(c.colors.hostname),
        spec_plain_value(c.colors.directory),
        spec_plain_value(c.colors.git_branch),
        spec_plain_value(c.colors.git_dirty),
        spec_plain_value(c.colors.time),
    ensures
        spec_split(spec_emit_config(c), '\n') == spec_emit_lines(c),
{
    lemma_emit_shape(c);
    reveal_strlit("true");
    assert("true"@ =~= seq!['t', 'r', 'u', 'e']);
    reveal_strlit("false");
    assert("false"@ =~= seq!['f', 'a', 'l', 's', 'e']);
    reveal_strlit("[colors]");
    assert("[colors]"@ =~= seq!['[', 'c', 'o', 'l', 'o', 'r', 's', ']']);
    reveal_strlit("style");
    assert("style"@ =~= seq!['s', 't', 'y', 'l', 'e']);
    reveal_strlit("show_git");
    assert("show_git"@ =~= seq!['s', 'h', 'o', 'w', '_', 'g', 'i', 't']);
    reveal_strlit("username");
    assert("username"@ =~= seq!['u', 's', 'e', 'r', 'n', 'a', 'm', 'e']);
    reveal_strlit("hostname");
    assert("hostname"@ =~= seq!['h', 'o', 's', 't', 'n', 'a', 'm', 'e']);
    reveal_strlit("directory");
    assert("directory"@ =~= seq!['d', 'i', 'r', 'e', 'c', 't', 'o', 'r', 'y']);
    reveal_strlit("git_branch");
    assert("git_branch"@ =~= seq!['g', 'i', 't', '_', 'b', 'r', 'a', 'n', 'c', 'h']);
    reveal_strlit("git_dirty");
    assert("git_dirty"@ =~= seq!['g', 'i', 't', '_', 'd', 'i', 'r', 't', 'y']);
    reveal_strlit("time");
    assert("time"@ =~= seq!['t', 'i', 'm', 'e']);
    reveal_strlit(" = ");
    assert(" = "@ =~= seq![' ', '=', ' ']);
    let nl = seq!['\n'];
    let e = Seq::<char>::empty();
    let l1 = spec_qline("style"@, c.style);
    let l2 = spec_bline(c.show_git);
    let l4 = "[colors]"@;
    let l5 = spec_qline("username"@, c.colors.username);
    let l6 = spec_qline("hostname"@, c.colors.hostname);
    let l7 = spec_qline("directory"@, c.colors.directory);
    let l8 = spec_qline("git_branch"@, c.colors.git_branch);
    let l9 = spec_qline("git_dirty"@, c.colors.git_dirty);
    let l10 = spec_qline("time"@, c.colors.time);
    let t11 = e;
    let t10 = l10 + nl + t11;
    let t9 = l9 + nl + t10;
    let t8 = l8 + nl + t9;
    let t7 = l7 + nl + t8;
    let t6 = l6 + nl + t7;
    let t5 = l5 + nl + t6;
    let t4 = l4 + nl + t5;
    let t3 = e + nl + t4;
    let t2 = l2 + nl + t3;
    let t1 = l1 + nl + t2;
    assert(spec_emit_nested(c) == t1);
    lemma_qline_no_nl("style"@, c.style);
    lemma_qline_no_nl("username"@, c.colors.username);
    lemma_qline_no_nl("hostname"@, c.colors.hostname);
    lemma_qline_no_nl("directory"@, c.colors.directory);
    lemma_qline_no_nl("git_branch"@, c.colors.git_branch);
    lemma_qline_no_nl("git_dirty"@, c.colors.git_dirty);
    lemma_qline_no_nl("time"@, c.colors.time);
    assert(forall|i: int| 0 <= i < l2.len() ==> l2[i] != '\n');
    crate::strutil::lemma_split_no_sep(l1, '\n');
    crate::strutil::lemma_split_no_sep(l2, '\n');
    crate::strutil::lemma_split_no_sep(l4, '\n');
    crate::strutil::lemma_split_no_sep(l5, '\n');
    crate::strutil::lemma_split_no_sep(l6, '\n');
    crate::strutil::lemma_split_no_sep(l7, '\n');
    crate::strutil::lemma_split_no_sep(l8, '\n');
    crate::strutil::lemma_split_no_sep(l9, '\n');
    crate::strutil::lemma_split_no_sep(l10, '\n');
    crate::strutil::lemma_split_no_sep(e, '\n');
    crate::strutil::lemma_split_append(l10, t11, '\n');
    crate::strutil::lemma_split_append(l9, t10, '\n');
    crate::strutil::lemma_split_append(l8, t9, '\n');
    crate::strutil::lemma_split_append(l7, t8, '\n');
    crate::strutil::lemma_split_append(l6, t7, '\n');
    crate::strutil::lemma_split_append(l5, t6, '\n');
    crate::strutil::lemma_split_append(l4, t5, '\n');
    crate::strutil::lemma_split_append(e, t4, '\n');
    crate::strutil::lemma_split_append(l2, t3, '\n');
    crate::strutil::lemma_split_append(l1, t2, '\n');
    assert(spec_split(t1, '\n') =~~= spec_emit_lines(c));
}

/// Reading a `username` line inside the color table sets that color.
pub proof fn lemma_step_username(st: (ConfigView, bool), v: Seq<char>)
    requires
        st.1 == true,
    ensures
        spec_config_line(st, spec_qline("username"@, v)) == ((ConfigView {
            colors: ColorConfigView { username: v, ..st.0.colors },
            ..st.0
        }), true),
{
    lemma_config_keys_distinct();
    reveal_strlit("[colors]");
    assert("[colors]"@ =~= seq!['[', 'c', 'o', 'l', 'o', 'r', 's', ']']);
    reveal_strlit("username");
    assert("username"@ =~= seq!['u', 's', 'e', 'r', 'n', 'a', 'm', 'e']);
    let q = seq!['"'];
    let line = spec_qline("username"@, v);
    assert((q + v + q)[0] == '"');
    assert((q + v + q).last() == '"');
    lemma_kv_line("username"@, q + v + q);
    assert(spec_quoted(q + v + q));
    assert(spec_unquote(q + v + q) =~= v);
    assert(line[0] == 'u');
    assert(!(spec_trim(line) == "[colors]"@));
}

/// Reading a `hostname` line inside the color table sets that color.
pub proof fn lemma_step_hostname(st: (ConfigView, bool), v: Seq<char>)
    requires
        st.1 == true,
    ensures
        spec_config_line(st, spec_qline("hostname"@, v)) == ((ConfigView {
            colors: ColorConfigView { hostname: v, ..st.0.colors },
            ..st.0
        }), true),
{
    lemma_config_keys_distinct();
    reveal_strlit("[colors]");
    assert("[colors]"@ =~= seq!['[', 'c', 'o', 'l', 'o', 'r', 's', ']']);
    reveal_strlit("hostname");
    assert("hostname"@ =~= seq!['h', 'o', 's', 't', 'n', 'a', 'm', 'e']);
    let q = seq!['"'];
    let line = spec_qline("hostname"@, v);
    assert((q + v + q)[0] == '"');
    assert((q + v + q).last() == '"');
    lemma_kv_line("hostname"@, q + v + q);
    assert(spec_quoted(q + v + q));
    assert(spec_unquote(q + v + q) =~= v);
    assert(line[0] == 'h');
    assert(!(spec_trim(line) == "[colors]"@));
}

/// Reading a `directory` line inside the color table sets that color.
pub proof fn lemma_step_directory(st: (ConfigView, bool), v: Seq<char>)
    requires
        st.1 == true,
    ensures
        spec_config_line(st, spec_qline("directory"@, v)) == ((ConfigView {
            colors: ColorConfigView { directory: v, ..st.0.colors },
            ..st.0
        }), true),
{
    lemma_config_keys_distinct();
    reveal_strlit("[colors]");
    assert("[colors]"@ =~= seq!['[', 'c', 'o', 'l', 'o', 'r', 's', ']']);
    reveal_strlit("directory");
    assert("directory"@ =~= seq!['d', 'i', 'r', 'e', 'c', 't', 'o', 'r', 'y']);
    let q = seq!['"'];
    let line = spec_qline("directory"@, v);
    assert((q + v + q)[0] == '"');
    assert((q + v + q).last() == '"');
    lemma_kv_line("directory"@, q + v + q);
    assert(spec_quoted(q + v + q));
    assert(spec_unquote(q + v + q) =~= v);
    assert(line[0] == 'd');
    assert(!(spec_trim(line) == "[colors]"@));
}

/// Reading a `git_branch` line inside the color table sets that color.
pub proof fn lemma_step_git_branch(st: (ConfigView, bool), v: Seq<char>)
    requires
        st.1 == true,
    ensures
        spec_config_line(st, spec_qline("git_branch"@, v)) == ((ConfigView {
            colors: ColorConfigView { git_branch: v, ..st.0.colors },
            ..st.0
        }), true),
{
    lemma_config_keys_distinct();
    reveal_strlit("[colors]");
    assert("[colors]"@ =~= seq!['[', 'c', 'o', 'l', 'o', 'r', 's', ']']);
    reveal_strlit("git_branch");
    assert("git_branch"@ =~= seq!['g', 'i', 't', '_', 'b', 'r', 'a', 'n', 'c', 'h']);
    let q = seq!['"'];
    let line = spec_qline("git_branch"@, v);
    assert((q + v + q)[0] == '"');
    assert((q + v + q).last() == '"');
    lemma_kv_line("git_branch"@, q + v + q);
    assert(spec_quoted(q + v + q));
    assert(spec_unquote(q + v + q) =~= v);
    assert(line[0] == 'g');
    assert(!(spec_trim(line) == "[colors]"@));
}

/// Reading a `git_dirty` line inside the color table sets that color.
pub proof fn lemma_step_git_dirty(st: (ConfigView, bool), v: Seq<char>)
    requires
        st.1 == true,
    ensures
        spec_config_line(st, spec_qline("git_dirty"@, v)) == ((ConfigView {
            colors: ColorConfigView { git_dirty: v, ..st.0.colors },
            ..st.0
        }), true),
{
    lemma_config_keys_distinct();
    reveal_strlit("[colors]");
    assert("[colors]"@ =~= seq!['[', 'c', 'o', 'l', 'o', 'r', 's', ']']);
    reveal_strlit("git_dirty");
    assert("git_dirty"@ =~= seq!['g', 'i', 't', '_', 'd', 'i', 'r', 't', 'y']);
    let q = seq!['"'];
    let line = spec_qline("git_dirty"@, v);
    assert((q + v + q)[0] == '"');
    assert((q + v + q).last() == '"');
    lemma_kv_line("git_dirty"@, q + v + q);
    assert(spec_quoted(q + v + q));
    assert(spec_unquote(q + v + q) =~= v);
    assert(line[0] == 'g');
    assert(!(spec_trim(line) == "[colors]"@));
}

/// Reading a `time` line inside the color table sets that color.
pub proof fn lemma_step_time(st: (ConfigView, bool), v: Seq<char>)
    requires
        st.1 == true,
    ensures
        spec_config_line(st, spec_qline("time"@, v)) == ((ConfigView {
            colors: ColorConfigView { time: v, ..st.0.colors },
            ..st.0
        }), true),
{
    lemma_config_keys_distinct();
    reveal_strlit("[colors]");
    assert("[colors]"@ =~= seq!['[', 'c', 'o', 'l', 'o', 'r', 's', ']']);
    reveal_strlit("time");
    assert("time"@ =~= seq!['t', 'i', 'm', 'e']);
    let q = seq!['"'];
    let line = spec_qline("time"@, v);
    assert((q + v + q)[0] == '"');
    assert((q + v + q).last() == '"');
    lemma_kv_line("time"@, q + v + q);
    assert(spec_quoted(q + v + q));
    assert(spec_unquote(q + v + q) =~= v);
    assert(line[0] == 't');
    assert(!(spec_trim(line) == "[colors]"@));
}

/// Reading a `style` line outside the color table sets the style.
pub proof fn lemma_step_style(st: (ConfigView, bool), v: Seq<char>)
    requires
        st.1 == false,
    ensures
        spec_config_line(st, spec_qline("style"@, v)) == ((ConfigView { style: v, ..st.0 }), false),
{
    lemma_config_keys_distinct();

    reveal_strlit("[colors]");
    assert("[colors]"@ =~= seq!['[', 'c', 'o', 'l', 'o', 'r', 's', ']']);
    reveal_strlit("style");
    assert("style"@ =~= seq!['s', 't', 'y', 'l', 'e']);
    let q = seq!['"'];
    let line = spec_qline("style"@, v);
    assert((q + v + q)[0] == '"');
    assert((q + v + q).last() == '"');
    lemma_kv_line("style"@, q + v + q);
    assert(spec_quoted(q + v + q));
    assert(spec_unquote(q + v + q) =~= v);
    assert(line[0] == 's');
    assert(!(spec_trim(line) == "[colors]"@));
}

/// Reading a `show_git` line outside the color table sets the flag.
pub proof fn lemma_step_show_git(st: (ConfigView, bool), b: bool)
    requires
        st.1 == false,
    ensures
        spec_config_line(st, spec_bline(b)) == ((ConfigView { show_git: b, ..st.0 }), false),
{
    lemma_config_keys_distinct();

    reveal_strlit("true");
    assert("true"@ =~= seq!['t', 'r', 'u', 'e']);
    reveal_strlit("false");
    assert("false"@ =~= seq!['f', 'a', 'l', 's', 'e']);
    reveal_strlit("[colors]");
    assert("[colors]"@ =~= seq!['[', 'c', 'o', 'l', 'o', 'r', 's', ']']);
    reveal_strlit("show_git");
    assert("show_git"@ =~= seq!['s', 'h', 'o', 'w', '_', 'g', 'i', 't']);
    let sg: Seq<char> = if b {
        "true"@
    } else {
        "false"@
    };
    let line = spec_bline(b);
    assert(sg[0] != ' ' && sg[0] != '\t' && sg[0] != '\r' && sg[0] != '\n');
    lemma_kv_line("show_git"@, sg);
    assert(line[0] == 's');
    assert(!(spec_trim(line) == "[colors]"@));
    assert(!spec_quoted(sg));
}

/// An empty line changes nothing.
pub proof fn lemma_step_empty(st: (ConfigView, bool))
    ensures
        spec_config_line(st, Seq::<char>::empty()) == st,
{

    reveal_strlit("[colors]");
    assert("[colors]"@ =~= seq!['[', 'c', 'o', 'l', 'o', 'r', 's', ']']);
    let e = Seq::<char>::empty();
    assert(spec_trim_start(e) == e);
    assert(spec_trim_end(e) == e);
    assert(spec_find(e, '=') == -1);
}

/// The color table header turns the table flag on.
pub proof fn lemma_step_colors_header(st: (ConfigView, bool))
    ensures
        spec_config_line(st, "[colors]"@) == (st.0, true),
{

    reveal_strlit("[colors]");
    assert("[colors]"@ =~= seq!['[', 'c', 'o', 'l', 'o', 'r', 's', ']']);
    crate::strutil::lemma_trim_id("[colors]"@);
}

/// Round-trip law: a record whose values are plain is read back exactly
/// from its own persisted text.
pub proof fn lemma_config_round_trip(c: ConfigView)
    requires
        spec_plain_value(c.style),
        spec_plain_value(c.colors.username),
        spec_plain_value(c.colors.hostname),
        spec_plain_value(c.colors.directory),
        spec_plain_value(c.colors.git_branch),
        spec_plain_value(c.colors.git_dirty),
        spec_plain_value(c.colors.time),
    ensures
        spec_parse_config(spec_emit_config(c)) == c,
{
    lemma_emit_split(c);
    let lines = spec_emit_lines(c);
    let e = Seq::<char>::empty();
    let d = spec_default_config();
    let c1 = ConfigView { style: c.style, ..d };
    let c2v = ConfigView { show_git: c.show_git, ..c1 };
    let c5 = ConfigView { colors: ColorConfigView { username: c.colors.username, ..c2v.colors }, ..c2v };
    let c6 = ConfigView { colors: ColorConfigView { hostname: c.colors.hostname, ..c5.colors }, ..c5 };
    let c7 = ConfigView { colors: ColorConfigView { directory: c.colors.directory, ..c6.colors }, ..c6 };
    let c8 = ConfigView { colors: ColorConfigView { git_branch: c.colors.git_branch, ..c7.colors }, ..c7 };
    let c9 = ConfigView { colors: ColorConfigView { git_dirty: c.colors.git_dirty, ..c8.colors }, ..c8 };
    let c10 = ConfigView { colors: ColorConfigView { time: c.colors.time, ..c9.colors }, ..c9 };
    lemma_step_style((d, false), c.style);
    lemma_step_show_git((c1, false), c.show_git);
    lemma_step_empty((c2v, false));
    lemma_step_colors_header((c2v, false));
    lemma_step_username((c2v, true), c.colors.username);
    lemma_step_hostname((c5, true), c.colors.hostname);
    lemma_step_directory((c6, true), c.colors.directory);
    lemma_step_git_branch((c7, true), c.colors.git_branch);
    lemma_step_git_dirty((c8, true), c.colors.git_dirty);
    lemma_step_time((c9, true), c.colors.time);
    lemma_step_empty((c10, true));
    let p0 = Seq::<Seq<char>>::empty();
    assert(spec_config_scan(p0) == (d, false));

    let p1 = seq![spec_qline("style"@, c.style)];
    assert(p1.drop_last() =~= p0);
    assert(p1.last() == spec_qline("style"@, c.style));
    assert(spec_config_scan(p1) == (c1, false));
    let p2 = seq![spec_qline("style"@, c.style), spec_bline(c.show_git)];
    assert(p2.drop_last() =~= p1);
    assert(p2.last() == spec_bline(c.show_git));
    assert(spec_config_scan(p2) == (c2v, false));
    let p3 = seq![spec_qline("style"@, c.style), spec_bline(c.show_git), e];
    assert(p3.drop_last() =~= p2);
    assert(p3.last() == e);
    assert(spec_config_scan(p3) == (c2v, false));
    let p4 = seq![spec_qline("style"@, c.style), spec_bline(c.show_git), e, "[colors]"@];
    assert(p4.drop_last() =~= p3);
    assert(p4.last() == "[colors]"@);
    assert(spec_config_scan(p4) == (c2v, true));
    let p5 = seq![spec_qline("style"@, c.style), spec_bline(c.show_git), e, "[colors]"@, spec_qline("username"@, c.colors.username)];
    assert(p5.drop_last() =~= p4);
    assert(p5.last() == spec_qline("username"@, c.colors.username));
    assert(spec_config_scan(p5) == (c5, true));
    let p6 = seq![spec_qline("style"@, c.style), spec_bline(c.show_git), e, "[colors]"@, spec_qline("username"@, c.colors.username), spec_qline("hostname"@, c.colors.hostname)];
    assert(p6.drop_last() =~= p5);
    assert(p6.last() == spec_qline("hostname"@, c.colors.hostname));
    assert(spec_config_scan(p6) == (c6, true));
    let p7 = seq![spec_qline("style"@, c.style), spec_bline(c.show_git), e, "[colors]"@, spec_qline("username"@, c.colors.username), spec_qline("hostname"@, c.colors.hostname), spec_qline("directory"@, c.colors.directory)];
    assert(p7.drop_last() =~= p6);
    assert(p7.last() == spec_qline("directory"@, c.colors.directory));
    assert(spec_config_scan(p7) == (c7, true));
    let p8 = seq![spec_qline("style"@, c.style), spec_bline(c.show_git), e, "[colors]"@, spec_qline("username"@, c.colors.username), spec_qline("hostname"@, c.colors.hostname), spec_qline("directory"@, c.colors.directory), spec_qline("git_branch"@, c.colors.git_branch)];
    assert(p8.drop_last() =~= p7);
    assert(p8.last() == spec_qline("git_branch"@, c.colors.git_branch));
    assert(spec_config_scan(p8) == (c8, true));
    let p9 = seq![spec_qline("style"@, c.style), spec_bline(c.show_git), e, "[colors]"@, spec_qline("username"@, c.colors.username), spec_qline("hostname"@, c.colors.hostname), spec_qline("directory"@, c.colors.directory), spec_qline("git_branch"@, c.colors.git_branch), spec_qline("git_dirty"@, c.colors.git_dirty)];
    assert(p9.drop_last() =~= p8);
    assert(p9.last() == spec_qline("git_dirty"@, c.colors.git_dirty));
    assert(spec_config_scan(p9) == (c9, true));
    let p10 = seq![spec_qline("style"@, c.style), spec_bline(c.show_git), e, "[colors]"@, spec_qline("username"@, c.colors.username), spec_qline("hostname"@, c.colors.hostname), spec_qline("directory"@, c.colors.directory), spec_qline("git_branch"@, c.colors.git_branch), spec_qline("git_dirty"@, c.colors.git_dirty), spec_qline("time"@, c.colors.time)];
    assert(p10.drop_last() =~= p9);
    assert(p10.last() == spec_qline("time"@, c.colors.time));
    assert(spec_config_scan(p10) == (c10, true));
    let p11 = seq![spec_qline("style"@, c.style), spec_bline(c.show_git), e, "[colors]"@, spec_qline("username"@, c.colors.username), spec_qline("hostname"@, c.colors.hostname), spec_qline("directory"@, c.colors.directory), spec_qline("git_branch"@, c.colors.git_branch), spec_qline("git_dirty"@, c.colors.git_dirty), spec_qline("time"@, c.colors.time), e];
    assert(p11.drop_last() =~= p10);
    assert(p11.last() == e);
    assert(spec_config_scan(p11) == (c10, true));
    assert(p11 =~= lines);
    assert(c10 =~= c);
    assert(spec_parse_config(spec_emit_config(c)) == spec_config_scan(lines).0);
}

/// Update round-trip law: persisting a record after one recognized
/// key/value update and reading it back yields that key at the new value
/// and every other field unchanged.
pub proof fn lemma_config_update_round_trip(c: ConfigView, key: Seq<char>, value: Seq<char>)
    requires
        spec_plain_value(c.style),
        spec_plain_value(c.colors.username),
        spec_plain_value(c.colors.hostname),
        spec_plain_value(c.colors.directory),
        spec_plain_value(c.colors.git_branch),
        spec_plain_value(c.colors.git_dirty),
        spec_plain_value(c.colors.time),
        spec_plain_value(value),
        spec_set_key(c, key, value) is Some,
    ensures
        spec_parse_config(spec_emit_config(spec_set_key(c, key, value)->Some_0)) == spec_set_key(
            c,
            key,
            value,
        )->Some_0,
{
    let c2 = spec_set_key(c, key, value)->Some_0;
    lemma_config_round_trip(c2);
}

/// The record held by an optional file content: the content read when the
/// file could be read, the defaults when it could not.
pub fn config_from_file(content: Option<&str>) -> (r: Config)
    ensures
        match content {
            Some(s) => r@ == spec_parse_config(s@),
            None => r@ == spec_default_config(),
        },
{
    match content {
        Some(s) => parse_config(s),
        None => Config::default(),
    }
}

} // verus!
