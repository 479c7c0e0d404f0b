//! Git repository status: the machine-readable status output of the
//! version-control tool is parsed line by line into a branch name,
//! ahead/behind counts against the upstream, and a dirty flag. The caller
//! runs the tool and hands the captured output in as text.

use vstd::prelude::*;

use crate::strutil::{
    all_digits, has_prefix, is_digit, lemma_digits_val_nonneg, nonempties, spec_digits_val,
    spec_split, spec_trim, split_str, str_eq, trim_str, views,
};

verus! {

broadcast use vstd::string::group_string_axioms;

/// Repository status for one probe.
pub struct GitStatus {
    pub branch: String,
    pub dirty: bool,
    pub ahead: usize,
    pub behind: usize,
}

/// Mathematical model of a probe result.
pub struct GitStatusView {
    pub branch: Seq<char>,
    pub dirty: bool,
    pub ahead: int,
    pub behind: int,
}

impl View for GitStatus {
    type V = GitStatusView;

    open spec fn view(&self) -> GitStatusView {
        GitStatusView {
            branch: self.branch@,
            dirty: self.dirty,
            ahead: self.ahead as int,
            behind: self.behind as int,
        }
    }
}

impl GitStatus {
    /// A copy whose fields equal this one's.
    pub fn duplicate(&self) -> (r: Self)
        ensures
            r@ == self@,
    {
        GitStatus {
            branch: self.branch.clone(),
            dirty: self.dirty,
            ahead: self.ahead,
            behind: self.behind,
        }
    }
}

/// The lines of a text: split on newline, with one trailing empty part
/// (from a final newline) dropped.
pub open spec fn spec_lines(s: Seq<char>) -> Seq<Seq<char>> {
    let ps = spec_split(s, '\n');
    if ps.len() > 0 && ps.last().len() == 0 {
        ps.drop_last()
    } else {
        ps
    }
}

/// A status line that reports an uncommitted change: not a header or
/// comment line, more than one character, and not an unmodified-entry
/// marker.
pub open spec fn spec_is_dirty_line(line: Seq<char>) -> bool {
    line.len() > 1 && line[0] != '#' && line[0] != ' '
}

/// An ahead/behind count: an optionally signed run of digits whose
/// magnitude is taken, or zero when the token does not parse as a 32-bit
/// signed integer.
pub open spec fn spec_count(tok: Seq<char>) -> int {
    let signed = tok.len() > 0 && (tok[0] == '+' || tok[0] == '-');
    let neg = tok.len() > 0 && tok[0] == '-';
    let mag = if signed {
        tok.skip(1)
    } else {
        tok
    };
    if mag.len() > 0 && all_digits(mag) && spec_digits_val(mag) <= (if neg {
        2147483648int
    } else {
        2147483647int
    }) {
        spec_digits_val(mag)
    } else {
        0
    }
}

/// Scan state after no lines: no branch resolved, clean, no counts.
pub open spec fn spec_status_empty() -> GitStatusView {
    GitStatusView { branch: "unknown"@, dirty: false, ahead: 0, behind: 0 }
}

/// One line applied to the scan state.
pub open spec fn spec_status_step(st: GitStatusView, line: Seq<char>) -> GitStatusView {
    let st1 = if spec_has_prefix_head(line) {
        GitStatusView { branch: line.skip("# branch.head "@.len() as int), ..st }
    } else if spec_has_prefix_ab(line) {
        let toks = nonempties(spec_split(line.skip("# branch.ab "@.len() as int), ' '));
        if toks.len() == 2 {
            GitStatusView { behind: spec_count(toks[0]), ahead: spec_count(toks[1]), ..st }
        } else {
            st
        }
    } else {
        st
    };
    GitStatusView { dirty: st.dirty || spec_is_dirty_line(line), ..st1 }
}

pub open spec fn spec_has_prefix_head(line: Seq<char>) -> bool {
    crate::strutil::spec_has_prefix(line, "# branch.head "@)
}

pub open spec fn spec_has_prefix_ab(line: Seq<char>) -> bool {
    crate::strutil::spec_has_prefix(line, "# branch.ab "@)
}

/// The whole scan, line by line from the first.
pub open spec fn spec_status_scan(lines: Seq<Seq<char>>) -> GitStatusView
    decreases lines.len(),
{
    if lines.len() == 0 {
        spec_status_empty()
    } else {
        spec_status_step(spec_status_scan(lines.drop_last()), lines.last())
    }
}

/// Dirty detection law: the scan reports a dirty working tree exactly when
/// some line reports an uncommitted change; header and comment lines alone
/// leave the tree clean.
pub proof fn lemma_dirty_detection(lines: Seq<Seq<char>>)
    ensures
        spec_status_scan(lines).dirty <==> exists|i: int|
            0 <= i < lines.len() && spec_is_dirty_line(lines[i]),
    decreases lines.len(),
{
    if lines.len() > 0 {
        lemma_dirty_detection(lines.drop_last());
        if spec_status_scan(lines).dirty {
            if spec_status_scan(lines.drop_last()).dirty {
                let i = choose|i: int|
                    0 <= i < lines.drop_last().len() && spec_is_dirty_line(lines.drop_last()[i]);
                assert(spec_is_dirty_line(lines[i]));
            } else {
                assert(spec_is_dirty_line(lines[lines.len() - 1]));
            }
        }
        if exists|i: int| 0 <= i < lines.len() && spec_is_dirty_line(lines[i]) {
            let i = choose|i: int| 0 <= i < lines.len() && spec_is_dirty_line(lines[i]);
            if i < lines.len() - 1 {
                assert(spec_is_dirty_line(lines.drop_last()[i]));
            }
        }
    }
}

/// Magnitude of an optionally signed decimal token, by the rules of
/// `spec_count`.
pub fn parse_count(tok: &str) -> (r: usize)
    ensures
        r as int == spec_count(tok@),
{
    let n = tok.unicode_len();
    let mut start: usize = 0;
    let mut neg = false;
    if n > 0 {
        let c0 = tok.get_char(0);
        if c0 == '+' || c0 == '-' {
            start = 1;
            neg = c0 == '-';
        }
    }
    let ghost mag = if start == 1 {
        tok@.skip(1)
    } else {
        tok@
    };
    if n == start {
        return 0;
    }
    let mut acc: u64 = 0;
    let mut i: usize = start;
    while i < n
        invariant
            n == tok@.len(),
            start <= i <= n,
            start <= 1,
            start == 1 <==> (tok@.len() > 0 && (tok@[0] == '+' || tok@[0] == '-')),
            mag == (if tok@.len() > 0 && (tok@[0] == '+' || tok@[0] == '-') {
                tok@.skip(1)
            } else {
                tok@
            }),
            mag.len() == n - start,
            forall|k: int| 0 <= k < i - start ==> is_digit(mag[k]),
            (spec_digits_val(mag.take(i - start)) <= 2147483648 && acc == spec_digits_val(
                mag.take(i - start),
            )) || (spec_digits_val(mag.take(i - start)) > 2147483648 && acc == 2147483649),
        decreases n - i,
    {
        let c = tok.get_char(i);
        let cv = c as u32;
        proof {
            assert(mag[i - start] == tok@[i as int]);
        }
        if cv < 48 || cv > 57 {
            proof {
                assert(!is_digit(mag[i - start]));
                assert(!all_digits(mag));
                assert(spec_count(tok@) == 0);
            }
            return 0;
        }
        let d: u64 = (cv - 48) as u64;
        let ghost pv = spec_digits_val(mag.take(i - start));
        let ghost nv = spec_digits_val(mag.take(i + 1 - start));
        proof {
            assert(mag.take(i + 1 - start).drop_last() =~= mag.take(i - start));
            assert(mag.take(i + 1 - start).last() == mag[i - start]);
            assert(nv == pv * 10 + d);
        }
        if acc == 2147483649 {
            proof {
                assert(pv * 10 >= pv) by (nonlinear_arith)
                    requires
                        pv >= 0,
                ;
                assert(forall|k: int| 0 <= k < mag.take(i - start).len() ==> is_digit(
                    #[trigger] mag.take(i - start)[k],
                ));
                lemma_digits_val_nonneg(mag.take(i - start));
            }
        } else {
            let next = acc * 10 + d;
            if next > 2147483648 {
                acc = 2147483649;
            } else {
                acc = next;
            }
        }
        i = i + 1;
    }
    proof {
        assert(mag.take(n - start) =~= mag);
        assert(all_digits(mag));
    }
    if acc == 2147483649 {
        return 0;
    }
    if !neg && acc > 2147483647 {
        return 0;
    }
    proof {
        lemma_digits_val_nonneg(mag);
        assert(acc as int == spec_digits_val(mag));
        assert(acc <= 2147483648);
        assert(usize::MAX >= u32::MAX);
    }
    acc as usize
}

/// The whitespace-separated tokens of a text: split on spaces, empty
/// parts dropped.
pub fn tokens_ws(s: &str) -> (toks: Vec<String>)
    ensures
        views(toks@) == nonempties(spec_split(s@, ' ')),
{
    let parts = split_str(s, ' ');
    let mut toks: Vec<String> = Vec::new();
    let mut i: usize = 0;
    proof {
        assert(views(parts@).take(0) =~= Seq::<Seq<char>>::empty());
        assert(views(toks@) =~~= nonempties(views(parts@).take(0)));
    }
    while i < parts.len()
        invariant
            i <= parts.len(),
            views(toks@) =~~= nonempties(views(parts@).take(i as int)),
        decreases parts.len() - i,
    {
        let ghost prev = views(parts@).take(i as int);
        let ghost cur = views(parts@).take(i + 1);
        proof {
            assert(cur.drop_last() =~= prev);
            assert(cur.last() == views(parts@)[i as int]);
            assert(views(parts@)[i as int] == parts@[i as int]@);
        }
        if !parts[i].as_str().is_empty() {
            let ghost old_toks = toks@;
            let t = parts[i].clone();
            toks.push(t);
            proof {
                assert(views(toks@) =~~= views(old_toks).push(parts@[i as int]@));
            }
        }
        i = i + 1;
    }
    proof {
        assert(views(parts@).take(parts@.len() as int) =~= views(parts@));
        assert(views(toks@) =~~= nonempties(views(parts@)));
    }
    toks
}

/// One probe's lines folded into a status, from the first line on.
pub fn parse_status_lines(lines: &Vec<String>) -> (r: GitStatus)
    ensures
        r@ == spec_status_scan(views(lines@)),
{
    let mut st = GitStatus { branch: String::from_str("unknown"), dirty: false, ahead: 0, behind: 0 };
    proof {
        assert(views(lines@).take(0) =~= Seq::<Seq<char>>::empty());
        assert(st@ == spec_status_scan(views(lines@).take(0)));
    }
    let mut i: usize = 0;
    while i < lines.len()
        invariant
            i <= lines.len(),
            st@ == spec_status_scan(views(lines@).take(i as int)),
        decreases lines.len() - i,
    {
        let ghost prev = views(lines@).take(i as int);
        let ghost cur = views(lines@).take(i + 1);
        proof {
            assert(cur.drop_last() =~= prev);
            assert(cur.last() == views(lines@)[i as int]);
            assert(views(lines@)[i as int] == lines@[i as int]@);
        }
        let line = &lines[i];
        let ghost lv = line@;
        let n = line.as_str().unicode_len();
        proof {
            reveal_strlit("# branch.head ");
            reveal_strlit("# branch.ab ");
        }
        if has_prefix(line.as_str(), "# branch.head ") {
            let name = line.as_str().substring_char(14, n);
            proof {
                assert(name@ =~= lv.skip("# branch.head "@.len() as int));
            }
            st.branch = name.to_owned();
        } else if has_prefix(line.as_str(), "# branch.ab ") {
            let rest = line.as_str().substring_char(12, n);
            proof {
                assert(rest@ =~= lv.skip("# branch.ab "@.len() as int));
            }
            let toks = tokens_ws(rest);
            if toks.len() == 2 {
                proof {
                    assert(views(toks@)[0] == toks@[0]@);
                    assert(views(toks@)[1] == toks@[1]@);
                }
                st.behind = parse_count(toks[0].as_str());
                st.ahead = parse_count(toks[1].as_str());
            }
        }
        if n > 1 {
            let c0 = line.as_str().get_char(0);
            if c0 != '#' && c0 != ' ' {
                st.dirty = true;
            }
        }
        proof {
            assert(st@ == spec_status_step(spec_status_scan(prev), cur.last()));
        }
        i = i + 1;
    }
    proof {
        assert(views(lines@).take(lines@.len() as int) =~= views(lines@));
    }
    st
}

/// The status encoded by one probe's whole output.
pub fn parse_status_output(out: &str) -> (r: GitStatus)
    ensures
        r@ == spec_status_scan(spec_lines(out@)),
{
    let mut lines = split_str(out, '\n');
    proof {
        crate::strutil::lemma_split_nonempty(out@, '\n');
    }
    if lines.len() > 0 && lines[lines.len() - 1].as_str().is_empty() {
        let ghost before = lines@;
        let _ = lines.pop();
        proof {
            assert(views(lines@) =~~= views(before).drop_last());
            assert(views(before).last() == before.last()@);
            assert(spec_lines(out@) == views(lines@));
        }
    } else {
        proof {
            if views(lines@).len() > 0 {
                assert(views(lines@).last() == lines@.last()@);
            }
            assert(spec_lines(out@) == views(lines@));
        }
    }
    parse_status_lines(&lines)
}

/// Whether the probe reported the literal placeholder for a detached HEAD,
/// so that the commit hash still has to be resolved.
pub fn needs_commit_sha(st: &GitStatus) -> (b: bool)
    ensures
        b == (st@.branch == "HEAD"@),
{
    str_eq(st.branch.as_str(), "HEAD")
}

/// Rewrite the detached-HEAD placeholder to `detached@` followed by the
/// trimmed commit hash; any other branch, and a probe with no hash, are
/// left as they were.
pub fn apply_detached(st: GitStatus, sha: Option<&str>) -> (r: GitStatus)
    ensures
        match sha {
            Some(h) if st@.branch == "HEAD"@ => r@ == (GitStatusView {
                branch: "detached@"@ + spec_trim(h@),
                ..st@
            }),
            _ => r@ == st@,
        },
{
    if needs_commit_sha(&st) {
        match sha {
            Some(h) => {
                let t = trim_str(h);
                let mut b = String::from_str("detached@");
                b.append(t.as_str());
                GitStatus { branch: b, ..st }
            },
            None => st,
        }
    } else {
        st
    }
}

/// The branch name of a probe result, when there was one.
pub fn get_current_git_branch(info: Option<GitStatus>) -> (r: Option<String>)
    ensures
        match info {
            Some(st) => r is Some && r->0@ == st@.branch,
            None => r is None,
        },
{
    match info {
        Some(st) => Some(st.branch),
        None => None,
    }
}

} // verus!
