//! The branch utility: reading the branch-listing output of the
//! version-control tool into a list of names, and resolving a user's
//! numeric menu selection against that list. The caller runs the tool and
//! reads standard input; the rules live here.

use vstd::prelude::*;

use crate::strutil::{
    all_digits, is_digit, lemma_digits_val_prefix_le, spec_digits_val,
    spec_split, spec_trim, split_str, trim_str, views,
};

verus! {

broadcast use vstd::string::group_string_axioms;

/// The trimmed, non-empty entries of a sequence of lines, in order.
pub open spec fn spec_trimmed_nonempty(lines: Seq<Seq<char>>) -> Seq<Seq<char>>
    decreases lines.len(),
{
    if lines.len() == 0 {
        Seq::empty()
    } else if spec_trim(lines.last()).len() > 0 {
        spec_trimmed_nonempty(lines.drop_last()).push(spec_trim(lines.last()))
    } else {
        spec_trimmed_nonempty(lines.drop_last())
    }
}

/// The branch names encoded in a listing output: one per line, trimmed,
/// empty lines dropped.
pub open spec fn spec_branch_list(out: Seq<char>) -> Seq<Seq<char>> {
    spec_trimmed_nonempty(spec_split(out, '\n'))
}

pub fn parse_branch_list(out: &str) -> (r: Vec<String>)
    ensures
        views(r@) == spec_branch_list(out@),
{
    let lines = split_str(out, '\n');
    let mut r: Vec<String> = Vec::new();
    proof {
        assert(views(lines@).take(0) =~= Seq::<Seq<char>>::empty());
        assert(views(r@) =~~= spec_trimmed_nonempty(views(lines@).take(0)));
    }
    let mut i: usize = 0;
    while i < lines.len()
        invariant
            i <= lines.len(),
            views(r@) =~~= spec_trimmed_nonempty(views(lines@).take(i as int)),
        decreases lines.len() - i,
    {
        let ghost prev = views(lines@).take(i as int);
        let ghost cur = views(lines@).take(i + 1);
        proof {
            assert(cur.drop_last() =~= prev);
            assert(cur.last() == views(lines@)[i as int]);
            assert(views(lines@)[i as int] == lines@[i as int]@);
        }
        let t = trim_str(lines[i].as_str());
        if !t.as_str().is_empty() {
            let ghost old_r = r@;
            let ghost tv = t@;
            r.push(t);
            proof {
                assert(views(r@) =~~= views(old_r).push(tv));
            }
        }
        i = i + 1;
    }
    proof {
        assert(views(lines@).take(lines@.len() as int) =~= views(lines@));
    }
    r
}

/// What a branch-listing run means: a successful run carries the parsed
/// names; a failed one carries the tool's error text.
pub fn interpret_branch_output(success: bool, stdout: &str, stderr: &str) -> (r: Result<
    Vec<String>,
    String,
>)
    ensures
        success ==> r is Ok && views(r->Ok_0@) == spec_branch_list(stdout@),
        !success ==> r is Err && r->Err_0@ == "Git command failed: "@ + stderr@,
{
    if success {
        Ok(parse_branch_list(stdout))
    } else {
        let mut msg = String::from_str("Git command failed: ");
        msg.append(stderr);
        Err(msg)
    }
}

/// A selection input is a trimmed, optionally plus-signed run of digits.
pub open spec fn spec_index_digits(t: Seq<char>) -> Seq<char> {
    if t.len() > 0 && t[0] == '+' {
        t.skip(1)
    } else {
        t
    }
}

pub open spec fn spec_index_valid(t: Seq<char>) -> bool {
    spec_index_digits(t).len() > 0 && all_digits(spec_index_digits(t))
}

pub open spec fn spec_index_val(t: Seq<char>) -> int {
    spec_digits_val(spec_index_digits(t))
}

/// Resolve a menu selection: the input, trimmed, must read as a number
/// between one and the number of branches; that branch is returned, and
/// anything else yields nothing.
pub fn select_branch(branches: &Vec<String>, input: &str) -> (r: Option<String>)
    ensures
        ({
            let t = spec_trim(input@);
            if spec_index_valid(t) && 1 <= spec_index_val(t) <= branches@.len() {
                r is Some && r->0@ == branches@[spec_index_val(t) - 1]@
            } else {
                r is None
            }
        }),
{
    let blen = branches.len();
    let t = trim_str(input);
    let n = t.as_str().unicode_len();
    let mut start: usize = 0;
    if n > 0 && t.as_str().get_char(0) == '+' {
        start = 1;
    }
    let ghost mag = spec_index_digits(t@);
    proof {
        assert(mag == (if start == 1 {
            t@.skip(1)
        } else {
            t@
        }));
        assert(mag.len() == n - start);
    }
    if n == start {
        return None;
    }
    let mut acc: usize = 0;
    let mut i: usize = start;
    while i < n
        invariant
            n == t@.len(),
            t@ == spec_trim(input@),
            blen == branches@.len(),
            start <= i <= n,
            start <= 1,
            start == 1 <==> (t@.len() > 0 && t@[0] == '+'),
            mag == spec_index_digits(t@),
            mag == (if t@.len() > 0 && t@[0] == '+' {
                t@.skip(1)
            } else {
                t@
            }),
            mag.len() == n - start,
            forall|k: int| 0 <= k < i - start ==> is_digit(mag[k]),
            acc as int == spec_digits_val(mag.take(i - start)),
        decreases n - i,
    {
        let c = t.as_str().get_char(i);
        let cv = c as u32;
        proof {
            assert(mag[i - start] == t@[i as int]);
        }
        if cv < 48 || cv > 57 {
            proof {
                assert(!is_digit(mag[i - start]));
                assert(!all_digits(mag));
                assert(!spec_index_valid(spec_trim(input@)));
            }
            return None;
        }
        let d: usize = (cv - 48) as usize;
        let ghost pv = spec_digits_val(mag.take(i - start));
        let ghost nv = spec_digits_val(mag.take(i + 1 - start));
        proof {
            assert(mag.take(i + 1 - start).drop_last() =~= mag.take(i - start));
            assert(mag.take(i + 1 - start).last() == mag[i - start]);
            assert(nv == pv * 10 + d);
        }
        if acc > (usize::MAX - d) / 10 {
            proof {
                assert(acc as int * 10 + d > usize::MAX);
                if all_digits(mag) {
                    lemma_digits_val_prefix_le(mag, i + 1 - start);
                    assert(spec_digits_val(mag) >= nv);
                    assert(spec_digits_val(mag) > blen);
                }
                assert(!(spec_index_valid(spec_trim(input@)) && 1 <= spec_index_val(
                    spec_trim(input@),
                ) <= branches@.len()));
            }
            return None;
        }
        acc = acc * 10 + d;
        i = i + 1;
    }
    proof {
        assert(mag.take(n - start) =~= mag);
        assert(all_digits(mag));
    }
    if acc >= 1 && acc <= blen {
        Some(branches[acc - 1].clone())
    } else {
        None
    }
}

} // verus!
