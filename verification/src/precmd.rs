//! The pre-command step's decisions: which shell commands a pre-command
//! string holds, and how a failure is reported. Running the commands is
//! the application shell's business.

use vstd::prelude::*;
use vstd::string::*;

use crate::strutil::{dec_int, i32_to_string, split_at_newlines, split_nl, trim_spec, trim_str};

verus! {

/// The commands kept from a list of newline-separated pieces: each piece
/// trimmed, empty results dropped.
pub open spec fn keep_commands(pieces: Seq<Seq<char>>) -> Seq<Seq<char>>
    decreases pieces.len(),
{
    if pieces.len() == 0 {
        Seq::empty()
    } else {
        let t = trim_spec(pieces[0]);
        let rest = keep_commands(pieces.drop_first());
        if t.len() > 0 {
            seq![t] + rest
        } else {
            rest
        }
    }
}

/// The commands a pre-command string holds: one per line, trimmed, empty
/// lines dropped.
pub open spec fn precmd_commands_spec(s: Seq<char>) -> Seq<Seq<char>> {
    keep_commands(split_nl(s))
}

/// Splits a pre-command string into the commands to run, in order.
pub fn precmd_commands(precmd: &str) -> (v: Vec<String>)
    ensures
        v@.map_values(|x: String| x@) == precmd_commands_spec(precmd@),
{
    let pieces = split_at_newlines(precmd);
    let ghost pv = pieces@.map_values(|x: String| x@);
    let mut v: Vec<String> = Vec::new();
    let mut i: usize = 0;
    proof {
        assert(pv.skip(0) =~= pv);
        assert(Seq::<Seq<char>>::empty() + keep_commands(pv) =~= keep_commands(pv));
    }
    while i < pieces.len()
        invariant
            pieces@.map_values(|x: String| x@) == pv,
            pv == split_nl(precmd@),
            i <= pieces.len(),
            pieces@.len() == pv.len(),
            precmd_commands_spec(precmd@) =~= v@.map_values(|x: String| x@) + keep_commands(
                pv.skip(i as int),
            ),
        decreases pieces.len() - i,
    {
        let ghost pre = pv.skip(i as int);
        proof {
            assert(pv[i as int] == pieces@[i as int]@);
            assert(pre[0] == pv[i as int]);
            assert(pre.drop_first() =~= pv.skip(i + 1));
        }
        let t = trim_str(pieces[i].as_str());
        if t.as_str().unicode_len() > 0 {
            proof {
                assert(keep_commands(pre) =~= seq![trim_spec(pv[i as int])] + keep_commands(
                    pv.skip(i + 1),
                ));
                assert(v@.push(t).map_values(|x: String| x@) =~= v@.map_values(
                    |x: String| x@,
                ).push(t@));
                assert(precmd_commands_spec(precmd@) =~= v@.push(t).map_values(|x: String| x@)
                    + keep_commands(pv.skip(i + 1)));
            }
            v.push(t);
        } else {
            proof {
                assert(keep_commands(pre) =~= keep_commands(pv.skip(i + 1)));
            }
        }
        i += 1;
    }
    proof {
        assert(pv.skip(pv.len() as int) =~= Seq::<Seq<char>>::empty());
        assert(keep_commands(Seq::<Seq<char>>::empty()) =~= Seq::<Seq<char>>::empty());
        assert(v@.map_values(|x: String| x@) =~= precmd_commands_spec(precmd@));
    }
    v
}

/// The report for a command that exited unsuccessfully, carrying the exit
/// code where the platform reported one.
pub open spec fn precmd_failure_spec(cmd: Seq<char>, code: Option<i32>) -> Seq<char> {
    "pre-command '"@ + cmd + "' failed with exit code: "@ + (match code {
        Some(c) => "Some("@ + dec_int(c as int) + ")"@,
        None => "None"@,
    })
}

/// Formats the report for a failed pre-command.
pub fn precmd_failure_message(cmd: &str, code: Option<i32>) -> (r: String)
    ensures
        r@ == precmd_failure_spec(cmd@, code),
{
    let mut s = String::from_str("pre-command '");
    s.append(cmd);
    s.append("' failed with exit code: ");
    match code {
        Some(c) => {
            s.append("Some(");
            let d = i32_to_string(c);
            s.append(d.as_str());
            s.append(")");
        },
        None => {
            s.append("None");
        },
    }
    proof {
        assert(s@ =~= precmd_failure_spec(cmd@, code));
    }
    s
}

} // verus!
