//! Formatting of the key/value entries appended to the platform's output
//! file. Appending itself is I/O and belongs to the application shell.

use vstd::prelude::*;
use vstd::string::*;

use crate::strutil::{contains_seq, str_contains};

verus! {

/// The entry appended for one key and value: plain `key=value` on one
/// line for a single-line value, the `key<<EOF` delimiter form for a
/// value holding newlines.
pub open spec fn output_entry_spec(key: Seq<char>, value: Seq<char>) -> Seq<char> {
    if contains_seq(value, "\n"@) {
        key + "<<EOF\n"@ + value + "\nEOF\n"@
    } else {
        key + "="@ + value + "\n"@
    }
}

/// Formats one key/value entry for the output file.
pub fn github_output_entry(key: &str, value: &str) -> (r: String)
    ensures
        r@ == output_entry_spec(key@, value@),
{
    let mut s = String::new();
    s.append(key);
    if str_contains(value, "\n") {
        s.append("<<EOF\n");
        s.append(value);
        s.append("\nEOF\n");
    } else {
        s.append("=");
        s.append(value);
        s.append("\n");
    }
    proof {
        assert(s@ =~= output_entry_spec(key@, value@));
    }
    s
}

} // verus!
