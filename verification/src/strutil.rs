//! Verified string helpers: decimal rendering and substring search.

use vstd::prelude::*;
use vstd::string::*;

verus! {

/// The character for one decimal digit.
pub open spec fn digit_char(d: nat) -> char {
    if d == 0 {
        '0'
    } else if d == 1 {
        '1'
    } else if d == 2 {
        '2'
    } else if d == 3 {
        '3'
    } else if d == 4 {
        '4'
    } else if d == 5 {
        '5'
    } else if d == 6 {
        '6'
    } else if d == 7 {
        '7'
    } else if d == 8 {
        '8'
    } else {
        '9'
    }
}

/// Decimal representation of a natural number, most significant digit first,
/// with no leading zeros (a lone `0` for zero).
pub open spec fn dec_rep(n: nat) -> Seq<char>
    decreases n,
{
    if n < 10 {
        seq![digit_char(n)]
    } else {
        dec_rep(n / 10) + seq![digit_char(n % 10)]
    }
}

fn digit_str(d: u64) -> (s: &'static str)
    requires
        d < 10,
    ensures
        s@ =~= seq![digit_char(d as nat)],
{
    proof {
        reveal_strlit("0");
        reveal_strlit("1");
        reveal_strlit("2");
        reveal_strlit("3");
        reveal_strlit("4");
        reveal_strlit("5");
        reveal_strlit("6");
        reveal_strlit("7");
        reveal_strlit("8");
        reveal_strlit("9");
    }
    match d {
        0 => "0",
        1 => "1",
        2 => "2",
        3 => "3",
        4 => "4",
        5 => "5",
        6 => "6",
        7 => "7",
        8 => "8",
        _ => "9",
    }
}

/// Characters of a digit stack (least significant first), read back out from
/// the top: the result lists the digits most significant first.
spec fn rev_chars(ds: Seq<u64>) -> Seq<char>
    decreases ds.len(),
{
    if ds.len() == 0 {
        Seq::empty()
    } else {
        seq![digit_char(ds.last() as nat)] + rev_chars(ds.drop_last())
    }
}

proof fn lemma_rev_chars_index(ds: Seq<u64>, k: int)
    requires
        0 <= k < ds.len(),
    ensures
        rev_chars(ds).len() == ds.len(),
        rev_chars(ds)[k] == digit_char(ds[ds.len() - 1 - k] as nat),
    decreases ds.len(),
{
    if k == 0 {
        lemma_rev_chars_len(ds.drop_last());
    } else {
        lemma_rev_chars_index(ds.drop_last(), k - 1);
    }
}

proof fn lemma_rev_chars_len(ds: Seq<u64>)
    ensures
        rev_chars(ds).len() == ds.len(),
    decreases ds.len(),
{
    if ds.len() > 0 {
        lemma_rev_chars_len(ds.drop_last());
    }
}

/// Renders a `u64` in decimal.
pub fn u64_to_string(n: u64) -> (s: String)
    ensures
        s@ == dec_rep(n as nat),
{
    let mut digits: Vec<u64> = Vec::new();
    let mut m: u64 = n;
    proof {
        assert(dec_rep(n as nat) =~= dec_rep(m as nat) + rev_chars(digits@));
    }
    while m >= 10
        invariant
            dec_rep(n as nat) == dec_rep(m as nat) + rev_chars(digits@),
            forall|k: int| 0 <= k < digits@.len() ==> digits@[k] < 10,
        decreases m,
    {
        let d = m % 10;
        let m2 = m / 10;
        proof {
            assert(rev_chars(digits@.push(d)) =~= seq![digit_char(d as nat)] + rev_chars(digits@))
                by {
                assert(digits@.push(d).drop_last() =~= digits@);
            }
            assert(dec_rep(m as nat) =~= dec_rep(m2 as nat) + seq![digit_char(d as nat)]);
            assert(dec_rep(n as nat) =~= dec_rep(m2 as nat) + rev_chars(digits@.push(d)));
        }
        digits.push(d);
        m = m2;
    }
    proof {
        assert(rev_chars(digits@.push(m)) =~= seq![digit_char(m as nat)] + rev_chars(digits@))
            by {
            assert(digits@.push(m).drop_last() =~= digits@);
        }
        assert(dec_rep(m as nat) =~= seq![digit_char(m as nat)]);
        assert(dec_rep(n as nat) =~= rev_chars(digits@.push(m)));
    }
    digits.push(m);

    let ghost target = rev_chars(digits@);
    proof {
        lemma_rev_chars_len(digits@);
    }
    let mut s = String::new();
    let len = digits.len();
    let mut j: usize = 0;
    while j < len
        invariant
            len == digits.len(),
            target == rev_chars(digits@),
            target.len() == len,
            forall|k: int| 0 <= k < digits@.len() ==> digits@[k] < 10,
            j <= len,
            s@ =~= target.take(j as int),
        decreases len - j,
    {
        let d = digits[len - 1 - j];
        proof {
            lemma_rev_chars_index(digits@, j as int);
            assert(target.take(j + 1) =~= target.take(j as int) + seq![target[j as int]]);
        }
        s.append(digit_str(d));
        j += 1;
    }
    proof {
        assert(s@ =~= target);
    }
    s
}

/// Decimal representation of a signed integer: a minus sign, where the value
/// is negative, followed by the digits of its magnitude.
pub open spec fn dec_int(i: int) -> Seq<char> {
    if i >= 0 {
        dec_rep(i as nat)
    } else {
        seq!['-'] + dec_rep((-i) as nat)
    }
}

/// Renders an `i32` in decimal.
pub fn i32_to_string(n: i32) -> (s: String)
    ensures
        s@ == dec_int(n as int),
{
    if n >= 0 {
        let s = u64_to_string(n as u64);
        s
    } else {
        let wide: i64 = n as i64;
        let mag: u64 = (-wide) as u64;
        let mut s = String::from_str("-");
        proof {
            reveal_strlit("-");
            assert("-"@ =~= seq!['-']);
        }
        let rest = u64_to_string(mag);
        s.append(rest.as_str());
        proof {
            assert(s@ =~= dec_int(n as int));
        }
        s
    }
}

/// `needle` occurs in `hay` starting at position `i`.
pub open spec fn occurs_at(hay: Seq<char>, needle: Seq<char>, i: int) -> bool {
    0 <= i && i + needle.len() <= hay.len() && hay.subrange(i, i + needle.len()) =~= needle
}

/// `needle` occurs somewhere in `hay`.
pub open spec fn contains_seq(hay: Seq<char>, needle: Seq<char>) -> bool {
    exists|i: int| occurs_at(hay, needle, i)
}

/// Substring test on character sequences.
pub fn str_contains(hay: &str, needle: &str) -> (r: bool)
    ensures
        r == contains_seq(hay@, needle@),
{
    let hn = hay.unicode_len();
    let nn = needle.unicode_len();
    if nn > hn {
        proof {
            assert(forall|i: int| !occurs_at(hay@, needle@, i));
        }
        return false;
    }
    let mut i: usize = 0;
    while i <= hn - nn
        invariant
            nn == needle@.len(),
            hn == hay@.len(),
            nn <= hn,
            i <= hn - nn + 1,
            forall|k: int| 0 <= k < i ==> !occurs_at(hay@, needle@, k),
        decreases hn - nn - i + 1,
    {
        let mut j: usize = 0;
        let mut same = true;
        while same && j < nn
            invariant
                nn == needle@.len(),
                hn == hay@.len(),
                i + nn <= hn,
                j <= nn,
                same ==> (forall|k: int| 0 <= k < j ==> hay@[i + k] == needle@[k]),
                !same ==> !occurs_at(hay@, needle@, i as int),
            decreases nn - j, (if same { 1int } else { 0int }),
        {
            let hc = hay.get_char(i + j);
            let nc = needle.get_char(j);
            if hc != nc {
                proof {
                    assert(hay@.subrange(i as int, i + nn)[j as int] == hay@[i + j]);
                }
                same = false;
            } else {
                proof {
                    assert(forall|k: int| 0 <= k < j + 1 ==> hay@[i + k] == needle@[k]);
                }
                j += 1;
            }
        }
        if same {
            proof {
                assert(hay@.subrange(i as int, i + nn) =~= needle@) by {
                    assert(forall|k: int| 0 <= k < nn ==> #[trigger] hay@.subrange(
                        i as int,
                        i + nn,
                    )[k] == hay@[i + k]);
                }
                assert(occurs_at(hay@, needle@, i as int));
            }
            return true;
        }
        i += 1;
    }
    proof {
        assert(!contains_seq(hay@, needle@)) by {
            assert forall|k: int| !occurs_at(hay@, needle@, k) by {
                if 0 <= k && k + needle@.len() <= hay@.len() {
                    assert(k < i);
                }
            }
        }
    }
    false
}

/// Character-for-character equality of two strings.
pub fn str_eq(a: &str, b: &str) -> (r: bool)
    ensures
        r == (a@ == b@),
{
    let n = a.unicode_len();
    if n != b.unicode_len() {
        proof {
            assert(a@ != b@);
        }
        return false;
    }
    let mut i: usize = 0;
    while i < n
        invariant
            n == a@.len(),
            n == b@.len(),
            i <= n,
            forall|k: int| 0 <= k < i ==> a@[k] == b@[k],
        decreases n - i,
    {
        if a.get_char(i) != b.get_char(i) {
            proof {
                assert(a@[i as int] != b@[i as int]);
            }
            return false;
        }
        i += 1;
    }
    proof {
        assert(a@ =~= b@);
    }
    true
}

/// Whether a character counts as whitespace; the result of
/// `char::is_whitespace`, which depends on the character alone.
pub uninterp spec fn ws_of(c: char) -> bool;

/// Relies on char::is_whitespace: the Unicode whitespace test.
pub assume_specification[ char::is_whitespace ](c: char) -> (r: bool)
    ensures
        r == ws_of(c),
;

/// Every character of the sequence is whitespace.
pub open spec fn all_ws(s: Seq<char>) -> bool {
    forall|i: int| 0 <= i < s.len() ==> ws_of(s[i])
}

/// Whether trimming the string would leave nothing.
pub fn is_blank(s: &str) -> (r: bool)
    ensures
        r == all_ws(s@),
{
    let n = s.unicode_len();
    let mut i: usize = 0;
    while i < n
        invariant
            n == s@.len(),
            i <= n,
            forall|k: int| 0 <= k < i ==> ws_of(s@[k]),
        decreases n - i,
    {
        if !s.get_char(i).is_whitespace() {
            return false;
        }
        i += 1;
    }
    true
}

/// The position of the first newline, or the length where there is none.
pub open spec fn first_nl(s: Seq<char>) -> int
    decreases s.len(),
{
    if s.len() == 0 {
        0
    } else if s[0] == '\n' {
        0
    } else {
        1 + first_nl(s.drop_first())
    }
}

pub proof fn lemma_first_nl_bounds(s: Seq<char>)
    ensures
        0 <= first_nl(s) <= s.len(),
        forall|i: int| 0 <= i < first_nl(s) ==> s[i] != '\n',
        first_nl(s) < s.len() ==> s[first_nl(s)] == '\n',
    decreases s.len(),
{
    if s.len() > 0 && s[0] != '\n' {
        lemma_first_nl_bounds(s.drop_first());
        assert(forall|i: int| 0 <= i < first_nl(s.drop_first()) ==> s.drop_first()[i] != '\n');
        assert forall|i: int| 0 <= i < first_nl(s) implies s[i] != '\n' by {
            if i > 0 {
                assert(s.drop_first()[i - 1] != '\n');
            }
        }
    }
}

/// `first_nl` is pinned by its characterization: no newline before `i`,
/// and a newline (or the end) at `i`.
pub proof fn lemma_first_nl_is(s: Seq<char>, i: int)
    requires
        0 <= i <= s.len(),
        forall|j: int| 0 <= j < i ==> s[j] != '\n',
        i < s.len() ==> s[i] == '\n',
    ensures
        first_nl(s) == i,
    decreases s.len(),
{
    if s.len() > 0 && s[0] != '\n' {
        let rest = s.drop_first();
        assert(forall|j: int| 0 <= j < i - 1 ==> rest[j] == s[j + 1]);
        lemma_first_nl_is(rest, i - 1);
    }
}

/// One line as delivered: the text up to the newline, with a carriage
/// return immediately before the newline stripped.
pub open spec fn strip_cr(s: Seq<char>) -> Seq<char> {
    if s.len() > 0 && s.last() == '\r' {
        s.drop_last()
    } else {
        s
    }
}

/// The lines of a text: split at each newline, a carriage return before a
/// newline stripped, and nothing produced for a trailing newline.
pub open spec fn lines_of(s: Seq<char>) -> Seq<Seq<char>>
    decreases s.len(),
{
    if s.len() == 0 {
        Seq::empty()
    } else {
        let k = first_nl(s);
        if !(0 <= k < s.len()) {
            seq![s]
        } else {
            seq![strip_cr(s.take(k))] + lines_of(s.skip(k + 1))
        }
    }
}

proof fn lemma_first_nl_concat(a: Seq<char>, b: Seq<char>)
    requires
        first_nl(a) < a.len(),
    ensures
        first_nl(a + b) == first_nl(a),
{
    lemma_first_nl_bounds(a);
    assert(forall|j: int| 0 <= j < first_nl(a) ==> (a + b)[j] != '\n');
    assert((a + b)[first_nl(a)] == '\n');
    lemma_first_nl_is(a + b, first_nl(a));
}

/// Lines distribute over concatenation at a line boundary: where `a` is
/// empty or ends in a newline, the lines of `a + b` are the lines of `a`
/// followed by the lines of `b`.
pub proof fn lemma_lines_append(a: Seq<char>, b: Seq<char>)
    requires
        a.len() == 0 || a.last() == '\n',
    ensures
        lines_of(a + b) == lines_of(a) + lines_of(b),
    decreases a.len(),
{
    if a.len() == 0 {
        assert(a + b =~= b);
        assert(lines_of(a) + lines_of(b) =~= lines_of(b));
    } else {
        let k = first_nl(a);
        lemma_first_nl_bounds(a);
        if k == a.len() {
            assert(a[a.len() - 1] != '\n');
            assert(false);
        }
        if b.len() == 0 {
            assert(a + b =~= a);
            assert(lines_of(a) + lines_of(b) =~= lines_of(a));
        } else {
            lemma_first_nl_concat(a, b);
            let rest = a.skip(k + 1);
            assert(rest.len() == 0 || rest.last() == '\n');
            lemma_lines_append(rest, b);
            assert((a + b).take(k) =~= a.take(k));
            assert((a + b).skip(k + 1) =~= rest + b);
            assert(lines_of(a + b) =~= seq![strip_cr(a.take(k))] + (lines_of(rest) + lines_of(
                b,
            )));
            assert(lines_of(a) + lines_of(b) =~= seq![strip_cr(a.take(k))] + (lines_of(rest)
                + lines_of(b)));
        }
    }
}

/// Splits a text into its lines.
pub fn split_lines(s: &str) -> (v: Vec<String>)
    ensures
        v@.map_values(|x: String| x@) == lines_of(s@),
{
    let n = s.unicode_len();
    let mut v: Vec<String> = Vec::new();
    let mut start: usize = 0;
    let mut i: usize = 0;
    while i < n
        invariant
            n == s@.len(),
            start <= i <= n,
            start == 0 || s@[start - 1] == '\n',
            forall|k: int| start <= k < i ==> s@[k] != '\n',
            v@.map_values(|x: String| x@) == lines_of(s@.take(start as int)),
        decreases n - i,
    {
        if s.get_char(i) == '\n' {
            let line_end = if i > start && s.get_char(i - 1) == '\r' {
                i - 1
            } else {
                i
            };
            let line = s.substring_char(start, line_end).to_owned();
            proof {
                let sub = s@.subrange(start as int, i as int);
                assert(line@ =~= strip_cr(sub));
                let a = s@.take(start as int);
                let b = sub + seq!['\n'];
                assert(s@.take(i + 1) =~= a + b);
                assert(forall|j: int| 0 <= j < sub.len() ==> b[j] != '\n');
                lemma_first_nl_is(b, sub.len() as int);
                assert(b.take(sub.len() as int) =~= sub);
                assert(b.skip(sub.len() as int + 1) =~= Seq::<char>::empty());
                assert(lines_of(Seq::<char>::empty()) =~= Seq::<Seq<char>>::empty());
                lemma_first_nl_bounds(b);
                assert(b.take(sub.len() as int) == sub);
                assert(lines_of(b) =~= seq![strip_cr(sub)]);
                lemma_lines_append(a, b);
                assert(lines_of(s@.take(i + 1)) =~= lines_of(a).push(strip_cr(sub)));
                assert(v@.push(line).map_values(|x: String| x@) =~= v@.map_values(
                    |x: String| x@,
                ).push(line@));
            }
            v.push(line);
            start = i + 1;
        }
        i += 1;
    }
    if start < n {
        let line = s.substring_char(start, n).to_owned();
        proof {
            let a = s@.take(start as int);
            let b = s@.subrange(start as int, n as int);
            assert(s@ =~= a + b);
            lemma_first_nl_is(b, b.len() as int);
            lemma_first_nl_bounds(b);
            assert(lines_of(b) =~= seq![b]);
            lemma_lines_append(a, b);
            assert(lines_of(s@) =~= lines_of(a).push(b));
            assert(v@.push(line).map_values(|x: String| x@) =~= v@.map_values(
                |x: String| x@,
            ).push(line@));
        }
        v.push(line);
    } else {
        proof {
            assert(s@.take(start as int) =~= s@);
        }
    }
    v
}


/// The value of one decimal digit character.
pub open spec fn digit_val(c: char) -> Option<nat> {
    if c == '0' {
        Some(0 as nat)
    } else if c == '1' {
        Some(1 as nat)
    } else if c == '2' {
        Some(2 as nat)
    } else if c == '3' {
        Some(3 as nat)
    } else if c == '4' {
        Some(4 as nat)
    } else if c == '5' {
        Some(5 as nat)
    } else if c == '6' {
        Some(6 as nat)
    } else if c == '7' {
        Some(7 as nat)
    } else if c == '8' {
        Some(8 as nat)
    } else if c == '9' {
        Some(9 as nat)
    } else {
        None
    }
}

/// Folds decimal digits onto an accumulator, left to right; `None` on the
/// first non-digit.
pub open spec fn parse_dec_rec(w: Seq<char>, acc: nat) -> Option<nat>
    decreases w.len(),
{
    if w.len() == 0 {
        Some(acc)
    } else {
        match digit_val(w[0]) {
            Some(d) => parse_dec_rec(w.drop_first(), acc * 10 + d),
            None => None,
        }
    }
}

/// The number a string of decimal digits denotes: nonempty, digits only,
/// no leading zero (a lone `0` stands for zero).
pub open spec fn parse_dec(w: Seq<char>) -> Option<nat> {
    if w.len() == 0 {
        None
    } else if w.len() > 1 && w[0] == '0' {
        None
    } else {
        parse_dec_rec(w, 0)
    }
}

/// `parse_dec`, held to the `u32` range.
pub open spec fn parse_dec_u32(w: Seq<char>) -> Option<u32> {
    match parse_dec(w) {
        Some(n) => if n <= u32::MAX { Some(n as u32) } else { None },
        None => None,
    }
}

proof fn lemma_parse_dec_rec_mono(w: Seq<char>, acc: nat)
    ensures
        parse_dec_rec(w, acc) matches Some(m) ==> m >= acc,
    decreases w.len(),
{
    if w.len() > 0 {
        match digit_val(w[0]) {
            Some(d) => {
                lemma_parse_dec_rec_mono(w.drop_first(), acc * 10 + d);
            },
            None => {},
        }
    }
}

proof fn lemma_parse_dec_rec_append(a: Seq<char>, b: Seq<char>, acc: nat, m: nat)
    requires
        parse_dec_rec(a, acc) == Some(m),
    ensures
        parse_dec_rec(a + b, acc) == parse_dec_rec(b, m),
    decreases a.len(),
{
    if a.len() == 0 {
        assert(a + b =~= b);
    } else {
        let d = digit_val(a[0]).unwrap();
        assert((a + b).drop_first() =~= a.drop_first() + b);
        lemma_parse_dec_rec_append(a.drop_first(), b, acc * 10 + d, m);
    }
}

proof fn lemma_dec_rep_first(n: nat)
    ensures
        dec_rep(n).len() >= 1,
        n >= 1 ==> dec_rep(n)[0] != '0',
        parse_dec(dec_rep(n)) == parse_dec_rec(dec_rep(n), 0),
    decreases n,
{
    if n >= 10 {
        lemma_dec_rep_first(n / 10);
        assert(dec_rep(n)[0] == dec_rep(n / 10)[0]);
    }
}

/// Every character of a decimal rendering is a digit.
pub proof fn lemma_dec_rep_digits(n: nat)
    ensures
        forall|i: int| 0 <= i < dec_rep(n).len() ==> digit_val(#[trigger] dec_rep(n)[i]) is Some,
    decreases n,
{
    if n < 10 {
        assert(dec_rep(n) =~= seq![digit_char(n)]);
        assert(digit_val(digit_char(n)) == Some(n));
    } else {
        lemma_dec_rep_digits(n / 10);
        assert forall|i: int| 0 <= i < dec_rep(n).len() implies digit_val(
            #[trigger] dec_rep(n)[i],
        ) is Some by {
            if i < dec_rep(n / 10).len() {
                assert(dec_rep(n)[i] == dec_rep(n / 10)[i]);
            } else {
                assert(dec_rep(n)[i] == digit_char(n % 10));
                assert(digit_val(digit_char(n % 10)) == Some(n % 10));
            }
        }
    }
}

/// Rendering a number in decimal and parsing it back yields the number.
pub proof fn lemma_parse_dec_of_dec_rep(n: nat)
    ensures
        parse_dec(dec_rep(n)) == Some(n),
    decreases n,
{
    lemma_dec_rep_first(n);
    if n < 10 {
        assert(dec_rep(n) =~= seq![digit_char(n)]);
        assert(digit_val(digit_char(n)) == Some(n));
        assert(dec_rep(n).drop_first() =~= Seq::<char>::empty());
        assert(parse_dec_rec(Seq::<char>::empty(), n) == Some(n));
        assert(parse_dec_rec(dec_rep(n), 0) == Some(n));
    } else {
        lemma_parse_dec_of_dec_rep(n / 10);
        lemma_dec_rep_first(n / 10);
        let tail = seq![digit_char(n % 10)];
        lemma_parse_dec_rec_append(dec_rep(n / 10), tail, 0, n / 10);
        assert(digit_val(digit_char(n % 10)) == Some(n % 10));
        assert(tail.drop_first() =~= Seq::<char>::empty());
        assert(parse_dec_rec(Seq::<char>::empty(), (n / 10) * 10 + n % 10) == Some(
            (n / 10) * 10 + n % 10,
        ));
        assert(parse_dec_rec(tail, n / 10) == Some((n / 10) * 10 + n % 10));
        assert((n / 10) * 10 + n % 10 == n);
    }
}

/// Parses a decimal numeral into a `u32`: nonempty, digits only, no
/// leading zero, and within range.
pub fn parse_u32(s: &str) -> (r: Option<u32>)
    ensures
        r == parse_dec_u32(s@),
{
    let n = s.unicode_len();
    if n == 0 {
        return None;
    }
    if n > 1 && s.get_char(0) == '0' {
        return None;
    }
    let mut acc: u32 = 0;
    let mut i: usize = 0;
    proof {
        assert(s@.skip(0) =~= s@);
    }
    while i < n
        invariant
            n == s@.len(),
            i <= n,
            parse_dec_rec(s@, 0) == parse_dec_rec(s@.skip(i as int), acc as nat),
        decreases n - i,
    {
        let c = s.get_char(i);
        let d: u32 = if c == '0' {
            0
        } else if c == '1' {
            1
        } else if c == '2' {
            2
        } else if c == '3' {
            3
        } else if c == '4' {
            4
        } else if c == '5' {
            5
        } else if c == '6' {
            6
        } else if c == '7' {
            7
        } else if c == '8' {
            8
        } else if c == '9' {
            9
        } else {
            proof {
                assert(digit_val(s@[i as int]) is None);
                assert(parse_dec_rec(s@.skip(i as int), acc as nat) is None);
            }
            return None;
        };
        proof {
            assert(digit_val(s@[i as int]) == Some(d as nat));
            assert(s@.skip(i as int).drop_first() =~= s@.skip(i + 1));
            assert(parse_dec_rec(s@.skip(i as int), acc as nat) == parse_dec_rec(
                s@.skip(i + 1),
                (acc * 10 + d) as nat,
            ));
        }
        let wide: u64 = acc as u64 * 10 + d as u64;
        if wide > u32::MAX as u64 {
            proof {
                lemma_parse_dec_rec_mono(s@.skip(i + 1), (acc * 10 + d) as nat);
            }
            return None;
        }
        acc = wide as u32;
        i += 1;
    }
    proof {
        assert(s@.skip(n as int) =~= Seq::<char>::empty());
        assert(parse_dec_rec(s@, 0) == Some(acc as nat));
    }
    Some(acc)
}

/// The length of the run of whitespace at the front.
pub open spec fn ws_prefix_len(s: Seq<char>) -> int
    decreases s.len(),
{
    if s.len() == 0 {
        0
    } else if !ws_of(s[0]) {
        0
    } else {
        1 + ws_prefix_len(s.drop_first())
    }
}

/// The length of the run of whitespace at the back.
pub open spec fn ws_suffix_len(s: Seq<char>) -> int
    decreases s.len(),
{
    if s.len() == 0 {
        0
    } else if !ws_of(s.last()) {
        0
    } else {
        1 + ws_suffix_len(s.drop_last())
    }
}

/// The string with leading and trailing whitespace removed.
pub open spec fn trim_spec(s: Seq<char>) -> Seq<char> {
    if all_ws(s) {
        Seq::empty()
    } else {
        s.subrange(ws_prefix_len(s), s.len() - ws_suffix_len(s))
    }
}

proof fn lemma_ws_prefix_is(s: Seq<char>, p: int)
    requires
        0 <= p <= s.len(),
        forall|i: int| 0 <= i < p ==> ws_of(s[i]),
        p < s.len() ==> !ws_of(s[p]),
    ensures
        ws_prefix_len(s) == p,
    decreases s.len(),
{
    if s.len() > 0 && ws_of(s[0]) {
        let rest = s.drop_first();
        assert(forall|i: int| 0 <= i < p - 1 ==> rest[i] == s[i + 1]);
        lemma_ws_prefix_is(rest, p - 1);
    }
}

proof fn lemma_ws_suffix_is(s: Seq<char>, q: int)
    requires
        0 <= q <= s.len(),
        forall|i: int| s.len() - q <= i < s.len() ==> ws_of(s[i]),
        q < s.len() ==> !ws_of(s[s.len() - q - 1]),
    ensures
        ws_suffix_len(s) == q,
    decreases s.len(),
{
    if s.len() > 0 && ws_of(s.last()) {
        let rest = s.drop_last();
        assert(forall|i: int| rest.len() - (q - 1) <= i < rest.len() ==> ws_of(rest[i]));
        lemma_ws_suffix_is(rest, q - 1);
    }
}

/// Trims leading and trailing whitespace.
pub fn trim_str(s: &str) -> (r: String)
    ensures
        r@ == trim_spec(s@),
{
    let n = s.unicode_len();
    let mut a: usize = 0;
    while a < n && s.get_char(a).is_whitespace()
        invariant
            n == s@.len(),
            a <= n,
            forall|i: int| 0 <= i < a ==> ws_of(s@[i]),
        decreases n - a,
    {
        a += 1;
    }
    if a == n {
        proof {
            assert(all_ws(s@));
        }
        return String::new();
    }
    let mut b: usize = n;
    while b > a + 1 && s.get_char(b - 1).is_whitespace()
        invariant
            n == s@.len(),
            a < b <= n,
            !ws_of(s@[a as int]),
            forall|i: int| b <= i < n ==> ws_of(s@[i]),
        decreases b,
    {
        b -= 1;
    }
    let r = s.substring_char(a, b).to_owned();
    proof {
        assert(!all_ws(s@));
        lemma_ws_prefix_is(s@, a as int);
        lemma_ws_suffix_is(s@, n - b as int);
        assert(r@ =~= trim_spec(s@));
    }
    r
}

/// The pieces of a text split at each newline: every newline ends a
/// piece, and the remainder after the last newline is a piece, empty or
/// not.
pub open spec fn split_nl(s: Seq<char>) -> Seq<Seq<char>>
    decreases s.len(),
{
    let k = first_nl(s);
    if !(0 <= k < s.len()) {
        seq![s]
    } else {
        seq![s.take(k)] + split_nl(s.skip(k + 1))
    }
}

/// Splits a text at each newline.
pub fn split_at_newlines(s: &str) -> (v: Vec<String>)
    ensures
        v@.map_values(|x: String| x@) == split_nl(s@),
{
    let n = s.unicode_len();
    let mut v: Vec<String> = Vec::new();
    let mut start: usize = 0;
    let mut i: usize = 0;
    proof {
        assert(s@.skip(0) =~= s@);
    }
    while i < n
        invariant
            n == s@.len(),
            start <= i <= n,
            forall|k: int| start <= k < i ==> s@[k] != '\n',
            split_nl(s@) =~= v@.map_values(|x: String| x@) + split_nl(s@.skip(start as int)),
        decreases n - i,
    {
        if s.get_char(i) == '\n' {
            let line = s.substring_char(start, i).to_owned();
            proof {
                let w = s@.skip(start as int);
                let sub = s@.subrange(start as int, i as int);
                assert(forall|k: int| 0 <= k < sub.len() ==> w[k] == s@[start + k]);
                lemma_first_nl_is(w, sub.len() as int);
                assert(w.take(sub.len() as int) =~= sub);
                assert(w.skip(sub.len() as int + 1) =~= s@.skip(i + 1));
                assert(split_nl(w) =~= seq![sub] + split_nl(s@.skip(i + 1)));
                assert(line@ == sub);
                assert(v@.push(line).map_values(|x: String| x@) =~= v@.map_values(
                    |x: String| x@,
                ).push(sub));
                assert(split_nl(s@) =~= v@.push(line).map_values(|x: String| x@) + split_nl(
                    s@.skip(i + 1),
                ));
            }
            v.push(line);
            start = i + 1;
        }
        i += 1;
    }
    let line = s.substring_char(start, n).to_owned();
    proof {
        let w = s@.skip(start as int);
        lemma_first_nl_is(w, w.len() as int);
        assert(split_nl(w) =~= seq![w]);
        assert(line@ == w);
        assert(v@.push(line).map_values(|x: String| x@) =~= v@.map_values(|x: String| x@).push(
            w,
        ));
        assert(split_nl(s@) =~= v@.push(line).map_values(|x: String| x@));
    }
    v.push(line);
    v
}

} // verus!
