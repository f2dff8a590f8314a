//! The configuration record handed to the summary/reporting collaborator,
//! with a line-based rendering that parses back to the same values.

use vstd::prelude::*;
use vstd::string::*;

use crate::strutil::{
    dec_rep, digit_val, first_nl, lemma_dec_rep_digits, lemma_first_nl_is,
    lemma_parse_dec_of_dec_rep, parse_dec_u32, parse_u32, str_eq, u64_to_string,
};

verus! {

/// Ghost view of a `SummaryConfig`: the six recognized keys as plain values.
pub ghost struct SummaryConfigV {
    pub is_timeout: bool,
    pub timeout_secs: u32,
    pub model: Seq<char>,
    pub base_url: Seq<char>,
    pub working_dir: Seq<char>,
    pub prompt: Seq<char>,
}

/// The configuration record used for summary generation: the six
/// recognized keys.
#[derive(Debug)]
pub struct SummaryConfig {
    pub is_timeout: bool,
    pub timeout_secs: u32,
    pub model: String,
    pub base_url: String,
    pub working_dir: String,
    pub prompt: String,
}

impl View for SummaryConfig {
    type V = SummaryConfigV;

    open spec fn view(&self) -> SummaryConfigV {
        SummaryConfigV {
            is_timeout: self.is_timeout,
            timeout_secs: self.timeout_secs,
            model: self.model@,
            base_url: self.base_url@,
            working_dir: self.working_dir@,
            prompt: self.prompt@,
        }
    }
}

/// The escaping of one character in a rendered value: backslash and
/// newline become two-character escapes, everything else stands as is.
pub open spec fn esc_v_char(c: char) -> Seq<char> {
    if c == '\\' {
        "\\\\"@
    } else if c == '\n' {
        "\\n"@
    } else {
        seq![c]
    }
}

/// The escaping of a whole value, character by character. The result
/// carries no raw newline, so a rendered value occupies one line.
pub open spec fn esc_v(s: Seq<char>) -> Seq<char>
    decreases s.len(),
{
    if s.len() == 0 {
        Seq::empty()
    } else {
        esc_v_char(s[0]) + esc_v(s.drop_first())
    }
}

/// The inverse of `esc_v`: `None` on a dangling or unknown escape.
pub open spec fn unesc_v(w: Seq<char>) -> Option<Seq<char>>
    decreases w.len(),
{
    if w.len() == 0 {
        Some(Seq::empty())
    } else if w[0] == '\\' {
        if w.len() < 2 {
            None
        } else if w[1] == '\\' {
            match unesc_v(w.skip(2)) {
                Some(r) => Some(seq!['\\'] + r),
                None => None,
            }
        } else if w[1] == 'n' {
            match unesc_v(w.skip(2)) {
                Some(r) => Some(seq!['\n'] + r),
                None => None,
            }
        } else {
            None
        }
    } else {
        match unesc_v(w.drop_first()) {
            Some(r) => Some(seq![w[0]] + r),
            None => None,
        }
    }
}

proof fn lemma_esc_v_append(a: Seq<char>, b: Seq<char>)
    ensures
        esc_v(a + b) == esc_v(a) + esc_v(b),
    decreases a.len(),
{
    if a.len() == 0 {
        assert(a + b =~= b);
        assert(esc_v(a) + esc_v(b) =~= esc_v(b));
    } else {
        assert((a + b).drop_first() =~= a.drop_first() + b);
        lemma_esc_v_append(a.drop_first(), b);
        assert((a + b)[0] == a[0]);
        assert(esc_v(a + b) =~= esc_v(a) + esc_v(b));
    }
}

proof fn lemma_esc_v_plain(w: Seq<char>)
    requires
        forall|i: int| 0 <= i < w.len() ==> w[i] != '\\' && w[i] != '\n',
    ensures
        esc_v(w) == w,
    decreases w.len(),
{
    if w.len() > 0 {
        assert(forall|i: int| 0 <= i < w.drop_first().len() ==> w.drop_first()[i] != '\\'
            && w.drop_first()[i] != '\n');
        lemma_esc_v_plain(w.drop_first());
        assert(esc_v(w) =~= w);
    }
}

/// No raw newline survives escaping.
proof fn lemma_esc_v_no_nl(s: Seq<char>)
    ensures
        forall|i: int| 0 <= i < esc_v(s).len() ==> esc_v(s)[i] != '\n',
    decreases s.len(),
{
    if s.len() > 0 {
        lemma_esc_v_no_nl(s.drop_first());
        let head = esc_v_char(s[0]);
        assert(forall|i: int| 0 <= i < head.len() ==> head[i] != '\n') by {
            reveal_strlit("\\\\");
            reveal_strlit("\\n");
        }
        assert(forall|i: int| 0 <= i < esc_v(s).len() ==> esc_v(s)[i] != '\n') by {
            assert(forall|i: int| head.len() <= i < esc_v(s).len() ==> esc_v(s)[i] == esc_v(
                s.drop_first(),
            )[i - head.len()]);
        }
    }
}

/// Escaping then unescaping a value yields the value back.
proof fn lemma_unesc_esc(s: Seq<char>)
    ensures
        unesc_v(esc_v(s)) == Some(s),
    decreases s.len(),
{
    reveal_strlit("\\\\");
    reveal_strlit("\\n");
    if s.len() == 0 {
        assert(esc_v(s) =~= Seq::<char>::empty());
        assert(s =~= Seq::<char>::empty());
    } else {
        let c = s[0];
        let rest = s.drop_first();
        lemma_unesc_esc(rest);
        let w = esc_v(s);
        if c == '\\' {
            assert(w[0] == '\\' && w[1] == '\\');
            assert(w.skip(2) =~= esc_v(rest));
            assert(seq!['\\'] + rest =~= s);
        } else if c == '\n' {
            assert(w[0] == '\\' && w[1] == 'n');
            assert(w.skip(2) =~= esc_v(rest));
            assert(seq!['\n'] + rest =~= s);
        } else {
            assert(w[0] == c);
            assert(w.drop_first() =~= esc_v(rest));
            assert(seq![c] + rest =~= s);
        }
    }
}

/// The escaped-value domain of `unesc_v`, lifted over a prefix already
/// decoded.
pub open spec fn lift_prefix(p: Seq<char>, o: Option<Seq<char>>) -> Option<Seq<char>> {
    match o {
        Some(r) => Some(p + r),
        None => None,
    }
}

proof fn lemma_unesc_plain_prefix(w: Seq<char>, m: int)
    requires
        0 <= m <= w.len(),
        forall|k: int| 0 <= k < m ==> w[k] != '\\',
    ensures
        unesc_v(w) == lift_prefix(w.take(m), unesc_v(w.skip(m))),
    decreases m,
{
    if m == 0 {
        assert(w.skip(0) =~= w);
        assert(w.take(0) =~= Seq::<char>::empty());
        match unesc_v(w) {
            Some(r) => {
                assert(Seq::<char>::empty() + r =~= r);
            },
            None => {},
        }
    } else {
        let rest = w.drop_first();
        assert(forall|k: int| 0 <= k < m - 1 ==> rest[k] == w[k + 1]);
        lemma_unesc_plain_prefix(rest, m - 1);
        assert(rest.skip(m - 1) =~= w.skip(m));
        assert(rest.take(m - 1) =~= w.take(m).drop_first());
        match unesc_v(w.skip(m)) {
            Some(r) => {
                assert(unesc_v(rest) == Some(w.take(m).drop_first() + r));
                assert(unesc_v(w) == Some(seq![w[0]] + (w.take(m).drop_first() + r)));
                assert(seq![w[0]] + (w.take(m).drop_first() + r) =~= w.take(m) + r);
            },
            None => {
                assert(unesc_v(rest) is None);
                assert(unesc_v(w) is None);
            },
        }
    }
}

/// Escapes backslashes and newlines in a value.
fn escape_value(s: &str) -> (r: String)
    ensures
        r@ == esc_v(s@),
{
    let n = s.unicode_len();
    let mut out = String::new();
    let mut start: usize = 0;
    let mut i: usize = 0;
    while i < n
        invariant
            n == s@.len(),
            start <= i <= n,
            out@ == esc_v(s@.take(start as int)),
            forall|k: int| start <= k < i ==> s@[k] != '\\' && s@[k] != '\n',
        decreases n - i,
    {
        let c = s.get_char(i);
        if c == '\\' || c == '\n' {
            let chunk = s.substring_char(start, i);
            out.append(chunk);
            if c == '\\' {
                out.append("\\\\");
            } else {
                out.append("\\n");
            }
            proof {
                let sub = s@.subrange(start as int, i as int);
                lemma_esc_v_plain(sub);
                lemma_esc_v_append(s@.take(start as int), sub);
                lemma_esc_v_append(s@.take(start as int) + sub, seq![s@[i as int]]);
                assert(esc_v(seq![s@[i as int]]) =~= esc_v_char(s@[i as int])) by {
                    assert(seq![s@[i as int]].drop_first() =~= Seq::<char>::empty());
                    assert(esc_v(Seq::<char>::empty()) =~= Seq::<char>::empty());
                }
                assert(s@.take(i + 1) =~= (s@.take(start as int) + sub) + seq![s@[i as int]]);
                assert(out@ =~= esc_v(s@.take(i + 1)));
            }
            start = i + 1;
        }
        i += 1;
    }
    let chunk = s.substring_char(start, n);
    out.append(chunk);
    proof {
        let sub = s@.subrange(start as int, n as int);
        lemma_esc_v_plain(sub);
        lemma_esc_v_append(s@.take(start as int), sub);
        assert(s@ =~= s@.take(start as int) + sub);
        assert(out@ =~= esc_v(s@));
    }
    out
}

/// Undoes `escape_value`; `None` on a dangling or unknown escape.
fn unescape_value(s: &str) -> (r: Option<String>)
    ensures
        r matches Some(x) ==> unesc_v(s@) == Some(x@),
        r is None ==> unesc_v(s@) is None,
{
    let n = s.unicode_len();
    let mut out = String::new();
    let mut start: usize = 0;
    let mut i: usize = 0;
    proof {
        assert(s@.skip(0) =~= s@);
        match unesc_v(s@) {
            Some(r) => {
                assert(Seq::<char>::empty() + r =~= r);
            },
            None => {},
        }
    }
    while i < n
        invariant
            n == s@.len(),
            start <= i <= n,
            unesc_v(s@) == lift_prefix(out@, unesc_v(s@.skip(start as int))),
            forall|k: int| start <= k < i ==> s@[k] != '\\',
        decreases n - i,
    {
        if s.get_char(i) == '\\' {
            let ghost out0 = out@;
            let chunk = s.substring_char(start, i);
            out.append(chunk);
            proof {
                let w = s@.skip(start as int);
                let sub = s@.subrange(start as int, i as int);
                assert(forall|k: int| 0 <= k < sub.len() ==> w[k] == s@[start + k]);
                lemma_unesc_plain_prefix(w, sub.len() as int);
                assert(w.take(sub.len() as int) =~= sub);
                assert(w.skip(sub.len() as int) =~= s@.skip(i as int));
                match unesc_v(s@.skip(i as int)) {
                    Some(r) => {
                        assert(out0 + (sub + r) =~= (out0 + sub) + r);
                    },
                    None => {},
                }
                assert(unesc_v(s@) == lift_prefix(out@, unesc_v(s@.skip(i as int))));
            }
            if i + 1 >= n {
                proof {
                    let w2 = s@.skip(i as int);
                    assert(w2.len() == 1);
                    assert(w2[0] == '\\');
                    assert(unesc_v(w2) is None);
                }
                return None;
            }
            let ghost out1 = out@;
            let c2 = s.get_char(i + 1);
            if c2 == '\\' {
                out.append("\\");
            } else if c2 == 'n' {
                out.append("\n");
            } else {
                proof {
                    let w2 = s@.skip(i as int);
                    assert(w2[0] == '\\');
                    assert(w2[1] == s@[i + 1]);
                    assert(unesc_v(w2) is None);
                }
                return None;
            }
            proof {
                reveal_strlit("\\");
                reveal_strlit("\n");
                let w2 = s@.skip(i as int);
                assert(w2[0] == '\\');
                assert(w2[1] == s@[i + 1]);
                assert(w2.skip(2) =~= s@.skip(i + 2));
                let decoded = if s@[i + 1] == '\\' {
                    '\\'
                } else {
                    '\n'
                };
                assert(out@ =~= out1 + seq![decoded]);
                match unesc_v(s@.skip(i + 2)) {
                    Some(r) => {
                        assert(unesc_v(w2) == Some(seq![decoded] + r));
                        assert(out1 + (seq![decoded] + r) =~= (out1 + seq![decoded]) + r);
                    },
                    None => {
                        assert(unesc_v(w2) is None);
                    },
                }
                assert(unesc_v(s@) == lift_prefix(out@, unesc_v(s@.skip(i + 2))));
            }
            start = i + 2;
            i += 2;
        } else {
            i += 1;
        }
    }
    let chunk = s.substring_char(start, n);
    out.append(chunk);
    proof {
        let w = s@.skip(start as int);
        let sub = s@.subrange(start as int, n as int);
        assert(forall|k: int| 0 <= k < sub.len() ==> w[k] == s@[start + k]);
        lemma_unesc_plain_prefix(w, sub.len() as int);
        assert(w.take(sub.len() as int) =~= sub);
        assert(w.skip(sub.len() as int) =~= Seq::<char>::empty());
        assert(unesc_v(Seq::<char>::empty()) == Some(Seq::<char>::empty()));
        assert(sub + Seq::<char>::empty() =~= sub);
    }
    Some(out)
}

/// Splits off one `key=`-prefixed line: the raw value after the key, and
/// the text after the line's newline. `None` where no newline is left or
/// the line does not start with the key.
pub open spec fn split_field(s: Seq<char>, key: Seq<char>) -> Option<(Seq<char>, Seq<char>)> {
    let k = first_nl(s);
    if 0 <= k < s.len() {
        let line = s.take(k);
        if key.is_prefix_of(line) {
            Some((line.skip(key.len() as int), s.skip(k + 1)))
        } else {
            None
        }
    } else {
        None
    }
}

fn take_field(s: &str, key: &str) -> (r: Option<(String, String)>)
    ensures
        split_field(s@, key@) matches Some(p) ==> r matches Some(q) && q.0@ == p.0 && q.1@ == p.1,
        split_field(s@, key@) is None ==> r is None,
{
    let n = s.unicode_len();
    let mut k: usize = 0;
    while k < n && s.get_char(k) != '\n'
        invariant
            n == s@.len(),
            k <= n,
            forall|j: int| 0 <= j < k ==> s@[j] != '\n',
        decreases n - k,
    {
        k += 1;
    }
    proof {
        lemma_first_nl_is(s@, k as int);
    }
    if k == n {
        return None;
    }
    let ghost line = s@.take(k as int);
    let kl = key.unicode_len();
    if kl > k {
        proof {
            assert(!key@.is_prefix_of(line));
        }
        return None;
    }
    let mut j: usize = 0;
    while j < kl
        invariant
            n == s@.len(),
            kl == key@.len(),
            kl <= k < n,
            line == s@.take(k as int),
            j <= kl,
            forall|t: int| 0 <= t < j ==> s@[t] == key@[t],
        decreases kl - j,
    {
        if s.get_char(j) != key.get_char(j) {
            proof {
                assert(line.subrange(0, kl as int)[j as int] == s@[j as int]);
                assert(!key@.is_prefix_of(line));
            }
            return None;
        }
        j += 1;
    }
    proof {
        assert(key@.is_prefix_of(line)) by {
            assert(forall|t: int| 0 <= t < kl ==> #[trigger] line.subrange(0, kl as int)[t]
                == s@[t]);
            assert(key@ =~= line.subrange(0, kl as int));
        }
    }
    let value = s.substring_char(kl, k).to_owned();
    let rest = s.substring_char(k + 1, n).to_owned();
    proof {
        assert(value@ =~= line.skip(kl as int));
        assert(rest@ =~= s@.skip(k + 1));
    }
    Some((value, rest))
}

/// The textual form of a flag.
pub open spec fn bool_str(b: bool) -> Seq<char> {
    if b {
        "true"@
    } else {
        "false"@
    }
}

/// The flag a textual form denotes.
pub open spec fn parse_bool(w: Seq<char>) -> Option<bool> {
    if w == "true"@ {
        Some(true)
    } else if w == "false"@ {
        Some(false)
    } else {
        None
    }
}

/// The rendering of a configuration record: one `key=value` line per
/// recognized key, in fixed order, values escaped to stay on one line.
pub open spec fn render_cfg(v: SummaryConfigV) -> Seq<char> {
    "isTimeout="@ + bool_str(v.is_timeout) + "\n"@ + "timeout="@ + dec_rep(v.timeout_secs as nat)
        + "\n"@ + "model="@ + esc_v(v.model) + "\n"@ + "baseURL="@ + esc_v(v.base_url) + "\n"@
        + "workingDir="@ + esc_v(v.working_dir) + "\n"@ + "prompt="@ + esc_v(v.prompt) + "\n"@
}

/// The record a rendering denotes: six lines, fixed keys, fixed order,
/// nothing after the last line.
pub open spec fn parse_cfg(s: Seq<char>) -> Option<SummaryConfigV> {
    match split_field(s, "isTimeout="@) {
        None => None,
        Some((v1, r1)) => match parse_bool(v1) {
            None => None,
            Some(is_timeout) => match split_field(r1, "timeout="@) {
                None => None,
                Some((v2, r2)) => match parse_dec_u32(v2) {
                    None => None,
                    Some(timeout_secs) => match split_field(r2, "model="@) {
                        None => None,
                        Some((v3, r3)) => match unesc_v(v3) {
                            None => None,
                            Some(model) => match split_field(r3, "baseURL="@) {
                                None => None,
                                Some((v4, r4)) => match unesc_v(v4) {
                                    None => None,
                                    Some(base_url) => match split_field(r4, "workingDir="@) {
                                        None => None,
                                        Some((v5, r5)) => match unesc_v(v5) {
                                            None => None,
                                            Some(working_dir) => match split_field(
                                                r5,
                                                "prompt="@,
                                            ) {
                                                None => None,
                                                Some((v6, r6)) => match unesc_v(v6) {
                                                    None => None,
                                                    Some(prompt) => if r6.len() == 0 {
                                                        Some(
                                                            SummaryConfigV {
                                                                is_timeout,
                                                                timeout_secs,
                                                                model,
                                                                base_url,
                                                                working_dir,
                                                                prompt,
                                                            },
                                                        )
                                                    } else {
                                                        None
                                                    },
                                                },
                                            },
                                        },
                                    },
                                },
                            },
                        },
                    },
                },
            },
        },
    }
}

impl SummaryConfig {
    /// Renders the record, one `key=value` line per recognized key.
    pub fn render(&self) -> (r: String)
        ensures
            r@ == render_cfg(self@),
    {
        let mut s = String::new();
        s.append("isTimeout=");
        if self.is_timeout {
            s.append("true");
        } else {
            s.append("false");
        }
        s.append("\n");
        s.append("timeout=");
        let t = u64_to_string(self.timeout_secs as u64);
        s.append(t.as_str());
        s.append("\n");
        s.append("model=");
        let e = escape_value(self.model.as_str());
        s.append(e.as_str());
        s.append("\n");
        s.append("baseURL=");
        let e = escape_value(self.base_url.as_str());
        s.append(e.as_str());
        s.append("\n");
        s.append("workingDir=");
        let e = escape_value(self.working_dir.as_str());
        s.append(e.as_str());
        s.append("\n");
        s.append("prompt=");
        let e = escape_value(self.prompt.as_str());
        s.append(e.as_str());
        s.append("\n");
        proof {
            assert(s@ =~= render_cfg(self@));
        }
        s
    }

    /// Parses a rendering back into the record it denotes.
    pub fn parse(s: &str) -> (r: Option<SummaryConfig>)
        ensures
            r matches Some(c) ==> parse_cfg(s@) == Some(c@),
            r is None ==> parse_cfg(s@) is None,
    {
        let f1 = match take_field(s, "isTimeout=") {
            Some(p) => p,
            None => {
                return None;
            },
        };
        let is_timeout = if str_eq(f1.0.as_str(), "true") {
            true
        } else if str_eq(f1.0.as_str(), "false") {
            false
        } else {
            return None;
        };
        let f2 = match take_field(f1.1.as_str(), "timeout=") {
            Some(p) => p,
            None => {
                return None;
            },
        };
        let timeout_secs = match parse_u32(f2.0.as_str()) {
            Some(t) => t,
            None => {
                return None;
            },
        };
        let f3 = match take_field(f2.1.as_str(), "model=") {
            Some(p) => p,
            None => {
                return None;
            },
        };
        let model = match unescape_value(f3.0.as_str()) {
            Some(m) => m,
            None => {
                return None;
            },
        };
        let f4 = match take_field(f3.1.as_str(), "baseURL=") {
            Some(p) => p,
            None => {
                return None;
            },
        };
        let base_url = match unescape_value(f4.0.as_str()) {
            Some(m) => m,
            None => {
                return None;
            },
        };
        let f5 = match take_field(f4.1.as_str(), "workingDir=") {
            Some(p) => p,
            None => {
                return None;
            },
        };
        let working_dir = match unescape_value(f5.0.as_str()) {
            Some(m) => m,
            None => {
                return None;
            },
        };
        let f6 = match take_field(f5.1.as_str(), "prompt=") {
            Some(p) => p,
            None => {
                return None;
            },
        };
        let prompt = match unescape_value(f6.0.as_str()) {
            Some(m) => m,
            None => {
                return None;
            },
        };
        if f6.1.unicode_len() != 0 {
            return None;
        }
        Some(SummaryConfig { is_timeout, timeout_secs, model, base_url, working_dir, prompt })
    }
}

proof fn lemma_split_field_exact(key: Seq<char>, val: Seq<char>, rest: Seq<char>)
    requires
        forall|i: int| 0 <= i < key.len() ==> key[i] != '\n',
        forall|i: int| 0 <= i < val.len() ==> val[i] != '\n',
    ensures
        split_field(key + val + "\n"@ + rest, key) == Some((val, rest)),
{
    reveal_strlit("\n");
    let w = key + val + "\n"@ + rest;
    let k = key.len() + val.len();
    assert(forall|j: int| 0 <= j < k ==> w[j] != '\n');
    assert(w[k as int] == '\n');
    lemma_first_nl_is(w, k as int);
    let line = w.take(k as int);
    assert(key.is_prefix_of(line)) by {
        assert(key =~= line.subrange(0, key.len() as int));
    }
    assert(line.skip(key.len() as int) =~= val);
    assert(w.skip(k as int + 1) =~= rest);
}

spec fn tail5(v: SummaryConfigV) -> Seq<char> {
    "prompt="@ + esc_v(v.prompt) + "\n"@
}

spec fn tail4(v: SummaryConfigV) -> Seq<char> {
    "workingDir="@ + esc_v(v.working_dir) + "\n"@ + tail5(v)
}

spec fn tail3(v: SummaryConfigV) -> Seq<char> {
    "baseURL="@ + esc_v(v.base_url) + "\n"@ + tail4(v)
}

spec fn tail2(v: SummaryConfigV) -> Seq<char> {
    "model="@ + esc_v(v.model) + "\n"@ + tail3(v)
}

spec fn tail1(v: SummaryConfigV) -> Seq<char> {
    "timeout="@ + dec_rep(v.timeout_secs as nat) + "\n"@ + tail2(v)
}

proof fn lemma_rt_split1(v: SummaryConfigV)
    ensures
        split_field(render_cfg(v), "isTimeout="@) == Some((bool_str(v.is_timeout), tail1(v))),
{
    reveal_strlit("isTimeout=");
    reveal_strlit("true");
    reveal_strlit("false");
    assert(render_cfg(v) =~= "isTimeout="@ + bool_str(v.is_timeout) + "\n"@ + tail1(v));
    lemma_split_field_exact("isTimeout="@, bool_str(v.is_timeout), tail1(v));
}

proof fn lemma_rt_split2(v: SummaryConfigV)
    ensures
        split_field(tail1(v), "timeout="@) == Some((dec_rep(v.timeout_secs as nat), tail2(v))),
{
    reveal_strlit("timeout=");
    assert(forall|i: int|
        0 <= i < dec_rep(v.timeout_secs as nat).len() ==> dec_rep(v.timeout_secs as nat)[i]
            != '\n') by {
        lemma_dec_rep_digits(v.timeout_secs as nat);
        assert(digit_val('\n') is None);
    }
    lemma_split_field_exact("timeout="@, dec_rep(v.timeout_secs as nat), tail2(v));
}

proof fn lemma_rt_split3(v: SummaryConfigV)
    ensures
        split_field(tail2(v), "model="@) == Some((esc_v(v.model), tail3(v))),
{
    reveal_strlit("model=");
    lemma_esc_v_no_nl(v.model);
    lemma_split_field_exact("model="@, esc_v(v.model), tail3(v));
}

proof fn lemma_rt_split4(v: SummaryConfigV)
    ensures
        split_field(tail3(v), "baseURL="@) == Some((esc_v(v.base_url), tail4(v))),
{
    reveal_strlit("baseURL=");
    lemma_esc_v_no_nl(v.base_url);
    lemma_split_field_exact("baseURL="@, esc_v(v.base_url), tail4(v));
}

proof fn lemma_rt_split5(v: SummaryConfigV)
    ensures
        split_field(tail4(v), "workingDir="@) == Some((esc_v(v.working_dir), tail5(v))),
{
    reveal_strlit("workingDir=");
    lemma_esc_v_no_nl(v.working_dir);
    lemma_split_field_exact("workingDir="@, esc_v(v.working_dir), tail5(v));
}

proof fn lemma_rt_split6(v: SummaryConfigV)
    ensures
        split_field(tail5(v), "prompt="@) == Some((esc_v(v.prompt), Seq::<char>::empty())),
{
    reveal_strlit("prompt=");
    lemma_esc_v_no_nl(v.prompt);
    assert(tail5(v) =~= "prompt="@ + esc_v(v.prompt) + "\n"@ + Seq::<char>::empty());
    lemma_split_field_exact("prompt="@, esc_v(v.prompt), Seq::<char>::empty());
}

/// Rendering a configuration record and parsing the rendering back yields
/// the same record: the six recognized keys round-trip.
pub proof fn lemma_cfg_round_trip(v: SummaryConfigV)
    ensures
        parse_cfg(render_cfg(v)) == Some(v),
{
    lemma_rt_split1(v);
    lemma_rt_split2(v);
    lemma_rt_split3(v);
    lemma_rt_split4(v);
    lemma_rt_split5(v);
    lemma_rt_split6(v);
    assert(parse_bool(bool_str(v.is_timeout)) == Some(v.is_timeout)) by {
        reveal_strlit("true");
        reveal_strlit("false");
        assert("true"@ != "false"@);
    }
    lemma_parse_dec_of_dec_rep(v.timeout_secs as nat);
    assert(parse_dec_u32(dec_rep(v.timeout_secs as nat)) == Some(v.timeout_secs));
    lemma_unesc_esc(v.model);
    lemma_unesc_esc(v.base_url);
    lemma_unesc_esc(v.working_dir);
    lemma_unesc_esc(v.prompt);
    assert(parse_cfg(render_cfg(v)) == Some(v));
}

} // verus!
