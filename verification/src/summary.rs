//! Rendering of the execution summary markdown: status header,
//! configuration table, prompt blockquote, and an output section with a
//! code-block versus blockquote heuristic.

use vstd::prelude::*;
use vstd::string::*;

use crate::config::{SummaryConfig, SummaryConfigV};
use crate::strutil::{
    all_ws, contains_seq, dec_int, dec_rep, i32_to_string, is_blank, lines_of, split_lines,
    str_contains, u64_to_string,
};

verus! {

/// The lowercase form of a text; the result of `str::to_lowercase`, which
/// depends on the characters alone.
pub uninterp spec fn lowercase_of(s: Seq<char>) -> Seq<char>;

/// Relies on str::to_lowercase: Unicode lowercasing, a function of the
/// input text alone.
#[verifier::external_body]
fn lowercase(s: &str) -> (r: String)
    ensures
        r@ == lowercase_of(s@),
{
    s.to_lowercase()
}

/// The text carries one of the indicators that mark it as code.
pub open spec fn has_code_indicator(s: Seq<char>) -> bool {
    contains_seq(s, "function"@) || contains_seq(s, "class"@) || contains_seq(s, "def "@)
        || contains_seq(s, "import "@) || contains_seq(s, "const "@) || contains_seq(s, "let "@)
        || contains_seq(s, "var "@) || contains_seq(s, "public "@) || contains_seq(
        s,
        "private "@,
    ) || contains_seq(s, "protected"@) || contains_seq(s, "return "@) || contains_seq(s, "if ("@)
        || contains_seq(s, "for ("@) || contains_seq(s, "while ("@) || contains_seq(s, "{"@)
        || contains_seq(s, "}"@) || contains_seq(s, ";"@) || contains_seq(s, "//"@)
        || contains_seq(s, "/*"@) || contains_seq(s, "*/"@) || contains_seq(s, "#include"@)
        || contains_seq(s, "package "@) || contains_seq(s, "use "@)
}

/// Detects if text looks like code: its lowercase form carries one of the
/// code indicators.
pub fn contains_code(text: &str) -> (r: bool)
    ensures
        r == has_code_indicator(lowercase_of(text@)),
{
    let lower = lowercase(text);
    let t = lower.as_str();
    let r = str_contains(t, "function") || str_contains(t, "class") || str_contains(t, "def ")
        || str_contains(t, "import ") || str_contains(t, "const ") || str_contains(t, "let ")
        || str_contains(t, "var ") || str_contains(t, "public ") || str_contains(t, "private ")
        || str_contains(t, "protected") || str_contains(t, "return ") || str_contains(t, "if (")
        || str_contains(t, "for (") || str_contains(t, "while (") || str_contains(t, "{")
        || str_contains(t, "}") || str_contains(t, ";") || str_contains(t, "//") || str_contains(
        t,
        "/*",
    ) || str_contains(t, "*/") || str_contains(t, "#include") || str_contains(t, "package ")
        || str_contains(t, "use ");
    r
}

/// The escaping of one character for the prompt blockquote: a backtick
/// becomes a backslash-escaped backtick.
pub open spec fn esc_bt_char(c: char) -> Seq<char> {
    if c == '`' {
        "\\`"@
    } else {
        seq![c]
    }
}

/// Backtick-escaping of a whole text, character by character.
pub open spec fn esc_bt(s: Seq<char>) -> Seq<char>
    decreases s.len(),
{
    if s.len() == 0 {
        Seq::empty()
    } else {
        esc_bt_char(s[0]) + esc_bt(s.drop_first())
    }
}

proof fn lemma_esc_bt_append(a: Seq<char>, b: Seq<char>)
    ensures
        esc_bt(a + b) == esc_bt(a) + esc_bt(b),
    decreases a.len(),
{
    if a.len() == 0 {
        assert(a + b =~= b);
        assert(esc_bt(a) + esc_bt(b) =~= esc_bt(b));
    } else {
        assert((a + b).drop_first() =~= a.drop_first() + b);
        lemma_esc_bt_append(a.drop_first(), b);
        assert((a + b)[0] == a[0]);
        assert(esc_bt(a + b) =~= esc_bt(a) + esc_bt(b));
    }
}

proof fn lemma_esc_bt_plain(w: Seq<char>)
    requires
        forall|i: int| 0 <= i < w.len() ==> w[i] != '`',
    ensures
        esc_bt(w) == w,
    decreases w.len(),
{
    if w.len() > 0 {
        assert(forall|i: int| 0 <= i < w.drop_first().len() ==> w.drop_first()[i] != '`');
        lemma_esc_bt_plain(w.drop_first());
        assert(esc_bt(w) =~= w);
    }
}

/// Escapes every backtick in the text.
pub fn escape_backticks(s: &str) -> (r: String)
    ensures
        r@ == esc_bt(s@),
{
    let n = s.unicode_len();
    let mut out = String::new();
    let mut start: usize = 0;
    let mut i: usize = 0;
    while i < n
        invariant
            n == s@.len(),
            start <= i <= n,
            out@ == esc_bt(s@.take(start as int)),
            forall|k: int| start <= k < i ==> s@[k] != '`',
        decreases n - i,
    {
        if s.get_char(i) == '`' {
            let chunk = s.substring_char(start, i);
            out.append(chunk);
            out.append("\\`");
            proof {
                let sub = s@.subrange(start as int, i as int);
                lemma_esc_bt_plain(sub);
                lemma_esc_bt_append(s@.take(start as int), sub);
                lemma_esc_bt_append(s@.take(start as int) + sub, seq!['`']);
                assert(esc_bt(seq!['`']) =~= "\\`"@) by {
                    assert(seq!['`'].drop_first() =~= Seq::<char>::empty());
                    assert(esc_bt(Seq::<char>::empty()) =~= Seq::<char>::empty());
                }
                assert(s@.take(i + 1) =~= (s@.take(start as int) + sub) + seq!['`']);
                assert(out@ =~= esc_bt(s@.take(i + 1)));
            }
            start = i + 1;
        }
        i += 1;
    }
    let chunk = s.substring_char(start, n);
    out.append(chunk);
    proof {
        let sub = s@.subrange(start as int, n as int);
        lemma_esc_bt_plain(sub);
        lemma_esc_bt_append(s@.take(start as int), sub);
        assert(s@ =~= s@.take(start as int) + sub);
        assert(out@ =~= esc_bt(s@));
    }
    out
}

/// One line of the blockquoted output: `>` alone for a line that is
/// nothing but whitespace, `> ` and the line verbatim otherwise.
pub open spec fn quote_line(l: Seq<char>) -> Seq<char> {
    if all_ws(l) {
        ">\n"@
    } else {
        "> "@ + l + "\n"@
    }
}

/// The first `k` lines, blockquoted.
pub open spec fn blockquote_upto(lines: Seq<Seq<char>>, k: int) -> Seq<char>
    decreases k,
{
    if k <= 0 {
        Seq::empty()
    } else {
        blockquote_upto(lines, k - 1) + quote_line(lines[k - 1])
    }
}

/// A whole text, blockquoted line by line.
pub open spec fn blockquote(lines: Seq<Seq<char>>) -> Seq<char> {
    blockquote_upto(lines, lines.len() as int)
}

fn blockquote_exec(result: &str) -> (r: String)
    ensures
        r@ == blockquote(lines_of(result@)),
{
    let lines = split_lines(result);
    let ghost lv = lines@.map_values(|x: String| x@);
    let mut out = String::new();
    let mut i: usize = 0;
    while i < lines.len()
        invariant
            lines@.map_values(|x: String| x@) == lv,
            lv == lines_of(result@),
            i <= lines.len(),
            lines@.len() == lv.len(),
            out@ == blockquote_upto(lv, i as int),
        decreases lines.len() - i,
    {
        proof {
            assert(lv[i as int] == lines@[i as int]@);
        }
        if is_blank(lines[i].as_str()) {
            out.append(">\n");
        } else {
            out.append("> ");
            out.append(lines[i].as_str());
            out.append("\n");
        }
        proof {
            assert(blockquote_upto(lv, i + 1) =~= blockquote_upto(lv, i as int) + quote_line(
                lv[i as int],
            ));
            assert(out@ =~= blockquote_upto(lv, i + 1));
        }
        i += 1;
    }
    out
}

/// The summary's first line, keyed off the timeout flag and exit code.
pub open spec fn header_line(is_timeout: bool, exit_code: i32) -> Seq<char> {
    if is_timeout {
        "## ⏰ iFlow CLI Execution Summary - Timeout\n\n"@
    } else if exit_code == 0 {
        "## ✅ iFlow CLI Execution Summary\n\n"@
    } else {
        "## ❌ iFlow CLI Execution Summary\n\n"@
    }
}

/// The execution status section.
pub open spec fn status_section(is_timeout: bool, timeout_secs: u32, exit_code: i32) -> Seq<
    char,
> {
    "### 📊 Status\n\n"@ + (if is_timeout {
        "⏰ **Execution**: Timed Out\n"@ + "🕒 **Timeout Duration**: "@ + dec_rep(
            timeout_secs as nat,
        ) + " seconds\n"@ + "💥 **Exit Code**: "@ + dec_int(exit_code as int) + "\n\n"@
    } else if exit_code == 0 {
        "🎉 **Execution**: Successful\n"@ + "🎯 **Exit Code**: 0\n\n"@
    } else {
        "⚠️ **Execution**: Failed\n"@ + "💥 **Exit Code**: "@ + dec_int(exit_code as int)
            + "\n\n"@
    })
}

/// The configuration table.
pub open spec fn config_table(v: SummaryConfigV) -> Seq<char> {
    "### ⚙️ Configuration\n\n"@ + "| Setting | Value |\n"@ + "|---------|-------|\n"@
        + "| Model | `"@ + v.model + "` |\n"@ + "| Base URL | `"@ + v.base_url + "` |\n"@
        + "| Timeout | "@ + dec_rep(v.timeout_secs as nat) + " seconds |\n"@
        + "| Working Directory | `"@ + v.working_dir + "` |\n"@ + "\n"@
}

/// The prompt section: the prompt blockquoted, backticks escaped.
pub open spec fn prompt_section(prompt: Seq<char>) -> Seq<char> {
    "### 📝 Input Prompt\n\n"@ + "> "@ + esc_bt(prompt) + "\n\n"@
}

/// The troubleshooting text appended after a timeout.
pub open spec fn timeout_hints(timeout_secs: u32) -> Seq<char> {
    "#### ⏰ Timeout Information\n\n"@ + "- **Configured Timeout**: "@ + dec_rep(
        timeout_secs as nat,
    ) + " seconds\n"@
        + "- **Reason**: The iFlow CLI command did not complete within the specified timeout period\n"@
        + "- **Exit Code**: 124 (timeout)\n\n"@ + "#### 🔧 Timeout Troubleshooting\n\n"@
        + "- **Increase timeout**: Consider increasing the timeout value if the task legitimately needs more time\n"@
        + "- **Optimize prompt**: Try breaking down complex prompts into smaller, more focused requests\n"@
        + "- **Check model performance**: Some models may require longer processing time\n"@
        + "- **Network issues**: Verify network connectivity and API response times\n"@
        + "- **Resource constraints**: Check if the system has sufficient resources (CPU, memory)\n\n"@
}

/// The troubleshooting text appended after an API error.
pub open spec fn api_error_hints() -> Seq<char> {
    "#### 🔧 Troubleshooting Hints\n\n"@ + "- Check if your API key is valid and active\n"@
        + "- Verify the base URL is accessible\n"@ + "- Ensure the selected model is available\n"@
        + "- Try increasing the timeout value\n\n"@
}

/// The output section: code blocks pass through, code-looking text is
/// fenced, plain text is blockquoted; failures are always fenced, with
/// troubleshooting hints where they apply.
pub open spec fn output_section(
    result: Seq<char>,
    exit_code: i32,
    is_timeout: bool,
    timeout_secs: u32,
) -> Seq<char> {
    "### Output\n\n"@ + (if exit_code == 0 {
        if contains_seq(result, "```"@) {
            result + "\n\n"@
        } else if has_code_indicator(lowercase_of(result)) {
            "```\n"@ + result + "\n```\n\n"@
        } else {
            blockquote(lines_of(result)) + "\n"@
        }
    } else {
        "```\n"@ + result + "\n```\n\n"@ + (if is_timeout {
            timeout_hints(timeout_secs)
        } else if contains_seq(result, "API Error"@) {
            api_error_hints()
        } else {
            Seq::empty()
        })
    })
}

/// The summary's footer.
pub open spec fn footer() -> Seq<char> {
    "---\n"@ + "*🤖 Generated by [iFlow CLI Action](https://github.com/iflow-ai/iflow-cli-action)*\n\n"@
}

/// The whole summary.
pub open spec fn summary_md(result: Seq<char>, exit_code: i32, v: SummaryConfigV) -> Seq<char> {
    header_line(v.is_timeout, exit_code) + status_section(v.is_timeout, v.timeout_secs, exit_code)
        + config_table(v) + prompt_section(v.prompt) + output_section(
        result,
        exit_code,
        v.is_timeout,
        v.timeout_secs,
    ) + footer()
}

fn build_header(is_timeout: bool, exit_code: i32) -> (r: &'static str)
    ensures
        r@ == header_line(is_timeout, exit_code),
{
    if is_timeout {
        "## ⏰ iFlow CLI Execution Summary - Timeout\n\n"
    } else if exit_code == 0 {
        "## ✅ iFlow CLI Execution Summary\n\n"
    } else {
        "## ❌ iFlow CLI Execution Summary\n\n"
    }
}

fn build_status(is_timeout: bool, timeout_secs: u32, exit_code: i32) -> (r: String)
    ensures
        r@ == status_section(is_timeout, timeout_secs, exit_code),
{
    let mut s = String::new();
    s.append("### 📊 Status\n\n");
    if is_timeout {
        s.append("⏰ **Execution**: Timed Out\n");
        s.append("🕒 **Timeout Duration**: ");
        let t = u64_to_string(timeout_secs as u64);
        s.append(t.as_str());
        s.append(" seconds\n");
        s.append("💥 **Exit Code**: ");
        let c = i32_to_string(exit_code);
        s.append(c.as_str());
        s.append("\n\n");
    } else if exit_code == 0 {
        s.append("🎉 **Execution**: Successful\n");
        s.append("🎯 **Exit Code**: 0\n\n");
    } else {
        s.append("⚠️ **Execution**: Failed\n");
        s.append("💥 **Exit Code**: ");
        let c = i32_to_string(exit_code);
        s.append(c.as_str());
        s.append("\n\n");
    }
    proof {
        assert(s@ =~= status_section(is_timeout, timeout_secs, exit_code));
    }
    s
}

fn build_config_table(config: &SummaryConfig) -> (r: String)
    ensures
        r@ == config_table(config@),
{
    let mut s = String::new();
    s.append("### ⚙️ Configuration\n\n");
    s.append("| Setting | Value |\n");
    s.append("|---------|-------|\n");
    s.append("| Model | `");
    s.append(config.model.as_str());
    s.append("` |\n");
    s.append("| Base URL | `");
    s.append(config.base_url.as_str());
    s.append("` |\n");
    s.append("| Timeout | ");
    let t = u64_to_string(config.timeout_secs as u64);
    s.append(t.as_str());
    s.append(" seconds |\n");
    s.append("| Working Directory | `");
    s.append(config.working_dir.as_str());
    s.append("` |\n");
    s.append("\n");
    proof {
        assert(s@ =~= config_table(config@));
    }
    s
}

fn build_prompt_section(prompt: &str) -> (r: String)
    ensures
        r@ == prompt_section(prompt@),
{
    let mut s = String::new();
    s.append("### 📝 Input Prompt\n\n");
    s.append("> ");
    let ep = escape_backticks(prompt);
    s.append(ep.as_str());
    s.append("\n\n");
    proof {
        assert(s@ =~= prompt_section(prompt@));
    }
    s
}

fn build_timeout_hints(timeout_secs: u32) -> (r: String)
    ensures
        r@ == timeout_hints(timeout_secs),
{
    let mut s = String::new();
    s.append("#### ⏰ Timeout Information\n\n");
    s.append("- **Configured Timeout**: ");
    let t = u64_to_string(timeout_secs as u64);
    s.append(t.as_str());
    s.append(" seconds\n");
    s.append(
        "- **Reason**: The iFlow CLI command did not complete within the specified timeout period\n",
    );
    s.append("- **Exit Code**: 124 (timeout)\n\n");
    s.append("#### 🔧 Timeout Troubleshooting\n\n");
    s.append(
        "- **Increase timeout**: Consider increasing the timeout value if the task legitimately needs more time\n",
    );
    s.append(
        "- **Optimize prompt**: Try breaking down complex prompts into smaller, more focused requests\n",
    );
    s.append("- **Check model performance**: Some models may require longer processing time\n");
    s.append("- **Network issues**: Verify network connectivity and API response times\n");
    s.append(
        "- **Resource constraints**: Check if the system has sufficient resources (CPU, memory)\n\n",
    );
    proof {
        assert(s@ =~= timeout_hints(timeout_secs));
    }
    s
}

fn build_output_section(result: &str, exit_code: i32, is_timeout: bool, timeout_secs: u32) -> (r:
    String)
    ensures
        r@ == output_section(result@, exit_code, is_timeout, timeout_secs),
{
    let mut s = String::new();
    s.append("### Output\n\n");
    if exit_code == 0 {
        if str_contains(result, "```") {
            s.append(result);
            s.append("\n\n");
        } else if contains_code(result) {
            s.append("```\n");
            s.append(result);
            s.append("\n```\n\n");
        } else {
            let bq = blockquote_exec(result);
            s.append(bq.as_str());
            s.append("\n");
        }
    } else {
        s.append("```\n");
        s.append(result);
        s.append("\n```\n\n");
        if is_timeout {
            let h = build_timeout_hints(timeout_secs);
            s.append(h.as_str());
        } else if str_contains(result, "API Error") {
            s.append("#### 🔧 Troubleshooting Hints\n\n");
            s.append("- Check if your API key is valid and active\n");
            s.append("- Verify the base URL is accessible\n");
            s.append("- Ensure the selected model is available\n");
            s.append("- Try increasing the timeout value\n\n");
        }
    }
    proof {
        assert(s@ =~= output_section(result@, exit_code, is_timeout, timeout_secs));
    }
    s
}

/// Generates the summary markdown for one execution result under the
/// given configuration record.
pub fn generate_summary_markdown(result: &str, exit_code: i32, config: &SummaryConfig) -> (r:
    String)
    ensures
        r@ == summary_md(result@, exit_code, config@),
{
    let mut s = String::new();
    s.append(build_header(config.is_timeout, exit_code));
    let sec = build_status(config.is_timeout, config.timeout_secs, exit_code);
    s.append(sec.as_str());
    let sec = build_config_table(config);
    s.append(sec.as_str());
    let sec = build_prompt_section(config.prompt.as_str());
    s.append(sec.as_str());
    let sec = build_output_section(result, exit_code, config.is_timeout, config.timeout_secs);
    s.append(sec.as_str());
    s.append("---\n");
    s.append("*🤖 Generated by [iFlow CLI Action](https://github.com/iflow-ai/iflow-cli-action)*\n\n");
    proof {
        assert(s@ =~= summary_md(result@, exit_code, config@));
    }
    s
}

} // verus!
