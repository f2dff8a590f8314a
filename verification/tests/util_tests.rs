use iflow_cli_action::outputs::github_output_entry;
use iflow_cli_action::precmd::{precmd_commands, precmd_failure_message};
use iflow_cli_action::strutil::{
    i32_to_string, is_blank, parse_u32, split_at_newlines, split_lines, str_contains, str_eq,
    trim_str, u64_to_string,
};
use iflow_cli_action::version::{
    gh_install_command, iflow_install_package, install_failure_message, version_from_output,
    version_notice, version_warning,
};

#[test]
fn test_u64_to_string_exact() {
    assert_eq!(u64_to_string(0), "0");
    assert_eq!(u64_to_string(7), "7");
    assert_eq!(u64_to_string(10), "10");
    assert_eq!(u64_to_string(86400), "86400");
    assert_eq!(u64_to_string(u64::MAX), "18446744073709551615");
}

#[test]
fn test_i32_to_string_exact() {
    assert_eq!(i32_to_string(0), "0");
    assert_eq!(i32_to_string(124), "124");
    assert_eq!(i32_to_string(-1), "-1");
    assert_eq!(i32_to_string(i32::MIN), "-2147483648");
}

#[test]
fn test_parse_u32_cases() {
    assert_eq!(parse_u32("0"), Some(0));
    assert_eq!(parse_u32("3600"), Some(3600));
    assert_eq!(parse_u32("4294967295"), Some(u32::MAX));
    assert_eq!(parse_u32("4294967296"), None);
    assert_eq!(parse_u32(""), None);
    assert_eq!(parse_u32("007"), None);
    assert_eq!(parse_u32("12a"), None);
}

#[test]
fn test_str_contains_cases() {
    assert!(str_contains("hello world", "lo wo"));
    assert!(str_contains("abc", ""));
    assert!(!str_contains("abc", "abcd"));
    assert!(!str_contains("abab", "bb"));
    assert!(str_contains("naïve café", "café"));
}

#[test]
fn test_str_eq_and_blank() {
    assert!(str_eq("same", "same"));
    assert!(!str_eq("same", "samE"));
    assert!(is_blank("  \t\r\n "));
    assert!(is_blank(""));
    assert!(!is_blank(" x "));
}

#[test]
fn test_trim_str_cases() {
    assert_eq!(trim_str("  padded  "), "padded");
    assert_eq!(trim_str("\t\n"), "");
    assert_eq!(trim_str("no-trim"), "no-trim");
    assert_eq!(trim_str(" inner space kept "), "inner space kept");
}

#[test]
fn test_split_lines_matches_line_semantics() {
    assert_eq!(split_lines("a\nb"), vec!["a", "b"]);
    assert_eq!(split_lines("a\r\nb\n"), vec!["a", "b"]);
    assert_eq!(split_lines(""), Vec::<String>::new());
    assert_eq!(split_lines("a\n\nb"), vec!["a", "", "b"]);
}

#[test]
fn test_split_at_newlines_keeps_remainder() {
    assert_eq!(split_at_newlines("a\nb"), vec!["a", "b"]);
    assert_eq!(split_at_newlines("a\n"), vec!["a", ""]);
    assert_eq!(split_at_newlines(""), vec![""]);
}

#[test]
fn test_github_output_entry_forms() {
    assert_eq!(github_output_entry("exit_code", "0"), "exit_code=0\n");
    assert_eq!(
        github_output_entry("result", "line one\nline two"),
        "result<<EOF\nline one\nline two\nEOF\n"
    );
}

#[test]
fn test_precmd_commands_split_and_trim() {
    let cmds = precmd_commands("echo one\n  echo two  \n\n   \nexit 0");
    assert_eq!(cmds, vec!["echo one", "echo two", "exit 0"]);
    assert_eq!(precmd_commands(""), Vec::<String>::new());
    assert_eq!(precmd_commands("  \n \t "), Vec::<String>::new());
}

#[test]
fn test_precmd_failure_message_exact() {
    assert_eq!(
        precmd_failure_message("exit 1", Some(1)),
        "pre-command 'exit 1' failed with exit code: Some(1)"
    );
    assert_eq!(
        precmd_failure_message("kill -9 $$", None),
        "pre-command 'kill -9 $$' failed with exit code: None"
    );
}

#[test]
fn test_version_from_output_cases() {
    assert_eq!(
        version_from_output(true, " iflow 1.2.3 \n", "", "iflow"),
        Ok("iflow 1.2.3".to_string())
    );
    assert_eq!(
        version_from_output(false, "", "not found", "gh"),
        Err("failed to get gh version: not found".to_string())
    );
}

#[test]
fn test_version_annotations() {
    assert_eq!(
        version_notice(true, "iFlow CLI", "1.0"),
        "::notice::iFlow CLI version: 1.0"
    );
    assert_eq!(
        version_notice(false, "GitHub CLI", "2.0"),
        "INFO: GitHub CLI version: 2.0"
    );
    assert_eq!(
        version_warning(true, "iFlow CLI", "missing"),
        "::warning::Failed to get iFlow CLI version: missing"
    );
    assert_eq!(
        version_warning(false, "GitHub CLI", "missing"),
        "WARNING: Failed to get GitHub CLI version: missing"
    );
}

#[test]
fn test_install_command_strings() {
    assert_eq!(
        gh_install_command("2.40.0"),
        "curl -fsSL https://github.com/cli/cli/releases/download/v2.40.0/gh_2.40.0_linux_amd64.tar.gz | tar xz && cp gh_2.40.0_linux_amd64/bin/gh /usr/local/bin/ && rm -rf gh_2.40.0_linux_amd64"
    );
    assert_eq!(iflow_install_package("0.3.1"), "@iflow-ai/iflow-cli@0.3.1");
    assert_eq!(
        install_failure_message("GitHub CLI", "2.40.0", "curl: 404"),
        "failed to install GitHub CLI version 2.40.0: curl: 404"
    );
}
