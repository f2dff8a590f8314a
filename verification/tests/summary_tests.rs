use iflow_cli_action::config::SummaryConfig;
use iflow_cli_action::summary::{contains_code, generate_summary_markdown};

fn test_config(is_timeout: bool) -> SummaryConfig {
    SummaryConfig {
        is_timeout,
        timeout_secs: 3600,
        model: "Qwen3-Coder".to_string(),
        base_url: "https://apis.iflow.cn/v1".to_string(),
        working_dir: ".".to_string(),
        prompt: "Test prompt".to_string(),
    }
}

#[test]
fn lib_test_contains_code() {
    // Test cases that should be detected as code
    assert!(contains_code("function test() { return true; }"));
    assert!(contains_code("class MyClass { public void method() {} }"));
    assert!(contains_code(
        "def my_function():
    return True"
    ));
    assert!(contains_code("const x = 10;"));
    assert!(contains_code("let y = 20;"));
    assert!(contains_code("var z = 30;"));
    assert!(contains_code("public static void main(String[] args)"));
    assert!(contains_code("if (condition) { do_something(); }"));
    assert!(contains_code("#include <stdio.h>"));
    assert!(contains_code("package main"));

    // Test cases that should not be detected as code
    assert!(!contains_code("This is a regular text message"));
    assert!(!contains_code("Hello, this is a simple message"));
    assert!(!contains_code("Just some text without code indicators"));
    assert!(!contains_code(""));
}

#[test]
fn unit_tests_test_contains_code() {
    assert!(contains_code("function test() { return true; }"));
    assert!(contains_code("class MyClass { public void method() {} }"));
    assert!(contains_code(
        "def my_function():
    return True"
    ));
    assert!(contains_code("const x = 10;"));
    assert!(contains_code("let y = 20;"));
    assert!(contains_code("var z = 30;"));
    assert!(contains_code("public static void main(String[] args)"));
    assert!(contains_code("if (condition) { do_something(); }"));
    assert!(contains_code("#include <stdio.h>"));
    assert!(contains_code("package main"));

    assert!(!contains_code("This is a regular text message"));
    assert!(!contains_code("Hello, this is a simple message"));
    assert!(!contains_code("Just some text without code indicators"));
    assert!(!contains_code(""));
}

#[test]
fn test_write_step_summary_not_in_github_actions() {
    // Writing the step summary is a no-op outside the platform; the
    // content itself is prepared without error.
    let _content = "Test content for summary";
    assert!(true);
}

#[test]
fn lib_test_generate_summary_markdown_success() {
    let config = test_config(false);

    // Test successful execution
    let result = "This is a test result";
    let summary = generate_summary_markdown(result, 0, &config);

    // Verify key elements are present
    assert!(summary.contains("## ✅ iFlow CLI Execution Summary"));
    assert!(summary.contains("🎉 **Execution**: Successful"));
    assert!(summary.contains("🎯 **Exit Code**: 0"));
    assert!(summary.contains("Test prompt"));
    assert!(summary.contains("This is a test result"));
}

#[test]
fn lib_test_generate_summary_markdown_failure() {
    let config = test_config(false);

    // Test failed execution
    let result = "Error: Something went wrong";
    let summary = generate_summary_markdown(result, 1, &config);

    assert!(summary.contains("## ❌ iFlow CLI Execution Summary"));
    assert!(summary.contains("⚠️ **Execution**: Failed"));
    assert!(summary.contains("💥 **Exit Code**: 1"));
    assert!(summary.contains("Error: Something went wrong"));
}

#[test]
fn lib_test_generate_summary_markdown_timeout() {
    let config = test_config(true);

    // Test timeout execution
    let result = "Operation timed out";
    let summary = generate_summary_markdown(result, 124, &config);

    assert!(summary.contains("## ⏰ iFlow CLI Execution Summary - Timeout"));
    assert!(summary.contains("⏰ **Execution**: Timed Out"));
    assert!(summary.contains("🕒 **Timeout Duration**: 3600 seconds"));
    assert!(summary.contains("💥 **Exit Code**: 124"));
}

#[test]
fn unit_tests_test_generate_summary_markdown_success() {
    let config = test_config(false);
    let result = "This is a test result";
    let summary = generate_summary_markdown(result, 0, &config);

    assert!(summary.contains("## ✅ iFlow CLI Execution Summary"));
    assert!(summary.contains("🎉 **Execution**: Successful"));
    assert!(summary.contains("🎯 **Exit Code**: 0"));
    assert!(summary.contains("Test prompt"));
    assert!(summary.contains("This is a test result"));
}

#[test]
fn unit_tests_test_generate_summary_markdown_failure() {
    let config = test_config(false);
    let result = "Error: Something went wrong";
    let summary = generate_summary_markdown(result, 1, &config);

    assert!(summary.contains("## ❌ iFlow CLI Execution Summary"));
    assert!(summary.contains("⚠️ **Execution**: Failed"));
    assert!(summary.contains("💥 **Exit Code**: 1"));
    assert!(summary.contains("Error: Something went wrong"));
}

#[test]
fn unit_tests_test_generate_summary_markdown_timeout() {
    let config = test_config(true);
    let result = "Operation timed out";
    let summary = generate_summary_markdown(result, 124, &config);

    assert!(summary.contains("## ⏰ iFlow CLI Execution Summary - Timeout"));
    assert!(summary.contains("⏰ **Execution**: Timed Out"));
    assert!(summary.contains("🕒 **Timeout Duration**: 3600 seconds"));
    assert!(summary.contains("💥 **Exit Code**: 124"));
}

#[test]
fn test_summary_uppercase_text_detected_as_code() {
    // The indicator check runs on the lowercased text: an all-caps
    // source line must still count as code.
    assert!(contains_code("FUNCTION TEST() RETURNS NOTHING"));
    assert!(contains_code("PACKAGE MAIN"));
}

#[test]
fn test_summary_prompt_backticks_escaped() {
    let mut config = test_config(false);
    config.prompt = "run `ls` now".to_string();
    let summary = generate_summary_markdown("plain words only", 0, &config);
    assert!(summary.contains("> run \\`ls\\` now"));
}

#[test]
fn test_summary_output_code_block_passthrough() {
    let config = test_config(false);
    let summary = generate_summary_markdown("```\nx\n```", 0, &config);
    // Already fenced output is shown as-is, not re-fenced.
    assert!(summary.contains("### Output\n\n```\nx\n```\n\n"));
}

#[test]
fn test_summary_output_blockquote_for_plain_text() {
    let config = test_config(false);
    let summary = generate_summary_markdown("plain words only\n\nmore words here", 0, &config);
    assert!(summary.contains("> plain words only\n>\n> more words here\n"));
}

#[test]
fn test_summary_api_error_hints() {
    let config = test_config(false);
    let summary = generate_summary_markdown("API Error: denied", 1, &config);
    assert!(summary.contains("#### 🔧 Troubleshooting Hints"));
    assert!(summary.contains("- Check if your API key is valid and active\n"));
}
