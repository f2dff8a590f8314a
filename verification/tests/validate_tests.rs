use iflow_cli_action::cli::{validate_args, Cli};
use iflow_cli_action::settings::IFlowConfig;

fn cli_with(prompt: Option<&str>, api_key: Option<&str>, settings_json: Option<&str>) -> Cli {
    Cli {
        prompt: prompt.map(|s| s.to_string()),
        api_key: api_key.map(|s| s.to_string()),
        debug: false,
        settings_json: settings_json.map(|s| s.to_string()),
        base_url: "https://apis.iflow.cn/v1".to_string(),
        model: "Qwen3-Coder".to_string(),
        working_directory: ".".to_string(),
        timeout: 3600,
        precmd: None,
        gh_version: None,
        iflow_version: None,
        settings_file_path: None,
        dry_run: false,
    }
}

#[test]
fn test_validate_missing_prompt() {
    let err = validate_args(None, Some(&"k".to_string()), None, 3600).unwrap_err();
    assert_eq!(err, "prompt input is required and cannot be empty");
    let empty = String::new();
    let err = validate_args(Some(&empty), Some(&"k".to_string()), None, 3600).unwrap_err();
    assert_eq!(err, "prompt input is required and cannot be empty");
}

#[test]
fn test_validate_missing_api_key_and_settings_json() {
    let p = "prompt".to_string();
    let err = validate_args(Some(&p), None, None, 3600).unwrap_err();
    assert_eq!(err, "api_key input is required and cannot be empty");
}

#[test]
fn test_validate_timeout_range() {
    let p = "prompt".to_string();
    let k = "key".to_string();
    let err = validate_args(Some(&p), Some(&k), None, 0).unwrap_err();
    assert_eq!(
        err,
        "timeout value is out of range. Must be between 1 and 86400 seconds"
    );
    let err = validate_args(Some(&p), Some(&k), None, 86401).unwrap_err();
    assert_eq!(
        err,
        "timeout value is out of range. Must be between 1 and 86400 seconds"
    );
    assert!(validate_args(Some(&p), Some(&k), None, 1).is_ok());
    assert!(validate_args(Some(&p), Some(&k), None, 86400).is_ok());
}

#[test]
fn test_validate_invalid_settings_json() {
    let p = "prompt".to_string();
    let bad = "{\"invalid\": json}".to_string();
    let err = validate_args(Some(&p), None, Some(&bad), 3600).unwrap_err();
    assert!(err.starts_with("invalid settings_json provided: "));
    let good = "{\"apiKey\": \"k\"}".to_string();
    assert!(validate_args(Some(&p), None, Some(&good), 3600).is_ok());
    // An empty settings JSON is not parsed; the API key requirement is
    // already satisfied by its presence.
    let empty = String::new();
    assert!(validate_args(Some(&p), None, Some(&empty), 3600).is_ok());
}

#[test]
fn test_cli_validate_matches_validate_args() {
    assert!(cli_with(Some("go"), Some("key"), None).validate().is_ok());
    let err = cli_with(None, Some("key"), None).validate().unwrap_err();
    assert_eq!(err, "prompt input is required and cannot be empty");
}

#[test]
fn test_create_settings_from_params_content() {
    let cfg = IFlowConfig {
        base_url: "https://apis.iflow.cn/v1".to_string(),
        model: "Qwen3-Coder".to_string(),
    };
    let s = cfg.create_settings_from_params("test-api-key").unwrap();
    assert!(s.contains("\"apiKey\": \"test-api-key\""));
    assert!(s.contains("\"searchApiKey\": \"test-api-key\""));
    assert!(s.contains("\"selectedAuthType\": \"iflow\""));
    assert!(s.contains("\"baseUrl\": \"https://apis.iflow.cn/v1\""));
    assert!(s.contains("\"modelName\": \"Qwen3-Coder\""));
    assert!(s.contains("\"theme\": \"Default\""));
}

#[test]
fn test_settings_payload_pretty_prints_provided_json() {
    let cfg = IFlowConfig { base_url: "u".to_string(), model: "m".to_string() };
    let provided = "{\"customField\":\"value\\nwith\\nnewlines\"}".to_string();
    let s = cfg.settings_payload(Some(&provided), "k").unwrap();
    // Re-formatted, not echoed: pretty printing indents the member.
    assert!(s.contains("\"customField\": \"value\\nwith\\nnewlines\""));
    assert_ne!(s, provided);

    let invalid = "{\"invalid\": json}".to_string();
    let err = cfg.settings_payload(Some(&invalid), "k").unwrap_err();
    assert!(err.starts_with("invalid settings_json provided: "));

    // An empty settings JSON falls back to the individual parameters.
    let empty = String::new();
    let s = cfg.settings_payload(Some(&empty), "test-key").unwrap();
    assert!(s.contains("\"apiKey\": \"test-key\""));
}

#[test]
fn test_cli_settings_payload_uses_own_fields() {
    let mut cli = cli_with(Some("go"), Some("test-api-key"), None);
    let s = cli.settings_payload().unwrap();
    assert!(s.contains("\"apiKey\": \"test-api-key\""));
    assert!(s.contains("\"modelName\": \"Qwen3-Coder\""));
    // Without an API key the settings carry an empty one.
    cli.api_key = None;
    let s = cli.settings_payload().unwrap();
    assert!(s.contains("\"apiKey\": \"\""));
}
