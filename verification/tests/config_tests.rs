use iflow_cli_action::config::SummaryConfig;

fn sample() -> SummaryConfig {
    SummaryConfig {
        is_timeout: false,
        timeout_secs: 3600,
        model: "Qwen3-Coder".to_string(),
        base_url: "https://apis.iflow.cn/v1".to_string(),
        working_dir: ".".to_string(),
        prompt: "Test prompt".to_string(),
    }
}

fn assert_round_trip(c: SummaryConfig) {
    let rendered = c.render();
    let parsed = SummaryConfig::parse(&rendered).expect("rendering must parse back");
    assert_eq!(parsed.is_timeout, c.is_timeout);
    assert_eq!(parsed.timeout_secs, c.timeout_secs);
    assert_eq!(parsed.model, c.model);
    assert_eq!(parsed.base_url, c.base_url);
    assert_eq!(parsed.working_dir, c.working_dir);
    assert_eq!(parsed.prompt, c.prompt);
}

#[test]
fn test_config_round_trip_plain() {
    assert_round_trip(sample());
}

#[test]
fn test_config_round_trip_awkward_values() {
    assert_round_trip(SummaryConfig {
        is_timeout: true,
        timeout_secs: 1,
        model: "a\\b".to_string(),
        base_url: "".to_string(),
        working_dir: "dir with\nnewline".to_string(),
        prompt: "`ticks` and \\ and \n lines".to_string(),
    });
}

#[test]
fn test_config_render_exact() {
    let c = sample();
    assert_eq!(
        c.render(),
        "isTimeout=false\ntimeout=3600\nmodel=Qwen3-Coder\nbaseURL=https://apis.iflow.cn/v1\nworkingDir=.\nprompt=Test prompt\n"
    );
}

#[test]
fn test_config_value_escaping() {
    let c = SummaryConfig {
        is_timeout: false,
        timeout_secs: 2,
        model: "m".to_string(),
        base_url: "u".to_string(),
        working_dir: "w".to_string(),
        prompt: "a\nb\\c".to_string(),
    };
    assert_eq!(
        c.render(),
        "isTimeout=false\ntimeout=2\nmodel=m\nbaseURL=u\nworkingDir=w\nprompt=a\\nb\\\\c\n"
    );
}

#[test]
fn test_config_parse_rejects_malformed() {
    assert!(SummaryConfig::parse("").is_none());
    assert!(SummaryConfig::parse("isTimeout=false\n").is_none());
    assert!(SummaryConfig::parse(
        "isTimeout=maybe\ntimeout=1\nmodel=m\nbaseURL=u\nworkingDir=w\nprompt=p\n"
    )
    .is_none());
    assert!(SummaryConfig::parse(
        "isTimeout=false\ntimeout=007\nmodel=m\nbaseURL=u\nworkingDir=w\nprompt=p\n"
    )
    .is_none());
    assert!(SummaryConfig::parse(
        "isTimeout=false\ntimeout=1\nmodel=m\\qbad\nbaseURL=u\nworkingDir=w\nprompt=p\n"
    )
    .is_none());
    // Trailing text after the last field is refused.
    assert!(SummaryConfig::parse(
        "isTimeout=false\ntimeout=1\nmodel=m\nbaseURL=u\nworkingDir=w\nprompt=p\nextra"
    )
    .is_none());
}

#[test]
fn test_config_parse_exact_values() {
    let parsed = SummaryConfig::parse(
        "isTimeout=true\ntimeout=124\nmodel=m1\nbaseURL=http://x\nworkingDir=/tmp\nprompt=say \\nhello\n",
    )
    .expect("well-formed record");
    assert!(parsed.is_timeout);
    assert_eq!(parsed.timeout_secs, 124);
    assert_eq!(parsed.model, "m1");
    assert_eq!(parsed.base_url, "http://x");
    assert_eq!(parsed.working_dir, "/tmp");
    assert_eq!(parsed.prompt, "say \nhello");
}
