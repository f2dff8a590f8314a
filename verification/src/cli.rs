//! Command-line inputs and their validation. Argument parsing itself
//! (flags, environment) belongs to the application shell; the records and
//! every validation rule live here.

use vstd::prelude::*;
use vstd::string::*;

use crate::json::{is_valid_json, json_parse_err, reformat_json};
use crate::settings::{opt_str_view, opt_string_view, settings_payload_spec, IFlowConfig};

verus! {

/// The command-line inputs, as the argument parser hands them over.
#[derive(Debug)]
pub struct CliArgs {
    /// The prompt to send to the agent.
    pub prompt: Option<String>,
    /// API key for authentication.
    pub api_key: Option<String>,
    /// Enable debug logging.
    pub debug: bool,
    /// Complete settings JSON configuration.
    pub settings_json: Option<String>,
    /// Base URL for the API.
    pub base_url: String,
    /// Model name to use.
    pub model: String,
    /// Working directory for execution.
    pub working_directory: String,
    /// Timeout budget in seconds.
    pub timeout: u32,
    /// Shell command(s) to execute beforehand.
    pub precmd: Option<String>,
    /// Version of the GitHub CLI to install.
    pub gh_version: Option<String>,
    /// Version of the agent CLI to install.
    pub iflow_version: Option<String>,
    /// Path to the settings file.
    pub settings_file_path: Option<String>,
    /// Dry-run mode: skip actual execution.
    pub dry_run: bool,
}

/// The same inputs as one record with validation and configuration
/// behind it.
#[derive(Debug)]
pub struct Cli {
    /// The prompt to send to the agent.
    pub prompt: Option<String>,
    /// API key for authentication.
    pub api_key: Option<String>,
    /// Enable debug logging.
    pub debug: bool,
    /// Complete settings JSON configuration.
    pub settings_json: Option<String>,
    /// Base URL for the API.
    pub base_url: String,
    /// Model name to use.
    pub model: String,
    /// Working directory for execution.
    pub working_directory: String,
    /// Timeout budget in seconds.
    pub timeout: u32,
    /// Shell command(s) to execute beforehand.
    pub precmd: Option<String>,
    /// Version of the GitHub CLI to install.
    pub gh_version: Option<String>,
    /// Version of the agent CLI to install.
    pub iflow_version: Option<String>,
    /// Path to the settings file.
    pub settings_file_path: Option<String>,
    /// Dry-run mode: skip actual execution.
    pub dry_run: bool,
}

/// The verdict on the inputs, first failing rule first: the prompt must
/// be present and nonempty; an API key or a settings JSON must be given;
/// the timeout must lie between 1 second and 24 hours; a nonempty
/// settings JSON must parse.
pub open spec fn validate_args_spec(
    prompt: Option<Seq<char>>,
    api_key: Option<Seq<char>>,
    settings_json: Option<Seq<char>>,
    timeout: u32,
) -> Result<(), Seq<char>> {
    if prompt is None || prompt.unwrap().len() == 0 {
        Err("prompt input is required and cannot be empty"@)
    } else if api_key is None && settings_json is None {
        Err("api_key input is required and cannot be empty"@)
    } else if timeout < 1 || timeout > 86400 {
        Err("timeout value is out of range. Must be between 1 and 86400 seconds"@)
    } else if settings_json matches Some(s) && s.len() > 0 && !is_valid_json(s) {
        Err("invalid settings_json provided: "@ + json_parse_err(settings_json.unwrap()).unwrap())
    } else {
        Ok(())
    }
}

/// Validates the command-line inputs.
pub fn validate_args(
    prompt: Option<&String>,
    api_key: Option<&String>,
    settings_json: Option<&String>,
    timeout: u32,
) -> (r: Result<(), String>)
    ensures
        r is Ok <==> validate_args_spec(
            opt_str_view(prompt),
            opt_str_view(api_key),
            opt_str_view(settings_json),
            timeout,
        ) is Ok,
        r matches Err(m) ==> validate_args_spec(
            opt_str_view(prompt),
            opt_str_view(api_key),
            opt_str_view(settings_json),
            timeout,
        ) == Err::<(), Seq<char>>(m@),
{
    let prompt_missing = match prompt {
        Some(p) => p.as_str().unicode_len() == 0,
        None => true,
    };
    if prompt_missing {
        return Err(String::from_str("prompt input is required and cannot be empty"));
    }
    if api_key.is_none() && settings_json.is_none() {
        return Err(String::from_str("api_key input is required and cannot be empty"));
    }
    if timeout < 1 || timeout > 86400 {
        return Err(
            String::from_str("timeout value is out of range. Must be between 1 and 86400 seconds"),
        );
    }
    match settings_json {
        Some(sj) => {
            if sj.as_str().unicode_len() > 0 {
                match reformat_json(sj.as_str()) {
                    Ok(_) => Ok(()),
                    Err(m) => {
                        let mut e = String::from_str("invalid settings_json provided: ");
                        e.append(m.as_str());
                        Err(e)
                    },
                }
            } else {
                Ok(())
            }
        },
        None => Ok(()),
    }
}

impl Cli {
    /// Validates the inputs; see `validate_args_spec` for the rules.
    pub fn validate(&self) -> (r: Result<(), String>)
        ensures
            r is Ok <==> validate_args_spec(
                opt_string_view(self.prompt),
                opt_string_view(self.api_key),
                opt_string_view(self.settings_json),
                self.timeout,
            ) is Ok,
            r matches Err(m) ==> validate_args_spec(
                opt_string_view(self.prompt),
                opt_string_view(self.api_key),
                opt_string_view(self.settings_json),
                self.timeout,
            ) == Err::<(), Seq<char>>(m@),
    {
        validate_args(
            self.prompt.as_ref(),
            self.api_key.as_ref(),
            self.settings_json.as_ref(),
            self.timeout,
        )
    }

    /// Creates the settings JSON from the individual parameters, the API
    /// key taken as empty where none was given.
    fn create_settings_from_params(&self) -> (r: Result<String, String>)
        ensures
            r matches Ok(s) && s@ == crate::json::json_pretty_object(
                crate::settings::settings_pairs(
                    match self.api_key {
                        Some(k) => k@,
                        None => Seq::<char>::empty(),
                    },
                    self.base_url@,
                    self.model@,
                ),
            ),
    {
        let cfg = IFlowConfig { base_url: self.base_url.clone(), model: self.model.clone() };
        let r = match self.api_key.as_ref() {
            Some(k) => cfg.create_settings_from_params(k.as_str()),
            None => {
                let empty = String::new();
                let r0 = cfg.create_settings_from_params(empty.as_str());
                r0
            },
        };
        r
    }

    /// The settings text that configuration writes to the settings file:
    /// a provided settings JSON pretty-printed, else settings built from
    /// the individual parameters.
    pub fn settings_payload(&self) -> (r: Result<String, String>)
        ensures
            r matches Ok(s) ==> settings_payload_spec(
                opt_string_view(self.settings_json),
                match self.api_key {
                    Some(k) => k@,
                    None => Seq::<char>::empty(),
                },
                self.base_url@,
                self.model@,
            ) == Ok::<Seq<char>, Seq<char>>(s@),
            r matches Err(m) ==> settings_payload_spec(
                opt_string_view(self.settings_json),
                match self.api_key {
                    Some(k) => k@,
                    None => Seq::<char>::empty(),
                },
                self.base_url@,
                self.model@,
            ) == Err::<Seq<char>, Seq<char>>(m@),
    {
        match self.settings_json.as_ref() {
            Some(sj) => {
                if sj.as_str().unicode_len() > 0 {
                    match reformat_json(sj.as_str()) {
                        Ok(p) => Ok(p),
                        Err(m) => {
                            let mut e = String::from_str("invalid settings_json provided: ");
                            e.append(m.as_str());
                            Err(e)
                        },
                    }
                } else {
                    self.create_settings_from_params()
                }
            },
            None => self.create_settings_from_params(),
        }
    }
}

} // verus!
