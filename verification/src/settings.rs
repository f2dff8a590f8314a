//! Construction of the settings text that the configuration step
//! materializes on disk. The writing itself is the application shell's
//! business; everything decided here is verified.

use vstd::prelude::*;
use vstd::string::*;

use crate::json::{
    is_valid_json, json_parse_err, json_pretty, json_pretty_object, pretty_object, reformat_json,
};

verus! {

/// Connection parameters for the agent's API.
#[derive(Debug)]
pub struct IFlowConfig {
    /// Base URL for the API.
    pub base_url: String,
    /// Model name to use.
    pub model: String,
}

/// The members of a settings object built from individual parameters, in
/// the order they are handed to the JSON builder.
pub open spec fn settings_pairs(
    api_key: Seq<char>,
    base_url: Seq<char>,
    model: Seq<char>,
) -> Seq<(Seq<char>, Seq<char>)> {
    seq![
        ("theme"@, "Default"@),
        ("selectedAuthType"@, "iflow"@),
        ("apiKey"@, api_key),
        ("baseUrl"@, base_url),
        ("modelName"@, model),
        ("searchApiKey"@, api_key),
    ]
}

/// The settings text the configuration step writes: a provided settings
/// JSON is pretty-printed as is; without one (or with an empty one) the
/// settings are built from the individual parameters. An invalid settings
/// JSON is reported, prefixed as such.
pub open spec fn settings_payload_spec(
    settings_json: Option<Seq<char>>,
    api_key: Seq<char>,
    base_url: Seq<char>,
    model: Seq<char>,
) -> Result<Seq<char>, Seq<char>> {
    match settings_json {
        Some(s) => if s.len() > 0 {
            if is_valid_json(s) {
                Ok(json_pretty(s))
            } else {
                Err("invalid settings_json provided: "@ + json_parse_err(s).unwrap())
            }
        } else {
            Ok(json_pretty_object(settings_pairs(api_key, base_url, model)))
        },
        None => Ok(json_pretty_object(settings_pairs(api_key, base_url, model))),
    }
}

/// The view of an optional borrowed string.
pub open spec fn opt_str_view(o: Option<&String>) -> Option<Seq<char>> {
    match o {
        Some(s) => Some(s@),
        None => None,
    }
}

/// The view of an optional owned string.
pub open spec fn opt_string_view(o: Option<String>) -> Option<Seq<char>> {
    match o {
        Some(s) => Some(s@),
        None => None,
    }
}

impl IFlowConfig {
    /// Creates the settings JSON from the individual parameters.
    pub fn create_settings_from_params(&self, api_key: &str) -> (r: Result<String, String>)
        ensures
            r matches Ok(s) && s@ == json_pretty_object(
                settings_pairs(api_key@, self.base_url@, self.model@),
            ),
    {
        let mut pairs: Vec<(String, String)> = Vec::new();
        pairs.push((String::from_str("theme"), String::from_str("Default")));
        pairs.push((String::from_str("selectedAuthType"), String::from_str("iflow")));
        pairs.push((String::from_str("apiKey"), String::from_str(api_key)));
        pairs.push((String::from_str("baseUrl"), self.base_url.clone()));
        pairs.push((String::from_str("modelName"), self.model.clone()));
        pairs.push((String::from_str("searchApiKey"), String::from_str(api_key)));
        proof {
            assert(pairs@.map_values(|p: (String, String)| (p.0@, p.1@)) =~= settings_pairs(
                api_key@,
                self.base_url@,
                self.model@,
            ));
        }
        Ok(pretty_object(&pairs))
    }

    /// The settings text that configuration writes to the settings file.
    pub fn settings_payload(&self, settings_json: Option<&String>, api_key: &str) -> (r: Result<
        String,
        String,
    >)
        ensures
            r matches Ok(s) ==> settings_payload_spec(
                opt_str_view(settings_json),
                api_key@,
                self.base_url@,
                self.model@,
            ) == Ok::<Seq<char>, Seq<char>>(s@),
            r matches Err(m) ==> settings_payload_spec(
                opt_str_view(settings_json),
                api_key@,
                self.base_url@,
                self.model@,
            ) == Err::<Seq<char>, Seq<char>>(m@),
    {
        match settings_json {
            Some(sj) => {
                if sj.as_str().unicode_len() > 0 {
                    match reformat_json(sj.as_str()) {
                        Ok(p) => Ok(p),
                        Err(m) => {
                            let mut e = String::from_str("invalid settings_json provided: ");
                            e.append(m.as_str());
                            Err(e)
                        },
                    }
                } else {
                    self.create_settings_from_params(api_key)
                }
            },
            None => self.create_settings_from_params(api_key),
        }
    }
}

} // verus!
