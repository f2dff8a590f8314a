//! The version-management step's decisions: what a version probe's output
//! means, the annotation lines printed for it, and the install commands.
//! Running processes is the application shell's business.

use vstd::prelude::*;
use vstd::string::*;

use crate::strutil::{trim_spec, trim_str};

verus! {

/// What a `--version` probe's captured output means: the trimmed standard
/// output on success, a report naming the command otherwise.
pub open spec fn version_from_output_spec(
    success: bool,
    stdout: Seq<char>,
    stderr: Seq<char>,
    cmd: Seq<char>,
) -> Result<Seq<char>, Seq<char>> {
    if success {
        Ok(trim_spec(stdout))
    } else {
        Err("failed to get "@ + cmd + " version: "@ + stderr)
    }
}

/// Turns a version probe's captured output into the version, or a report.
pub fn version_from_output(success: bool, stdout: &str, stderr: &str, cmd: &str) -> (r: Result<
    String,
    String,
>)
    ensures
        r matches Ok(v) ==> version_from_output_spec(success, stdout@, stderr@, cmd@) == Ok::<
            Seq<char>,
            Seq<char>,
        >(v@),
        r matches Err(m) ==> version_from_output_spec(success, stdout@, stderr@, cmd@) == Err::<
            Seq<char>,
            Seq<char>,
        >(m@),
{
    if success {
        Ok(trim_str(stdout))
    } else {
        let mut s = String::from_str("failed to get ");
        s.append(cmd);
        s.append(" version: ");
        s.append(stderr);
        proof {
            assert(s@ =~= "failed to get "@ + cmd@ + " version: "@ + stderr@);
        }
        Err(s)
    }
}

/// The annotation line for a version that was found: a `::notice::`
/// annotation on the platform, a plain `INFO:` line elsewhere.
pub open spec fn version_notice_spec(is_platform: bool, label: Seq<char>, version: Seq<char>) -> Seq<
    char,
> {
    if is_platform {
        "::notice::"@ + label + " version: "@ + version
    } else {
        "INFO: "@ + label + " version: "@ + version
    }
}

/// Formats the annotation line for a version that was found.
pub fn version_notice(is_platform: bool, label: &str, version: &str) -> (r: String)
    ensures
        r@ == version_notice_spec(is_platform, label@, version@),
{
    let mut s = if is_platform {
        String::from_str("::notice::")
    } else {
        String::from_str("INFO: ")
    };
    s.append(label);
    s.append(" version: ");
    s.append(version);
    proof {
        assert(s@ =~= version_notice_spec(is_platform, label@, version@));
    }
    s
}

/// The annotation line for a version probe that failed: a `::warning::`
/// annotation on the platform, a plain `WARNING:` line elsewhere.
pub open spec fn version_warning_spec(is_platform: bool, label: Seq<char>, error: Seq<char>) -> Seq<
    char,
> {
    if is_platform {
        "::warning::Failed to get "@ + label + " version: "@ + error
    } else {
        "WARNING: Failed to get "@ + label + " version: "@ + error
    }
}

/// Formats the annotation line for a version probe that failed.
pub fn version_warning(is_platform: bool, label: &str, error: &str) -> (r: String)
    ensures
        r@ == version_warning_spec(is_platform, label@, error@),
{
    let mut s = if is_platform {
        String::from_str("::warning::Failed to get ")
    } else {
        String::from_str("WARNING: Failed to get ")
    };
    s.append(label);
    s.append(" version: ");
    s.append(error);
    proof {
        assert(s@ =~= version_warning_spec(is_platform, label@, error@));
    }
    s
}

/// The shell command that installs one GitHub CLI release: download the
/// tarball for the version, unpack it, install the binary, clean up.
pub open spec fn gh_install_command_spec(version: Seq<char>) -> Seq<char> {
    "curl -fsSL https://github.com/cli/cli/releases/download/v"@ + version + "/gh_"@ + version
        + "_linux_amd64.tar.gz | tar xz && cp gh_"@ + version
        + "_linux_amd64/bin/gh /usr/local/bin/ && rm -rf gh_"@ + version + "_linux_amd64"@
}

/// Builds the shell command that installs one GitHub CLI release.
pub fn gh_install_command(version: &str) -> (r: String)
    ensures
        r@ == gh_install_command_spec(version@),
{
    let mut s = String::from_str("curl -fsSL https://github.com/cli/cli/releases/download/v");
    s.append(version);
    s.append("/gh_");
    s.append(version);
    s.append("_linux_amd64.tar.gz | tar xz && cp gh_");
    s.append(version);
    s.append("_linux_amd64/bin/gh /usr/local/bin/ && rm -rf gh_");
    s.append(version);
    s.append("_linux_amd64");
    proof {
        assert(s@ =~= gh_install_command_spec(version@));
    }
    s
}

/// The package specifier that installs one agent CLI release.
pub open spec fn iflow_install_package_spec(version: Seq<char>) -> Seq<char> {
    "@iflow-ai/iflow-cli@"@ + version
}

/// Builds the package specifier that installs one agent CLI release.
pub fn iflow_install_package(version: &str) -> (r: String)
    ensures
        r@ == iflow_install_package_spec(version@),
{
    let mut s = String::from_str("@iflow-ai/iflow-cli@");
    s.append(version);
    proof {
        assert(s@ =~= iflow_install_package_spec(version@));
    }
    s
}

/// The report for an install command that failed.
pub open spec fn install_failure_spec(label: Seq<char>, version: Seq<char>, error: Seq<char>) -> Seq<
    char,
> {
    "failed to install "@ + label + " version "@ + version + ": "@ + error
}

/// Formats the report for an install command that failed.
pub fn install_failure_message(label: &str, version: &str, error: &str) -> (r: String)
    ensures
        r@ == install_failure_spec(label@, version@, error@),
{
    let mut s = String::from_str("failed to install ");
    s.append(label);
    s.append(" version ");
    s.append(version);
    s.append(": ");
    s.append(error);
    proof {
        assert(s@ =~= install_failure_spec(label@, version@, error@));
    }
    s
}

} // verus!
