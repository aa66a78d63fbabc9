//! Whether a driver runs natively or inside the Windows Subsystem for Linux, and what
//! the user interface is told about it.

use crate::text::{lowercase, to_lowercase};
use vstd::prelude::*;
use vstd::string::*;

verus! {

/// Where the user wants a driver to run.
#[derive(Clone, Copy, Debug, PartialEq, Eq, Structural)]
pub enum RunMode {
    /// Wherever the driver is found.
    Auto,
    /// On the host.
    Native,
    /// Inside the subsystem.
    Wsl,
}

/// The name of a mode in configuration files and in the user interface.
pub open spec fn mode_name(mode: RunMode) -> Seq<char> {
    match mode {
        RunMode::Auto => "auto"@,
        RunMode::Native => "native"@,
        RunMode::Wsl => "wsl"@,
    }
}

/// The name of a mode in configuration files and in the user interface.
pub fn mode_label(mode: RunMode) -> (r: &'static str)
    ensures
        r@ == mode_name(mode),
{
    match mode {
        RunMode::Auto => "auto",
        RunMode::Native => "native",
        RunMode::Wsl => "wsl",
    }
}

/// The mode a lower-case name stands for.
pub open spec fn mode_named(name: Seq<char>) -> Option<RunMode> {
    if name == "auto"@ {
        Some(RunMode::Auto)
    } else if name == "native"@ {
        Some(RunMode::Native)
    } else if name == "wsl"@ {
        Some(RunMode::Wsl)
    } else {
        None
    }
}

/// Reads a mode name from its lower-case form; a name that is none of the three is an
/// error that quotes `given`, the name as the user wrote it.
pub fn mode_from_lowercase(lowered: &str, given: &str) -> (r: Result<RunMode, String>)
    ensures
        match r {
            Ok(mode) => mode_named(lowered@) == Some(mode),
            Err(e) => mode_named(lowered@) is None && e@ == "Invalid mode: "@ + given@
                + ". Use 'auto', 'native', or 'wsl'"@,
        },
{
    if *lowered == *"auto" {
        Ok(RunMode::Auto)
    } else if *lowered == *"native" {
        Ok(RunMode::Native)
    } else if *lowered == *"wsl" {
        Ok(RunMode::Wsl)
    } else {
        let mut message = String::from_str("Invalid mode: ");
        message.append(given);
        message.append(". Use 'auto', 'native', or 'wsl'");
        Err(message)
    }
}

/// Reads a mode name, whatever its letter case.
pub fn parse_mode(given: &str) -> (r: Result<RunMode, String>)
    ensures
        match r {
            Ok(mode) => mode_named(lowercase(given@)) == Some(mode),
            Err(e) => mode_named(lowercase(given@)) is None && e@ == "Invalid mode: "@ + given@
                + ". Use 'auto', 'native', or 'wsl'"@,
        },
{
    let lowered = to_lowercase(given);
    mode_from_lowercase(lowered.as_str(), given)
}

/// What the user interface is told about the mode of the main driver.
#[derive(Debug)]
pub struct ClaudeWslModeInfo {
    /// The configured mode: `auto`, `native` or `wsl`.
    pub mode: String,
    /// The configured distribution, if any.
    pub wsl_distro: Option<String>,
    pub wsl_available: bool,
    pub available_distros: Vec<String>,
    /// The subsystem is in use.
    pub wsl_enabled: bool,
    /// The driver's path inside the subsystem, where it was found there.
    pub wsl_claude_path: Option<String>,
    /// The driver's version inside the subsystem, where it was found there.
    pub wsl_claude_version: Option<String>,
    pub native_available: bool,
    /// The mode in use: `wsl` or `native`.
    pub actual_mode: String,
}

/// What the user interface is told about the mode of the second driver.
#[derive(Debug)]
pub struct CodexModeInfo {
    /// The configured mode: `auto`, `native` or `wsl`.
    pub mode: String,
    pub wsl_distro: Option<String>,
    /// The mode in use: `wsl` or `native`.
    pub actual_mode: String,
    pub native_available: bool,
    pub wsl_available: bool,
    pub available_distros: Vec<String>,
}

/// What is known of the subsystem at run time.
#[derive(Debug)]
pub struct WslRuntime {
    /// The subsystem is in use.
    pub enabled: bool,
    /// The driver's path inside the subsystem, where it was found there.
    pub tool_path: Option<String>,
    /// The driver's version inside the subsystem, as far as the caller asked for it.
    pub tool_version: Option<String>,
}

/// What the host offers.
#[derive(Debug)]
pub struct HostSupport {
    pub wsl_available: bool,
    pub available_distros: Vec<String>,
    pub native_available: bool,
}

/// The name of the mode in use.
pub open spec fn actual_mode_name(wsl_enabled: bool) -> Seq<char> {
    if wsl_enabled {
        "wsl"@
    } else {
        "native"@
    }
}

/// Puts together what the user interface is told about the mode of the main driver. The
/// driver's version inside the subsystem is reported only while the subsystem is in use.
pub fn do_get_claude_wsl_mode_config(
    mode: RunMode,
    wsl_distro: Option<String>,
    runtime: WslRuntime,
    host: HostSupport,
) -> (r: ClaudeWslModeInfo)
    ensures
        r.mode@ == mode_name(mode),
        r.wsl_distro.deep_view() == wsl_distro.deep_view(),
        r.wsl_available == host.wsl_available,
        r.available_distros.deep_view() == host.available_distros.deep_view(),
        r.wsl_enabled == runtime.enabled,
        r.wsl_claude_path.deep_view() == runtime.tool_path.deep_view(),
        r.wsl_claude_version.deep_view() == (if runtime.enabled {
            runtime.tool_version.deep_view()
        } else {
            None
        }),
        r.native_available == host.native_available,
        r.actual_mode@ == actual_mode_name(runtime.enabled),
{
    let wsl_claude_version = if runtime.enabled {
        runtime.tool_version
    } else {
        None
    };
    ClaudeWslModeInfo {
        mode: String::from_str(mode_label(mode)),
        wsl_distro,
        wsl_available: host.wsl_available,
        available_distros: host.available_distros,
        wsl_enabled: runtime.enabled,
        wsl_claude_path: runtime.tool_path,
        wsl_claude_version,
        native_available: host.native_available,
        actual_mode: String::from_str(if runtime.enabled {
            "wsl"
        } else {
            "native"
        }),
    }
}

/// Puts together what the user interface is told about the mode of the second driver.
pub fn codex_mode_info(
    mode: RunMode,
    wsl_distro: Option<String>,
    wsl_enabled: bool,
    host: HostSupport,
) -> (r: CodexModeInfo)
    ensures
        r.mode@ == mode_name(mode),
        r.wsl_distro.deep_view() == wsl_distro.deep_view(),
        r.actual_mode@ == actual_mode_name(wsl_enabled),
        r.native_available == host.native_available,
        r.wsl_available == host.wsl_available,
        r.available_distros.deep_view() == host.available_distros.deep_view(),
{
    CodexModeInfo {
        mode: String::from_str(mode_label(mode)),
        wsl_distro,
        actual_mode: String::from_str(if wsl_enabled {
            "wsl"
        } else {
            "native"
        }),
        native_available: host.native_available,
        wsl_available: host.wsl_available,
        available_distros: host.available_distros,
    }
}

/// Whether the second driver can be used, and which version it is.
#[derive(Debug)]
pub struct CodexAvailability {
    pub available: bool,
    pub version: Option<String>,
    pub error: Option<String>,
}

/// What a version query of an executable gave.
#[derive(Debug)]
pub struct VersionProbe {
    /// The query ran and the executable exited with success.
    pub success: bool,
    /// What it wrote to its output, white space at the ends removed.
    pub stdout: String,
    /// What it wrote to its error stream, white space at the ends removed.
    pub stderr: String,
}

/// The version a probe reports: the output where there is any, else the error stream
/// where there is any, else the fallback.
pub open spec fn reported_version(stdout: Seq<char>, stderr: Seq<char>, fallback: Seq<char>) -> Seq<
    char,
> {
    if stdout.len() > 0 {
        stdout
    } else if stderr.len() > 0 {
        stderr
    } else {
        fallback
    }
}

/// The availability that a version query establishes: a query that succeeded shows the
/// driver to be available, in the version it reported; `None` where it did not succeed
/// and the search goes on. `detected` is the version found when the driver was looked
/// for, if any.
pub fn availability_from_probe(probe: &VersionProbe, detected: Option<&String>) -> (r: Option<
    CodexAvailability,
>)
    ensures
        match r {
            Some(a) => probe.success && a.available && a.error is None && a.version.deep_view()
                == Some(
                reported_version(
                    probe.stdout@,
                    probe.stderr@,
                    match detected {
                        Some(v) => v@,
                        None => "Unknown version"@,
                    },
                ),
            ),
            None => !probe.success,
        },
{
    if !probe.success {
        return None;
    }
    let version = if !probe.stdout.as_str().is_empty() {
        probe.stdout.clone()
    } else if !probe.stderr.as_str().is_empty() {
        probe.stderr.clone()
    } else {
        match detected {
            Some(v) => v.clone(),
            None => String::from_str("Unknown version"),
        }
    };
    Some(CodexAvailability { available: true, version: Some(version), error: None })
}

/// The answer when the second driver was found nowhere.
pub fn unavailable() -> (r: CodexAvailability)
    ensures
        !r.available,
        r.version is None,
        r.error.deep_view() == Some(
            "Codex CLI not found. Please set CODEX_PATH or install codex CLI"@,
        ),
{
    CodexAvailability {
        available: false,
        version: None,
        error: Some(
            String::from_str("Codex CLI not found. Please set CODEX_PATH or install codex CLI"),
        ),
    }
}

} // verus!
