//! The one error type of the library. Every message is user-facing and says what to do
//! next before what went wrong. Paths and the texts of lower-level errors are carried as
//! plain strings: the error is data the caller can show, log or serialise.

use vstd::prelude::*;
use crate::text::{append_str, dec, push_dec, push_dec_i64, string_of};

verus! {

#[derive(Debug, Clone, PartialEq, Eq)]
pub enum AppError {
    UnknownSchemaVersion { found: u64, supported: u32, path: String },
    ConfigInvalid { path: String, source: String },
    ConfigRead { path: String, source: String },
    ConfigWrite { path: String, source: String },
    AppRootUnavailable,
    ScriptSpawn { path: String, source: String },
    ScriptWrite { path: String, source: String },
    ProbeFailed { exit_code: i32, stderr: String, log_path: Option<String> },
    ProbeUnreadable { source: String },
    CapabilitiesFailed { exit_code: i32, stderr: String },
    CapabilitiesUnreadable { source: String },
    NoProbeYet,
    InvalidLayoutName { reason: String },
    InvalidLayoutEdit { reason: String },
    LayoutNotFound { id: String },
    LayoutFolder { path: String, source: String },
    ScriptMissing { path: String },
    FileOpen { path: String, source: String },
    LogMissing { path: String },
    SettingsOpen { source: String },
    DiagnosticsWrite { path: String, source: String },
    ExportWrite { path: String, source: String },
    ImportRefused { path: String, problem: String },
    SwitchRunning { layout: String },
    SwitchLocked { layout: String, path: String },
    NoSwitchRunning,
    CancelTooLate { layout: String },
    Internal { detail: String },
}

/// The message a user reads for `e`.
pub open spec fn error_message(e: AppError) -> Seq<char> {
    match e {
        AppError::UnknownSchemaVersion { found, supported, path } =>
            "Update layoutswap, or move the config file at "@ + path@
                + " aside to start fresh: it uses schema version "@ + dec(found as int)
                + " and this version of layoutswap reads up to "@ + dec(supported as int) + "."@,
        AppError::ConfigInvalid { path, source } =>
            "Move the config file at "@ + path@
                + " aside to start fresh, or restore one with Import: the file is not valid ("@
                + source@ + ")."@,
        AppError::ConfigRead { path, source } =>
            "Check that the config file at "@ + path@
                + " is readable, then open layoutswap again ("@ + source@ + ")."@,
        AppError::ConfigWrite { path, source } =>
            "Check that the folder of "@ + path@ + " is writable, then try again ("@ + source@
                + ")."@,
        AppError::AppRootUnavailable =>
            "Sign in with a normal Windows user account and open layoutswap again: the local application data folder (LOCALAPPDATA) is not set."@,
        AppError::ScriptSpawn { path, source } =>
            "Check that Windows PowerShell is installed, then try again: could not start "@
                + path@ + " ("@ + source@ + ")."@,
        AppError::ScriptWrite { path, source } =>
            "Check that the folder of "@ + path@ + " is writable, then open layoutswap again ("@
                + source@ + ")."@,
        AppError::ProbeFailed { exit_code, stderr, log_path } =>
            "Check that no other program is changing the monitors, then try again: the probe exited with exit code "@
                + dec(exit_code as int) + " ("@ + stderr@ + ")."@,
        AppError::ProbeUnreadable { source } =>
            "Update layoutswap: the probe reported something this version cannot read ("@
                + source@ + ")."@,
        AppError::CapabilitiesFailed { exit_code, stderr } =>
            "Check that no other program is changing the monitors, then try again: the capabilities read exited with exit code "@
                + dec(exit_code as int) + " ("@ + stderr@ + ")."@,
        AppError::CapabilitiesUnreadable { source } =>
            "Update layoutswap: the capabilities read reported something this version cannot read ("@
                + source@ + ")."@,
        AppError::NoProbeYet =>
            "Wait for layoutswap to finish reading the monitors, then try again."@,
        AppError::InvalidLayoutName { reason } => reason@,
        AppError::InvalidLayoutEdit { reason } => reason@,
        AppError::LayoutNotFound { id } =>
            "Pick the layout again from the sidebar: no layout has the id "@ + id@ + " any more."@,
        AppError::LayoutFolder { path, source } =>
            "Check that the folder "@ + path@ + " is writable, then try again ("@ + source@
                + ")."@,
        AppError::ScriptMissing { path } =>
            "Regenerate the script from the layout, then try again: "@ + path@
                + " is not on disk."@,
        AppError::FileOpen { path, source } =>
            "Open "@ + path@ + " yourself: Windows could not start the program for it ("@
                + source@ + ")."@,
        AppError::LogMissing { path } =>
            "Switch to the layout once, then open its log: "@ + path@ + " is not on disk yet."@,
        AppError::SettingsOpen { source } =>
            "Open Settings > Display yourself, from the Start menu: Windows could not open it ("@
                + source@ + ")."@,
        AppError::DiagnosticsWrite { path, source } =>
            "Pick another place to save the diagnostics: could not write "@ + path@ + " ("@
                + source@ + ")."@,
        AppError::ExportWrite { path, source } =>
            "Pick another place to save the config: could not write "@ + path@ + " ("@
                + source@ + ")."@,
        AppError::ImportRefused { path, problem } =>
            "Pick another file to import: "@ + path@ + " was refused, "@ + problem@ + "."@,
        AppError::SwitchRunning { layout } =>
            "Wait for the switch to "@ + layout@ + " to finish, then try again."@,
        AppError::SwitchLocked { layout, path } =>
            "Wait for the switch to "@ + layout@
                + " to finish, then try again. If no switch is running, delete "@ + path@
                + " first."@,
        AppError::NoSwitchRunning => "Nothing to cancel: no switch is running."@,
        AppError::CancelTooLate { layout } =>
            "Wait for the switch to "@ + layout@
                + " to finish: the arrangement is already being applied and cannot be stopped."@,
        AppError::Internal { detail } =>
            "Open layoutswap again and try once more: something inside the app failed ("@
                + detail@ + ")."@,
    }
}

/// Why a config file cannot be imported, as a clause after the file name.
pub open spec fn import_problem_text(e: AppError) -> Seq<char> {
    match e {
        AppError::UnknownSchemaVersion { found, supported, .. } => "it uses schema version "@
            + dec(found as int) + " and this version of layoutswap reads up to "@ + dec(
            supported as int,
        ),
        AppError::ConfigInvalid { source, .. } => "the file is not a layoutswap config: "@
            + source@,
        AppError::ConfigRead { source, .. } => "the file could not be read: "@ + source@,
        _ => error_message(e),
    }
}

/// Appends the literal `lit` then the string `s`.
fn push2(out: &mut Vec<char>, lit: &str, s: &String)
    ensures
        final(out)@ == old(out)@ + lit@ + s@,
{
    append_str(out, lit);
    append_str(out, s.as_str());
}

impl AppError {
    /// The message a user reads: what to do next, then what went wrong.
    pub fn message(&self) -> (r: String)
        ensures
            r@ == error_message(*self),
    {
        let mut o: Vec<char> = Vec::new();
        match self {
            AppError::UnknownSchemaVersion { found, supported, path } => {
                push2(&mut o, "Update layoutswap, or move the config file at ", path);
                append_str(&mut o, " aside to start fresh: it uses schema version ");
                push_dec(&mut o, *found);
                append_str(&mut o, " and this version of layoutswap reads up to ");
                push_dec(&mut o, *supported as u64);
                append_str(&mut o, ".");
            },
            AppError::ConfigInvalid { path, source } => {
                push2(&mut o, "Move the config file at ", path);
                push2(
                    &mut o,
                    " aside to start fresh, or restore one with Import: the file is not valid (",
                    source,
                );
                append_str(&mut o, ").");
            },
            AppError::ConfigRead { path, source } => {
                push2(&mut o, "Check that the config file at ", path);
                push2(&mut o, " is readable, then open layoutswap again (", source);
                append_str(&mut o, ").");
            },
            AppError::ConfigWrite { path, source } => {
                push2(&mut o, "Check that the folder of ", path);
                push2(&mut o, " is writable, then try again (", source);
                append_str(&mut o, ").");
            },
            AppError::AppRootUnavailable => {
                append_str(
                    &mut o,
                    "Sign in with a normal Windows user account and open layoutswap again: the local application data folder (LOCALAPPDATA) is not set.",
                );
            },
            AppError::ScriptSpawn { path, source } => {
                push2(
                    &mut o,
                    "Check that Windows PowerShell is installed, then try again: could not start ",
                    path,
                );
                push2(&mut o, " (", source);
                append_str(&mut o, ").");
            },
            AppError::ScriptWrite { path, source } => {
                push2(&mut o, "Check that the folder of ", path);
                push2(&mut o, " is writable, then open layoutswap again (", source);
                append_str(&mut o, ").");
            },
            AppError::ProbeFailed { exit_code, stderr, .. } => {
                append_str(
                    &mut o,
                    "Check that no other program is changing the monitors, then try again: the probe exited with exit code ",
                );
                push_dec_i64(&mut o, *exit_code as i64);
                push2(&mut o, " (", stderr);
                append_str(&mut o, ").");
            },
            AppError::ProbeUnreadable { source } => {
                push2(
                    &mut o,
                    "Update layoutswap: the probe reported something this version cannot read (",
                    source,
                );
                append_str(&mut o, ").");
            },
            AppError::CapabilitiesFailed { exit_code, stderr } => {
                append_str(
                    &mut o,
                    "Check that no other program is changing the monitors, then try again: the capabilities read exited with exit code ",
                );
                push_dec_i64(&mut o, *exit_code as i64);
                push2(&mut o, " (", stderr);
                append_str(&mut o, ").");
            },
            AppError::CapabilitiesUnreadable { source } => {
                push2(
                    &mut o,
                    "Update layoutswap: the capabilities read reported something this version cannot read (",
                    source,
                );
                append_str(&mut o, ").");
            },
            AppError::NoProbeYet => {
                append_str(
                    &mut o,
                    "Wait for layoutswap to finish reading the monitors, then try again.",
                );
            },
            AppError::InvalidLayoutName { reason } => {
                append_str(&mut o, reason.as_str());
            },
            AppError::InvalidLayoutEdit { reason } => {
                append_str(&mut o, reason.as_str());
            },
            AppError::LayoutNotFound { id } => {
                push2(&mut o, "Pick the layout again from the sidebar: no layout has the id ", id);
                append_str(&mut o, " any more.");
            },
            AppError::LayoutFolder { path, source } => {
                push2(&mut o, "Check that the folder ", path);
                push2(&mut o, " is writable, then try again (", source);
                append_str(&mut o, ").");
            },
            AppError::ScriptMissing { path } => {
                push2(&mut o, "Regenerate the script from the layout, then try again: ", path);
                append_str(&mut o, " is not on disk.");
            },
            AppError::FileOpen { path, source } => {
                push2(&mut o, "Open ", path);
                push2(&mut o, " yourself: Windows could not start the program for it (", source);
                append_str(&mut o, ").");
            },
            AppError::LogMissing { path } => {
                push2(&mut o, "Switch to the layout once, then open its log: ", path);
                append_str(&mut o, " is not on disk yet.");
            },
            AppError::SettingsOpen { source } => {
                push2(
                    &mut o,
                    "Open Settings > Display yourself, from the Start menu: Windows could not open it (",
                    source,
                );
                append_str(&mut o, ").");
            },
            AppError::DiagnosticsWrite { path, source } => {
                push2(&mut o, "Pick another place to save the diagnostics: could not write ", path);
                push2(&mut o, " (", source);
                append_str(&mut o, ").");
            },
            AppError::ExportWrite { path, source } => {
                push2(&mut o, "Pick another place to save the config: could not write ", path);
                push2(&mut o, " (", source);
                append_str(&mut o, ").");
            },
            AppError::ImportRefused { path, problem } => {
                push2(&mut o, "Pick another file to import: ", path);
                push2(&mut o, " was refused, ", problem);
                append_str(&mut o, ".");
            },
            AppError::SwitchRunning { layout } => {
                push2(&mut o, "Wait for the switch to ", layout);
                append_str(&mut o, " to finish, then try again.");
            },
            AppError::SwitchLocked { layout, path } => {
                push2(&mut o, "Wait for the switch to ", layout);
                push2(
                    &mut o,
                    " to finish, then try again. If no switch is running, delete ",
                    path,
                );
                append_str(&mut o, " first.");
            },
            AppError::NoSwitchRunning => {
                append_str(&mut o, "Nothing to cancel: no switch is running.");
            },
            AppError::CancelTooLate { layout } => {
                push2(&mut o, "Wait for the switch to ", layout);
                append_str(
                    &mut o,
                    " to finish: the arrangement is already being applied and cannot be stopped.",
                );
            },
            AppError::Internal { detail } => {
                push2(
                    &mut o,
                    "Open layoutswap again and try once more: something inside the app failed (",
                    detail,
                );
                append_str(&mut o, ").");
            },
        }
        string_of(&o)
    }

    /// Why a config file cannot be imported, as a clause after the file name.
    pub fn import_problem(&self) -> (r: String)
        ensures
            r@ == import_problem_text(*self),
    {
        let mut o: Vec<char> = Vec::new();
        match self {
            AppError::UnknownSchemaVersion { found, supported, .. } => {
                append_str(&mut o, "it uses schema version ");
                push_dec(&mut o, *found);
                append_str(&mut o, " and this version of layoutswap reads up to ");
                push_dec(&mut o, *supported as u64);
                string_of(&o)
            },
            AppError::ConfigInvalid { source, .. } => {
                push2(&mut o, "the file is not a layoutswap config: ", source);
                string_of(&o)
            },
            AppError::ConfigRead { source, .. } => {
                push2(&mut o, "the file could not be read: ", source);
                string_of(&o)
            },
            _ => self.message(),
        }
    }
}

/// What a user interface receives when an operation fails.
#[derive(Debug, Clone, PartialEq, Eq)]
pub struct AppErrorPayload {
    pub message: String,
    /// The log to open for this failure, once a variant exists that ran a script.
    pub log_path: Option<String>,
}

impl AppErrorPayload {
    /// The payload for `error`: its message, and the probe log when the error names one.
    pub fn from_error(error: &AppError) -> (r: AppErrorPayload)
        ensures
            r.message@ == error_message(*error),
            r.log_path == (match *error {
                AppError::ProbeFailed { log_path, .. } => log_path,
                _ => None,
            }),
    {
        let log_path = match error {
            AppError::ProbeFailed { log_path, .. } => log_path.clone(),
            _ => None,
        };
        AppErrorPayload { message: error.message(), log_path }
    }
}

} // verus!
