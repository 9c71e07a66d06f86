//! The errors of this crate, and the check that a finished command succeeded.

use vstd::prelude::*;

verus! {

/// What can go wrong while resolving a device or planning its commands.
#[derive(Debug)]
pub enum Error {
    /// No `[device.<name>]` table defines the device.
    DeviceNotFound { name: String },
    /// A `transport` value other than `auto`, `rsync` or `sftp`.
    UnknownTransport { value: String },
    /// The device's `transport` value is not one of `auto`, `rsync`, `sftp`.
    InvalidTransport { device: String, value: String },
    /// An SSH operation on a device without `ssh_host`.
    MissingSshHost,
    /// An SSH operation on a device without `deploy_path`.
    MissingDeployPath,
    /// An SDK build on a device without `target`.
    SdkWithoutTarget,
    /// A `cross` build on a device without `target`.
    CrossWithoutTarget,
    /// The configured linker is not on `PATH`.
    LinkerNotFound { linker: String },
    /// `cross = true` but `cross` is not installed.
    CrossNotInstalled,
    /// `transport = "rsync"` but `rsync` is not installed.
    RsyncNotInstalled,
    /// `transport = "sftp"` but the sftp program is not found.
    SftpNotInstalled { program: String },
    /// `transport = "auto"` and neither `rsync` nor the sftp program is found.
    NoTransportTool { program: String },
    /// The ssh program is not found (to prepare the deploy directories).
    SshNotFound { program: String },
    /// The ssh program is not found (to run the binary).
    SshNotFoundForRun { program: String },
    /// The sftp program is not found (to run an sftp batch).
    SftpProgramNotFound { program: String },
    /// `run_source` on the desktop device needs `bash`, which is not on `PATH`.
    BashNotFound,
    /// A command could not be started.
    SpawnFailed { cmd: String, reason: String },
    /// A command finished unsuccessfully.
    Exited { cmd: String, status: String },
    /// The binary was terminated by a signal (`remote`: on the device, else locally).
    Signal { remote: bool },
}

/// The message that describes `e`.
pub open spec fn spec_message(e: Error) -> Seq<char> {
    match e {
        Error::DeviceNotFound { name } => "device '"@ + name@ + "' not found — add a [device."@
            + name@
            + "] table to .cargo/config.toml or .cargo/device.local.toml (run 'cargo device list' to see configured devices)"@,
        Error::UnknownTransport { value } => unknown_transport_message(value@),
        Error::InvalidTransport { device, value } => "invalid transport for device '"@ + device@ + "'"@,
        Error::MissingSshHost => "ssh_host is required for this operation — set it in .cargo/config.toml"@,
        Error::MissingDeployPath => "deploy_path is required for this operation — set it in .cargo/config.toml"@,
        Error::SdkWithoutTarget => "sdk build requires a target to be set in device config"@,
        Error::CrossWithoutTarget => "cross build requires a target to be set in device config"@,
        Error::LinkerNotFound { linker } => "linker '"@ + linker@
            + "' not found in PATH — install the cross-compilation toolchain"@,
        Error::CrossNotInstalled => "`cross = true` is set but `cross` is not installed.\nInstall cross: cargo install cross --git https://github.com/cross-rs/cross"@,
        Error::RsyncNotInstalled => "transport = \"rsync\" is set but `rsync` is not installed — install rsync, or use transport = \"sftp\" (ships with OpenSSH)"@,
        Error::SftpNotInstalled { program } => "transport = \"sftp\" is set but `"@ + program@
            + "` was not found — install the OpenSSH client suite, or set sftp_program"@,
        Error::NoTransportTool { program } => "neither `rsync` nor `"@ + program@
            + "` found — install one of them (`sftp` is part of the OpenSSH client suite)"@,
        Error::SshNotFound { program } => "`"@ + program@
            + "` not found — install the OpenSSH client, or set ssh_program"@,
        Error::SshNotFoundForRun { program } => "`"@ + program@
            + "` not found — install OpenSSH, or set ssh_program"@,
        Error::SftpProgramNotFound { program } => "`"@ + program@
            + "` not found — install the OpenSSH client suite, or set sftp_program"@,
        Error::BashNotFound => "run_source needs `bash` to source the scripts, but it is not on PATH — on Windows install Git Bash or MSYS2, or drop run_source for the desktop device"@,
        Error::SpawnFailed { cmd, reason } => "failed to run `"@ + cmd@ + "`"@,
        Error::Exited { cmd, status } => "`"@ + cmd@ + "` exited with "@ + status@,
        Error::Signal { remote } => if remote {
            "remote process terminated by signal"@
        } else {
            "local process terminated by signal"@
        },
    }
}

/// The message for an unknown `transport` value, naming the valid ones.
pub open spec fn unknown_transport_message(value: Seq<char>) -> Seq<char> {
    "unknown transport '"@ + value + "' — valid values are \"auto\", \"rsync\", \"sftp\""@
}

fn unknown_transport_text(out: &mut String, value: &str)
    ensures
        final(out)@ == old(out)@ + unknown_transport_message(value@),
{
    out.append("unknown transport '");
    out.append(value);
    out.append("' — valid values are \"auto\", \"rsync\", \"sftp\"");
}

impl Error {
    /// The user-facing message that describes this error.
    pub fn message(&self) -> (r: String)
        ensures
            r@ == spec_message(*self),
    {
        let mut m = String::new();
        match self {
            Error::DeviceNotFound { name } => {
                m.append("device '");
                m.append(name.as_str());
                m.append("' not found — add a [device.");
                m.append(name.as_str());
                m.append(
                    "] table to .cargo/config.toml or .cargo/device.local.toml (run 'cargo device list' to see configured devices)",
                );
            },
            Error::UnknownTransport { value } => {
                unknown_transport_text(&mut m, value.as_str());
            },
            Error::InvalidTransport { device, value } => {
                m.append("invalid transport for device '");
                m.append(device.as_str());
                m.append("'");
            },
            Error::MissingSshHost => {
                m.append("ssh_host is required for this operation — set it in .cargo/config.toml");
            },
            Error::MissingDeployPath => {
                m.append(
                    "deploy_path is required for this operation — set it in .cargo/config.toml",
                );
            },
            Error::SdkWithoutTarget => {
                m.append("sdk build requires a target to be set in device config");
            },
            Error::CrossWithoutTarget => {
                m.append("cross build requires a target to be set in device config");
            },
            Error::LinkerNotFound { linker } => {
                m.append("linker '");
                m.append(linker.as_str());
                m.append("' not found in PATH — install the cross-compilation toolchain");
            },
            Error::CrossNotInstalled => {
                m.append(
                    "`cross = true` is set but `cross` is not installed.\nInstall cross: cargo install cross --git https://github.com/cross-rs/cross",
                );
            },
            Error::RsyncNotInstalled => {
                m.append(
                    "transport = \"rsync\" is set but `rsync` is not installed — install rsync, or use transport = \"sftp\" (ships with OpenSSH)",
                );
            },
            Error::SftpNotInstalled { program } => {
                m.append("transport = \"sftp\" is set but `");
                m.append(program.as_str());
                m.append("` was not found — install the OpenSSH client suite, or set sftp_program");
            },
            Error::NoTransportTool { program } => {
                m.append("neither `rsync` nor `");
                m.append(program.as_str());
                m.append("` found — install one of them (`sftp` is part of the OpenSSH client suite)");
            },
            Error::SshNotFound { program } => {
                m.append("`");
                m.append(program.as_str());
                m.append("` not found — install the OpenSSH client, or set ssh_program");
            },
            Error::SshNotFoundForRun { program } => {
                m.append("`");
                m.append(program.as_str());
                m.append("` not found — install OpenSSH, or set ssh_program");
            },
            Error::SftpProgramNotFound { program } => {
                m.append("`");
                m.append(program.as_str());
                m.append("` not found — install the OpenSSH client suite, or set sftp_program");
            },
            Error::BashNotFound => {
                m.append(
                    "run_source needs `bash` to source the scripts, but it is not on PATH — on Windows install Git Bash or MSYS2, or drop run_source for the desktop device",
                );
            },
            Error::SpawnFailed { cmd, reason } => {
                m.append("failed to run `");
                m.append(cmd.as_str());
                m.append("`");
            },
            Error::Exited { cmd, status } => {
                m.append("`");
                m.append(cmd.as_str());
                m.append("` exited with ");
                m.append(status.as_str());
            },
            Error::Signal { remote } => {
                if *remote {
                    m.append("remote process terminated by signal");
                } else {
                    m.append("local process terminated by signal");
                }
            },
        }
        m
    }
}

/// The underlying cause of `e`, for the errors that wrap one: the reason a command could
/// not be started, and the parse error behind an invalid `transport` value.
pub open spec fn spec_cause(e: Error) -> Option<Seq<char>> {
    match e {
        Error::InvalidTransport { value, .. } => Some(unknown_transport_message(value@)),
        Error::SpawnFailed { reason, .. } => Some(reason@),
        _ => None,
    }
}

impl Error {
    /// The underlying cause of this error, if it wraps one (shown after the message, as
    /// the next link of the error chain).
    pub fn cause(&self) -> (r: Option<String>)
        ensures
            r.deep_view() == spec_cause(*self),
    {
        match self {
            Error::InvalidTransport { value, .. } => {
                let mut m = String::new();
                unknown_transport_text(&mut m, value.as_str());
                Some(m)
            },
            Error::SpawnFailed { reason, .. } => Some(reason.clone()),
            _ => None,
        }
    }
}

/// How running a command ended, as plain values: it could not be started (with the
/// reason), or it finished (with whether it succeeded and its exit status as text).
#[derive(Debug)]
pub enum RunOutcome {
    NotStarted { reason: String },
    Finished { success: bool, status: String },
}

/// Turn the outcome of a command into a `Result` with a human-readable error.
pub trait ExitStatusExt {
    fn require_success(self, cmd: &str) -> Result<(), Error>;
}

impl ExitStatusExt for RunOutcome {
    /// `Ok` exactly when the command finished successfully; otherwise an error naming
    /// `cmd` with the reason it could not start or the status it exited with.
    fn require_success(self, cmd: &str) -> (r: Result<(), Error>)
        ensures
            match self {
                RunOutcome::NotStarted { reason } => r matches Err(Error::SpawnFailed { cmd: c, reason: e })
                    && c@ == cmd@ && e@ == reason@,
                RunOutcome::Finished { success, status } => if success {
                    r is Ok
                } else {
                    r matches Err(Error::Exited { cmd: c, status: s }) && c@ == cmd@ && s@ == status@
                },
            },
    {
        match self {
            RunOutcome::NotStarted { reason } => Err(
                Error::SpawnFailed { cmd: cmd.to_owned(), reason },
            ),
            RunOutcome::Finished { success, status } => {
                if success {
                    Ok(())
                } else {
                    Err(Error::Exited { cmd: cmd.to_owned(), status })
                }
            },
        }
    }
}

} // verus!
