use cargo_device::config::{Config, DeviceConfig};
use cargo_device::deploy::{
    deploy_target, local_binary_path, mkdir_command, plan_transfer, rsync_rsh, run_with,
    sftp_binary_lines, sftp_path, sftp_put_lines, sftp_quote, sync_target, sync_with,
    DeployTarget, LocalEntry, TransferPlan, Transport, TransportChoice,
};
use cargo_device::device::{resolve, Device};
use cargo_device::error::{Error, RunOutcome};
use cargo_device::strmap::StrMap;

fn device_from(name: &str, dev: DeviceConfig) -> Device {
    let mut device = StrMap::new();
    device.insert(name.to_owned(), dev);
    resolve(&Config { device }, name).unwrap()
}

fn device_with(sync_dirs: &[&str], deploy_path: &str) -> Device {
    device_from(
        "edge",
        DeviceConfig {
            ssh_host: Some("user@host".into()),
            deploy_path: Some(deploy_path.to_owned()),
            sync_dirs: Some(sync_dirs.iter().map(|s| (*s).to_owned()).collect()),
            ..Default::default()
        },
    )
}

fn target(transport: Transport) -> DeployTarget {
    DeployTarget { transport, host: "user@host".into(), deploy_path: "/opt/app".into() }
}

fn entry(path: &str, rel: &[&str], is_dir: bool) -> LocalEntry {
    LocalEntry { path: path.into(), rel: rel.iter().map(|s| (*s).to_owned()).collect(), is_dir }
}

// ── transport parsing / selection ────────────────────────────────────────────

#[test]
fn transport_choice_parses_known_values() {
    assert_eq!(TransportChoice::parse("auto").unwrap(), TransportChoice::Auto);
    assert_eq!(TransportChoice::parse("rsync").unwrap(), TransportChoice::Rsync);
    assert_eq!(TransportChoice::parse("sftp").unwrap(), TransportChoice::Sftp);
}

#[test]
fn transport_choice_rejects_unknown_value_and_lists_valid_ones() {
    let err = TransportChoice::parse("scp").unwrap_err().message();
    assert!(err.contains("scp"), "error should quote the bad value: {err}");
    assert!(err.contains("rsync") && err.contains("sftp"), "{err}");
}

#[test]
fn transport_choice_defaults_to_auto() {
    assert_eq!(TransportChoice::default(), TransportChoice::Auto);
}

// ── remote directory preparation ─────────────────────────────────────────────

#[test]
fn rsync_plan_covers_deploy_path_and_each_sync_dir_without_walking() {
    let dev = device_with(&["models/", "config"], "/opt/app");
    let plan = plan_transfer(&dev, "/opt/app", Transport::Rsync, &[]);
    assert_eq!(plan.dirs, ["/opt/app", "/opt/app/models", "/opt/app/config"]);
    assert!(plan.files.is_empty());
}

#[test]
fn sftp_put_lines_never_emit_backslashes() {
    let plan = TransferPlan {
        dirs: Vec::new(),
        files: vec![("assets\\sub\\f.bin".to_owned(), "~/app/assets/sub/f.bin".to_owned())],
    };
    let lines = sftp_put_lines(&plan);
    assert_eq!(lines, ["put \"assets/sub/f.bin\" \"app/assets/sub/f.bin\""]);
}

#[test]
fn mkdir_command_creates_all_dirs_in_one_call() {
    let cmd = mkdir_command(&["/opt/app".into(), "/opt/app/models".into()]);
    assert_eq!(cmd, "mkdir -p /opt/app /opt/app/models");
}

#[test]
fn mkdir_command_expands_tilde_on_the_device() {
    let cmd = mkdir_command(&["~/app".into()]);
    assert_eq!(cmd, "mkdir -p \"$HOME\"/app");
}

// ── binary path ──────────────────────────────────────────────────────────────

#[test]
fn local_binary_path_uses_target_and_profile() {
    assert_eq!(
        local_binary_path(Some("aarch64-unknown-linux-gnu"), false, "app"),
        "target/aarch64-unknown-linux-gnu/debug/app"
    );
    assert_eq!(
        local_binary_path(Some("aarch64-unknown-linux-gnu"), true, "app"),
        "target/aarch64-unknown-linux-gnu/release/app"
    );
    assert_eq!(local_binary_path(None, false, "app"), "target/debug/app");
}

// ── rsync argument building ──────────────────────────────────────────────────

#[test]
fn rsync_rsh_omitted_when_defaults_suffice() {
    assert_eq!(rsync_rsh("ssh", None), None);
}

#[test]
fn rsync_rsh_leaves_posix_key_paths_unchanged() {
    assert_eq!(
        rsync_rsh("ssh", Some("/home/me/.ssh/id_ed25519")).unwrap(),
        "ssh -i /home/me/.ssh/id_ed25519"
    );
}

#[test]
fn rsync_rsh_normalises_windows_separators() {
    assert_eq!(
        rsync_rsh("ssh", Some("C:\\Users\\me\\.ssh\\id_ed25519")).unwrap(),
        "ssh -i C:/Users/me/.ssh/id_ed25519"
    );
}

#[test]
fn rsync_rsh_quotes_words_with_spaces() {
    assert_eq!(
        rsync_rsh(
            "C:\\Program Files\\Git\\usr\\bin\\ssh.exe",
            Some("C:\\Users\\First Last\\.ssh\\key")
        )
        .unwrap(),
        "\"C:/Program Files/Git/usr/bin/ssh.exe\" -i \"C:/Users/First Last/.ssh/key\""
    );
}

#[test]
fn rsync_rsh_included_for_custom_ssh_without_key() {
    assert_eq!(rsync_rsh("/usr/bin/ssh", None).unwrap(), "/usr/bin/ssh".to_owned());
}

// ── sftp argument building ───────────────────────────────────────────────────

#[test]
fn sftp_binary_upload_restores_the_executable_bit() {
    let lines = sftp_binary_lines("target/debug/app", "app-dir/app");
    assert_eq!(
        lines,
        ["put \"target/debug/app\" \"app-dir/app\"", "chmod 755 \"app-dir/app\""]
    );
}

#[test]
fn sftp_quote_wraps_and_normalises() {
    assert_eq!(sftp_quote("/opt/app/bin"), "\"/opt/app/bin\"");
    assert_eq!(sftp_quote("target\\debug\\app"), "\"target/debug/app\"");
}

#[test]
fn sftp_quote_survives_spaces_and_quotes() {
    assert_eq!(sftp_quote("my app"), "\"my app\"");
    assert_eq!(sftp_quote("od\"d"), "\"od\\\"d\"");
}

#[test]
fn sftp_path_turns_home_relative_paths_into_relative_ones() {
    assert_eq!(sftp_path("~/paibeam"), "paibeam");
    assert_eq!(sftp_path("~"), ".");
    assert_eq!(sftp_path("/home/radxa/paibeam"), "/home/radxa/paibeam");
}

// ── further cases ────────────────────────────────────────────────────────

#[test]
fn sftp_plan_collects_listed_dirs_and_files() {
    // One listing per sync directory, sorted by name, parents before children.
    let dev = device_with(&["data/"], "/opt/app");
    let listing = vec![
        entry("data/b.txt", &["b.txt"], false),
        entry("data/nested", &["nested"], true),
        entry("data\\nested\\a.txt", &["nested", "a.txt"], false),
    ];
    let plan = plan_transfer(&dev, "/opt/app", Transport::Sftp, &[listing]);
    assert_eq!(plan.dirs, ["/opt/app", "/opt/app/data", "/opt/app/data/nested"]);
    assert_eq!(
        plan.files,
        [
            ("data/b.txt".to_owned(), "/opt/app/data/b.txt".to_owned()),
            ("data/nested/a.txt".to_owned(), "/opt/app/data/nested/a.txt".to_owned()),
        ]
    );
}

#[test]
fn rsync_plan_ignores_listings() {
    let dev = device_with(&["data"], "/opt/app");
    let listing = vec![entry("data/sub", &["sub"], true), entry("data/f", &["f"], false)];
    let plan = plan_transfer(&dev, "/opt/app", Transport::Rsync, &[listing]);
    assert_eq!(plan.dirs, ["/opt/app", "/opt/app/data"]);
    assert!(plan.files.is_empty());
}

#[test]
fn unknown_transport_error_message() {
    let err = TransportChoice::parse("scp").unwrap_err();
    assert!(matches!(&err, Error::UnknownTransport { value } if value == "scp"));
    assert_eq!(
        err.message(),
        "unknown transport 'scp' — valid values are \"auto\", \"rsync\", \"sftp\""
    );
}

#[test]
fn select_with_follows_the_configured_choice() {
    assert_eq!(TransportChoice::Rsync.select_with(true, false, "sftp").unwrap(), Transport::Rsync);
    assert!(matches!(TransportChoice::Rsync.select_with(false, true, "sftp"), Err(Error::RsyncNotInstalled)));
    assert_eq!(TransportChoice::Sftp.select_with(true, true, "sftp").unwrap(), Transport::Sftp);
    assert!(matches!(
        TransportChoice::Sftp.select_with(true, false, "my-sftp"),
        Err(Error::SftpNotInstalled { program }) if program == "my-sftp"
    ));
    assert_eq!(TransportChoice::Auto.select_with(true, true, "sftp").unwrap(), Transport::Rsync);
    assert_eq!(TransportChoice::Auto.select_with(false, true, "sftp").unwrap(), Transport::Sftp);
    assert!(matches!(
        TransportChoice::Auto.select_with(false, false, "sftp"),
        Err(Error::NoTransportTool { program }) if program == "sftp"
    ));
}

#[test]
fn select_with_error_messages() {
    let e = TransportChoice::Rsync.select_with(false, false, "sftp").unwrap_err();
    assert_eq!(
        e.message(),
        "transport = \"rsync\" is set but `rsync` is not installed — install rsync, or use \
         transport = \"sftp\" (ships with OpenSSH)"
    );
    let e = TransportChoice::Auto.select_with(false, false, "sftp.exe").unwrap_err();
    assert_eq!(
        e.message(),
        "neither `rsync` nor `sftp.exe` found — install one of them (`sftp` is part of the \
         OpenSSH client suite)"
    );
}

#[test]
fn desktop_is_not_deployed_to() {
    let dev = device_from("desktop", DeviceConfig::default());
    assert!(deploy_target(&dev).unwrap().is_none());
}

#[test]
fn sync_without_sync_dirs_does_nothing() {
    let dev = device_with(&[], "/opt/app");
    assert!(sync_target(&dev).unwrap().is_none());
}

#[test]
fn deploy_target_requires_the_ssh_settings() {
    // With transport = "sftp" and an sftp program that surely exists only when sftp does,
    // the host check decides only when selection succeeded; use a device without a host.
    let dev = device_from("edge", DeviceConfig { transport: Some("sftp".into()), ..Default::default() });
    match deploy_target(&dev) {
        Err(Error::MissingSshHost) | Err(Error::SftpNotInstalled { .. }) => {}
        other => panic!("unexpected: {other:?}"),
    }
}

#[test]
fn rsync_deploy_runs_mkdir_binary_and_each_sync_dir() {
    let dev = device_with(&["models/"], "/opt/app");
    let steps = run_with(&dev, &target(Transport::Rsync), true, "app", &[], true, true);
    assert!(steps.failure.is_none());
    let c = &steps.commands;
    assert_eq!(c.len(), 3);
    assert_eq!(c[0].program, "ssh");
    assert_eq!(c[0].args, ["user@host", "--", "mkdir -p /opt/app /opt/app/models"]);
    assert_eq!(c[0].label, "ssh mkdir");
    assert_eq!(c[1].program, "rsync");
    assert_eq!(c[1].args, ["-avz", "target/release/app", "user@host:/opt/app/"]);
    assert_eq!(c[2].args, ["-avz", "models/", "user@host:/opt/app/models"]);
}

#[test]
fn rsync_deploy_passes_the_key_to_ssh_and_rsync() {
    let dev = device_from(
        "edge",
        DeviceConfig {
            target: Some("aarch64-unknown-linux-gnu".into()),
            ssh_host: Some("user@host".into()),
            ssh_key: Some("/keys/id".into()),
            deploy_path: Some("/opt/app".into()),
            ..Default::default()
        },
    );
    let steps = run_with(&dev, &target(Transport::Rsync), false, "app", &[], true, true);
    let c = &steps.commands;
    assert_eq!(c[0].args, ["-i", "/keys/id", "user@host", "--", "mkdir -p /opt/app"]);
    assert_eq!(
        c[1].args,
        [
            "-avz",
            "-e",
            "ssh -i /keys/id",
            "target/aarch64-unknown-linux-gnu/debug/app",
            "user@host:/opt/app/"
        ]
    );
}

#[test]
fn sftp_deploy_uploads_binary_then_synced_files() {
    let dev = device_with(&["data"], "~/app");
    let t = DeployTarget { transport: Transport::Sftp, host: "user@host".into(), deploy_path: "~/app".into() };
    let listing = vec![entry("data/x.bin", &["x.bin"], false)];
    let steps = run_with(&dev, &t, false, "app", &[listing], true, true);
    assert!(steps.failure.is_none());
    let c = &steps.commands;
    assert_eq!(c.len(), 3);
    assert_eq!(c[0].args, ["user@host", "--", "mkdir -p \"$HOME\"/app \"$HOME\"/app/data"]);
    assert_eq!(c[1].program, "sftp");
    assert_eq!(c[1].args, ["-b", "-", "user@host"]);
    assert_eq!(
        c[1].stdin.as_deref(),
        Some("put \"target/debug/app\" \"app/app\"\nchmod 755 \"app/app\"\n")
    );
    assert_eq!(c[2].stdin.as_deref(), Some("put \"data/x.bin\" \"app/data/x.bin\"\n"));
}

#[test]
fn deploy_stops_without_ssh() {
    let dev = device_with(&[], "/opt/app");
    let steps = run_with(&dev, &target(Transport::Rsync), false, "app", &[], false, true);
    assert!(steps.commands.is_empty());
    let err = steps.failure.unwrap();
    assert_eq!(err.message(), "`ssh` not found — install the OpenSSH client, or set ssh_program");
}

#[test]
fn sftp_deploy_stops_after_mkdir_without_sftp() {
    let dev = device_with(&[], "/opt/app");
    let steps = run_with(&dev, &target(Transport::Sftp), false, "app", &[], true, false);
    assert_eq!(steps.commands.len(), 1);
    assert!(matches!(steps.failure, Some(Error::SftpProgramNotFound { program }) if program == "sftp"));
}

#[test]
fn sftp_sync_without_files_only_creates_dirs() {
    let dev = device_with(&["empty"], "/opt/app");
    let steps = sync_with(&dev, &target(Transport::Sftp), &[vec![]], true, false);
    assert!(steps.failure.is_none());
    assert_eq!(steps.commands.len(), 1);
    assert_eq!(steps.commands[0].args, ["user@host", "--", "mkdir -p /opt/app /opt/app/empty"]);
}

#[test]
fn sync_of_a_device_without_sync_dirs_plans_nothing() {
    let dev = device_with(&[], "/opt/app");
    let steps = sync_with(&dev, &target(Transport::Rsync), &[], false, false);
    assert!(steps.commands.is_empty());
    assert!(steps.failure.is_none());
}

#[test]
fn steps_stop_at_the_first_failed_command() {
    let dev = device_with(&["models/"], "/opt/app");
    let steps = run_with(&dev, &target(Transport::Rsync), false, "app", &[], true, true);
    assert_eq!(steps.first(), Some(0));
    let ok = || RunOutcome::Finished { success: true, status: "exit status: 0".into() };
    assert_eq!(steps.after(0, ok()).unwrap(), Some(1));
    assert_eq!(steps.after(1, ok()).unwrap(), Some(2));
    assert_eq!(steps.after(2, ok()).unwrap(), None);
    let failed = RunOutcome::Finished { success: false, status: "exit status: 23".into() };
    let err = steps.after(1, failed).unwrap_err();
    assert_eq!(err.message(), "`rsync` exited with exit status: 23");
    let err = steps.after(0, RunOutcome::NotStarted { reason: "gone".into() }).unwrap_err();
    assert_eq!(err.message(), "failed to run `ssh mkdir`");
    assert!(steps.finish().is_ok());
}

#[test]
fn planned_failure_is_reported_after_the_commands() {
    let dev = device_with(&[], "/opt/app");
    let steps = run_with(&dev, &target(Transport::Sftp), false, "app", &[], true, false);
    assert_eq!(steps.first(), Some(0));
    let ok = RunOutcome::Finished { success: true, status: "exit status: 0".into() };
    assert_eq!(steps.after(0, ok).unwrap(), None);
    assert!(matches!(steps.finish(), Err(Error::SftpProgramNotFound { .. })));
    let empty = run_with(&dev, &target(Transport::Rsync), false, "app", &[], false, true);
    assert_eq!(empty.first(), None);
}
