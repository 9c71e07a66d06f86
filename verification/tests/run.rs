use cargo_device::config::{Config, DeviceConfig};
use cargo_device::device::{resolve, Device};
use cargo_device::error::Error;
use cargo_device::run::{execute_with, forward_exit, local_run_command, remote_shell_command, source_clause};
use cargo_device::strmap::StrMap;

fn device_from(name: &str, dev: DeviceConfig) -> Device {
    let mut device = StrMap::new();
    device.insert(name.to_owned(), dev);
    resolve(&Config { device }, name).unwrap()
}

#[test]
fn remote_shell_changes_to_deploy_path() {
    let script = remote_shell_command("/opt/myapp", "myapp", &[], &["status".into()]);
    assert_eq!(script, "cd /opt/myapp && exec ./myapp status");
}

#[test]
fn remote_shell_no_args() {
    let script = remote_shell_command("/opt/myapp", "myapp", &[], &[]);
    assert_eq!(script, "cd /opt/myapp && exec ./myapp");
}

#[test]
fn remote_shell_empty_run_source_unchanged() {
    let script = remote_shell_command("/opt/app", "app", &[], &[]);
    assert_eq!(script, "cd /opt/app && exec ./app");
}

#[test]
fn remote_shell_sources_absolute_script() {
    let src = vec!["/opt/ros/humble/setup.bash".into()];
    let script = remote_shell_command("/opt/app", "app", &src, &[]);
    assert_eq!(script, "bash -lc 'cd /opt/app && . /opt/ros/humble/setup.bash && exec ./app'");
}

#[test]
fn remote_shell_bash_wrapper_escapes_inner_quotes() {
    let src = vec!["/opt/ros/humble/setup.bash".into()];
    let script = remote_shell_command("/opt/app's", "app", &src, &["it's".into()]);
    assert_eq!(
        script,
        "bash -lc 'cd '\\''/opt/app'\\''\\'\\'''\\''s'\\'' && . /opt/ros/humble/setup.bash && exec ./app '\\''it'\\''\\'\\'''\\''s'\\'''"
    );
}

#[test]
fn remote_shell_tilde_script_uses_remote_home() {
    let src = vec!["~/ros2_humble/install/setup.bash".into()];
    let script = remote_shell_command("/opt/app", "app", &src, &[]);
    assert_eq!(
        script,
        "bash -lc 'cd /opt/app && . \"$HOME\"/ros2_humble/install/setup.bash && exec ./app'"
    );
}

#[test]
fn remote_shell_sources_multiple_scripts_in_order() {
    let src = vec![
        "~/ros2_humble/install/setup.bash".into(),
        "~/ldlidar_ros2_ws/install/setup.bash".into(),
    ];
    let script = remote_shell_command("/opt/app", "app", &src, &["run".into()]);
    assert_eq!(
        script,
        "bash -lc 'cd /opt/app && \
         . \"$HOME\"/ros2_humble/install/setup.bash && \
         . \"$HOME\"/ldlidar_ros2_ws/install/setup.bash && \
         exec ./app run'"
    );
}

#[test]
fn local_run_sources_then_execs_cargo() {
    let src = vec!["/opt/ros/humble/setup.bash".into()];
    let cmd = local_run_command(&src, "app", &["--release".into()], &["run".into()]);
    assert_eq!(cmd, ". /opt/ros/humble/setup.bash && exec cargo run --release --bin app -- run");
}

#[test]
fn remote_shell_tilde_deploy_path_uses_remote_home() {
    let script = remote_shell_command("~/myapp", "app", &[], &[]);
    assert_eq!(script, "cd \"$HOME\"/myapp && exec ./app");
}

// ── further cases ────────────────────────────────────────────────────────

#[test]
fn source_clause_is_empty_without_scripts() {
    assert_eq!(source_clause(&[]), "");
    assert_eq!(source_clause(&["/a".into(), "~/b".into()]), ". /a && . \"$HOME\"/b && ");
}

#[test]
fn remote_args_are_quoted_one_by_one() {
    let script = remote_shell_command("/opt/app", "app", &[], &["a b".into(), "c".into()]);
    assert_eq!(script, "cd /opt/app && exec ./app 'a b' c");
}

#[test]
fn empty_remote_argument_is_kept_as_one_word() {
    let script = remote_shell_command("/opt/app", "app", &[], &["".into()]);
    assert_eq!(script, "cd /opt/app && exec ./app ''");
    let script = remote_shell_command("/opt/app", "app", &[], &["".into(), "x".into()]);
    assert_eq!(script, "cd /opt/app && exec ./app '' x");
}

#[test]
fn local_run_without_remote_args_has_no_separator() {
    let cmd = local_run_command(&["/s".into()], "app", &[], &[]);
    assert_eq!(cmd, ". /s && exec cargo run --bin app");
}

#[test]
fn desktop_without_scripts_runs_cargo_directly() {
    let dev = device_from("desktop", DeviceConfig::default());
    let inv = execute_with(&dev, "app", &["--release".into()], &["x".into()], false, false).unwrap();
    assert_eq!(inv.program, "cargo");
    assert_eq!(inv.args, ["run", "--release", "--bin", "app", "--", "x"]);
}

#[test]
fn desktop_with_scripts_needs_bash() {
    let dev = device_from(
        "desktop",
        DeviceConfig { run_source: Some(vec!["/s.bash".into()]), ..Default::default() },
    );
    let err = execute_with(&dev, "app", &[], &[], false, false).unwrap_err();
    assert!(matches!(err, Error::BashNotFound));
    let inv = execute_with(&dev, "app", &[], &[], false, true).unwrap();
    assert_eq!(inv.program, "bash");
    assert_eq!(inv.args, ["-c", ". /s.bash && exec cargo run --bin app"]);
}

#[test]
fn remote_run_goes_through_ssh() {
    let dev = device_from(
        "edge",
        DeviceConfig {
            ssh_host: Some("pi@host".into()),
            ssh_key: Some("/keys/id".into()),
            deploy_path: Some("/opt/app".into()),
            ..Default::default()
        },
    );
    let inv = execute_with(&dev, "app", &[], &["status".into()], true, true).unwrap();
    assert_eq!(inv.program, "ssh");
    assert_eq!(inv.args, ["-t", "-i", "/keys/id", "pi@host", "cd /opt/app && exec ./app status"]);
    let inv = execute_with(&dev, "app", &[], &[], false, true).unwrap();
    assert_eq!(inv.args, ["-i", "/keys/id", "pi@host", "cd /opt/app && exec ./app"]);
}

#[test]
fn remote_run_errors() {
    let dev = device_from("edge", DeviceConfig { ssh_program: Some("/x/ssh".into()), ..Default::default() });
    let err = execute_with(&dev, "app", &[], &[], false, false).unwrap_err();
    assert_eq!(err.message(), "`/x/ssh` not found — install OpenSSH, or set ssh_program");
    let err = execute_with(&dev, "app", &[], &[], false, true).unwrap_err();
    assert!(matches!(err, Error::MissingSshHost));
}

#[test]
fn forward_exit_maps_the_outcome() {
    assert!(matches!(forward_exit(true, Some(0), true), Ok(None)));
    assert!(matches!(forward_exit(false, Some(3), true), Ok(Some(3))));
    let err = forward_exit(false, None, true).unwrap_err();
    assert_eq!(err.message(), "remote process terminated by signal");
    let err = forward_exit(false, None, false).unwrap_err();
    assert_eq!(err.message(), "local process terminated by signal");
}
