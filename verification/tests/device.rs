use cargo_device::config::{Config, DeviceConfig};
use cargo_device::deploy::TransportChoice;
use cargo_device::device::{resolve, resolve_with_home};
use cargo_device::error::Error;
use cargo_device::strmap::StrMap;

fn make_config(name: &str, dev: DeviceConfig) -> Config {
    let mut device = StrMap::new();
    device.insert(name.to_owned(), dev);
    Config { device }
}

fn raspi_config() -> Config {
    make_config(
        "raspi",
        DeviceConfig {
            target: Some("aarch64-unknown-linux-gnu".into()),
            ssh_host: Some("raspi.local".into()),
            deploy_path: Some("/home/pi".into()),
            ssh_key: Some("~/.ssh/id_rsa".into()),
            ..Default::default()
        },
    )
}

#[test]
fn resolve_known_device() {
    let dev = resolve(&raspi_config(), "raspi").unwrap();
    assert_eq!(dev.name, "raspi");
    assert_eq!(dev.target.as_deref(), Some("aarch64-unknown-linux-gnu"));
    assert_eq!(dev.ssh_host.as_deref(), Some("raspi.local"));
}

#[test]
fn resolve_unknown_device_errors_with_name() {
    let err = resolve(&raspi_config(), "nonexistent").unwrap_err();
    let msg = err.message();
    assert!(msg.contains("nonexistent"), "error should mention the device name: {msg}");
}

#[test]
fn is_desktop_true_for_desktop() {
    let dev = resolve(&make_config("desktop", DeviceConfig::default()), "desktop").unwrap();
    assert!(dev.is_desktop());
}

#[test]
fn is_desktop_false_for_non_desktop() {
    let dev = resolve(&raspi_config(), "raspi").unwrap();
    assert!(!dev.is_desktop());
}

#[test]
fn require_ssh_ok_when_both_fields_set() {
    let dev = resolve(&raspi_config(), "raspi").unwrap();
    let (host, path) = dev.require_ssh().unwrap();
    assert_eq!(host, "raspi.local");
    assert_eq!(path, "/home/pi");
}

#[test]
fn require_ssh_errors_when_host_missing() {
    let cfg = make_config(
        "nhost",
        DeviceConfig { deploy_path: Some("/home/pi".into()), ..Default::default() },
    );
    let dev = resolve(&cfg, "nhost").unwrap();
    assert!(dev.require_ssh().is_err());
}

#[test]
fn require_ssh_errors_when_deploy_path_missing() {
    let cfg = make_config(
        "npath",
        DeviceConfig { ssh_host: Some("raspi.local".into()), ..Default::default() },
    );
    let dev = resolve(&cfg, "npath").unwrap();
    assert!(dev.require_ssh().is_err());
}

#[test]
fn tilde_in_ssh_key_is_expanded() {
    let dev = resolve(&raspi_config(), "raspi").unwrap();
    let key = dev.ssh_key.unwrap();
    assert!(!key.contains('~'), "tilde should be expanded, got: {key}");
    assert!(key.contains("/.ssh/id_rsa"));
}

#[test]
fn tilde_in_sysroot_is_expanded() {
    let cfg = make_config(
        "radxa",
        DeviceConfig { sysroot: Some("~/sysroots/radxa".into()), ..Default::default() },
    );
    let sysroot = resolve(&cfg, "radxa").unwrap().sysroot.unwrap();
    assert!(!sysroot.contains('~'), "tilde should be expanded: {sysroot}");
    assert!(sysroot.ends_with("/sysroots/radxa"));
}

#[test]
fn tilde_in_env_values_is_expanded_and_keys_preserved() {
    let mut env = StrMap::new();
    env.insert("AMENT_PREFIX_PATH".to_owned(), "~/ros2_libs".to_owned());
    env.insert("ROS_DISTRO".to_owned(), "humble".to_owned());
    let cfg = make_config("radxa", DeviceConfig { env: Some(env), ..Default::default() });
    let dev = resolve(&cfg, "radxa").unwrap();
    let ament = dev.env.get("AMENT_PREFIX_PATH").unwrap();
    assert!(!ament.contains('~'), "tilde should be expanded: {ament}");
    assert!(ament.ends_with("/ros2_libs"));
    assert_eq!(dev.env.get("ROS_DISTRO").unwrap(), "humble");
}

#[test]
fn cross_defaults_to_false_and_rustflags_to_empty() {
    let dev = resolve(&raspi_config(), "raspi").unwrap();
    assert!(!dev.cross);
    assert!(dev.rustflags.is_empty());
    assert!(dev.env.is_empty());
    assert!(dev.sysroot.is_none());
}

#[test]
fn tilde_in_deploy_path_is_not_expanded_locally() {
    let cfg = make_config(
        "raspi",
        DeviceConfig {
            ssh_host: Some("raspi.local".into()),
            deploy_path: Some("~/myapp".into()),
            ..Default::default()
        },
    );
    let dev = resolve(&cfg, "raspi").unwrap();
    assert_eq!(dev.deploy_path.as_deref(), Some("~/myapp"));
}

#[test]
fn transport_defaults_to_auto_and_parses_from_config() {
    assert_eq!(resolve(&raspi_config(), "raspi").unwrap().transport, TransportChoice::Auto);
    let cfg = make_config("win", DeviceConfig { transport: Some("sftp".into()), ..Default::default() });
    assert_eq!(resolve(&cfg, "win").unwrap().transport, TransportChoice::Sftp);
}

#[test]
fn ssh_and_sftp_programs_default_to_path_lookup() {
    let dev = resolve(&raspi_config(), "raspi").unwrap();
    assert_eq!(dev.ssh_cmd(), "ssh");
    assert_eq!(dev.sftp_cmd(), "sftp");
}

#[test]
fn ssh_and_sftp_program_overrides_are_used_and_tilde_expanded() {
    let cfg = make_config(
        "win",
        DeviceConfig {
            ssh_program: Some("C:/Windows/System32/OpenSSH/ssh.exe".into()),
            sftp_program: Some("~/tools/sftp".into()),
            ..Default::default()
        },
    );
    let dev = resolve(&cfg, "win").unwrap();
    assert_eq!(dev.ssh_cmd(), "C:/Windows/System32/OpenSSH/ssh.exe");
    assert!(!dev.sftp_cmd().contains('~'), "host paths are tilde-expanded: {}", dev.sftp_cmd());
}

#[test]
fn invalid_transport_error_names_the_device() {
    let cfg = make_config(
        "win",
        DeviceConfig { transport: Some("carrier-pigeon".into()), ..Default::default() },
    );
    let err = resolve(&cfg, "win").unwrap_err().message();
    assert!(err.contains("win"), "error should name the device: {err}");
}

#[test]
fn run_source_is_not_tilde_expanded() {
    let cfg = make_config(
        "radxa",
        DeviceConfig {
            run_source: Some(vec![
                "~/ros2_humble/install/setup.bash".into(),
                "/opt/ros/humble/setup.bash".into(),
            ]),
            ..Default::default()
        },
    );
    let dev = resolve(&cfg, "radxa").unwrap();
    assert_eq!(dev.run_source[0], "~/ros2_humble/install/setup.bash");
    assert!(dev.run_source[0].contains('~'));
    assert_eq!(dev.run_source[1], "/opt/ros/humble/setup.bash");
}

#[test]
fn resolve_cross_true_from_config() {
    let cfg = make_config(
        "edge",
        DeviceConfig {
            target: Some("aarch64-unknown-linux-gnu".into()),
            cross: Some(true),
            ..Default::default()
        },
    );
    assert!(resolve(&cfg, "edge").unwrap().cross);
}

// ── further cases ────────────────────────────────────────────────────────

#[test]
fn unknown_device_error_points_at_the_config_files() {
    let err = resolve(&raspi_config(), "ghost").unwrap_err();
    assert!(matches!(&err, Error::DeviceNotFound { name } if name == "ghost"));
    assert_eq!(
        err.message(),
        "device 'ghost' not found — add a [device.ghost] table to .cargo/config.toml or \
         .cargo/device.local.toml (run 'cargo device list' to see configured devices)"
    );
}

#[test]
fn invalid_transport_error_lists_the_valid_values() {
    let cfg = make_config("win", DeviceConfig { transport: Some("scp".into()), ..Default::default() });
    let err = resolve(&cfg, "win").unwrap_err();
    assert_eq!(err.message(), "invalid transport for device 'win'");
    assert_eq!(
        err.cause().as_deref(),
        Some("unknown transport 'scp' — valid values are \"auto\", \"rsync\", \"sftp\"")
    );
}

#[test]
fn require_ssh_checks_the_host_before_the_path() {
    let dev = resolve(&make_config("bare", DeviceConfig::default()), "bare").unwrap();
    assert!(matches!(dev.require_ssh(), Err(Error::MissingSshHost)));
    let cfg = make_config("h", DeviceConfig { ssh_host: Some("h".into()), ..Default::default() });
    let dev = resolve(&cfg, "h").unwrap();
    assert!(matches!(dev.require_ssh(), Err(Error::MissingDeployPath)));
}

#[test]
fn paths_without_tilde_are_kept_as_written() {
    let cfg = make_config(
        "edge",
        DeviceConfig {
            sysroot: Some("/srv/sysroot".into()),
            ssh_key: Some("/keys/id".into()),
            ..Default::default()
        },
    );
    let dev = resolve(&cfg, "edge").unwrap();
    assert_eq!(dev.sysroot.as_deref(), Some("/srv/sysroot"));
    assert_eq!(dev.ssh_key.as_deref(), Some("/keys/id"));
    assert_eq!(dev.build_target(), None);
}

#[test]
fn host_paths_expand_against_one_home_directory() {
    let mut env = StrMap::new();
    env.insert("AMENT_PREFIX_PATH".to_owned(), "~/ros2_libs".to_owned());
    env.insert("ROS_DISTRO".to_owned(), "humble".to_owned());
    let cfg = make_config(
        "radxa",
        DeviceConfig {
            sysroot: Some("~".into()),
            ssh_key: Some("~/.ssh/id_rsa".into()),
            ssh_program: Some("~user/bin/ssh".into()),
            sftp_program: Some("/usr/bin/sftp".into()),
            deploy_path: Some("~/app".into()),
            env: Some(env),
            ..Default::default()
        },
    );
    let dev = resolve_with_home(&cfg, "radxa", "/home/u").unwrap();
    assert_eq!(dev.sysroot.as_deref(), Some("/home/u"));
    assert_eq!(dev.ssh_key.as_deref(), Some("/home/u/.ssh/id_rsa"));
    assert_eq!(dev.ssh_program.as_deref(), Some("~user/bin/ssh"));
    assert_eq!(dev.sftp_program.as_deref(), Some("/usr/bin/sftp"));
    assert_eq!(dev.deploy_path.as_deref(), Some("~/app"));
    assert_eq!(dev.env.get("AMENT_PREFIX_PATH").unwrap(), "/home/u/ros2_libs");
    assert_eq!(dev.env.get("ROS_DISTRO").unwrap(), "humble");
}
