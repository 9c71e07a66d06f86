use cargo_device::config::{load, merge_configs, warn_if_ssh_in_base_without_local, Config, DeviceConfig};
use cargo_device::strmap::StrMap;

fn env_of(pairs: &[(&str, &str)]) -> StrMap<String> {
    let mut m = StrMap::new();
    for (k, v) in pairs {
        m.insert((*k).to_owned(), (*v).to_owned());
    }
    m
}

fn config_with(name: &str, dev: DeviceConfig) -> Config {
    let mut device = StrMap::new();
    device.insert(name.to_owned(), dev);
    Config { device }
}

#[test]
fn merge_other_wins_when_set() {
    let base = DeviceConfig {
        ssh_host: Some("base-host".into()),
        target: Some("base-target".into()),
        ..Default::default()
    };
    let other = DeviceConfig {
        ssh_host: Some("other-host".into()),
        ..Default::default()
    };
    let merged = base.merge(other);
    assert_eq!(merged.ssh_host.as_deref(), Some("other-host"));
    assert_eq!(merged.target.as_deref(), Some("base-target"));
}

#[test]
fn merge_base_wins_when_other_is_none() {
    let base = DeviceConfig {
        ssh_host: Some("base-host".into()),
        ..Default::default()
    };
    let merged = base.merge(DeviceConfig::default());
    assert_eq!(merged.ssh_host.as_deref(), Some("base-host"));
}

#[test]
fn merge_both_none_stays_none() {
    let merged = DeviceConfig::default().merge(DeviceConfig::default());
    assert!(merged.ssh_host.is_none());
    assert!(merged.target.is_none());
}

#[test]
fn merge_package_and_binary() {
    let base = DeviceConfig {
        package: Some("base-pkg".into()),
        binary: Some("base-bin".into()),
        ..Default::default()
    };
    let other = DeviceConfig {
        binary: Some("other-bin".into()),
        ..Default::default()
    };
    let merged = base.merge(other);
    assert_eq!(merged.package.as_deref(), Some("base-pkg"));
    assert_eq!(merged.binary.as_deref(), Some("other-bin"));
}

#[test]
fn merge_cross_toolchain_fields() {
    let base = DeviceConfig {
        sysroot: Some("/base/sysroot".into()),
        rustflags: Some(vec!["-C".into(), "base-flag".into()]),
        cross: Some(true),
        ..Default::default()
    };
    let other = DeviceConfig {
        sysroot: Some("/local/sysroot".into()),
        ..Default::default()
    };
    let merged = base.merge(other);
    assert_eq!(merged.sysroot.as_deref(), Some("/local/sysroot"));
    assert_eq!(
        merged.rustflags.as_deref(),
        Some(["-C".to_owned(), "base-flag".to_owned()].as_slice())
    );
    assert_eq!(merged.cross, Some(true));
}

#[test]
fn merge_env_combines_per_key() {
    let base = DeviceConfig {
        env: Some(env_of(&[("ROS_DISTRO", "humble"), ("AMENT_PREFIX_PATH", "/base")])),
        ..Default::default()
    };
    let other = DeviceConfig {
        env: Some(env_of(&[("AMENT_PREFIX_PATH", "/local")])),
        ..Default::default()
    };
    let merged = base.merge(other).env.unwrap();
    assert_eq!(
        merged.get("AMENT_PREFIX_PATH").map(String::as_str),
        Some("/local"),
        "local overrides on key collision"
    );
    assert_eq!(
        merged.get("ROS_DISTRO").map(String::as_str),
        Some("humble"),
        "base-only keys are preserved"
    );
}

#[test]
fn merge_env_keeps_base_when_local_absent() {
    let base = DeviceConfig {
        env: Some(env_of(&[("ROS_DISTRO", "humble")])),
        ..Default::default()
    };
    let merged = base.merge(DeviceConfig::default()).env.unwrap();
    assert_eq!(merged.get("ROS_DISTRO").map(String::as_str), Some("humble"));
}

#[test]
fn merge_configs_local_overrides_base() {
    let base = config_with(
        "raspi",
        DeviceConfig {
            ssh_host: Some("base-host".into()),
            target: Some("aarch64-unknown-linux-gnu".into()),
            ..Default::default()
        },
    );
    let local = config_with(
        "raspi",
        DeviceConfig {
            ssh_host: Some("local-host".into()),
            ..Default::default()
        },
    );
    let merged = merge_configs(base, local);
    let dev = merged.device.get("raspi").unwrap();
    assert_eq!(dev.ssh_host.as_deref(), Some("local-host"));
    assert_eq!(dev.target.as_deref(), Some("aarch64-unknown-linux-gnu"));
}

#[test]
fn merge_configs_local_only_device_is_added() {
    let local = config_with(
        "extra",
        DeviceConfig {
            ssh_host: Some("extra-host".into()),
            ..Default::default()
        },
    );
    let merged = merge_configs(Config::default(), local);
    assert!(merged.device.contains_key("extra"));
}

#[test]
fn merge_features_array_is_replaced_not_merged() {
    let base = DeviceConfig {
        features: Some(vec!["base-feat".into(), "shared".into()]),
        ..Default::default()
    };
    let other = DeviceConfig {
        features: Some(vec!["other-feat".into()]),
        ..Default::default()
    };
    let merged = base.merge(other);
    assert_eq!(
        merged.features.as_deref(),
        Some(["other-feat".to_owned()].as_slice()),
        "override features replace base entirely (not appended)"
    );
}

#[test]
fn merge_no_default_features_override() {
    let base = DeviceConfig {
        no_default_features: Some(true),
        ..Default::default()
    };
    let other = DeviceConfig {
        no_default_features: Some(false),
        ..Default::default()
    };
    assert_eq!(base.merge(other).no_default_features, Some(false));
}

#[test]
fn merge_run_source_replaced_by_local() {
    let base = DeviceConfig {
        run_source: Some(vec!["~/base/setup.bash".into()]),
        ..Default::default()
    };
    let local = DeviceConfig {
        run_source: Some(vec!["~/local/setup.bash".into(), "~/local/ws.bash".into()]),
        ..Default::default()
    };
    let merged = base.merge(local);
    assert_eq!(
        merged.run_source.as_deref(),
        Some(["~/local/setup.bash".to_owned(), "~/local/ws.bash".to_owned()].as_slice()),
    );
}

#[test]
fn merge_run_source_base_kept_when_local_absent() {
    let base = DeviceConfig {
        run_source: Some(vec!["~/base/setup.bash".into()]),
        ..Default::default()
    };
    let merged = base.merge(DeviceConfig::default());
    assert_eq!(
        merged.run_source.as_deref(),
        Some(["~/base/setup.bash".to_owned()].as_slice()),
    );
}

// ── further cases ────────────────────────────────────────────────────────

#[test]
fn merge_transport_and_programs_follow_the_override() {
    let base = DeviceConfig {
        transport: Some("rsync".into()),
        ssh_program: Some("/usr/bin/ssh".into()),
        ..Default::default()
    };
    let other = DeviceConfig {
        transport: Some("sftp".into()),
        sftp_program: Some("/usr/bin/sftp".into()),
        ..Default::default()
    };
    let merged = base.merge(other);
    assert_eq!(merged.transport.as_deref(), Some("sftp"));
    assert_eq!(merged.ssh_program.as_deref(), Some("/usr/bin/ssh"));
    assert_eq!(merged.sftp_program.as_deref(), Some("/usr/bin/sftp"));
}

#[test]
fn merge_with_empty_table_changes_nothing() {
    // Laying an empty table over a table, or a table over an empty one, is the identity.
    let dev = DeviceConfig {
        target: Some("aarch64-unknown-linux-gnu".into()),
        env: Some(env_of(&[("A", "1")])),
        sync_dirs: Some(vec!["models/".into()]),
        ..Default::default()
    };
    let right = dev.clone().merge(DeviceConfig::default());
    let left = DeviceConfig::default().merge(dev.clone());
    for m in [right, left] {
        assert_eq!(m.target.as_deref(), Some("aarch64-unknown-linux-gnu"));
        assert_eq!(m.env.as_ref().unwrap().get("A").map(String::as_str), Some("1"));
        assert_eq!(m.sync_dirs.as_deref(), Some(["models/".to_owned()].as_slice()));
    }
}

#[test]
fn merge_is_associative_on_concrete_tables() {
    let a = DeviceConfig { target: Some("a".into()), env: Some(env_of(&[("K", "a"), ("A", "1")])), ..Default::default() };
    let b = DeviceConfig { linker: Some("b".into()), env: Some(env_of(&[("K", "b")])), ..Default::default() };
    let c = DeviceConfig { target: Some("c".into()), env: Some(env_of(&[("C", "3")])), ..Default::default() };
    let left = a.clone().merge(b.clone()).merge(c.clone());
    let right = a.merge(b.merge(c));
    for m in [left, right] {
        assert_eq!(m.target.as_deref(), Some("c"));
        assert_eq!(m.linker.as_deref(), Some("b"));
        let env = m.env.unwrap();
        assert_eq!(env.get("K").map(String::as_str), Some("b"));
        assert_eq!(env.get("A").map(String::as_str), Some("1"));
        assert_eq!(env.get("C").map(String::as_str), Some("3"));
        assert_eq!(env.len(), 3);
    }
}

#[test]
fn load_without_local_keeps_base_and_warns_about_ssh_host() {
    let base = config_with(
        "raspi",
        DeviceConfig { ssh_host: Some("pi@host".into()), ..Default::default() },
    );
    let (cfg, warn) = load(Some(base), None);
    assert!(warn, "ssh_host in the base file without a local file is warned about");
    assert_eq!(cfg.device.get("raspi").unwrap().ssh_host.as_deref(), Some("pi@host"));
}

#[test]
fn load_with_local_does_not_warn() {
    let base = config_with(
        "raspi",
        DeviceConfig { ssh_host: Some("pi@host".into()), ..Default::default() },
    );
    let local = config_with(
        "raspi",
        DeviceConfig { ssh_host: Some("pi@other".into()), ..Default::default() },
    );
    let (cfg, warn) = load(Some(base), Some(local));
    assert!(!warn);
    assert_eq!(cfg.device.get("raspi").unwrap().ssh_host.as_deref(), Some("pi@other"));
}

#[test]
fn load_with_no_files_is_empty() {
    let (cfg, warn) = load(None, None);
    assert!(!warn);
    assert!(cfg.device.is_empty());
}

#[test]
fn no_warning_when_no_device_sets_ssh_host() {
    let base = config_with(
        "raspi",
        DeviceConfig { target: Some("aarch64-unknown-linux-gnu".into()), ..Default::default() },
    );
    assert!(!warn_if_ssh_in_base_without_local(&base, false));
}
