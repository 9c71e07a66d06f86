use cargo_device::build::{
    linker_env_var, plan_with, rustflags_env_var, strip_windows_host_triple, target_rustflags, Backend,
};
use cargo_device::config::{Config, DeviceConfig};
use cargo_device::device::{resolve, Device};
use cargo_device::error::Error;
use cargo_device::strmap::StrMap;

fn device_from(name: &str, dev: DeviceConfig) -> Device {
    let mut device = StrMap::new();
    device.insert(name.to_owned(), dev);
    resolve(&Config { device }, name).unwrap()
}

#[test]
fn linker_env_var_aarch64() {
    assert_eq!(
        linker_env_var("aarch64-unknown-linux-gnu"),
        "CARGO_TARGET_AARCH64_UNKNOWN_LINUX_GNU_LINKER"
    );
}

#[test]
fn linker_env_var_arm_gnueabihf() {
    assert_eq!(
        linker_env_var("arm-unknown-linux-gnueabihf"),
        "CARGO_TARGET_ARM_UNKNOWN_LINUX_GNUEABIHF_LINKER"
    );
}

#[test]
fn linker_env_var_x86_64() {
    assert_eq!(
        linker_env_var("x86_64-unknown-linux-gnu"),
        "CARGO_TARGET_X86_64_UNKNOWN_LINUX_GNU_LINKER"
    );
}

#[test]
fn rustflags_env_var_aarch64() {
    assert_eq!(
        rustflags_env_var("aarch64-unknown-linux-gnu"),
        "CARGO_TARGET_AARCH64_UNKNOWN_LINUX_GNU_RUSTFLAGS"
    );
}

#[test]
fn strip_windows_host_triple_recovers_the_channel() {
    assert_eq!(strip_windows_host_triple("stable-x86_64-pc-windows-msvc"), Some("stable"));
    assert_eq!(strip_windows_host_triple("1.88.0-x86_64-pc-windows-gnu"), Some("1.88.0"));
}

#[test]
fn strip_windows_host_triple_none_for_other_hosts() {
    assert_eq!(strip_windows_host_triple("stable-x86_64-unknown-linux-gnu"), None);
}

#[test]
fn target_rustflags_none_when_empty() {
    assert_eq!(target_rustflags(None, &[]), None);
}

#[test]
fn target_rustflags_sysroot_only() {
    let flags = target_rustflags(Some("/srv/sysroot"), &[]).unwrap();
    assert_eq!(flags, "-C link-arg=--sysroot=/srv/sysroot");
}

#[test]
fn target_rustflags_extra_only() {
    let extra = vec!["-C".to_owned(), "link-arg=-Wl,--allow-shlib-undefined".to_owned()];
    let flags = target_rustflags(None, &extra).unwrap();
    assert_eq!(flags, "-C link-arg=-Wl,--allow-shlib-undefined");
}

#[test]
fn target_rustflags_sysroot_prepended_to_extra() {
    let extra = vec!["-C".to_owned(), "link-arg=-Wl,--allow-shlib-undefined".to_owned()];
    let flags = target_rustflags(Some("/srv/sysroot"), &extra).unwrap();
    assert_eq!(flags, "-C link-arg=--sysroot=/srv/sysroot -C link-arg=-Wl,--allow-shlib-undefined");
}

// ── further cases ────────────────────────────────────────────────────────

#[test]
fn strip_windows_host_triple_covers_every_windows_host() {
    assert_eq!(strip_windows_host_triple("stable-aarch64-pc-windows-msvc"), Some("stable"));
    assert_eq!(strip_windows_host_triple("nightly-i686-pc-windows-msvc"), Some("nightly"));
    assert_eq!(strip_windows_host_triple("beta-i686-pc-windows-gnu"), Some("beta"));
    assert_eq!(strip_windows_host_triple("x86_64-pc-windows-msvc"), None);
}

#[test]
fn env_var_names_uppercase_the_target() {
    // A wrapper that returned its argument unchanged would keep the lower case.
    assert_eq!(linker_env_var("riscv64gc-unknown-linux-gnu"), "CARGO_TARGET_RISCV64GC_UNKNOWN_LINUX_GNU_LINKER");
}

#[test]
fn desktop_builds_natively() {
    let dev = device_from("desktop", DeviceConfig { target: Some("x".into()), ..Default::default() });
    let plan = plan_with(&dev, &["--release".into()], false).unwrap();
    assert_eq!(plan.backend, Backend::Native);
    assert_eq!(plan.invocation.program, "cargo");
    assert_eq!(plan.invocation.args, ["build", "--release"]);
}

#[test]
fn cross_build_needs_a_target_and_cross() {
    let dev = device_from("edge", DeviceConfig { cross: Some(true), ..Default::default() });
    assert!(matches!(plan_with(&dev, &[], true), Err(Error::CrossWithoutTarget)));
    let dev = device_from(
        "edge",
        DeviceConfig {
            cross: Some(true),
            target: Some("aarch64-unknown-linux-gnu".into()),
            sysroot: Some("/srv/sysroot".into()),
            rustflags: Some(vec!["-C".into(), "x".into()]),
            ..Default::default()
        },
    );
    assert!(matches!(plan_with(&dev, &[], false), Err(Error::CrossNotInstalled)));
    let plan = plan_with(&dev, &[], true).unwrap();
    assert_eq!(plan.backend, Backend::Cross);
    assert_eq!(plan.invocation.program, "cross");
    assert_eq!(plan.invocation.args, ["build", "--target", "aarch64-unknown-linux-gnu"]);
    // The container has its own sysroot: only the extra rustflags are passed.
    assert_eq!(
        plan.invocation.env,
        [("CARGO_TARGET_AARCH64_UNKNOWN_LINUX_GNU_RUSTFLAGS".to_owned(), "-C x".to_owned())]
    );
}

#[test]
fn sdk_build_sources_the_script() {
    let dev = device_from(
        "edge",
        DeviceConfig {
            sdk: Some("/opt/sdk/env".into()),
            target: Some("aarch64-unknown-linux-gnu".into()),
            ..Default::default()
        },
    );
    let plan = plan_with(&dev, &["--release".into()], true).unwrap();
    assert_eq!(plan.backend, Backend::Sdk);
    assert_eq!(plan.invocation.program, "sh");
    assert_eq!(
        plan.invocation.args,
        [
            "-c",
            ". \"$SDK_SCRIPT\" && exec cargo build --target \"$TARGET\" \"$@\"",
            "cargo-device-sdk-build",
            "--release"
        ]
    );
    assert_eq!(
        plan.invocation.env,
        [
            ("SDK_SCRIPT".to_owned(), "/opt/sdk/env".to_owned()),
            ("TARGET".to_owned(), "aarch64-unknown-linux-gnu".to_owned())
        ]
    );
    let dev = device_from("edge", DeviceConfig { sdk: Some("/opt/sdk/env".into()), ..Default::default() });
    assert!(matches!(plan_with(&dev, &[], true), Err(Error::SdkWithoutTarget)));
}

#[test]
fn cargo_build_applies_linker_sysroot_and_env() {
    let mut env = StrMap::new();
    env.insert("ROS_DISTRO".to_owned(), "humble".to_owned());
    let dev = device_from(
        "edge",
        DeviceConfig {
            target: Some("aarch64-unknown-linux-gnu".into()),
            linker: Some("aarch64-linux-gnu-gcc".into()),
            sysroot: Some("/srv/sysroot".into()),
            env: Some(env),
            ..Default::default()
        },
    );
    let err = plan_with(&dev, &[], false).unwrap_err();
    assert_eq!(
        err.message(),
        "linker 'aarch64-linux-gnu-gcc' not found in PATH — install the cross-compilation toolchain"
    );
    let plan = plan_with(&dev, &[], true).unwrap();
    assert_eq!(plan.backend, Backend::Cargo);
    assert_eq!(plan.invocation.args, ["build", "--target", "aarch64-unknown-linux-gnu"]);
    assert_eq!(
        plan.invocation.env,
        [
            (
                "CARGO_TARGET_AARCH64_UNKNOWN_LINUX_GNU_LINKER".to_owned(),
                "aarch64-linux-gnu-gcc".to_owned()
            ),
            (
                "CARGO_TARGET_AARCH64_UNKNOWN_LINUX_GNU_RUSTFLAGS".to_owned(),
                "-C link-arg=--sysroot=/srv/sysroot".to_owned()
            ),
            ("ROS_DISTRO".to_owned(), "humble".to_owned()),
        ]
    );
}

#[test]
fn no_target_falls_back_to_native() {
    let dev = device_from("edge", DeviceConfig::default());
    let plan = plan_with(&dev, &[], false).unwrap();
    assert_eq!(plan.backend, Backend::Native);
}
