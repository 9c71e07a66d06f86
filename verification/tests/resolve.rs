use cargo_device::config::{Config, DeviceConfig};
use cargo_device::device::{resolve, Device};
use cargo_device::resolve::{
    has_cargo_package_flag, is_release_build, resolve_binary_name, split_cargo_and_remote,
    with_feature_flags, with_package_flag,
};
use cargo_device::strmap::StrMap;

fn device_from(dev: DeviceConfig) -> Device {
    let mut device = StrMap::new();
    device.insert("edge".to_owned(), dev);
    resolve(&Config { device }, "edge").unwrap()
}

fn device_with_package(pkg: &str, bin: Option<&str>) -> Device {
    device_from(DeviceConfig {
        package: Some(pkg.to_owned()),
        binary: bin.map(str::to_owned),
        ..Default::default()
    })
}

#[test]
fn split_at_first_double_dash() {
    let args = vec![
        "-p".into(),
        "myapp".into(),
        "--release".into(),
        "--".into(),
        "status".into(),
        "-v".into(),
    ];
    let (cargo, remote) = split_cargo_and_remote(&args);
    assert_eq!(cargo, vec!["-p", "myapp", "--release"]);
    assert_eq!(remote, vec!["status", "-v"]);
}

#[test]
fn split_without_separator() {
    let args = vec!["--release".into()];
    let (cargo, remote) = split_cargo_and_remote(&args);
    assert_eq!(cargo, vec!["--release"]);
    assert!(remote.is_empty());
}

#[test]
fn package_flag_detected_with_equals_form() {
    assert!(has_cargo_package_flag(&["--package=myapp".into()]));
    assert!(has_cargo_package_flag(&["-p".into(), "myapp".into()]));
    assert!(has_cargo_package_flag(&["--package".into(), "myapp".into()]));
    assert!(!has_cargo_package_flag(&["--release".into()]));
}

#[test]
fn inject_package_skipped_for_equals_form() {
    let dev = device_with_package("device-pkg", None);
    let out = with_package_flag(&dev, vec!["--package=myapp".into()]);
    assert_eq!(out, vec!["--package=myapp"], "must not inject duplicate -p");
}

#[test]
fn inject_package_when_missing() {
    let dev = device_with_package("myapp", None);
    let out = with_package_flag(&dev, vec!["--release".into()]);
    assert_eq!(out, vec!["-p", "myapp", "--release"]);
}

#[test]
fn inject_package_skipped_when_present() {
    let dev = device_with_package("myapp", None);
    let out = with_package_flag(&dev, vec!["-p".into(), "other".into()]);
    assert_eq!(out, vec!["-p", "other"]);
}

#[test]
fn resolve_binary_prefers_binary_over_package() {
    let dev = device_with_package("myapp", Some("myapp-bin"));
    assert_eq!(resolve_binary_name(&dev).unwrap(), "myapp-bin");
}

#[test]
fn resolve_binary_falls_back_to_package() {
    let dev = device_with_package("myapp", None);
    assert_eq!(resolve_binary_name(&dev).unwrap(), "myapp");
}

// ── further cases ────────────────────────────────────────────────────────

#[test]
fn split_keeps_later_double_dashes_for_the_binary() {
    let args: Vec<String> = vec!["a".into(), "--".into(), "b".into(), "--".into(), "c".into()];
    let (cargo, remote) = split_cargo_and_remote(&args);
    assert_eq!(cargo, vec!["a"]);
    assert_eq!(remote, vec!["b", "--", "c"]);
}

#[test]
fn package_injection_is_idempotent() {
    let dev = device_with_package("myapp", None);
    let once = with_package_flag(&dev, vec!["--release".into()]);
    let twice = with_package_flag(&dev, once.clone());
    assert_eq!(once, twice);
}

#[test]
fn no_package_leaves_arguments_alone() {
    let dev = device_from(DeviceConfig::default());
    assert_eq!(with_package_flag(&dev, vec!["--release".into()]), vec!["--release"]);
    assert!(resolve_binary_name(&dev).is_none());
}

#[test]
fn release_flag_is_detected() {
    assert!(is_release_build(&["-p".into(), "x".into(), "--release".into()]));
    assert!(!is_release_build(&["--release=yes".into()]));
}

#[test]
fn feature_flags_from_device_config() {
    let dev = device_from(DeviceConfig {
        no_default_features: Some(true),
        features: Some(vec!["a".into(), "b".into()]),
        ..Default::default()
    });
    let out = with_feature_flags(&dev, vec!["--release".into()]);
    assert_eq!(out, vec!["--no-default-features", "--features", "a,b", "--release"]);
}

#[test]
fn feature_flags_given_on_the_command_line_win() {
    let dev = device_from(DeviceConfig {
        no_default_features: Some(true),
        features: Some(vec!["a".into()]),
        ..Default::default()
    });
    let args: Vec<String> = vec!["--no-default-features".into(), "--features=x".into()];
    assert_eq!(with_feature_flags(&dev, args.clone()), args);
}
