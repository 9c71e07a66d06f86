use cargo_device::error::{Error, ExitStatusExt, RunOutcome};

#[test]
fn require_success_ok_on_success() {
    let r = RunOutcome::Finished { success: true, status: "exit status: 0".into() }.require_success("exit-0");
    assert!(r.is_ok());
}

#[test]
fn require_success_err_names_command_and_status() {
    let r = RunOutcome::Finished { success: false, status: "exit status: 1".into() }.require_success("mycommand");
    let err = r.unwrap_err();
    assert_eq!(err.message(), "`mycommand` exited with exit status: 1");
    assert!(err.cause().is_none());
}

#[test]
fn require_success_err_when_not_started() {
    let r = RunOutcome::NotStarted { reason: "No such file or directory".into() }
        .require_success("__no_such_binary__");
    let err = r.unwrap_err();
    assert_eq!(err.message(), "failed to run `__no_such_binary__`");
    assert_eq!(err.cause().as_deref(), Some("No such file or directory"));
}

#[test]
fn fixed_messages() {
    assert_eq!(
        Error::MissingSshHost.message(),
        "ssh_host is required for this operation — set it in .cargo/config.toml"
    );
    assert_eq!(
        Error::MissingDeployPath.message(),
        "deploy_path is required for this operation — set it in .cargo/config.toml"
    );
    assert_eq!(Error::SdkWithoutTarget.message(), "sdk build requires a target to be set in device config");
    assert_eq!(Error::CrossWithoutTarget.message(), "cross build requires a target to be set in device config");
    assert!(Error::CrossNotInstalled.message().contains("cargo install cross"));
    assert!(Error::BashNotFound.message().starts_with("run_source needs `bash`"));
}
