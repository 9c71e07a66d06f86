use cargo_device::toolchain::{
    active_channel, cross_toolchain, first_word, legacy_channel, toolchain_listed, toolchain_warning,
};

#[test]
fn first_word_skips_leading_whitespace() {
    assert_eq!(first_word("  stable-x86_64-pc-windows-msvc (default)\n").as_deref(), Some("stable-x86_64-pc-windows-msvc"));
    assert_eq!(first_word(" \t\n"), None);
    assert_eq!(first_word(""), None);
}

#[test]
fn active_channel_strips_the_windows_host() {
    assert_eq!(active_channel("stable-x86_64-pc-windows-msvc (default)\n").as_deref(), Some("stable"));
    assert_eq!(active_channel("1.88.0-x86_64-unknown-linux-gnu (overridden)"), None);
    assert_eq!(active_channel(""), None);
}

#[test]
fn toolchain_listed_matches_the_first_word_of_a_line() {
    let list = "stable-x86_64-pc-windows-msvc (default)\r\nstable-x86_64-unknown-linux-gnu\r\n";
    assert!(toolchain_listed(list, "stable-x86_64-unknown-linux-gnu"));
    assert!(!toolchain_listed(list, "1.88.0-x86_64-unknown-linux-gnu"));
    assert!(!toolchain_listed("x stable-x86_64-unknown-linux-gnu", "stable-x86_64-unknown-linux-gnu"));
    assert!(!toolchain_listed("", "stable"));
}

#[test]
fn legacy_channel_is_the_trimmed_single_line() {
    assert_eq!(legacy_channel("  1.88.0\n").as_deref(), Some("1.88.0"));
    assert_eq!(legacy_channel("\n\t"), None);
    assert_eq!(legacy_channel("[toolchain]\nchannel = \"x\"\n"), None);
}

#[test]
fn cross_toolchain_and_warning_name_the_linux_toolchain() {
    let wanted = cross_toolchain("1.88.0");
    assert_eq!(wanted, "1.88.0-x86_64-unknown-linux-gnu");
    assert_eq!(
        toolchain_warning(&wanted),
        "`cross` needs the 1.88.0-x86_64-unknown-linux-gnu toolchain, which is not installed. \
         rustup will refuse to add it from inside the container (\"may not be able to run on \
         this system\"). Install it first:\n  rustup toolchain install \
         1.88.0-x86_64-unknown-linux-gnu --profile minimal --force-non-host"
    );
}
