//! Build backend selection and the build command.
//!
//! The build is configured by orthogonal, composable fields rather than mutually
//! exclusive modes. Backend priority (evaluated in order):
//! 1. Desktop → plain `cargo build` (no target/deploy needed)
//! 2. `cross = true` → `cross build` (Docker), with `env` and rustflags passed through
//! 3. `sdk` defined → source SDK env script, then `cargo build` (composing linker/rustflags/env)
//! 4. `target` defined → `cargo build --target`, applying `linker`, `sysroot`, `rustflags`, `env`
//! 5. No target → plain `cargo build` (native fallback)
//!
//! Steps 3 and 4 set the target-scoped `CARGO_TARGET_<T>_RUSTFLAGS` (so `--sysroot` does not
//! leak into host build-script/proc-macro compilation) and `CARGO_TARGET_<T>_LINKER`, and apply
//! the `env` map to the build process and its build scripts.

use vstd::prelude::*;
use crate::command::{env_views, found_on_path, Invocation, InvocationView};
use crate::device::Device;
use crate::strmap::{entries_map, lemma_entries_map_witness};
use crate::error::Error;
use crate::text::{
    all_ascii, ascii_upper, chars_of, ends_with, join, join_strings, lemma_replace_keeps_ascii,
    owned, replace_char, replace_char_by, std_uppercase, strip_suffix, to_uppercase, views,
};

verus! {

/// The target triple as it appears in cargo's per-target variable names: `-` becomes `_`,
/// then upper case.
pub open spec fn target_key(target: Seq<char>) -> Seq<char> {
    std_uppercase(replace_char(target, '-', seq!['_']))
}

/// `CARGO_TARGET_<T>_LINKER` for the target `T`.
pub open spec fn spec_linker_env_var(target: Seq<char>) -> Seq<char> {
    "CARGO_TARGET_"@ + target_key(target) + "_LINKER"@
}

/// `CARGO_TARGET_<T>_RUSTFLAGS` for the target `T`.
pub open spec fn spec_rustflags_env_var(target: Seq<char>) -> Seq<char> {
    "CARGO_TARGET_"@ + target_key(target) + "_RUSTFLAGS"@
}

/// The key of an ASCII target: `-` becomes `_` and `a`..=`z` become `A`..=`Z`.
pub open spec fn ascii_target_key(target: Seq<char>) -> Seq<char> {
    replace_char(target, '-', seq!['_']).map_values(|c: char| ascii_upper(c))
}

fn target_key_exec(target: &str) -> (r: String)
    ensures
        r@ == target_key(target@),
        all_ascii(target@) ==> r@ == ascii_target_key(target@),
{
    let replaced = replace_char_by(target, '-', '_');
    proof {
        if all_ascii(target@) {
            lemma_replace_keeps_ascii(target@, '-', '_');
        }
    }
    to_uppercase(replaced.as_str())
}

/// The name of the variable that sets the linker for `target`.
pub fn linker_env_var(target: &str) -> (r: String)
    ensures
        r@ == spec_linker_env_var(target@),
        all_ascii(target@) ==> r@ == "CARGO_TARGET_"@ + ascii_target_key(target@) + "_LINKER"@,
{
    let mut out = owned("CARGO_TARGET_");
    let key = target_key_exec(target);
    out.append(key.as_str());
    out.append("_LINKER");
    out
}

/// The name of the variable that sets the rustflags for `target`.
pub fn rustflags_env_var(target: &str) -> (r: String)
    ensures
        r@ == spec_rustflags_env_var(target@),
        all_ascii(target@) ==> r@ == "CARGO_TARGET_"@ + ascii_target_key(target@) + "_RUSTFLAGS"@,
{
    let mut out = owned("CARGO_TARGET_");
    let key = target_key_exec(target);
    out.append(key.as_str());
    out.append("_RUSTFLAGS");
    out
}

/// The flags for `CARGO_TARGET_<T>_RUSTFLAGS`: `-C link-arg=--sysroot=<sysroot>` when a
/// sysroot is given, then the extra rustflags.
pub open spec fn rustflag_list(sysroot: Option<Seq<char>>, rustflags: Seq<Seq<char>>) -> Seq<Seq<char>> {
    match sysroot {
        Some(s) => seq!["-C"@, "link-arg=--sysroot="@ + s] + rustflags,
        None => rustflags,
    }
}

/// The value of `CARGO_TARGET_<T>_RUSTFLAGS`, or `None` when there is no flag.
pub open spec fn spec_target_rustflags(sysroot: Option<Seq<char>>, rustflags: Seq<Seq<char>>) -> Option<Seq<char>> {
    let flags = rustflag_list(sysroot, rustflags);
    if flags.len() == 0 {
        None
    } else {
        Some(join(flags, " "@))
    }
}

/// Build the space-separated value for `CARGO_TARGET_<T>_RUSTFLAGS` from an optional sysroot
/// and extra rustflags. Returns `None` when neither is set. The sysroot is prepended as a
/// `--sysroot` link arg. Cargo splits this env var on spaces, so individual flags must be
/// space-free (true for the link args we emit and for typical device paths).
pub fn target_rustflags(sysroot: Option<&str>, rustflags: &[String]) -> (r: Option<String>)
    ensures
        r.deep_view() == spec_target_rustflags(
            match sysroot {
                Some(s) => Some(s@),
                None => None,
            },
            views(rustflags@),
        ),
{
    let mut flags: Vec<String> = Vec::new();
    if let Some(s) = sysroot {
        flags.push(owned("-C"));
        let mut a = owned("link-arg=--sysroot=");
        a.append(s);
        flags.push(a);
    }
    let ghost head = views(flags@);
    let ghost so = match sysroot {
        Some(s) => Some(s@),
        None => None::<Seq<char>>,
    };
    assert(rustflag_list(so, views(rustflags@)) == head + views(rustflags@));
    for i in 0..rustflags.len()
        invariant
            views(flags@) == head + views(rustflags@).take(i as int),
    {
        let ghost before = flags@;
        flags.push(rustflags[i].clone());
        assert(views(flags@) =~= head + views(rustflags@).take(i + 1)) by {
            assert(views(flags@) =~= views(before).push(views(rustflags@)[i as int]));
        }
    }
    assert(views(rustflags@).take(rustflags@.len() as int) =~= views(rustflags@));
    if flags.len() == 0 {
        None
    } else {
        Some(join_strings(&flags, " "))
    }
}

/// The channel part of a Windows-hosted toolchain name: the name without one of the
/// Windows host triples at its end, tried in a fixed order.
pub open spec fn spec_strip_windows_host_triple(name: Seq<char>) -> Option<Seq<char>> {
    if strip_suffix(name, "-x86_64-pc-windows-msvc"@) is Some {
        strip_suffix(name, "-x86_64-pc-windows-msvc"@)
    } else if strip_suffix(name, "-aarch64-pc-windows-msvc"@) is Some {
        strip_suffix(name, "-aarch64-pc-windows-msvc"@)
    } else if strip_suffix(name, "-i686-pc-windows-msvc"@) is Some {
        strip_suffix(name, "-i686-pc-windows-msvc"@)
    } else if strip_suffix(name, "-x86_64-pc-windows-gnu"@) is Some {
        strip_suffix(name, "-x86_64-pc-windows-gnu"@)
    } else {
        strip_suffix(name, "-i686-pc-windows-gnu"@)
    }
}

/// `name` without the suffix `suffix`, borrowed from `name`.
fn strip_suffix_slice<'a>(name: &'a str, suffix: &str) -> (r: Option<&'a str>)
    ensures
        r is Some == strip_suffix(name@, suffix@) is Some,
        r is Some ==> r->0@ == strip_suffix(name@, suffix@)->0,
{
    if ends_with(name, suffix) {
        let n = chars_of(name).len();
        let k = chars_of(suffix).len();
        Some(name.substring_char(0, n - k))
    } else {
        None
    }
}

/// Strip a Windows host triple suffix from a toolchain name. `None` when the name does not
/// end in one.
pub fn strip_windows_host_triple(name: &str) -> (r: Option<&str>)
    ensures
        r is Some == spec_strip_windows_host_triple(name@) is Some,
        r is Some ==> r->0@ == spec_strip_windows_host_triple(name@)->0,
{
    if let Some(c) = strip_suffix_slice(name, "-x86_64-pc-windows-msvc") {
        return Some(c);
    }
    if let Some(c) = strip_suffix_slice(name, "-aarch64-pc-windows-msvc") {
        return Some(c);
    }
    if let Some(c) = strip_suffix_slice(name, "-i686-pc-windows-msvc") {
        return Some(c);
    }
    if let Some(c) = strip_suffix_slice(name, "-x86_64-pc-windows-gnu") {
        return Some(c);
    }
    strip_suffix_slice(name, "-i686-pc-windows-gnu")
}

/// Which build backend a device uses.
#[derive(Debug, Clone, Copy, PartialEq, Eq, Structural)]
pub enum Backend {
    /// Plain `cargo build` for the host.
    Native,
    /// `cross build --target <T>` in Docker.
    Cross,
    /// The SDK environment script sourced, then `cargo build --target <T>`.
    Sdk,
    /// `cargo build --target <T>` with the local toolchain.
    Cargo,
}

/// A planned build: the backend and the command to run.
#[derive(Debug)]
pub struct BuildPlan {
    pub backend: Backend,
    pub invocation: Invocation,
}

/// The backend for a device, by priority: desktop, `cross`, `sdk`, no target, target.
pub open spec fn spec_backend(d: Device) -> Backend {
    if d.name@ == "desktop"@ {
        Backend::Native
    } else if d.cross {
        Backend::Cross
    } else if d.sdk is Some {
        Backend::Sdk
    } else if d.target is None {
        Backend::Native
    } else {
        Backend::Cargo
    }
}

/// The build environment for `target`: the linker variable when a linker is set, the
/// target rustflags variable when there are flags (the sysroot counted only when
/// `with_sysroot`), then the device's `env` table in order.
pub open spec fn spec_build_env(d: Device, target: Seq<char>, with_sysroot: bool) -> Seq<(Seq<char>, Seq<char>)> {
    let l = match d.linker {
        Some(l) => seq![(spec_linker_env_var(target), l@)],
        None => seq![],
    };
    let sysroot = if with_sysroot {
        d.sysroot.deep_view()
    } else {
        None
    };
    let rf = match spec_target_rustflags(sysroot, views(d.rustflags@)) {
        Some(f) => seq![(spec_rustflags_env_var(target), f)],
        None => seq![],
    };
    l + rf + env_views(d.env.entry_seq())
}

/// The shell line that sources the SDK script and then builds.
pub open spec fn sdk_script_line() -> Seq<char> {
    ". \"$SDK_SCRIPT\" && exec cargo build --target \"$TARGET\" \"$@\""@
}

/// The planned command for each backend.
pub open spec fn native_view(extra: Seq<Seq<char>>) -> InvocationView {
    InvocationView {
        program: "cargo"@,
        args: seq!["build"@] + extra,
        env: seq![],
        stdin: None,
        label: "cargo build"@,
    }
}

pub open spec fn sdk_view(d: Device, target: Seq<char>, extra: Seq<Seq<char>>) -> InvocationView {
    InvocationView {
        program: "sh"@,
        args: seq!["-c"@, sdk_script_line(), "cargo-device-sdk-build"@] + extra,
        env: seq![("SDK_SCRIPT"@, d.sdk->0@), ("TARGET"@, target)] + spec_build_env(d, target, true),
        stdin: None,
        label: "sh -c (sdk build)"@,
    }
}

pub open spec fn cargo_view(d: Device, target: Seq<char>, extra: Seq<Seq<char>>) -> InvocationView {
    InvocationView {
        program: "cargo"@,
        args: seq!["build"@, "--target"@, target] + extra,
        env: spec_build_env(d, target, true),
        stdin: None,
        label: "cargo build"@,
    }
}

pub open spec fn cross_view(d: Device, target: Seq<char>, extra: Seq<Seq<char>>) -> InvocationView {
    InvocationView {
        program: "cross"@,
        args: seq!["build"@, "--target"@, target] + extra,
        env: spec_build_env(d, target, false),
        stdin: None,
        label: "cross build"@,
    }
}

/// The planned build of `d` with the extra cargo arguments `extra`, given whether the
/// tool that the backend needs (`cross`, or the configured linker) was found.
pub open spec fn build_outcome(d: Device, extra: Seq<Seq<char>>, tool_found: bool, r: Result<BuildPlan, Error>) -> bool {
    match spec_backend(d) {
        Backend::Native => r matches Ok(p) && p.backend == Backend::Native && p.invocation@ == native_view(extra),
        Backend::Cross => if d.target is None {
            r matches Err(Error::CrossWithoutTarget)
        } else if !tool_found {
            r matches Err(Error::CrossNotInstalled)
        } else {
            r matches Ok(p) && p.backend == Backend::Cross && p.invocation@ == cross_view(d, d.target->0@, extra)
        },
        Backend::Sdk => if d.target is None {
            r matches Err(Error::SdkWithoutTarget)
        } else {
            r matches Ok(p) && p.backend == Backend::Sdk && p.invocation@ == sdk_view(d, d.target->0@, extra)
        },
        Backend::Cargo => if d.linker is Some && !tool_found {
            r matches Err(Error::LinkerNotFound { linker: l }) && l@ == d.linker->0@
        } else {
            r matches Ok(p) && p.backend == Backend::Cargo && p.invocation@ == cargo_view(d, d.target->0@, extra)
        },
    }
}

/// The argument list `head` followed by `extra`.
pub(crate) fn args_then(head: Vec<String>, extra: &[String]) -> (r: Vec<String>)
    ensures
        views(r@) == views(head@) + views(extra@),
{
    let mut out = head;
    let ghost h = views(out@);
    for i in 0..extra.len()
        invariant
            views(out@) == h + views(extra@).take(i as int),
    {
        let ghost before = out@;
        out.push(extra[i].clone());
        assert(views(out@) =~= h + views(extra@).take(i + 1)) by {
            assert(views(out@) =~= views(before).push(views(extra@)[i as int]));
        }
    }
    assert(views(extra@).take(extra@.len() as int) =~= views(extra@));
    out
}

/// The list of string literals' owned copies.
pub(crate) fn strings1(a: &str) -> (r: Vec<String>)
    ensures
        views(r@) == seq![a@],
{
    let mut v: Vec<String> = Vec::new();
    v.push(owned(a));
    assert(views(v@) =~= seq![a@]);
    v
}

/// Owned copies of three strings, in order.
pub(crate) fn strings3(a: &str, b: &str, c: &str) -> (r: Vec<String>)
    ensures
        views(r@) == seq![a@, b@, c@],
{
    let mut v: Vec<String> = Vec::new();
    let x = owned(a);
    let y = owned(b);
    let z = owned(c);
    v.push(x);
    v.push(y);
    v.push(z);
    assert(v@ == seq![x, y, z]);
    assert(views(v@) =~= seq![a@, b@, c@]);
    v
}

/// The build environment (see [`spec_build_env`]).
fn build_env(device: &Device, target: &str, with_sysroot: bool) -> (r: Vec<(String, String)>)
    ensures
        env_views(r@) == spec_build_env(*device, target@, with_sysroot),
{
    let mut env: Vec<(String, String)> = Vec::new();
    if let Some(linker) = &device.linker {
        env.push((linker_env_var(target), linker.clone()));
    }
    let sysroot: Option<&str> = if with_sysroot {
        match &device.sysroot {
            Some(s) => Some(s.as_str()),
            None => None,
        }
    } else {
        None
    };
    let flags = target_rustflags(sysroot, device.rustflags.as_slice());
    if let Some(f) = flags {
        env.push((rustflags_env_var(target), f));
    }
    let ghost head = env_views(env@);
    let ghost es = device.env.entry_seq();
    assert(head =~= match device.linker {
        Some(l) => seq![(spec_linker_env_var(target@), l@)],
        None => seq![],
    } + match spec_target_rustflags(
        if with_sysroot {
            device.sysroot.deep_view()
        } else {
            None
        },
        views(device.rustflags@),
    ) {
        Some(f) => seq![(spec_rustflags_env_var(target@), f)],
        None => seq![],
    });
    let n = device.env.len();
    for i in 0..n
        invariant
            n == es.len(),
            es == device.env.entry_seq(),
            env_views(env@) == head + env_views(es.take(i as int)),
    {
        let ghost before = env@;
        let k = device.env.key_at(i).clone();
        let v = device.env.value_at(i).clone();
        env.push((k, v));
        assert(env_views(env@) =~= head + env_views(es.take(i + 1))) by {
            assert(env_views(env@) =~= env_views(before).push((es[i as int].0@, es[i as int].1@)));
            assert(env_views(es.take(i + 1)) =~= env_views(es.take(i as int)).push(
                (es[i as int].0@, es[i as int].1@),
            ));
        }
    }
    assert(es.take(n as int) =~= es);
    env
}

/// The build command for `device`, given whether the tool that its backend needs was
/// found (`cross` for a `cross` build, the linker for a local cross-compile; ignored
/// otherwise).
pub fn plan_with(device: &Device, extra_args: &[String], tool_found: bool) -> (r: Result<BuildPlan, Error>)
    ensures
        build_outcome(*device, views(extra_args@), tool_found, r),
{
    if device.is_desktop() {
        return Ok(BuildPlan { backend: Backend::Native, invocation: native(extra_args) });
    }
    // `cross`/`sdk` are checked before the no-target fallback so a misconfigured device
    // (e.g. cross set but target missing) gets an error rather than a silent native build.
    if device.cross {
        let target = match device.build_target() {
            Some(t) => t,
            None => {
                return Err(Error::CrossWithoutTarget);
            },
        };
        if !tool_found {
            return Err(Error::CrossNotInstalled);
        }
        let head = strings3("build", "--target", target);
        let inv = Invocation {
            program: owned("cross"),
            args: args_then(head, extra_args),
            env: build_env(device, target, false),
            stdin: None,
            label: owned("cross build"),
        };
        return Ok(BuildPlan { backend: Backend::Cross, invocation: inv });
    }
    if let Some(sdk) = &device.sdk {
        let target = match device.build_target() {
            Some(t) => t,
            None => {
                return Err(Error::SdkWithoutTarget);
            },
        };
        let head = strings3(
            "-c",
            ". \"$SDK_SCRIPT\" && exec cargo build --target \"$TARGET\" \"$@\"",
            "cargo-device-sdk-build",
        );
        let mut env: Vec<(String, String)> = Vec::new();
        env.push((owned("SDK_SCRIPT"), sdk.clone()));
        env.push((owned("TARGET"), owned(target)));
        let rest = build_env(device, target, true);
        let ghost e0 = env_views(env@);
        assert(e0 =~= seq![("SDK_SCRIPT"@, sdk@), ("TARGET"@, target@)]);
        let env = pairs_then(env, rest);
        let inv = Invocation {
            program: owned("sh"),
            args: args_then(head, extra_args),
            env,
            stdin: None,
            label: owned("sh -c (sdk build)"),
        };
        return Ok(BuildPlan { backend: Backend::Sdk, invocation: inv });
    }
    let target = match device.build_target() {
        Some(t) => t,
        None => {
            return Ok(BuildPlan { backend: Backend::Native, invocation: native(extra_args) });
        },
    };
    if let Some(linker) = &device.linker {
        if !tool_found {
            return Err(Error::LinkerNotFound { linker: linker.clone() });
        }
    }
    let head = strings3("build", "--target", target);
    let inv = Invocation {
        program: owned("cargo"),
        args: args_then(head, extra_args),
        env: build_env(device, target, true),
        stdin: None,
        label: owned("cargo build"),
    };
    Ok(BuildPlan { backend: Backend::Cargo, invocation: inv })
}

/// `a` followed by `b`.
fn pairs_then(a: Vec<(String, String)>, b: Vec<(String, String)>) -> (r: Vec<(String, String)>)
    ensures
        env_views(r@) == env_views(a@) + env_views(b@),
{
    let mut out = a;
    let ghost h = env_views(out@);
    for i in 0..b.len()
        invariant
            env_views(out@) == h + env_views(b@).take(i as int),
    {
        let ghost before = out@;
        let k = b[i].0.clone();
        let v = b[i].1.clone();
        out.push((k, v));
        assert(env_views(out@) =~= h + env_views(b@).take(i + 1)) by {
            assert(env_views(out@) =~= env_views(before).push(env_views(b@)[i as int]));
        }
    }
    assert(env_views(b@).take(b@.len() as int) =~= env_views(b@));
    out
}

/// `cargo build` with the extra arguments.
fn native(extra_args: &[String]) -> (r: Invocation)
    ensures
        r@ == native_view(views(extra_args@)),
{
    let inv = Invocation {
        program: owned("cargo"),
        args: args_then(strings1("build"), extra_args),
        env: Vec::new(),
        stdin: None,
        label: owned("cargo build"),
    };
    assert(env_views(inv.env@) =~= Seq::<(Seq<char>, Seq<char>)>::empty());
    inv
}

/// Plan the build for the given device: the backend and its command. A `cross` build
/// needs `cross`, and a local cross-compile with a configured linker needs that linker,
/// to be found; whether they are is the machine's answer, so the result is the plan for
/// one of the two answers.
pub fn run(device: &Device, extra_args: &[String]) -> (r: Result<BuildPlan, Error>)
    ensures
        build_outcome(*device, views(extra_args@), true, r) || build_outcome(
            *device,
            views(extra_args@),
            false,
            r,
        ),
{
    let found = if device.is_desktop() {
        true
    } else if device.cross {
        found_on_path("cross")
    } else if device.sdk.is_some() {
        true
    } else {
        match &device.linker {
            Some(l) => found_on_path(l.as_str()),
            None => true,
        }
    };
    plan_with(device, extra_args, found)
}

/// Every build for a target (`cargo --target`, the SDK script, or `cross`) runs with the
/// device's build configuration: each variable of the device's `env` table with its
/// value, `CARGO_TARGET_<T>_LINKER` set to the linker when one is configured, and
/// `CARGO_TARGET_<T>_RUSTFLAGS` when there are extra rustflags (or, outside `cross`, a
/// sysroot).
pub proof fn lemma_target_builds_apply_device_config(
    d: Device,
    extra: Seq<Seq<char>>,
    tool_found: bool,
    r: Result<BuildPlan, Error>,
)
    requires
        build_outcome(d, extra, tool_found, r),
        r is Ok,
        r->Ok_0.backend != Backend::Native,
    ensures
        d.target is Some,
        forall|k: Seq<char>|
            #[trigger] d.env@.contains_key(k) ==> r->Ok_0.invocation@.env.contains((k, d.env@[k])),
        d.linker is Some ==> r->Ok_0.invocation@.env.contains(
            (spec_linker_env_var(d.target->0@), d.linker->0@),
        ),
        d.rustflags@.len() > 0 || (d.sysroot is Some && r->Ok_0.backend != Backend::Cross) ==> exists|i: int|
            0 <= i < r->Ok_0.invocation@.env.len() && (#[trigger] r->Ok_0.invocation@.env[i]).0
                == spec_rustflags_env_var(d.target->0@),
{
    let p = r->Ok_0;
    let t = d.target->0@;
    let ws = p.backend != Backend::Cross;
    let be = spec_build_env(d, t, ws);
    let env = p.invocation@.env;
    let pre = if p.backend == Backend::Sdk {
        seq![("SDK_SCRIPT"@, d.sdk->0@), ("TARGET"@, t)]
    } else {
        Seq::<(Seq<char>, Seq<char>)>::empty()
    };
    assert(env =~= pre + be);
    let l = match d.linker {
        Some(x) => seq![(spec_linker_env_var(t), x@)],
        None => seq![],
    };
    let sysroot = if ws {
        d.sysroot.deep_view()
    } else {
        None
    };
    let rf = match spec_target_rustflags(sysroot, views(d.rustflags@)) {
        Some(f) => seq![(spec_rustflags_env_var(t), f)],
        None => seq![],
    };
    let es = d.env.entry_seq();
    assert(be == l + rf + env_views(es));
    d.env.lemma_view();
    assert forall|k: Seq<char>| #[trigger] d.env@.contains_key(k) implies env.contains((k, d.env@[k])) by {
        lemma_entries_map_witness(es, k);
        let i = choose|i: int| 0 <= i < es.len() && (#[trigger] es[i]).0@ == k && es[i].1@ == entries_map(es)[k];
        let idx: int = pre.len() + l.len() + rf.len() + i;
        assert(env[idx] == env_views(es)[i]);
    }
    if d.linker is Some {
        assert(env[pre.len() as int] == (spec_linker_env_var(t), d.linker->0@));
    }
    if d.rustflags@.len() > 0 || (d.sysroot is Some && ws) {
        assert(rustflag_list(sysroot, views(d.rustflags@)).len() > 0);
        let idx: int = (pre.len() + l.len()) as int;
        assert(env[idx].0 == spec_rustflags_env_var(t));
    }
}

} // verus!
