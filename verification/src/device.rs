//! Resolved device configuration — all fields expanded and validated for a given operation.

use vstd::prelude::*;
use crate::config::{Config, DeviceConfig, DeviceConfigView};
use crate::deploy::{spec_parse_transport, TransportChoice};
use crate::error::Error;
use crate::strmap::{entries_map, StrMap};
use crate::text::{clone_opt, clone_strings, owned, views};

verus! {

/// `p` with a leading `~` expanded to `home`: when `p` is `~` or starts with `~/`, `home`
/// followed by the rest of `p`; otherwise `p` itself.
pub open spec fn spec_expand_tilde(p: Seq<char>, home: Seq<char>) -> Seq<char> {
    if p == seq!['~'] || (p.len() >= 2 && p[0] == '~' && p[1] == '/') {
        home + p.skip(1)
    } else {
        p
    }
}

/// `r` is `p` tilde-expanded against `home`: [`spec_expand_tilde`], except that a
/// leading `~\` is expanded on Windows hosts only.
pub open spec fn tilde_outcome(p: Seq<char>, home: Seq<char>, r: Seq<char>) -> bool {
    ||| r == spec_expand_tilde(p, home)
    ||| (p.len() >= 2 && p[0] == '~' && p[1] == '\\' && r == home + p.skip(1))
}

/// The home directory of the local user, as `shellexpand` finds it, or `~` when there is
/// none (expanding against `~` then leaves every path as it is).
///
/// Trusted: calls `shellexpand::tilde("~")`, which gives the home directory that
/// `dirs::home_dir` reports (when it is valid Unicode), and `~` unchanged when there is
/// none. It depends on the machine, so nothing is stated of it.
#[verifier::external_body]
fn home_directory() -> String {
    shellexpand::tilde("~").into_owned()
}

/// `p` with a leading `~` expanded to `home`.
///
/// Trusted: calls `shellexpand::tilde_with_context` with `home` as the home directory.
/// It replaces a `~` at the start of `p`, when it stands alone or before `/` (or before
/// `\` on Windows), by the home directory, and leaves `p` unchanged otherwise, or when
/// no home directory is given.
#[verifier::external_body]
fn expand_tilde(p: &str, home: Option<&str>) -> (r: String)
    ensures
        match home {
            Some(h) => tilde_outcome(p@, h@, r@),
            None => r@ == p@,
        },
{
    shellexpand::tilde_with_context(p, move || home).into_owned()
}

/// The optional path, expanded against `home`.
fn expand_opt(p: &Option<String>, home: &str) -> (r: Option<String>)
    ensures
        r is Some == p is Some,
        r is Some ==> tilde_outcome(p->0@, home@, r->0@),
{
    match p {
        Some(x) => Some(expand_tilde(x.as_str(), Some(home))),
        None => None,
    }
}

/// A fully resolved device, ready to use for build, deploy, or run operations.
#[derive(Debug)]
pub struct Device {
    pub name: String,
    pub target: Option<String>,
    pub linker: Option<String>,
    /// Path to a Yocto/Buildroot SDK environment-setup script.
    pub sdk: Option<String>,
    /// Sysroot to link against, with `~` expanded.
    pub sysroot: Option<String>,
    /// Extra rustflags appended to the target's `CARGO_TARGET_<T>_RUSTFLAGS`.
    pub rustflags: Vec<String>,
    /// Build-time environment variables, with `~` expanded in values.
    pub env: StrMap<String>,
    /// When true, build via `cross` (Docker) instead of plain `cargo`.
    pub cross: bool,
    pub package: Option<String>,
    pub binary: Option<String>,
    pub ssh_host: Option<String>,
    /// Path to SSH private key, with `~` expanded.
    pub ssh_key: Option<String>,
    /// Deploy directory on the device. Deliberately NOT tilde-expanded (unlike the local
    /// `sysroot`/`ssh_key` paths): `~` here is the *device* user's home, expanded by the
    /// remote shell.
    pub deploy_path: Option<String>,
    pub sync_dirs: Vec<String>,
    /// File-transfer backend preference for deploy/sync.
    pub transport: TransportChoice,
    /// Override for the `ssh` executable, with `~` expanded (a host path).
    pub ssh_program: Option<String>,
    /// Override for the `sftp` executable, with `~` expanded (a host path).
    pub sftp_program: Option<String>,
    /// Scripts to `source` on the run host before exec'ing the binary (run-time only).
    /// Deliberately NOT tilde-expanded: these scripts live on the *run host's*
    /// filesystem, where `~` is that user's home.
    pub run_source: Vec<String>,
    pub no_default_features: bool,
    pub features: Vec<String>,
}

/// A table of variables, or the empty table when unset.
pub open spec fn map_or_empty(o: Option<Map<Seq<char>, Seq<char>>>) -> Map<Seq<char>, Seq<char>> {
    match o {
        Some(m) => m,
        None => Map::empty(),
    }
}

/// A list of strings, or the empty list when unset.
pub open spec fn list_or_empty(o: Option<Seq<Seq<char>>>) -> Seq<Seq<char>> {
    match o {
        Some(v) => v,
        None => seq![],
    }
}

/// `d` is `raw` resolved under the name `name`: host paths (`sysroot`, `ssh_key`,
/// `ssh_program`, `sftp_program`, `env` values) are tilde-expanded, device paths
/// (`deploy_path`, `run_source`) are kept as written, unset lists are empty, unset flags
/// are false and an unset `transport` is `auto`.
pub open spec fn resolved_as(d: Device, name: Seq<char>, raw: DeviceConfigView, home: Seq<char>) -> bool {
    let env = map_or_empty(raw.env);
    &&& d.name@ == name
    &&& d.target.deep_view() == raw.target
    &&& d.linker.deep_view() == raw.linker
    &&& d.sdk.deep_view() == raw.sdk
    &&& (d.sysroot is Some <==> raw.sysroot is Some)
    &&& (d.sysroot is Some ==> tilde_outcome(raw.sysroot->0, home, d.sysroot->0@))
    &&& views(d.rustflags@) == list_or_empty(raw.rustflags)
    &&& d.env@.dom() == env.dom()
    &&& (forall|k: Seq<char>| #[trigger] env.contains_key(k) ==> tilde_outcome(env[k], home, d.env@[k]))
    &&& d.cross == (raw.cross == Some(true))
    &&& d.package.deep_view() == raw.package
    &&& d.binary.deep_view() == raw.binary
    &&& d.ssh_host.deep_view() == raw.ssh_host
    &&& (d.ssh_key is Some <==> raw.ssh_key is Some)
    &&& (d.ssh_key is Some ==> tilde_outcome(raw.ssh_key->0, home, d.ssh_key->0@))
    &&& d.deploy_path.deep_view() == raw.deploy_path
    &&& views(d.sync_dirs@) == list_or_empty(raw.sync_dirs)
    &&& (match raw.transport {
        Some(t) => spec_parse_transport(t) == Some(d.transport),
        None => d.transport == TransportChoice::Auto,
    })
    &&& (d.ssh_program is Some <==> raw.ssh_program is Some)
    &&& (d.ssh_program is Some ==> tilde_outcome(raw.ssh_program->0, home, d.ssh_program->0@))
    &&& (d.sftp_program is Some <==> raw.sftp_program is Some)
    &&& (d.sftp_program is Some ==> tilde_outcome(raw.sftp_program->0, home, d.sftp_program->0@))
    &&& views(d.run_source@) == list_or_empty(raw.run_source)
    &&& d.no_default_features == (raw.no_default_features == Some(true))
    &&& views(d.features@) == list_or_empty(raw.features)
}

fn list_or_new(o: &Option<Vec<String>>) -> (r: Vec<String>)
    ensures
        views(r@) == list_or_empty(crate::text::opt_views(*o)),
{
    match o {
        Some(v) => clone_strings(v),
        None => {
            let r: Vec<String> = Vec::new();
            assert(views(r@) =~= Seq::<Seq<char>>::empty());
            r
        },
    }
}

/// The env table with every value tilde-expanded.
fn expand_env(env: &Option<StrMap<String>>, home: &str) -> (r: StrMap<String>)
    ensures
        r@.dom() == map_or_empty(crate::config::opt_map(*env)).dom(),
        forall|k: Seq<char>| #[trigger]
            map_or_empty(crate::config::opt_map(*env)).contains_key(k) ==> tilde_outcome(
                map_or_empty(crate::config::opt_map(*env))[k],
                home@,
                r@[k],
            ),
{
    let mut out: StrMap<String> = StrMap::new();
    match env {
        None => {
            assert(out@.dom() =~= Map::<Seq<char>, Seq<char>>::empty().dom());
            out
        },
        Some(m) => {
            let ghost es = m.entry_seq();
            proof {
                m.lemma_view();
                assert(es.take(0) =~= Seq::<(String, String)>::empty());
                assert(out@.dom() =~= entries_map(es.take(0)).dom());
            }
            let n = m.len();
            let ghost mut pm: Map<Seq<char>, Seq<char>> = Map::empty();
            for i in 0..n
                invariant
                    n == es.len(),
                    es == m.entry_seq(),
                    pm == entries_map(es.take(i as int)),
                    out@.dom() == pm.dom(),
                    forall|k: Seq<char>| #[trigger] pm.contains_key(k) ==> tilde_outcome(
                        pm[k],
                        home@,
                        out@[k],
                    ),
            {
                let k = m.key_at(i).clone();
                let val_ref = m.value_at(i);
                let v = expand_tilde(val_ref.as_str(), Some(home));
                assert(tilde_outcome(es[i as int].1@, home@, v@));
                assert(k@ == es[i as int].0@);
                let ghost before = out@;
                let ghost kv = k@;
                let ghost vv = v@;
                out.insert(k, v);
                proof {
                    let t1 = es.take(i + 1);
                    let m0 = pm;
                    assert(t1.drop_last() =~= es.take(i as int));
                    assert(t1.last() == es[i as int]);
                    pm = m0.insert(kv, es[i as int].1@);
                    assert(out@ == before.insert(kv, vv));
                    assert(out@.dom() =~= pm.dom());
                    assert forall|j: Seq<char>| #[trigger] pm.contains_key(j) implies tilde_outcome(
                        pm[j],
                        home@,
                        out@[j],
                    ) by {
                        if j != kv {
                            assert(m0.contains_key(j));
                        }
                    }
                }
            }
            proof {
                assert(es.take(n as int) =~= es);
                m.lemma_view();
            }
            assert(out@.dom() == m@.dom());
            out
        },
    }
}

spec fn d_part_a(d: Device, raw: DeviceConfigView, home: Seq<char>) -> bool {
    let env = map_or_empty(raw.env);
    &&& d.target.deep_view() == raw.target
    &&& d.linker.deep_view() == raw.linker
    &&& d.sdk.deep_view() == raw.sdk
    &&& (d.sysroot is Some <==> raw.sysroot is Some)
    &&& (d.sysroot is Some ==> tilde_outcome(raw.sysroot->0, home, d.sysroot->0@))
    &&& views(d.rustflags@) == list_or_empty(raw.rustflags)
    &&& d.env@.dom() == env.dom()
    &&& (forall|k: Seq<char>| #[trigger] env.contains_key(k) ==> tilde_outcome(env[k], home, d.env@[k]))
}

spec fn d_part_b(d: Device, raw: DeviceConfigView, home: Seq<char>) -> bool {
    &&& d.cross == (raw.cross == Some(true))
    &&& d.package.deep_view() == raw.package
    &&& d.binary.deep_view() == raw.binary
    &&& d.ssh_host.deep_view() == raw.ssh_host
    &&& (d.ssh_key is Some <==> raw.ssh_key is Some)
    &&& (d.ssh_key is Some ==> tilde_outcome(raw.ssh_key->0, home, d.ssh_key->0@))
    &&& d.deploy_path.deep_view() == raw.deploy_path
    &&& views(d.sync_dirs@) == list_or_empty(raw.sync_dirs)
    &&& (match raw.transport {
        Some(t) => spec_parse_transport(t) == Some(d.transport),
        None => d.transport == TransportChoice::Auto,
    })
}

spec fn d_part_c(d: Device, raw: DeviceConfigView, home: Seq<char>) -> bool {
    &&& (d.ssh_program is Some <==> raw.ssh_program is Some)
    &&& (d.ssh_program is Some ==> tilde_outcome(raw.ssh_program->0, home, d.ssh_program->0@))
    &&& (d.sftp_program is Some <==> raw.sftp_program is Some)
    &&& (d.sftp_program is Some ==> tilde_outcome(raw.sftp_program->0, home, d.sftp_program->0@))
    &&& views(d.run_source@) == list_or_empty(raw.run_source)
    &&& d.no_default_features == (raw.no_default_features == Some(true))
    &&& views(d.features@) == list_or_empty(raw.features)
}

/// Resolve a device by name from the loaded config, expanding paths and validating
/// required fields; the local user's home directory is read once, and every host path
/// is expanded against it.
pub fn resolve(cfg: &Config, name: &str) -> (r: Result<Device, Error>)
    ensures
        !cfg@.contains_key(name@) ==> (r matches Err(Error::DeviceNotFound { name: n }) && n@
            == name@),
        cfg@.contains_key(name@) ==> match cfg@[name@].transport {
            Some(t) if spec_parse_transport(t) is None => (r matches Err(
                Error::InvalidTransport { device: d, value: v },
            ) && d@ == name@ && v@ == t),
            _ => (r matches Ok(dev) && exists|home: Seq<char>| #[trigger] resolved_as(dev, name@, cfg@[name@], home)),
        },
{
    let home = home_directory();
    let r = resolve_with_home(cfg, name, home.as_str());
    proof {
        if r is Ok {
            assert(resolved_as(r->Ok_0, name@, cfg@[name@], home@));
        }
    }
    r
}

/// Resolve a device by name from the loaded config, expanding host paths against the
/// home directory `home`, and validating required fields.
pub fn resolve_with_home(cfg: &Config, name: &str, home: &str) -> (r: Result<Device, Error>)
    ensures
        !cfg@.contains_key(name@) ==> (r matches Err(Error::DeviceNotFound { name: n }) && n@
            == name@),
        cfg@.contains_key(name@) ==> match cfg@[name@].transport {
            Some(t) if spec_parse_transport(t) is None => (r matches Err(
                Error::InvalidTransport { device: d, value: v },
            ) && d@ == name@ && v@ == t),
            _ => (r matches Ok(dev) && resolved_as(dev, name@, cfg@[name@], home@)),
        },
{
    let raw: &DeviceConfig = match cfg.device.get(name) {
        Some(raw) => raw,
        None => {
            return Err(Error::DeviceNotFound { name: owned(name) });
        },
    };
    let transport = match &raw.transport {
        Some(t) => match TransportChoice::parse(t.as_str()) {
            Ok(c) => c,
            Err(_) => {
                return Err(Error::InvalidTransport { device: owned(name), value: t.clone() });
            },
        },
        None => TransportChoice::Auto,
    };
    let dev = Device {
        name: owned(name),
        target: clone_opt(&raw.target),
        linker: clone_opt(&raw.linker),
        sdk: clone_opt(&raw.sdk),
        sysroot: expand_opt(&raw.sysroot, home),
        rustflags: list_or_new(&raw.rustflags),
        env: expand_env(&raw.env, home),
        cross: match raw.cross {
            Some(b) => b,
            None => false,
        },
        package: clone_opt(&raw.package),
        binary: clone_opt(&raw.binary),
        ssh_host: clone_opt(&raw.ssh_host),
        ssh_key: expand_opt(&raw.ssh_key, home),
        // Not tilde-expanded: deploy_path and run_source are resolved on the run host.
        deploy_path: clone_opt(&raw.deploy_path),
        sync_dirs: list_or_new(&raw.sync_dirs),
        transport,
        ssh_program: expand_opt(&raw.ssh_program, home),
        sftp_program: expand_opt(&raw.sftp_program, home),
        run_source: list_or_new(&raw.run_source),
        no_default_features: match raw.no_default_features {
            Some(b) => b,
            None => false,
        },
        features: list_or_new(&raw.features),
    };
    proof {
        let rv = cfg@[name@];
        assert(raw@ == rv);
        assert(d_part_a(dev, rv, home@));
        assert(d_part_b(dev, rv, home@));
        assert(d_part_c(dev, rv, home@));
    }
    Ok(dev)
}

/// The `ssh` program of a device: its `ssh_program`, or `ssh` from `PATH`.
pub open spec fn spec_ssh_cmd(d: Device) -> Seq<char> {
    match d.ssh_program {
        Some(p) => p@,
        None => "ssh"@,
    }
}

/// The `sftp` program of a device: its `sftp_program`, or `sftp` from `PATH`.
pub open spec fn spec_sftp_cmd(d: Device) -> Seq<char> {
    match d.sftp_program {
        Some(p) => p@,
        None => "sftp"@,
    }
}

impl Device {
    /// Returns `true` if this is the special `desktop` device (no deployment).
    pub fn is_desktop(&self) -> (r: bool)
        ensures
            r == (self.name@ == "desktop"@),
    {
        crate::text::str_eq(self.name.as_str(), "desktop")
    }

    /// Validates that fields required for SSH operations are present: the SSH host and
    /// the deploy path, in that order.
    pub fn require_ssh(&self) -> (r: Result<(&str, &str), Error>)
        ensures
            self.ssh_host is None ==> r matches Err(Error::MissingSshHost),
            self.ssh_host is Some && self.deploy_path is None ==> r matches Err(
                Error::MissingDeployPath,
            ),
            self.ssh_host is Some && self.deploy_path is Some ==> (r matches Ok((h, p)) && h@
                == self.ssh_host->0@ && p@ == self.deploy_path->0@),
    {
        let host = match &self.ssh_host {
            Some(h) => h.as_str(),
            None => {
                return Err(Error::MissingSshHost);
            },
        };
        let path = match &self.deploy_path {
            Some(p) => p.as_str(),
            None => {
                return Err(Error::MissingDeployPath);
            },
        };
        Ok((host, path))
    }

    /// Returns the build target, if set.
    pub fn build_target(&self) -> (r: Option<&str>)
        ensures
            r is Some == self.target is Some,
            r is Some ==> r->0@ == self.target->0@,
    {
        match &self.target {
            Some(t) => Some(t.as_str()),
            None => None,
        }
    }

    /// The `ssh` executable to invoke — the `ssh_program` override, or `ssh` from `PATH`.
    pub fn ssh_cmd(&self) -> (r: &str)
        ensures
            r@ == spec_ssh_cmd(*self),
    {
        match &self.ssh_program {
            Some(p) => p.as_str(),
            None => "ssh",
        }
    }

    /// The `sftp` executable to invoke — the `sftp_program` override, or `sftp` from `PATH`.
    pub fn sftp_cmd(&self) -> (r: &str)
        ensures
            r@ == spec_sftp_cmd(*self),
    {
        match &self.sftp_program {
            Some(p) => p.as_str(),
            None => "sftp",
        }
    }
}

} // verus!
