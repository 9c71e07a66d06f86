//! Device configuration as written in `.cargo/config.toml` and
//! `.cargo/device.local.toml`, and how the two files merge.
//!
//! Reading and parsing the files is the caller's part; this module takes the parsed
//! tables.

use vstd::prelude::*;
use crate::strmap::{entries_map, entry_keys, lemma_entries_map_dom, StrMap};
use crate::text::{clone_opt, clone_opt_strings, opt_views};

verus! {

/// The left option when it is set, else the right one.
pub open spec fn or<T>(a: Option<T>, b: Option<T>) -> Option<T> {
    if a is Some {
        a
    } else {
        b
    }
}

/// The model of an optional string map.
pub open spec fn opt_map(o: Option<StrMap<String>>) -> Option<Map<Seq<char>, Seq<char>>> {
    match o {
        Some(m) => Some(m@),
        None => None,
    }
}

/// How two optional `env` tables merge: per key, `other` winning on a shared key; a
/// table that is absent on one side leaves the other as it is.
pub open spec fn merge_env_view(
    base: Option<Map<Seq<char>, Seq<char>>>,
    other: Option<Map<Seq<char>, Seq<char>>>,
) -> Option<Map<Seq<char>, Seq<char>>> {
    match (base, other) {
        (Some(b), Some(o)) => Some(b.union_prefer_right(o)),
        _ => or(other, base),
    }
}

/// The model of one `[device.<name>]` table: every field optional.
pub struct DeviceConfigView {
    pub target: Option<Seq<char>>,
    pub linker: Option<Seq<char>>,
    pub sdk: Option<Seq<char>>,
    pub sysroot: Option<Seq<char>>,
    pub rustflags: Option<Seq<Seq<char>>>,
    pub env: Option<Map<Seq<char>, Seq<char>>>,
    pub cross: Option<bool>,
    pub package: Option<Seq<char>>,
    pub binary: Option<Seq<char>>,
    pub ssh_host: Option<Seq<char>>,
    pub ssh_key: Option<Seq<char>>,
    pub deploy_path: Option<Seq<char>>,
    pub sync_dirs: Option<Seq<Seq<char>>>,
    pub transport: Option<Seq<char>>,
    pub ssh_program: Option<Seq<char>>,
    pub sftp_program: Option<Seq<char>>,
    pub run_source: Option<Seq<Seq<char>>>,
    pub no_default_features: Option<bool>,
    pub features: Option<Seq<Seq<char>>>,
}

impl DeviceConfigView {
    /// The table with no field set.
    pub open spec fn empty() -> DeviceConfigView {
        DeviceConfigView {
            target: None,
            linker: None,
            sdk: None,
            sysroot: None,
            rustflags: None,
            env: None,
            cross: None,
            package: None,
            binary: None,
            ssh_host: None,
            ssh_key: None,
            deploy_path: None,
            sync_dirs: None,
            transport: None,
            ssh_program: None,
            sftp_program: None,
            run_source: None,
            no_default_features: None,
            features: None,
        }
    }

    /// `other` laid over `self`: each field of `other` that is set replaces the field of
    /// `self` wholesale, except `env`, which merges per key.
    pub open spec fn merge(self, other: DeviceConfigView) -> DeviceConfigView {
        DeviceConfigView {
            target: or(other.target, self.target),
            linker: or(other.linker, self.linker),
            sdk: or(other.sdk, self.sdk),
            sysroot: or(other.sysroot, self.sysroot),
            rustflags: or(other.rustflags, self.rustflags),
            env: merge_env_view(self.env, other.env),
            cross: or(other.cross, self.cross),
            package: or(other.package, self.package),
            binary: or(other.binary, self.binary),
            ssh_host: or(other.ssh_host, self.ssh_host),
            ssh_key: or(other.ssh_key, self.ssh_key),
            deploy_path: or(other.deploy_path, self.deploy_path),
            sync_dirs: or(other.sync_dirs, self.sync_dirs),
            transport: or(other.transport, self.transport),
            ssh_program: or(other.ssh_program, self.ssh_program),
            sftp_program: or(other.sftp_program, self.sftp_program),
            run_source: or(other.run_source, self.run_source),
            no_default_features: or(other.no_default_features, self.no_default_features),
            features: or(other.features, self.features),
        }
    }
}

/// Per-device configuration as written in the TOML files.
/// All fields are optional to support partial overrides in `device.local.toml`.
#[derive(Debug)]
pub struct DeviceConfig {
    pub target: Option<String>,
    pub linker: Option<String>,
    pub sdk: Option<String>,
    /// Sysroot to link against (with `~` expanded). Added as `--sysroot=<abs>` to the
    /// target's rustflags so link-time glibc/system libs come from this tree rather than
    /// the host toolchain's bundled sysroot. Key to matching an older target glibc.
    pub sysroot: Option<String>,
    /// Extra rustflags appended to `CARGO_TARGET_<T>_RUSTFLAGS` (target-scoped, so they do
    /// not leak into host build-script/proc-macro compilation). Each entry is one argument,
    /// e.g. `["-C", "link-arg=-Wl,--allow-shlib-undefined"]`.
    pub rustflags: Option<Vec<String>>,
    /// Build-time environment variables (values have `~` expanded). Applied to the build
    /// command and visible to build scripts — e.g. `AMENT_PREFIX_PATH`, `ROS_DISTRO`.
    pub env: Option<StrMap<String>>,
    /// Opt in to building via `cross` (Docker). When unset/false, a configured `target`
    /// builds with plain `cargo` using `linker`/`sysroot`/`rustflags`/`env`.
    pub cross: Option<bool>,
    /// Workspace member crate for `cargo -p` (also default binary name when `binary` is unset).
    pub package: Option<String>,
    /// Deployed binary file name (defaults to `package` when unset).
    pub binary: Option<String>,
    pub ssh_host: Option<String>,
    pub ssh_key: Option<String>,
    pub deploy_path: Option<String>,
    pub sync_dirs: Option<Vec<String>>,
    /// File transport for deploy/sync: `"auto"` (default), `"rsync"` or `"sftp"`.
    pub transport: Option<String>,
    /// The `ssh` executable to use in place of `ssh` from `PATH` (a host path).
    pub ssh_program: Option<String>,
    /// The `sftp` executable to use in place of `sftp` from `PATH` (a host path).
    pub sftp_program: Option<String>,
    /// Scripts to `source` on the run host immediately before exec'ing the binary
    /// (run-time only — orthogonal to the build-time `env`/`sdk` fields). Paths are
    /// interpreted on the *run host* (the device for SSH runs, the local machine for the
    /// `desktop` device), so `~` is left for that shell to expand and is NOT expanded
    /// locally at resolve time. Listed in source order, e.g. underlay before overlay.
    pub run_source: Option<Vec<String>>,
    /// When true, prepend `--no-default-features` unless the flag is already present.
    pub no_default_features: Option<bool>,
    /// Default `--features` list when the CLI omits `--features`.
    pub features: Option<Vec<String>>,
}

impl View for DeviceConfig {
    type V = DeviceConfigView;

    open spec fn view(&self) -> DeviceConfigView {
        DeviceConfigView {
            target: self.target.deep_view(),
            linker: self.linker.deep_view(),
            sdk: self.sdk.deep_view(),
            sysroot: self.sysroot.deep_view(),
            rustflags: opt_views(self.rustflags),
            env: opt_map(self.env),
            cross: self.cross,
            package: self.package.deep_view(),
            binary: self.binary.deep_view(),
            ssh_host: self.ssh_host.deep_view(),
            ssh_key: self.ssh_key.deep_view(),
            deploy_path: self.deploy_path.deep_view(),
            sync_dirs: opt_views(self.sync_dirs),
            transport: self.transport.deep_view(),
            ssh_program: self.ssh_program.deep_view(),
            sftp_program: self.sftp_program.deep_view(),
            run_source: opt_views(self.run_source),
            no_default_features: self.no_default_features,
            features: opt_views(self.features),
        }
    }
}

impl Default for DeviceConfig {
    fn default() -> (r: DeviceConfig)
        ensures
            r@ == DeviceConfigView::empty(),
    {
        DeviceConfig {
            target: None,
            linker: None,
            sdk: None,
            sysroot: None,
            rustflags: None,
            env: None,
            cross: None,
            package: None,
            binary: None,
            ssh_host: None,
            ssh_key: None,
            deploy_path: None,
            sync_dirs: None,
            transport: None,
            ssh_program: None,
            sftp_program: None,
            run_source: None,
            no_default_features: None,
            features: None,
        }
    }
}

fn clone_opt_map(m: &Option<StrMap<String>>) -> (r: Option<StrMap<String>>)
    ensures
        opt_map(r) == opt_map(*m),
{
    match m {
        Some(x) => Some(x.clone()),
        None => None,
    }
}

impl Clone for DeviceConfig {
    fn clone(&self) -> (r: DeviceConfig)
        ensures
            r@ == self@,
    {
        DeviceConfig {
            target: clone_opt(&self.target),
            linker: clone_opt(&self.linker),
            sdk: clone_opt(&self.sdk),
            sysroot: clone_opt(&self.sysroot),
            rustflags: clone_opt_strings(&self.rustflags),
            env: clone_opt_map(&self.env),
            cross: self.cross,
            package: clone_opt(&self.package),
            binary: clone_opt(&self.binary),
            ssh_host: clone_opt(&self.ssh_host),
            ssh_key: clone_opt(&self.ssh_key),
            deploy_path: clone_opt(&self.deploy_path),
            sync_dirs: clone_opt_strings(&self.sync_dirs),
            transport: clone_opt(&self.transport),
            ssh_program: clone_opt(&self.ssh_program),
            sftp_program: clone_opt(&self.sftp_program),
            run_source: clone_opt_strings(&self.run_source),
            no_default_features: self.no_default_features,
            features: clone_opt_strings(&self.features),
        }
    }
}

/// The left option when it is set, else the right one.
fn prefer<T>(a: Option<T>, b: Option<T>) -> (r: Option<T>)
    ensures
        r == or(a, b),
{
    match a {
        Some(x) => Some(x),
        None => b,
    }
}

/// Merge two optional env tables per key, with `other` winning on key collisions.
pub fn merge_env(base: Option<StrMap<String>>, other: Option<StrMap<String>>) -> (r: Option<
    StrMap<String>,
>)
    ensures
        opt_map(r) == merge_env_view(opt_map(base), opt_map(other)),
{
    match (base, other) {
        (Some(mut b), Some(o)) => {
            let ghost b0 = b@;
            let ghost es = o.entry_seq();
            proof {
                o.lemma_view();
                assert(es.take(0) =~= Seq::<(String, String)>::empty());
                assert(b0.union_prefer_right(entries_map(es.take(0))) =~= b0);
            }
            let n = o.len();
            for i in 0..n
                invariant
                    n == es.len(),
                    es == o.entry_seq(),
                    b@ == b0.union_prefer_right(entries_map(es.take(i as int))),
            {
                let k = o.key_at(i).clone();
                let v = o.value_at(i).clone();
                let ghost before = b@;
                b.insert(k, v);
                proof {
                    assert(es.take(i + 1).drop_last() =~= es.take(i as int));
                    assert(es.take(i + 1).last() == es[i as int]);
                    assert(b@ =~= b0.union_prefer_right(entries_map(es.take(i + 1))));
                }
            }
            proof {
                assert(es.take(n as int) =~= es);
                o.lemma_view();
            }
            Some(b)
        },
        (base, other) => prefer(other, base),
    }
}

/// The left string when it is set, else the right one.
fn prefer_str(a: Option<String>, b: Option<String>) -> (r: Option<String>)
    ensures
        r.deep_view() == or(a.deep_view(), b.deep_view()),
{
    match a {
        Some(x) => Some(x),
        None => b,
    }
}

/// The left list when it is set, else the right one.
fn prefer_strs(a: Option<Vec<String>>, b: Option<Vec<String>>) -> (r: Option<Vec<String>>)
    ensures
        opt_views(r) == or(opt_views(a), opt_views(b)),
{
    match a {
        Some(x) => Some(x),
        None => b,
    }
}

impl DeviceConfig {
    /// Merge `other` on top of `self`, with `other` taking precedence for any defined field.
    pub fn merge(self, other: DeviceConfig) -> (r: DeviceConfig)
        ensures
            r@ == self@.merge(other@),
    {
        let ghost (sv, ov) = (self@, other@);
        let r = DeviceConfig {
            target: prefer_str(other.target, self.target),
            linker: prefer_str(other.linker, self.linker),
            sdk: prefer_str(other.sdk, self.sdk),
            sysroot: prefer_str(other.sysroot, self.sysroot),
            rustflags: prefer_strs(other.rustflags, self.rustflags),
            // `env` merges per key (unlike other fields, which replace wholesale): the base
            // table sets portable vars (e.g. ROS_DISTRO) and the local override adds
            // machine-specific ones (e.g. AMENT_PREFIX_PATH) without dropping the base.
            env: merge_env(self.env, other.env),
            cross: prefer(other.cross, self.cross),
            package: prefer_str(other.package, self.package),
            binary: prefer_str(other.binary, self.binary),
            ssh_host: prefer_str(other.ssh_host, self.ssh_host),
            ssh_key: prefer_str(other.ssh_key, self.ssh_key),
            deploy_path: prefer_str(other.deploy_path, self.deploy_path),
            sync_dirs: prefer_strs(other.sync_dirs, self.sync_dirs),
            transport: prefer_str(other.transport, self.transport),
            ssh_program: prefer_str(other.ssh_program, self.ssh_program),
            sftp_program: prefer_str(other.sftp_program, self.sftp_program),
            run_source: prefer_strs(other.run_source, self.run_source),
            no_default_features: prefer(other.no_default_features, self.no_default_features),
            features: prefer_strs(other.features, self.features),
        };
        assert(r@ == sv.merge(ov));
        r
    }
}

/// Top-level config file structure, matching `[device.*]` tables.
#[derive(Debug)]
pub struct Config {
    pub device: StrMap<DeviceConfig>,
}

impl View for Config {
    type V = Map<Seq<char>, DeviceConfigView>;

    open spec fn view(&self) -> Map<Seq<char>, DeviceConfigView> {
        self.device@
    }
}

impl Default for Config {
    fn default() -> (r: Config)
        ensures
            r@ == Map::<Seq<char>, DeviceConfigView>::empty(),
            r.device.entry_seq().len() == 0,
    {
        Config { device: StrMap::new() }
    }
}

/// The table for `k` in `m`, or the empty table.
pub open spec fn table_or_empty(m: Map<Seq<char>, DeviceConfigView>, k: Seq<char>) -> DeviceConfigView {
    if m.contains_key(k) {
        m[k]
    } else {
        DeviceConfigView::empty()
    }
}

/// `m` with the table `v` laid over its table for `k` (or over an empty one).
pub open spec fn merge_into(
    m: Map<Seq<char>, DeviceConfigView>,
    k: Seq<char>,
    v: DeviceConfigView,
) -> Map<Seq<char>, DeviceConfigView> {
    m.insert(k, table_or_empty(m, k).merge(v))
}

/// `m` with each of the entries laid over it in turn.
pub open spec fn merge_entries(m: Map<Seq<char>, DeviceConfigView>, es: Seq<(String, DeviceConfig)>) -> Map<
    Seq<char>,
    DeviceConfigView,
>
    decreases es.len(),
{
    if es.len() == 0 {
        m
    } else {
        merge_into(merge_entries(m, es.drop_last()), es.last().0@, es.last().1@)
    }
}

/// The merged device tables: every device of either file; a device of `local` is its
/// `base` table (or an empty one) with the `local` table laid over it; a device only in
/// `base` is kept as it is.
pub open spec fn merge_device_maps(
    base: Map<Seq<char>, DeviceConfigView>,
    local: Map<Seq<char>, DeviceConfigView>,
) -> Map<Seq<char>, DeviceConfigView> {
    Map::new(
        |k: Seq<char>| base.contains_key(k) || local.contains_key(k),
        |k: Seq<char>|
            if local.contains_key(k) {
                table_or_empty(base, k).merge(local[k])
            } else {
                base[k]
            },
    )
}

proof fn lemma_merge_entries_pointwise(
    base: Map<Seq<char>, DeviceConfigView>,
    es: Seq<(String, DeviceConfig)>,
)
    requires
        entry_keys(es).no_duplicates(),
    ensures
        merge_entries(base, es) == merge_device_maps(base, entries_map(es)),
    decreases es.len(),
{
    if es.len() == 0 {
        assert(merge_device_maps(base, entries_map(es)) =~= base);
    } else {
        let init = es.drop_last();
        let k = es.last().0@;
        assert(entry_keys(init) =~= entry_keys(es).drop_last());
        lemma_merge_entries_pointwise(base, init);
        lemma_entries_map_dom(init, k);
        if entry_keys(init).contains(k) {
            let j = choose|j: int| 0 <= j < entry_keys(init).len() && entry_keys(init)[j] == k;
            assert(entry_keys(es)[j] == entry_keys(es)[es.len() - 1]);
        }
        let m = merge_device_maps(base, entries_map(init));
        assert(table_or_empty(m, k) == table_or_empty(base, k));
        assert(merge_into(m, k, es.last().1@) =~= merge_device_maps(base, entries_map(es)));
    }
}

/// Lay `dev` over the table for `name` in `merged` (or over an empty table).
fn merge_one(merged: &mut StrMap<DeviceConfig>, name: String, dev: DeviceConfig)
    ensures
        final(merged)@ == merge_into(old(merged)@, name@, dev@),
{
    let ghost m = merged@;
    let prev = merged.insert(name.clone(), DeviceConfig::default());
    let base_dev = match prev {
        Some(d) => d,
        None => DeviceConfig::default(),
    };
    assert(base_dev@ == table_or_empty(m, name@));
    let merged_dev = base_dev.merge(dev);
    let ghost m1 = merged@;
    merged.insert(name, merged_dev);
    assert(merged@ =~= m.insert(name@, merged_dev@));
}

/// Merge `local` over `base`, device by device (see [`DeviceConfig::merge`]).
pub fn merge_configs(base: Config, local: Config) -> (r: Config)
    ensures
        r@ == merge_entries(base@, local.device.entry_seq()),
        r@ == merge_device_maps(base@, local@),
{
    let ghost es = local.device.entry_seq();
    let ghost b0 = base@;
    let mut merged = base.device;
    let n = local.device.len();
    assert(es.take(0) =~= Seq::<(String, DeviceConfig)>::empty());
    for i in 0..n
        invariant
            n == es.len(),
            es == local.device.entry_seq(),
            merged@ == merge_entries(b0, es.take(i as int)),
    {
        let name = local.device.key_at(i).clone();
        let dev = local.device.value_at(i).clone();
        merge_one(&mut merged, name, dev);
        proof {
            assert(es.take(i + 1).drop_last() =~= es.take(i as int));
            assert(es.take(i + 1).last() == es[i as int]);
        }
    }
    assert(es.take(n as int) =~= es);
    proof {
        use_type_invariant(&local.device);
        local.device.lemma_view();
        lemma_merge_entries_pointwise(b0, es);
    }
    Config { device: merged }
}

/// Some device of `m` sets `ssh_host`.
pub open spec fn some_ssh_host(m: Map<Seq<char>, DeviceConfigView>) -> bool {
    exists|k: Seq<char>| m.contains_key(k) && (#[trigger] m[k]).ssh_host is Some
}

/// Whether to warn that `ssh_host` is set in the committed `.cargo/config.toml` while no
/// `.cargo/device.local.toml` exists to override it for this machine.
pub fn warn_if_ssh_in_base_without_local(base: &Config, local_present: bool) -> (r: bool)
    ensures
        r == (!local_present && exists|i: int|
            0 <= i < base.device.entry_seq().len()
                && (#[trigger] base.device.entry_seq()[i]).1.ssh_host is Some),
        r == (!local_present && some_ssh_host(base@)),
{
    let ghost es = base.device.entry_seq();
    proof {
        use_type_invariant(&base.device);
        base.device.lemma_view();
        if some_ssh_host(base@) {
            let k = choose|k: Seq<char>| base@.contains_key(k) && (#[trigger] base@[k]).ssh_host is Some;
            lemma_entries_map_dom(es, k);
            let i = choose|i: int| 0 <= i < entry_keys(es).len() && entry_keys(es)[i] == k;
            crate::strmap::lemma_no_dup_last(es, i);
            crate::strmap::lemma_entries_map_at(es, i);
            assert(es[i].1.ssh_host is Some);
        }
        assert forall|i: int| 0 <= i < es.len() && (#[trigger] es[i]).1.ssh_host is Some implies some_ssh_host(base@) by {
            crate::strmap::lemma_no_dup_last(es, i);
            crate::strmap::lemma_entries_map_at(es, i);
            assert(base@.contains_key(es[i].0@));
            assert(base@[es[i].0@].ssh_host is Some);
        }
    }
    if local_present {
        return false;
    }
    let n = base.device.len();
    let mut found = false;
    for i in 0..n
        invariant
            n == es.len(),
            es == base.device.entry_seq(),
            found == exists|j: int| 0 <= j < i && (#[trigger] es[j]).1.ssh_host is Some,
    {
        if base.device.value_at(i).ssh_host.is_some() {
            assert(es[i as int].1.ssh_host is Some);
            found = true;
        }
    }
    found
}

/// The loaded configuration: `local` (the parsed `.cargo/device.local.toml`, if the file
/// exists) merged over `base` (the parsed `.cargo/config.toml`, or an empty one when the
/// file does not exist), and whether to warn that `ssh_host` sits in the base file with
/// no local file to override it. A missing local file is no error.
pub fn load(base: Option<Config>, local: Option<Config>) -> (r: (Config, bool))
    ensures
        ({
            let b = match base {
                Some(c) => c@,
                None => Map::<Seq<char>, DeviceConfigView>::empty(),
            };
            let es = match local {
                Some(c) => c.device.entry_seq(),
                None => Seq::<(String, DeviceConfig)>::empty(),
            };
            r.0@ == merge_entries(b, es)
        }),
        match local {
            Some(c) => r.0@ == merge_device_maps(
                match base {
                    Some(b) => b@,
                    None => Map::<Seq<char>, DeviceConfigView>::empty(),
                },
                c@,
            ),
            None => r.0@ == match base {
                Some(b) => b@,
                None => Map::<Seq<char>, DeviceConfigView>::empty(),
            },
        },
        r.1 == match base {
            Some(b) => local is None && some_ssh_host(b@),
            None => false,
        },
{
    let base_cfg = match base {
        Some(c) => c,
        None => Config::default(),
    };
    let local_present = local.is_some();
    let warn = warn_if_ssh_in_base_without_local(&base_cfg, local_present);
    let local_cfg = match local {
        Some(c) => c,
        None => Config::default(),
    };
    let ghost es = local_cfg.device.entry_seq();
    let merged = merge_configs(base_cfg, local_cfg);
    proof {
        if local is None {
            assert(es.len() == 0);
        }
    }
    (merged, warn)
}

// ── Laws of the merge ───────────────────────────────────────────────────────────────

/// Laying an empty table over a table leaves it as it is.
pub proof fn lemma_merge_empty_right(c: DeviceConfigView)
    ensures
        c.merge(DeviceConfigView::empty()) == c,
{
}

/// Laying a table over an empty one gives that table.
pub proof fn lemma_merge_empty_left(c: DeviceConfigView)
    ensures
        DeviceConfigView::empty().merge(c) == c,
{
}

/// Laying a table over itself changes nothing.
pub proof fn lemma_merge_idempotent(c: DeviceConfigView)
    ensures
        c.merge(c) == c,
{
    match c.env {
        Some(e) => assert(e.union_prefer_right(e) =~= e),
        None => {},
    }
}

/// Merging is associative: laying `b` then `c` over `a` is laying `b` with `c` over it
/// onto `a`.
pub proof fn lemma_merge_associative(a: DeviceConfigView, b: DeviceConfigView, c: DeviceConfigView)
    ensures
        a.merge(b).merge(c) == a.merge(b.merge(c)),
{
    match (a.env, b.env, c.env) {
        (Some(x), Some(y), Some(z)) => {
            assert(x.union_prefer_right(y).union_prefer_right(z) =~= x.union_prefer_right(
                y.union_prefer_right(z),
            ));
        },
        _ => {},
    }
}

/// Every field that the override sets wins; every field that it leaves unset keeps the
/// base value; `env` keeps every key of the base and takes the override's value on a
/// shared key.
pub proof fn lemma_merge_env_per_key(base: DeviceConfigView, other: DeviceConfigView, k: Seq<char>)
    requires
        base.env is Some,
        other.env is Some,
    ensures
        base.merge(other).env->0.contains_key(k) <==> (base.env->0.contains_key(k)
            || other.env->0.contains_key(k)),
        other.env->0.contains_key(k) ==> base.merge(other).env->0[k] == other.env->0[k],
        !other.env->0.contains_key(k) && base.env->0.contains_key(k) ==> base.merge(
            other,
        ).env->0[k] == base.env->0[k],
{
}

/// Laying `other` over `base`: every field other than `env` that `other` sets is taken
/// from `other` as it stands, and every such field it leaves unset is `base`'s; `env` is
/// `other`'s table when `base` has none, `base`'s when `other` has none, and otherwise
/// holds every key of either, with `other`'s value on a shared key.
pub proof fn lemma_merge_override_wins(base: DeviceConfigView, other: DeviceConfigView)
    ensures
        other.target is Some ==> base.merge(other).target == other.target,
        other.target is None ==> base.merge(other).target == base.target,
        other.linker is Some ==> base.merge(other).linker == other.linker,
        other.linker is None ==> base.merge(other).linker == base.linker,
        other.sdk is Some ==> base.merge(other).sdk == other.sdk,
        other.sdk is None ==> base.merge(other).sdk == base.sdk,
        other.sysroot is Some ==> base.merge(other).sysroot == other.sysroot,
        other.sysroot is None ==> base.merge(other).sysroot == base.sysroot,
        other.rustflags is Some ==> base.merge(other).rustflags == other.rustflags,
        other.rustflags is None ==> base.merge(other).rustflags == base.rustflags,
        other.cross is Some ==> base.merge(other).cross == other.cross,
        other.cross is None ==> base.merge(other).cross == base.cross,
        other.package is Some ==> base.merge(other).package == other.package,
        other.package is None ==> base.merge(other).package == base.package,
        other.binary is Some ==> base.merge(other).binary == other.binary,
        other.binary is None ==> base.merge(other).binary == base.binary,
        other.ssh_host is Some ==> base.merge(other).ssh_host == other.ssh_host,
        other.ssh_host is None ==> base.merge(other).ssh_host == base.ssh_host,
        other.ssh_key is Some ==> base.merge(other).ssh_key == other.ssh_key,
        other.ssh_key is None ==> base.merge(other).ssh_key == base.ssh_key,
        other.deploy_path is Some ==> base.merge(other).deploy_path == other.deploy_path,
        other.deploy_path is None ==> base.merge(other).deploy_path == base.deploy_path,
        other.sync_dirs is Some ==> base.merge(other).sync_dirs == other.sync_dirs,
        other.sync_dirs is None ==> base.merge(other).sync_dirs == base.sync_dirs,
        other.transport is Some ==> base.merge(other).transport == other.transport,
        other.transport is None ==> base.merge(other).transport == base.transport,
        other.ssh_program is Some ==> base.merge(other).ssh_program == other.ssh_program,
        other.ssh_program is None ==> base.merge(other).ssh_program == base.ssh_program,
        other.sftp_program is Some ==> base.merge(other).sftp_program == other.sftp_program,
        other.sftp_program is None ==> base.merge(other).sftp_program == base.sftp_program,
        other.run_source is Some ==> base.merge(other).run_source == other.run_source,
        other.run_source is None ==> base.merge(other).run_source == base.run_source,
        other.no_default_features is Some ==> base.merge(other).no_default_features == other.no_default_features,
        other.no_default_features is None ==> base.merge(other).no_default_features == base.no_default_features,
        other.features is Some ==> base.merge(other).features == other.features,
        other.features is None ==> base.merge(other).features == base.features,
        base.env is None ==> base.merge(other).env == other.env,
        other.env is None ==> base.merge(other).env == base.env,
        base.env is Some && other.env is Some ==> base.merge(other).env is Some && forall|k: Seq<char>|
            #![trigger base.merge(other).env->0.contains_key(k)]
            (base.merge(other).env->0.contains_key(k) <==> (base.env->0.contains_key(k)
                || other.env->0.contains_key(k))) && (other.env->0.contains_key(k) ==> base.merge(
                other,
            ).env->0[k] == other.env->0[k]) && (!other.env->0.contains_key(k)
                && base.env->0.contains_key(k) ==> base.merge(other).env->0[k] == base.env->0[k]),
{
}

/// Without a local file (an empty override) the merged devices are the base devices.
pub proof fn lemma_merge_configs_without_local(base: Map<Seq<char>, DeviceConfigView>)
    ensures
        merge_device_maps(base, Map::empty()) == base,
{
    assert(merge_device_maps(base, Map::empty()) =~= base);
}

/// A device that only the local file defines is added as the local file defines it; a
/// device that only the base file defines is kept as it is.
pub proof fn lemma_merge_configs_one_sided(
    base: Map<Seq<char>, DeviceConfigView>,
    local: Map<Seq<char>, DeviceConfigView>,
    k: Seq<char>,
)
    ensures
        !base.contains_key(k) && local.contains_key(k) ==> merge_device_maps(base, local).contains_key(k)
            && merge_device_maps(base, local)[k] == local[k],
        base.contains_key(k) && !local.contains_key(k) ==> merge_device_maps(base, local).contains_key(k)
            && merge_device_maps(base, local)[k] == base[k],
        !base.contains_key(k) && !local.contains_key(k) ==> !merge_device_maps(base, local).contains_key(k),
{
    if !base.contains_key(k) && local.contains_key(k) {
        lemma_merge_empty_left(local[k]);
    }
}

} // verus!
