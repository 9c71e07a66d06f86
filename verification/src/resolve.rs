//! Binary name resolution, workspace `-p` injection, device feature flags, and cargo
//! vs. remote argument splitting.

use vstd::prelude::*;
use crate::device::Device;
use crate::text::{clone_opt, join, join_strings, owned, starts_with, str_eq, views};

verus! {

/// `args` with the first standalone `--` as separator: the arguments before it and those
/// after it; without one, all of `args` and nothing.
pub open spec fn spec_split(args: Seq<Seq<char>>) -> (Seq<Seq<char>>, Seq<Seq<char>>)
    decreases args.len(),
{
    if args.len() == 0 {
        (seq![], seq![])
    } else if args[0] == "--"@ {
        (seq![], args.skip(1))
    } else {
        let (c, r) = spec_split(args.skip(1));
        (seq![args[0]] + c, r)
    }
}

proof fn lemma_split_step(args: Seq<Seq<char>>, i: int)
    requires
        0 <= i < args.len(),
        !args.take(i).contains("--"@),
    ensures
        spec_split(args) == (if args[i] == "--"@ {
            (args.take(i), args.skip(i + 1))
        } else {
            let (c, r) = spec_split(args.skip(i + 1));
            (args.take(i + 1) + c, r)
        }),
    decreases i,
{
    if i == 0 {
        assert(args.take(0) =~= Seq::<Seq<char>>::empty());
        if args[0] != "--"@ {
            assert(args.take(1) =~= seq![args[0]]);
        }
    } else {
        assert(args[0] != "--"@) by {
            assert(args.take(i)[0] == args[0]);
        }
        let t = args.skip(1);
        assert(!t.take(i - 1).contains("--"@)) by {
            let tt = t.take(i - 1);
            if tt.contains("--"@) {
                let j = choose|j: int| 0 <= j < tt.len() && #[trigger] tt[j] == "--"@;
                assert(args.take(i)[j + 1] == "--"@);
            }
        }
        lemma_split_step(t, i - 1);
        assert(t[i - 1] == args[i]);
        assert(t.skip(i) =~= args.skip(i + 1));
        assert(seq![args[0]] + t.take(i - 1) =~= args.take(i));
        assert(seq![args[0]] + t.take(i) =~= args.take(i + 1));
        let (c, r) = spec_split(t.skip(i));
        assert(seq![args[0]] + (t.take(i) + c) =~= args.take(i + 1) + c);
    }
}

/// Split trailing args at the first standalone `--` (cargo args vs. remote binary args).
pub fn split_cargo_and_remote(args: &[String]) -> (r: (Vec<String>, Vec<String>))
    ensures
        (views(r.0@), views(r.1@)) == spec_split(views(args@)),
{
    let ghost vs = views(args@);
    let mut cargo: Vec<String> = Vec::new();
    let n = args.len();
    let mut i: usize = 0;
    while i < n
        invariant
            n == args@.len(),
            vs == views(args@),
            i <= n,
            views(cargo@) == vs.take(i as int),
            !vs.take(i as int).contains("--"@),
        decreases n - i,
    {
        if str_eq(args[i].as_str(), "--") {
            proof {
                lemma_split_step(vs, i as int);
            }
            let mut remote: Vec<String> = Vec::new();
            let mut j = i + 1;
            assert(vs.skip(i + 1).take(0) =~= Seq::<Seq<char>>::empty());
            while j < n
                invariant
                    n == args@.len(),
                    vs == views(args@),
                    i < j <= n,
                    views(remote@) == vs.skip(i + 1).take(j - i - 1),
                decreases n - j,
            {
                let ghost before = remote@;
                remote.push(args[j].clone());
                assert(views(remote@) =~= vs.skip(i + 1).take(j - i)) by {
                    assert(views(remote@) =~= views(before).push(vs[j as int]));
                }
                j = j + 1;
            }
            assert(vs.skip(i + 1).take(n - i - 1) =~= vs.skip(i + 1));
            return (cargo, remote);
        }
        let ghost before = cargo@;
        cargo.push(args[i].clone());
        assert(views(cargo@) =~= vs.take(i + 1)) by {
            assert(views(cargo@) =~= views(before).push(vs[i as int]));
        }
        assert(!vs.take(i + 1).contains("--"@)) by {
            let ti = vs.take(i + 1);
            if ti.contains("--"@) {
                let j = choose|j: int| 0 <= j < ti.len() && #[trigger] ti[j] == "--"@;
                if j < i {
                    assert(vs.take(i as int)[j] == "--"@);
                }
            }
        }
        i = i + 1;
    }
    proof {
        assert(vs.take(n as int) =~= vs);
        lemma_split_none(vs);
    }
    (cargo, Vec::new())
}

proof fn lemma_split_none(args: Seq<Seq<char>>)
    requires
        !args.contains("--"@),
    ensures
        spec_split(args) == (args, Seq::<Seq<char>>::empty()),
    decreases args.len(),
{
    if args.len() > 0 {
        assert(args[0] != "--"@);
        assert(!args.skip(1).contains("--"@)) by {
            let a1 = args.skip(1);
            if a1.contains("--"@) {
                let j = choose|j: int| 0 <= j < a1.len() && #[trigger] a1[j] == "--"@;
                assert(args[j + 1] == "--"@);
            }
        }
        lemma_split_none(args.skip(1));
        assert(seq![args[0]] + args.skip(1) =~= args);
    }
}

/// The cargo arguments and the remote arguments put back together, with `--` between
/// them when the input had one, are the input arguments; the cargo part holds no
/// `--`.
pub proof fn lemma_split_rejoins(args: Seq<Seq<char>>)
    ensures
        !spec_split(args).0.contains("--"@),
        args.contains("--"@) ==> spec_split(args).0 + seq!["--"@] + spec_split(args).1 == args,
        !args.contains("--"@) ==> spec_split(args).0 == args && spec_split(args).1.len() == 0,
    decreases args.len(),
{
    if args.len() > 0 {
        lemma_split_rejoins(args.skip(1));
        let (c, r) = spec_split(args.skip(1));
        if args[0] == "--"@ {
            assert(seq![] + seq!["--"@] + args.skip(1) =~= args);
        } else {
            let sc = seq![args[0]] + c;
            assert(!sc.contains("--"@)) by {
                if sc.contains("--"@) {
                    let j = choose|j: int| 0 <= j < sc.len() && #[trigger] sc[j] == "--"@;
                    assert(c[j - 1] == "--"@);
                }
            }
            if args.contains("--"@) {
                let j = choose|j: int| 0 <= j < args.len() && #[trigger] args[j] == "--"@;
                assert(args.skip(1)[j - 1] == "--"@);
                assert(seq![args[0]] + c + seq!["--"@] + r =~= seq![args[0]] + (c + seq!["--"@] + r));
                assert(seq![args[0]] + args.skip(1) =~= args);
            } else {
                let a1 = args.skip(1);
                assert(!a1.contains("--"@)) by {
                    if a1.contains("--"@) {
                        let j = choose|j: int| 0 <= j < a1.len() && #[trigger] a1[j] == "--"@;
                        assert(args[j + 1] == "--"@);
                    }
                }
                assert(seq![args[0]] + args.skip(1) =~= args);
            }
        }
    } else {
        assert(!args.contains("--"@));
    }
}

/// `a` names the package to build: `-p`, `--package` or `--package=<name>`.
pub open spec fn is_package_flag(a: Seq<char>) -> bool {
    a == "-p"@ || a == "--package"@ || "--package="@.is_prefix_of(a)
}

/// Some argument names the package.
pub open spec fn spec_has_package_flag(args: Seq<Seq<char>>) -> bool {
    exists|i: int| 0 <= i < args.len() && is_package_flag(#[trigger] args[i])
}

/// Returns true if `cargo_args` already contains `-p` or `--package`.
pub fn has_cargo_package_flag(cargo_args: &[String]) -> (r: bool)
    ensures
        r == spec_has_package_flag(views(cargo_args@)),
{
    let ghost vs = views(cargo_args@);
    for i in 0..cargo_args.len()
        invariant
            vs == views(cargo_args@),
            forall|j: int| 0 <= j < i ==> !is_package_flag(#[trigger] vs[j]),
    {
        let a = cargo_args[i].as_str();
        if str_eq(a, "-p") || str_eq(a, "--package") || starts_with(a, "--package=") {
            assert(is_package_flag(vs[i as int]));
            return true;
        }
    }
    false
}

/// The cargo arguments with `-p <package>` in front when the device names a package and
/// the arguments do not.
pub open spec fn spec_with_package(package: Option<Seq<char>>, args: Seq<Seq<char>>) -> Seq<Seq<char>> {
    match package {
        Some(p) => if spec_has_package_flag(args) {
            args
        } else {
            seq!["-p"@, p] + args
        },
        None => args,
    }
}

/// Prepend `-p <package>` when the device defines `package` and the flag is absent.
pub fn with_package_flag(device: &Device, cargo_args: Vec<String>) -> (r: Vec<String>)
    ensures
        views(r@) == spec_with_package(device.package.deep_view(), views(cargo_args@)),
{
    let pkg = match &device.package {
        Some(p) => p,
        None => {
            return cargo_args;
        },
    };
    if has_cargo_package_flag(cargo_args.as_slice()) {
        return cargo_args;
    }
    let mut out: Vec<String> = Vec::new();
    out.push(owned("-p"));
    out.push(pkg.clone());
    let ghost head = out@;
    assert(views(head) =~= seq!["-p"@, pkg@]);
    for i in 0..cargo_args.len()
        invariant
            views(out@) == seq!["-p"@, pkg@] + views(cargo_args@).take(i as int),
    {
        let ghost before = out@;
        out.push(cargo_args[i].clone());
        assert(views(out@) =~= seq!["-p"@, pkg@] + views(cargo_args@).take(i + 1)) by {
            assert(views(out@) =~= views(before).push(views(cargo_args@)[i as int]));
        }
    }
    assert(views(cargo_args@).take(cargo_args@.len() as int) =~= views(cargo_args@));
    out
}

/// Injecting the package flag twice is injecting it once.
pub proof fn lemma_with_package_idempotent(package: Option<Seq<char>>, args: Seq<Seq<char>>)
    ensures
        spec_with_package(package, spec_with_package(package, args)) == spec_with_package(package, args),
        package is Some ==> spec_has_package_flag(spec_with_package(package, args)),
{
    if let Some(p) = package {
        if !spec_has_package_flag(args) {
            let out = seq!["-p"@, p] + args;
            assert(is_package_flag(out[0]));
        }
    }
}

/// The deployed binary's name as the device gives it: `binary`, else `package`. `None`
/// leaves the root `Cargo.toml`'s `[package].name` as the caller's fallback.
pub fn resolve_binary_name(device: &Device) -> (r: Option<String>)
    ensures
        r.deep_view() == crate::config::or(device.binary.deep_view(), device.package.deep_view()),
{
    match &device.binary {
        Some(b) => Some(b.clone()),
        None => clone_opt(&device.package),
    }
}

/// Whether the cargo arguments ask for a release build (`--release`).
pub fn is_release_build(cargo_args: &[String]) -> (r: bool)
    ensures
        r == views(cargo_args@).contains("--release"@),
{
    let ghost vs = views(cargo_args@);
    for i in 0..cargo_args.len()
        invariant
            vs == views(cargo_args@),
            forall|j: int| 0 <= j < i ==> vs[j] != "--release"@,
    {
        if str_eq(cargo_args[i].as_str(), "--release") {
            assert(vs[i as int] == "--release"@);
            return true;
        }
    }
    false
}

/// `a` selects features: `--features`, `--features=<list>` or `-F`.
pub open spec fn is_features_flag(a: Seq<char>) -> bool {
    a == "--features"@ || a == "-F"@ || "--features="@.is_prefix_of(a)
}

/// The cargo arguments with the device's feature defaults in front: `--no-default-features`
/// when the device sets `no_default_features` and the arguments lack that flag, then
/// `--features <a,b,…>` when the device lists features and the arguments select none.
pub open spec fn spec_with_features(
    no_default: bool,
    features: Seq<Seq<char>>,
    args: Seq<Seq<char>>,
) -> Seq<Seq<char>> {
    let nd = if no_default && !args.contains("--no-default-features"@) {
        seq!["--no-default-features"@]
    } else {
        seq![]
    };
    let fs = if features.len() > 0 && !(exists|i: int|
        0 <= i < args.len() && is_features_flag(#[trigger] args[i])) {
        seq!["--features"@, join(features, ","@)]
    } else {
        seq![]
    };
    nd + fs + args
}

/// Features chosen on the command line win: when the cargo arguments already select
/// features (`--features`, `-F` or `--features=<list>`), the device's default feature
/// list is not added, and the result is the arguments with at most
/// `--no-default-features` in front.
pub proof fn lemma_cli_features_win(no_default: bool, features: Seq<Seq<char>>, args: Seq<Seq<char>>)
    requires
        args.contains("--features"@) || args.contains("-F"@) || exists|i: int|
            0 <= i < args.len() && "--features="@.is_prefix_of(#[trigger] args[i]),
    ensures
        spec_with_features(no_default, features, args) == args || spec_with_features(
            no_default,
            features,
            args,
        ) == seq!["--no-default-features"@] + args,
{
    if args.contains("--features"@) {
        let i = choose|i: int| 0 <= i < args.len() && args[i] == "--features"@;
        assert(is_features_flag(args[i]));
    } else if args.contains("-F"@) {
        let i = choose|i: int| 0 <= i < args.len() && args[i] == "-F"@;
        assert(is_features_flag(args[i]));
    } else {
        let i = choose|i: int| 0 <= i < args.len() && "--features="@.is_prefix_of(#[trigger] args[i]);
        assert(is_features_flag(args[i]));
    }
    assert(Seq::<Seq<char>>::empty() + Seq::<Seq<char>>::empty() + args =~= args);
    assert(seq!["--no-default-features"@] + Seq::<Seq<char>>::empty() + args =~= seq![
        "--no-default-features"@,
    ] + args);
}

/// The device's default features are added only when the arguments select none: then
/// they come as `--features` and the list joined by commas, after any
/// `--no-default-features`, before the arguments.
pub proof fn lemma_device_features_added(no_default: bool, features: Seq<Seq<char>>, args: Seq<Seq<char>>)
    requires
        features.len() > 0,
        !args.contains("--features"@),
        !args.contains("-F"@),
        forall|i: int| 0 <= i < args.len() ==> !"--features="@.is_prefix_of(#[trigger] args[i]),
    ensures
        ({
            let r = spec_with_features(no_default, features, args);
            &&& r.len() >= args.len() + 2
            &&& r.skip(r.len() - args.len()) == args
            &&& r[r.len() - args.len() - 2] == "--features"@
            &&& r[r.len() - args.len() - 1] == join(features, ","@)
        }),
{
    assert forall|i: int| 0 <= i < args.len() implies !is_features_flag(#[trigger] args[i]) by {
        assert(args[i] != "--features"@);
        assert(args[i] != "-F"@);
    }
    let r = spec_with_features(no_default, features, args);
    assert(r.skip(r.len() - args.len()) =~= args);
}

/// Apply the device's `no_default_features` and `features` defaults to the cargo arguments.
pub fn with_feature_flags(device: &Device, cargo_args: Vec<String>) -> (r: Vec<String>)
    ensures
        views(r@) == spec_with_features(
            device.no_default_features,
            views(device.features@),
            views(cargo_args@),
        ),
{
    let ghost vs = views(cargo_args@);
    let mut has_ndf = false;
    let mut has_features = false;
    for i in 0..cargo_args.len()
        invariant
            vs == views(cargo_args@),
            has_ndf == vs.take(i as int).contains("--no-default-features"@),
            has_features == exists|j: int| 0 <= j < i && is_features_flag(#[trigger] vs[j]),
    {
        let a = cargo_args[i].as_str();
        let ghost t = vs.take(i as int);
        assert(vs.take(i + 1) =~= t.push(vs[i as int]));
        if str_eq(a, "--no-default-features") {
            has_ndf = true;
            assert(vs.take(i + 1)[i as int] == "--no-default-features"@);
        } else {
            assert(vs.take(i + 1).contains("--no-default-features"@) == t.contains(
                "--no-default-features"@,
            )) by {
                let t1 = vs.take(i + 1);
                if t1.contains("--no-default-features"@) {
                    let j = choose|j: int|
                        0 <= j < t1.len() && #[trigger] t1[j] == "--no-default-features"@;
                    assert(t[j] == "--no-default-features"@);
                }
                if t.contains("--no-default-features"@) {
                    let j = choose|j: int| 0 <= j < t.len() && #[trigger] t[j] == "--no-default-features"@;
                    assert(t1[j] == "--no-default-features"@);
                }
            }
        }
        if str_eq(a, "--features") || str_eq(a, "-F") || starts_with(a, "--features=") {
            has_features = true;
            assert(is_features_flag(vs[i as int]));
        }
    }
    assert(vs.take(vs.len() as int) =~= vs);
    let mut out: Vec<String> = Vec::new();
    if device.no_default_features && !has_ndf {
        out.push(owned("--no-default-features"));
    }
    if device.features.len() > 0 && !has_features {
        out.push(owned("--features"));
        out.push(join_strings(&device.features, ","));
    }
    let ghost head = views(out@);
    let ghost nd = if device.no_default_features && !vs.contains("--no-default-features"@) {
        seq!["--no-default-features"@]
    } else {
        seq![]
    };
    let ghost fs = if views(device.features@).len() > 0 && !(exists|j: int|
        0 <= j < vs.len() && is_features_flag(#[trigger] vs[j])) {
        seq!["--features"@, join(views(device.features@), ","@)]
    } else {
        seq![]
    };
    assert(head =~= nd + fs);
    for i in 0..cargo_args.len()
        invariant
            vs == views(cargo_args@),
            views(out@) == head + vs.take(i as int),
    {
        let ghost before = out@;
        out.push(cargo_args[i].clone());
        assert(views(out@) =~= head + vs.take(i + 1)) by {
            assert(views(out@) =~= views(before).push(vs[i as int]));
        }
    }
    assert(vs.take(vs.len() as int) =~= vs);
    out
}

} // verus!
