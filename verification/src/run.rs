//! Remote execution via SSH: the command that runs the binary on the device (or, for the
//! desktop device, `cargo run` locally), and what its exit status means.

use vstd::prelude::*;
use crate::build::{args_then, strings1};
use crate::command::{env_views, found_on_path, Invocation, InvocationView};
use crate::deploy::{key_args, key_args_vec, plain_invocation};
use crate::device::{spec_ssh_cmd, Device};
use crate::error::Error;
use crate::remote::{
    lemma_shell_escape_reads_back, read_word, remote_path_token, shell_escape, spec_remote_path_token,
    spec_shell_escape,
};
use crate::text::{join, join_strings, owned, views};

verus! {

/// `. <script> && ` for each script, in order: each path is a token for the run host's
/// shell, so a leading `~/` expands there.
pub open spec fn spec_source_clause(run_source: Seq<Seq<char>>) -> Seq<char>
    decreases run_source.len(),
{
    if run_source.len() == 0 {
        seq![]
    } else {
        spec_source_clause(run_source.drop_last()) + ". "@ + spec_remote_path_token(run_source.last())
            + " && "@
    }
}

/// Build a `. <script> && . <script> && ` prefix sourcing each script in order, or `""` when
/// the list is empty. A leading `~/` becomes `"$HOME"/…` so the run-host shell
/// expands it (these paths live on the run host, not the local machine).
pub fn source_clause(run_source: &[String]) -> (r: String)
    ensures
        r@ == spec_source_clause(views(run_source@)),
{
    let mut out = String::new();
    let ghost rs = views(run_source@);
    for i in 0..run_source.len()
        invariant
            rs == views(run_source@),
            out@ == spec_source_clause(rs.take(i as int)),
    {
        assert(rs.take(i + 1).drop_last() =~= rs.take(i as int));
        out.append(". ");
        let t = remote_path_token(run_source[i].as_str());
        out.append(t.as_str());
        out.append(" && ");
    }
    assert(rs.take(rs.len() as int) =~= rs);
    out
}

/// Each argument quoted for the shell.
pub open spec fn escaped(args: Seq<Seq<char>>) -> Seq<Seq<char>> {
    args.map_values(|a: Seq<char>| spec_shell_escape(a))
}

/// Each argument quoted for the shell.
fn escape_all(args: &[String]) -> (r: Vec<String>)
    ensures
        views(r@) == escaped(views(args@)),
{
    let mut out: Vec<String> = Vec::new();
    let ghost want = escaped(views(args@));
    for i in 0..args.len()
        invariant
            want == escaped(views(args@)),
            views(out@) == want.take(i as int),
    {
        let ghost before = out@;
        out.push(shell_escape(args[i].as_str()));
        assert(views(out@) =~= want.take(i + 1)) by {
            assert(views(out@) =~= views(before).push(want[i as int]));
        }
    }
    assert(want.take(want.len() as int) =~= want);
    out
}

/// The command run on the device: change to the deploy path, source the run scripts,
/// and exec the binary with its arguments.
pub open spec fn spec_remote_inner(deploy_path: Seq<char>, binary_name: Seq<char>, run_source: Seq<Seq<char>>, remote_args: Seq<Seq<char>>) -> Seq<char> {
    "cd "@ + spec_remote_path_token(deploy_path) + " && "@ + spec_source_clause(run_source) + "exec ./"@
        + spec_shell_escape(binary_name) + if remote_args.len() == 0 {
        seq![]
    } else {
        " "@ + join(escaped(remote_args), " "@)
    }
}

/// The remote command line: [`spec_remote_inner`] as it is, or, when there are scripts
/// to source, run by `bash -lc` as one quoted word.
pub open spec fn spec_remote_shell_command(deploy_path: Seq<char>, binary_name: Seq<char>, run_source: Seq<Seq<char>>, remote_args: Seq<Seq<char>>) -> Seq<char> {
    let c = spec_remote_inner(deploy_path, binary_name, run_source, remote_args);
    if run_source.len() == 0 {
        c
    } else {
        "bash -lc "@ + spec_shell_escape(c)
    }
}

/// Run the binary from `deploy_path` so relative `sync_dirs` assets resolve on the device,
/// sourcing each `run_source` script (in order) on the remote shell before exec.
pub fn remote_shell_command(
    deploy_path: &str,
    binary_name: &str,
    run_source: &[String],
    remote_args: &[String],
) -> (r: String)
    ensures
        r@ == spec_remote_shell_command(deploy_path@, binary_name@, views(run_source@), views(remote_args@)),
{
    let src = source_clause(run_source);
    let escaped_args = escape_all(remote_args);
    let args = join_strings(&escaped_args, " ");
    // deploy_path is a *device* path: `~/app` must be expanded by the remote shell.
    let mut command = owned("cd ");
    let cwd = remote_path_token(deploy_path);
    command.append(cwd.as_str());
    command.append(" && ");
    command.append(src.as_str());
    command.append("exec ./");
    let bin = shell_escape(binary_name);
    command.append(bin.as_str());
    if remote_args.len() != 0 {
        command.append(" ");
        command.append(args.as_str());
    }
    assert(command@ =~= spec_remote_inner(deploy_path@, binary_name@, views(run_source@), views(remote_args@)));
    if run_source.len() == 0 {
        command
    } else {
        let mut out = owned("bash -lc ");
        let quoted = shell_escape(command.as_str());
        out.append(quoted.as_str());
        out
    }
}

/// The local shell line: source the run scripts, then exec `cargo run` with the cargo
/// arguments, the binary, and the program arguments after `--`.
pub open spec fn spec_local_run_command(run_source: Seq<Seq<char>>, binary_name: Seq<char>, cargo_args: Seq<Seq<char>>, remote_args: Seq<Seq<char>>) -> Seq<char> {
    spec_source_clause(run_source) + join(
        seq!["exec"@, "cargo"@, "run"@] + escaped(cargo_args) + seq!["--bin"@, spec_shell_escape(binary_name)]
            + if remote_args.len() == 0 {
            seq![]
        } else {
            seq!["--"@] + escaped(remote_args)
        },
        " "@,
    )
}

/// Build the local `bash -c` command that sources the run scripts, then exec's `cargo run`.
pub fn local_run_command(
    run_source: &[String],
    binary_name: &str,
    cargo_args: &[String],
    remote_args: &[String],
) -> (r: String)
    ensures
        r@ == spec_local_run_command(views(run_source@), binary_name@, views(cargo_args@), views(remote_args@)),
{
    let src = source_clause(run_source);
    let mut parts: Vec<String> = Vec::new();
    parts.push(owned("exec"));
    parts.push(owned("cargo"));
    parts.push(owned("run"));
    let cargo_escaped = escape_all(cargo_args);
    let parts = args_then(parts, cargo_escaped.as_slice());
    let mut bin_part: Vec<String> = Vec::new();
    bin_part.push(owned("--bin"));
    bin_part.push(shell_escape(binary_name));
    let mut parts = args_then(parts, bin_part.as_slice());
    if remote_args.len() != 0 {
        let mut tail: Vec<String> = Vec::new();
        tail.push(owned("--"));
        let esc = escape_all(remote_args);
        let tail = args_then(tail, esc.as_slice());
        parts = args_then(parts, tail.as_slice());
    }
    assert(views(parts@) =~= seq!["exec"@, "cargo"@, "run"@] + escaped(views(cargo_args@)) + seq![
        "--bin"@,
        spec_shell_escape(binary_name@),
    ] + if views(remote_args@).len() == 0 {
        seq![]
    } else {
        seq!["--"@] + escaped(views(remote_args@))
    });
    let mut out = src;
    let joined = join_strings(&parts, " ");
    out.append(joined.as_str());
    out
}

/// `cargo run <cargo_args> --bin <binary> [-- <args>]`, with no shell in between.
pub open spec fn cargo_run_view(binary_name: Seq<char>, cargo_args: Seq<Seq<char>>, remote_args: Seq<Seq<char>>) -> InvocationView {
    InvocationView {
        program: "cargo"@,
        args: seq!["run"@] + cargo_args + seq!["--bin"@, binary_name] + if remote_args.len() == 0 {
            seq![]
        } else {
            seq!["--"@] + remote_args
        },
        env: seq![],
        stdin: None,
        label: "cargo run"@,
    }
}

/// `bash -c <script>`.
pub open spec fn bash_run_view(script: Seq<char>) -> InvocationView {
    InvocationView { program: "bash"@, args: seq!["-c"@, script], env: seq![], stdin: None, label: "bash"@ }
}

/// `ssh [-t] [-i key] <host> <command>`: `-t` allocates a terminal on the device for an
/// interactive session.
pub open spec fn ssh_run_view(d: Device, interactive: bool, host: Seq<char>, command: Seq<char>) -> InvocationView {
    InvocationView {
        program: spec_ssh_cmd(d),
        args: (if interactive {
            seq!["-t"@]
        } else {
            seq![]
        }) + key_args(d) + seq![host, command],
        env: seq![],
        stdin: None,
        label: "ssh"@,
    }
}

/// Whether `r` is the command that runs `binary_name` for device `d`, given whether the
/// program it needs was found (`bash` for a desktop device with run scripts, the ssh
/// program for a remote device).
pub open spec fn execute_outcome(
    d: Device,
    binary_name: Seq<char>,
    cargo_args: Seq<Seq<char>>,
    remote_args: Seq<Seq<char>>,
    interactive: bool,
    found: bool,
    r: Result<Invocation, Error>,
) -> bool {
    let rs = views(d.run_source@);
    if d.name@ == "desktop"@ {
        if rs.len() == 0 {
            r matches Ok(inv) && inv@ == cargo_run_view(binary_name, cargo_args, remote_args)
        } else if !found {
            r matches Err(Error::BashNotFound)
        } else {
            r matches Ok(inv) && inv@ == bash_run_view(
                spec_local_run_command(rs, binary_name, cargo_args, remote_args),
            )
        }
    } else if !found {
        r matches Err(Error::SshNotFoundForRun { program }) && program@ == spec_ssh_cmd(d)
    } else if d.ssh_host is None {
        r matches Err(Error::MissingSshHost)
    } else if d.deploy_path is None {
        r matches Err(Error::MissingDeployPath)
    } else {
        r matches Ok(inv) && inv@ == ssh_run_view(
            d,
            interactive,
            d.ssh_host->0@,
            spec_remote_shell_command(d.deploy_path->0@, binary_name, rs, remote_args),
        )
    }
}

/// The command that runs the binary, given whether the program it needs was found (see
/// [`execute_outcome`]). `interactive` says whether our own standard input is a terminal.
pub fn execute_with(
    device: &Device,
    binary_name: &str,
    cargo_args: &[String],
    remote_args: &[String],
    interactive: bool,
    found: bool,
) -> (r: Result<Invocation, Error>)
    ensures
        execute_outcome(*device, binary_name@, views(cargo_args@), views(remote_args@), interactive, found, r),
{
    if device.is_desktop() {
        // Fast path: no scripts to source → invoke cargo directly without a shell.
        if device.run_source.len() == 0 {
            let mut head = strings1("run");
            let head = args_then(head, cargo_args);
            let mut bin_part: Vec<String> = Vec::new();
            bin_part.push(owned("--bin"));
            bin_part.push(owned(binary_name));
            let mut args = args_then(head, bin_part.as_slice());
            if remote_args.len() != 0 {
                let tail = args_then(strings1("--"), remote_args);
                args = args_then(args, tail.as_slice());
            }
            assert(views(args@) =~= cargo_run_view(binary_name@, views(cargo_args@), views(remote_args@)).args);
            return Ok(plain_invocation(owned("cargo"), args, "cargo run"));
        }
        // Source the run scripts in Bash, then exec `cargo run`: ROS/colcon setup files
        // are conventionally `setup.bash`, so POSIX `sh` is not enough for this path.
        if !found {
            return Err(Error::BashNotFound);
        }
        let script = local_run_command(device.run_source.as_slice(), binary_name, cargo_args, remote_args);
        let ghost sv = script@;
        let mut args = strings1("-c");
        let ghost before = args@;
        args.push(script);
        assert(views(args@) =~= views(before).push(sv));
        assert(views(args@) =~= seq!["-c"@, sv]);
        return Ok(plain_invocation(owned("bash"), args, "bash"));
    }
    if !found {
        return Err(Error::SshNotFoundForRun { program: owned(device.ssh_cmd()) });
    }
    let (host, deploy_path) = match device.require_ssh() {
        Ok(hp) => hp,
        Err(e) => {
            return Err(e);
        },
    };
    let mut head: Vec<String> = Vec::new();
    // A terminal on the device for interactive apps, only when our own stdin is one.
    if interactive {
        head.push(owned("-t"));
    }
    let keys = key_args_vec(device);
    let head = args_then(head, keys.as_slice());
    let script = remote_shell_command(deploy_path, binary_name, device.run_source.as_slice(), remote_args);
    let ghost sv = script@;
    let ghost hv = views(head@);
    let mut args = head;
    args.push(owned(host));
    let ghost before = args@;
    args.push(script);
    assert(views(args@) =~= views(before).push(sv));
    assert(views(args@) =~= hv + seq![host@, sv]);
    assert(views(args@) =~= ssh_run_view(
        *device,
        interactive,
        host@,
        spec_remote_shell_command(deploy_path@, binary_name@, views(device.run_source@), views(remote_args@)),
    ).args);
    Ok(plain_invocation(owned(device.ssh_cmd()), args, "ssh"))
}

/// Execute the binary on the device (for desktop devices, `cargo run` locally): the
/// command to run. Whether `bash` or the ssh program is installed is the machine's
/// answer; the result is the one for some answer.
pub fn execute(
    device: &Device,
    binary_name: &str,
    cargo_args: &[String],
    remote_args: &[String],
    interactive: bool,
) -> (r: Result<Invocation, Error>)
    ensures
        exists|found: bool|
            #[trigger] execute_outcome(
                *device,
                binary_name@,
                views(cargo_args@),
                views(remote_args@),
                interactive,
                found,
                r,
            ),
{
    let found = if device.is_desktop() {
        device.run_source.len() == 0 || found_on_path("bash")
    } else {
        found_on_path(device.ssh_cmd())
    };
    let r = execute_with(device, binary_name, cargo_args, remote_args, interactive, found);
    assert(execute_outcome(
        *device,
        binary_name@,
        views(cargo_args@),
        views(remote_args@),
        interactive,
        found,
        r,
    ));
    r
}

/// Forward a finished process's exit: nothing when it succeeded, the code to exit with
/// when it failed with one, and an error when it was killed by a signal (`remote`: on
/// the device).
pub fn forward_exit(success: bool, code: Option<i32>, remote: bool) -> (r: Result<Option<i32>, Error>)
    ensures
        success ==> r matches Ok(None),
        !success && code is Some ==> (r matches Ok(Some(c)) && c == code->0),
        !success && code is None ==> (r matches Err(Error::Signal { remote: m }) && m == remote),
{
    if !success {
        if let Some(c) = code {
            return Ok(Some(c));
        }
        return Err(Error::Signal { remote });
    }
    Ok(None)
}

/// The scripts are sourced in the order given: the clause for two lists one after the
/// other is the clause of the first followed by the clause of the second.
pub proof fn lemma_source_clause_concat(a: Seq<Seq<char>>, b: Seq<Seq<char>>)
    ensures
        spec_source_clause(a + b) == spec_source_clause(a) + spec_source_clause(b),
    decreases b.len(),
{
    if b.len() == 0 {
        assert(a + b =~= a);
        assert(spec_source_clause(a) + spec_source_clause(b) =~= spec_source_clause(a));
    } else {
        lemma_source_clause_concat(a, b.drop_last());
        assert((a + b).drop_last() =~= a + b.drop_last());
        assert((a + b).last() == b.last());
        let t = ". "@ + spec_remote_path_token(b.last()) + " && "@;
        assert(spec_source_clause(a + b) =~= spec_source_clause(a + b.drop_last()) + t);
        assert(spec_source_clause(b) =~= spec_source_clause(b.drop_last()) + t);
    }
}

/// Without scripts to source, the remote command is the plain
/// `cd <deploy_path> && exec ./<binary> [<args>]`, with no `bash` wrapper.
pub proof fn lemma_remote_command_without_sources(deploy_path: Seq<char>, binary_name: Seq<char>, remote_args: Seq<Seq<char>>)
    ensures
        spec_remote_shell_command(deploy_path, binary_name, seq![], remote_args) == "cd "@
            + spec_remote_path_token(deploy_path) + " && exec ./"@ + spec_shell_escape(binary_name) + if remote_args.len()
            == 0 {
            seq![]
        } else {
            " "@ + join(escaped(remote_args), " "@)
        },
{
    reveal_strlit(" && ");
    reveal_strlit("exec ./");
    reveal_strlit(" && exec ./");
    assert(spec_source_clause(seq![]) =~= Seq::<char>::empty());
    assert(" && "@ + seq![] + "exec ./"@ =~= " && exec ./"@);
    let x = "cd "@ + spec_remote_path_token(deploy_path);
    let y = spec_shell_escape(binary_name);
    assert(x + " && "@ + Seq::<char>::empty() + "exec ./"@ + y =~= x + " && exec ./"@ + y);
}

/// With scripts to source, the command runs in `bash -lc`, and the remote shell hands
/// `bash` the whole inner command (change directory, source, exec) as one word.
pub proof fn lemma_remote_command_wrapped(
    deploy_path: Seq<char>,
    binary_name: Seq<char>,
    run_source: Seq<Seq<char>>,
    remote_args: Seq<Seq<char>>,
    home: Seq<char>,
)
    requires
        run_source.len() > 0,
    ensures
        ({
            let inner = spec_remote_inner(deploy_path, binary_name, run_source, remote_args);
            &&& spec_remote_shell_command(deploy_path, binary_name, run_source, remote_args) == "bash -lc "@
                + spec_shell_escape(inner)
            &&& read_word(spec_shell_escape(inner), home, false) == Some(inner)
        }),
{
    let inner = spec_remote_inner(deploy_path, binary_name, run_source, remote_args);
    lemma_shell_escape_reads_back(inner, home);
}

/// A run on a device goes through the device's own ssh program: its `ssh_program`
/// when one is set, otherwise `ssh` from `PATH`; the command line ends with the device's
/// host and then the remote command.
pub proof fn lemma_run_uses_device_ssh(
    d: Device,
    binary_name: Seq<char>,
    cargo_args: Seq<Seq<char>>,
    remote_args: Seq<Seq<char>>,
    interactive: bool,
    found: bool,
    r: Result<Invocation, Error>,
)
    requires
        execute_outcome(d, binary_name, cargo_args, remote_args, interactive, found, r),
        d.name@ != "desktop"@,
        r is Ok,
    ensures
        r->Ok_0@.program == match d.ssh_program {
            Some(p) => p@,
            None => "ssh"@,
        },
        d.ssh_host is Some,
        r->Ok_0@.args.len() >= 2,
        r->Ok_0@.args[r->Ok_0@.args.len() - 2] == d.ssh_host->0@,
        r->Ok_0@.args.last() == spec_remote_shell_command(
            d.deploy_path->0@,
            binary_name,
            views(d.run_source@),
            remote_args,
        ),
{
}

/// On the desktop device no ssh is involved: the run is `cargo run` (or `bash` when there
/// are scripts to source) on this machine.
pub proof fn lemma_desktop_runs_locally(
    d: Device,
    binary_name: Seq<char>,
    cargo_args: Seq<Seq<char>>,
    remote_args: Seq<Seq<char>>,
    interactive: bool,
    found: bool,
    r: Result<Invocation, Error>,
)
    requires
        execute_outcome(d, binary_name, cargo_args, remote_args, interactive, found, r),
        d.name@ == "desktop"@,
        r is Ok,
    ensures
        r->Ok_0@.program == "cargo"@ || r->Ok_0@.program == "bash"@,
        d.run_source@.len() == 0 <==> r->Ok_0@.program == "cargo"@,
{
    reveal_strlit("cargo");
    reveal_strlit("bash");
    assert("cargo"@ != "bash"@) by {
        assert("cargo"@.len() != "bash"@.len());
    }
}

} // verus!
