//! Deploy a compiled binary and optional sync directories to a remote device.
//!
//! Two file-transfer backends are supported, selected per device with `transport`:
//!
//! - **`rsync`** — delta transfer, the fastest option for large or repeated syncs.
//! - **`sftp`** — batch mode (`sftp -b -`) over the same SSH connection; `sftp` ships
//!   with the OpenSSH suite, so this works out of the box on Windows.
//!
//! The default, `auto`, prefers `rsync` when it is on `PATH` and falls back to `sftp`.
//! Remote directories are created up-front with a single `ssh … mkdir -p`.

use vstd::prelude::*;
use crate::build::{args_then, strings1};
use crate::command::{env_views, found_on_path, Invocation, InvocationView};
use crate::device::{spec_sftp_cmd, spec_ssh_cmd, Device};
use crate::error::{Error, ExitStatusExt, RunOutcome};
use crate::remote::{remote_path_token, spec_remote_path_token};
use crate::text::{
    contains_char, lemma_replace_concat, lemma_replace_removes, lemma_replace_single, join, join_strings, owned, push_char, replace_char, replace_char_by,
    replace_char_str, str_eq, strip_prefix, strip_prefix_str, trim_end_char, trim_end_char_str,
    views,
};

verus! {

/// The concrete file-transfer backend used for a deploy.
#[derive(Debug, Clone, Copy, PartialEq, Eq, Structural)]
pub enum Transport {
    /// `rsync` over SSH.
    Rsync,
    /// `sftp` in batch mode — part of OpenSSH, available on Windows.
    Sftp,
}

/// Configured transport preference (`transport = "auto" | "rsync" | "sftp"`).
#[derive(Debug, Clone, Copy, PartialEq, Eq, Structural)]
pub enum TransportChoice {
    /// Prefer `rsync`, fall back to `sftp` when `rsync` is not installed.
    Auto,
    /// Always use `rsync`; error if it is missing.
    Rsync,
    /// Always use `sftp`; error if it is missing.
    Sftp,
}

impl Default for TransportChoice {
    fn default() -> (r: TransportChoice)
        ensures
            r == TransportChoice::Auto,
    {
        TransportChoice::Auto
    }
}

/// The transport that a `transport` value names, if any.
pub open spec fn spec_parse_transport(v: Seq<char>) -> Option<TransportChoice> {
    if v == "auto"@ {
        Some(TransportChoice::Auto)
    } else if v == "rsync"@ {
        Some(TransportChoice::Rsync)
    } else if v == "sftp"@ {
        Some(TransportChoice::Sftp)
    } else {
        None
    }
}

impl TransportChoice {
    /// Parse the `transport` config value. Unknown values are an error naming the valid ones.
    pub fn parse(value: &str) -> (r: Result<TransportChoice, Error>)
        ensures
            match spec_parse_transport(value@) {
                Some(c) => r == Ok::<TransportChoice, Error>(c),
                None => (r matches Err(Error::UnknownTransport { value: v }) && v@ == value@),
            },
    {
        if str_eq(value, "auto") {
            Ok(TransportChoice::Auto)
        } else if str_eq(value, "rsync") {
            Ok(TransportChoice::Rsync)
        } else if str_eq(value, "sftp") {
            Ok(TransportChoice::Sftp)
        } else {
            Err(Error::UnknownTransport { value: owned(value) })
        }
    }
}

/// Whether `choice` resolved to `r`, given whether `rsync` was found and whether the
/// sftp program `sftp_cmd` was found.
pub open spec fn select_outcome(
    choice: TransportChoice,
    rsync_found: bool,
    sftp_found: bool,
    sftp_cmd: Seq<char>,
    r: Result<Transport, Error>,
) -> bool {
    match choice {
        TransportChoice::Rsync => if rsync_found {
            r == Ok::<Transport, Error>(Transport::Rsync)
        } else {
            r matches Err(Error::RsyncNotInstalled)
        },
        TransportChoice::Sftp => if sftp_found {
            r == Ok::<Transport, Error>(Transport::Sftp)
        } else {
            r matches Err(Error::SftpNotInstalled { program: p }) && p@ == sftp_cmd
        },
        TransportChoice::Auto => if rsync_found {
            r == Ok::<Transport, Error>(Transport::Rsync)
        } else if sftp_found {
            r == Ok::<Transport, Error>(Transport::Sftp)
        } else {
            r matches Err(Error::NoTransportTool { program: p }) && p@ == sftp_cmd
        },
    }
}

impl TransportChoice {
    /// The transport for this choice, given whether `rsync` and the sftp program
    /// `sftp_cmd` are installed.
    pub fn select_with(self, rsync_found: bool, sftp_found: bool, sftp_cmd: &str) -> (r: Result<
        Transport,
        Error,
    >)
        ensures
            select_outcome(self, rsync_found, sftp_found, sftp_cmd@, r),
    {
        match self {
            TransportChoice::Rsync => if rsync_found {
                Ok(Transport::Rsync)
            } else {
                Err(Error::RsyncNotInstalled)
            },
            TransportChoice::Sftp => if sftp_found {
                Ok(Transport::Sftp)
            } else {
                Err(Error::SftpNotInstalled { program: owned(sftp_cmd) })
            },
            TransportChoice::Auto => if rsync_found {
                Ok(Transport::Rsync)
            } else if sftp_found {
                Ok(Transport::Sftp)
            } else {
                Err(Error::NoTransportTool { program: owned(sftp_cmd) })
            },
        }
    }

    /// Resolve to a concrete [`Transport`], verifying the required tool is available.
    /// `sftp_cmd` is the device's `sftp` executable (see `Device::sftp_cmd`). Whether a
    /// tool is installed is the machine's answer; the result is the one for some answer.
    pub fn select(self, sftp_cmd: &str) -> (r: Result<Transport, Error>)
        ensures
            exists|rf: bool, sf: bool| #[trigger] select_outcome(self, rf, sf, sftp_cmd@, r),
    {
        let (rf, sf) = match self {
            TransportChoice::Rsync => (found_on_path("rsync"), false),
            TransportChoice::Sftp => (false, found_on_path(sftp_cmd)),
            TransportChoice::Auto => {
                if found_on_path("rsync") {
                    (true, false)
                } else {
                    (false, found_on_path(sftp_cmd))
                }
            },
        };
        let r = self.select_with(rf, sf, sftp_cmd);
        assert(select_outcome(self, rf, sf, sftp_cmd@, r));
        r
    }
}

// ── paths and quoting ────────────────────────────────────────────────────────────────

/// `target/[<target>/]<profile>/<binary>`.
pub open spec fn spec_local_binary_path(target: Option<Seq<char>>, release: bool, binary_name: Seq<char>) -> Seq<char> {
    let profile = if release {
        "release"@
    } else {
        "debug"@
    };
    match target {
        Some(t) => "target/"@ + t + "/"@ + profile + "/"@ + binary_name,
        None => "target/"@ + profile + "/"@ + binary_name,
    }
}

/// Path of the built binary inside `target/`, relative to the project root.
pub fn local_binary_path(target: Option<&str>, release: bool, binary_name: &str) -> (r: String)
    ensures
        r@ == spec_local_binary_path(
            match target {
                Some(t) => Some(t@),
                None => None,
            },
            release,
            binary_name@,
        ),
{
    let profile = if release {
        "release"
    } else {
        "debug"
    };
    let mut out = owned("target/");
    if let Some(t) = target {
        out.append(t);
        out.append("/");
    }
    out.append(profile);
    out.append("/");
    out.append(binary_name);
    out
}

/// A path quoted for sftp's batch parser: backslashes become `/`, `"` is escaped, and
/// the whole is double-quoted.
pub open spec fn spec_sftp_quote(path: Seq<char>) -> Seq<char> {
    seq!['"'] + replace_char(replace_char(path, '\\', seq!['/']), '"', seq!['\\', '"']) + seq!['"']
}

/// Quote a path for sftp's batch parser.
pub fn sftp_quote(path: &str) -> (r: String)
    ensures
        r@ == spec_sftp_quote(path@),
{
    let slashed = replace_char_by(path, '\\', '/');
    let mut esc = String::new();
    push_char(&mut esc, '\\');
    push_char(&mut esc, '"');
    assert(esc@ =~= seq!['\\', '"']);
    let inner = replace_char_str(slashed.as_str(), '"', esc.as_str());
    let mut out = String::new();
    push_char(&mut out, '"');
    out.append(inner.as_str());
    push_char(&mut out, '"');
    assert(out@ =~= spec_sftp_quote(path@));
    out
}

/// How sftp's batch parser reads a double-quoted argument: the characters between the
/// quotes, a backslash taking the next character literally. `None` when `w` is not one
/// quoted argument.
pub open spec fn sftp_read_quoted(w: Seq<char>) -> Option<Seq<char>> {
    if w.len() >= 2 && w[0] == '"' {
        sftp_read_inner(w.skip(1))
    } else {
        None
    }
}

/// The reading of the rest of a double-quoted argument, up to its closing quote, which
/// must be the last character.
pub open spec fn sftp_read_inner(w: Seq<char>) -> Option<Seq<char>>
    decreases w.len(),
{
    if w.len() == 0 {
        None
    } else if w[0] == '"' {
        if w.len() == 1 {
            Some(seq![])
        } else {
            None
        }
    } else if w[0] == '\\' {
        if w.len() < 2 {
            None
        } else {
            match sftp_read_inner(w.skip(2)) {
                Some(r) => Some(seq![w[1]] + r),
                None => None,
            }
        }
    } else {
        match sftp_read_inner(w.skip(1)) {
            Some(r) => Some(seq![w[0]] + r),
            None => None,
        }
    }
}

proof fn lemma_sftp_read_inner(t: Seq<char>)
    requires
        !t.contains('\\'),
    ensures
        sftp_read_inner(replace_char(t, '"', seq!['\\', '"']) + seq!['"']) == Some(t),
    decreases t.len(),
{
    let q = seq!['\\', '"'];
    if t.len() == 0 {
        assert(replace_char(t, '"', q) + seq!['"'] =~= seq!['"']);
        assert(t =~= Seq::<char>::empty());
    } else {
        let c = t[0];
        let rest = t.skip(1);
        assert(t =~= seq![c] + rest);
        assert(!rest.contains('\\')) by {
            if rest.contains('\\') {
                let k = choose|k: int| 0 <= k < rest.len() && rest[k] == '\\';
                assert(t[k + 1] == '\\');
            }
        }
        lemma_replace_concat(seq![c], rest, '"', q);
        lemma_replace_single(c, '"', q);
        lemma_sftp_read_inner(rest);
        let rr = replace_char(rest, '"', q);
        let w = replace_char(t, '"', q) + seq!['"'];
        if c == '"' {
            assert(w =~= q + (rr + seq!['"']));
            assert(w.skip(2) =~= rr + seq!['"']);
            assert(seq![w[1]] + rest =~= t);
        } else {
            assert(c != '\\') by {
                assert(t[0] == c);
            }
            assert(w =~= seq![c] + (rr + seq!['"']));
            assert(w.skip(1) =~= rr + seq!['"']);
        }
    }
}

/// sftp's batch parser reads a quoted path back as one argument: the path itself, with
/// each backslash turned into a forward slash.
pub proof fn lemma_sftp_quote_reads_back(path: Seq<char>)
    ensures
        sftp_read_quoted(spec_sftp_quote(path)) == Some(replace_char(path, '\\', seq!['/'])),
{
    let slashed = replace_char(path, '\\', seq!['/']);
    lemma_replace_removes(path, '\\', '/');
    lemma_sftp_read_inner(slashed);
    let inner = replace_char(slashed, '"', seq!['\\', '"']);
    let w = spec_sftp_quote(path);
    assert(w =~= seq!['"'] + (inner + seq!['"']));
    assert(w.skip(1) =~= inner + seq!['"']);
}

/// A remote path adapted for sftp, which has no shell to expand `~`: `~/rest` becomes the
/// relative `rest` (an sftp session starts in the login user's home) and `~` becomes `.`.
pub open spec fn spec_sftp_path(path: Seq<char>) -> Seq<char> {
    match strip_prefix(path, seq!['~', '/']) {
        Some(rest) => rest,
        None => if path == seq!['~'] {
            seq!['.']
        } else {
            path
        },
    }
}

/// Adapt a remote path for sftp, which has no shell to expand `~`. An sftp session
/// starts in the login user's home, so a leading `~/` becomes a plain relative path.
pub fn sftp_path(path: &str) -> (r: String)
    ensures
        r@ == spec_sftp_path(path@),
{
    let mut ts = String::new();
    push_char(&mut ts, '~');
    push_char(&mut ts, '/');
    assert(ts@ =~= seq!['~', '/']);
    match strip_prefix_str(path, ts.as_str()) {
        Some(rest) => rest,
        None => {
            if str_eq(path, "~") {
                proof {
                    reveal_strlit("~");
                    assert("~"@ =~= seq!['~']);
                }
                let mut dot = String::new();
                push_char(&mut dot, '.');
                assert(dot@ =~= seq!['.']);
                dot
            } else {
                proof {
                    reveal_strlit("~");
                    assert("~"@ =~= seq!['~']);
                }
                owned(path)
            }
        },
    }
}

/// Render a local path for an sftp `put`: sftp's tokeniser treats `\` as an escape, so
/// Windows separators become forward slashes.
pub fn local_path_arg(path: &str) -> (r: String)
    ensures
        r@ == replace_char(path@, '\\', seq!['/']),
{
    replace_char_by(path, '\\', '/')
}

/// The two sftp batch lines for the binary: upload it, then restore its executable bit.
pub open spec fn spec_sftp_binary_lines(local: Seq<char>, remote: Seq<char>) -> Seq<Seq<char>> {
    seq![
        "put "@ + spec_sftp_quote(local) + " "@ + spec_sftp_quote(remote),
        "chmod 755 "@ + spec_sftp_quote(remote),
    ]
}

/// sftp batch for the binary: upload, then restore the executable bit.
///
/// Unlike `rsync -a`, the SFTP protocol's `put` does not carry permissions over — the file
/// lands with the server's default mode and the device refuses to exec it.
pub fn sftp_binary_lines(local: &str, remote: &str) -> (r: Vec<String>)
    ensures
        views(r@) == spec_sftp_binary_lines(local@, remote@),
{
    let ql = sftp_quote(local);
    let qr = sftp_quote(remote);
    let mut put = owned("put ");
    put.append(ql.as_str());
    put.append(" ");
    put.append(qr.as_str());
    let mut chmod = owned("chmod 755 ");
    chmod.append(qr.as_str());
    let mut v: Vec<String> = Vec::new();
    v.push(put);
    v.push(chmod);
    assert(views(v@) =~= spec_sftp_binary_lines(local@, remote@));
    v
}

/// One word of rsync's `-e` value: backslashes become `/` (rsync re-tokenises the value
/// and treats `\` as an escape), and a word with a space is double-quoted.
pub open spec fn spec_rsh_word(word: Seq<char>) -> Seq<char> {
    let w = replace_char(word, '\\', seq!['/']);
    if w.contains(' ') {
        seq!['"'] + w + seq!['"']
    } else {
        w
    }
}

/// Normalise one word of the `-e` string.
pub fn rsh_word(word: &str) -> (r: String)
    ensures
        r@ == spec_rsh_word(word@),
{
    let w = replace_char_by(word, '\\', '/');
    if contains_char(w.as_str(), ' ') {
        let mut out = String::new();
        push_char(&mut out, '"');
        out.append(w.as_str());
        push_char(&mut out, '"');
        out
    } else {
        w
    }
}

/// The `-e` (remote shell) value for rsync, or `None` when rsync's own default (`ssh`
/// from `PATH`, no key) already does the right thing.
pub open spec fn spec_rsync_rsh(ssh: Seq<char>, key: Option<Seq<char>>) -> Option<Seq<char>> {
    if ssh == "ssh"@ && key is None {
        None
    } else {
        match key {
            Some(k) => Some(spec_rsh_word(ssh) + " -i "@ + spec_rsh_word(k)),
            None => Some(spec_rsh_word(ssh)),
        }
    }
}

/// Build the `-e` (remote shell) value for rsync.
pub fn rsync_rsh(ssh: &str, key: Option<&str>) -> (r: Option<String>)
    ensures
        r.deep_view() == spec_rsync_rsh(
            ssh@,
            match key {
                Some(k) => Some(k@),
                None => None,
            },
        ),
{
    if str_eq(ssh, "ssh") && key.is_none() {
        return None;
    }
    let mut out = rsh_word(ssh);
    if let Some(k) = key {
        out.append(" -i ");
        let kw = rsh_word(k);
        out.append(kw.as_str());
    }
    Some(out)
}

/// `mkdir -p` followed by the remote-path token of each directory.
pub open spec fn spec_mkdir_command(dirs: Seq<Seq<char>>) -> Seq<char> {
    "mkdir -p "@ + join(dirs.map_values(|d: Seq<char>| spec_remote_path_token(d)), " "@)
}

/// Build the remote `mkdir -p …` command line. Paths are tokenised for the remote shell,
/// so a leading `~/` expands against the *device* user's home.
pub fn mkdir_command(dirs: &[String]) -> (r: String)
    ensures
        r@ == spec_mkdir_command(views(dirs@)),
{
    let mut tokens: Vec<String> = Vec::new();
    let ghost ts = views(dirs@).map_values(|d: Seq<char>| spec_remote_path_token(d));
    for i in 0..dirs.len()
        invariant
            ts == views(dirs@).map_values(|d: Seq<char>| spec_remote_path_token(d)),
            views(tokens@) == ts.take(i as int),
    {
        let ghost before = tokens@;
        tokens.push(remote_path_token(dirs[i].as_str()));
        assert(views(tokens@) =~= ts.take(i + 1)) by {
            assert(views(tokens@) =~= views(before).push(ts[i as int]));
        }
    }
    assert(ts.take(dirs@.len() as int) =~= ts);
    let mut out = owned("mkdir -p ");
    let joined = join_strings(&tokens, " ");
    out.append(joined.as_str());
    out
}

// ── transfer planning ────────────────────────────────────────────────────────────────

/// One entry found under a local sync directory.
#[derive(Debug)]
pub struct LocalEntry {
    /// The entry's local path, as the host's filesystem spells it.
    pub path: String,
    /// The names leading from the sync directory down to the entry.
    pub rel: Vec<String>,
    /// Whether the entry is a directory.
    pub is_dir: bool,
}

/// What a deploy has to create and upload, resolved before anything touches the device.
#[derive(Debug)]
pub struct TransferPlan {
    /// Remote directories to create, in order.
    pub dirs: Vec<String>,
    /// `(local, remote)` file pairs. Only filled for the sftp transport, which uploads
    /// file by file; rsync walks the tree itself.
    pub files: Vec<(String, String)>,
}

/// The remote directory for a sync directory: `<deploy_path>/<dir without trailing '/'>`.
pub open spec fn spec_sync_root(deploy_path: Seq<char>, dir: Seq<char>) -> Seq<char> {
    deploy_path + "/"@ + trim_end_char(dir, '/')
}

/// The remote path of an entry below `root`.
pub open spec fn spec_entry_remote(root: Seq<char>, e: LocalEntry) -> Seq<char> {
    root + "/"@ + join(views(e.rel@), "/"@)
}

/// The remote directories for the directory entries of a listing, in listing order.
pub open spec fn listing_dirs(root: Seq<char>, es: Seq<LocalEntry>) -> Seq<Seq<char>>
    decreases es.len(),
{
    if es.len() == 0 {
        seq![]
    } else {
        listing_dirs(root, es.drop_last()) + if es.last().is_dir {
            seq![spec_entry_remote(root, es.last())]
        } else {
            seq![]
        }
    }
}

/// The `(local, remote)` pairs for the file entries of a listing, in listing order.
pub open spec fn listing_files(root: Seq<char>, es: Seq<LocalEntry>) -> Seq<(Seq<char>, Seq<char>)>
    decreases es.len(),
{
    if es.len() == 0 {
        seq![]
    } else {
        listing_files(root, es.drop_last()) + if es.last().is_dir {
            seq![]
        } else {
            seq![(replace_char(es.last().path@, '\\', seq!['/']), spec_entry_remote(root, es.last()))]
        }
    }
}

/// The listing of the `j`-th sync directory (empty when none was given).
pub open spec fn listing_at(ls: Seq<Vec<LocalEntry>>, j: int) -> Seq<LocalEntry> {
    if 0 <= j < ls.len() {
        ls[j]@
    } else {
        seq![]
    }
}

/// The planned directories: the deploy path, then for each sync directory its remote
/// root and, for sftp, the remote directories of its listing.
pub open spec fn plan_dirs(deploy_path: Seq<char>, sync: Seq<Seq<char>>, ls: Seq<Vec<LocalEntry>>, sftp: bool) -> Seq<
    Seq<char>,
>
    decreases sync.len(),
{
    if sync.len() == 0 {
        seq![deploy_path]
    } else {
        let k = sync.len() - 1;
        let root = spec_sync_root(deploy_path, sync[k]);
        plan_dirs(deploy_path, sync.drop_last(), ls, sftp) + seq![root] + if sftp {
            listing_dirs(root, listing_at(ls, k))
        } else {
            seq![]
        }
    }
}

/// The planned files: for sftp, the files of each sync directory's listing.
pub open spec fn plan_files(deploy_path: Seq<char>, sync: Seq<Seq<char>>, ls: Seq<Vec<LocalEntry>>, sftp: bool) -> Seq<
    (Seq<char>, Seq<char>),
>
    decreases sync.len(),
{
    if sync.len() == 0 || !sftp {
        seq![]
    } else {
        let k = sync.len() - 1;
        let root = spec_sync_root(deploy_path, sync[k]);
        plan_files(deploy_path, sync.drop_last(), ls, sftp) + listing_files(root, listing_at(ls, k))
    }
}

/// With rsync nothing is listed: the plan creates the deploy path and then the remote
/// root of each sync directory, in order, and uploads no files itself, whatever the
/// listings are.
pub proof fn lemma_rsync_plan_ignores_listings(deploy_path: Seq<char>, sync: Seq<Seq<char>>, ls: Seq<Vec<LocalEntry>>)
    ensures
        plan_dirs(deploy_path, sync, ls, false) == seq![deploy_path] + sync.map_values(
            |s: Seq<char>| spec_sync_root(deploy_path, s),
        ),
        plan_files(deploy_path, sync, ls, false) == Seq::<(Seq<char>, Seq<char>)>::empty(),
    decreases sync.len(),
{
    if sync.len() > 0 {
        lemma_rsync_plan_ignores_listings(deploy_path, sync.drop_last(), ls);
        let f = |s: Seq<char>| spec_sync_root(deploy_path, s);
        assert(sync.map_values(f) =~= sync.drop_last().map_values(f).push(f(sync.last())));
        assert(plan_dirs(deploy_path, sync, ls, false) =~= seq![deploy_path] + sync.map_values(f));
    } else {
        assert(seq![deploy_path] + sync.map_values(|s: Seq<char>| spec_sync_root(deploy_path, s))
            =~= seq![deploy_path]);
    }
}

/// The remote path of `e` below `root`.
fn entry_remote(root: &str, e: &LocalEntry) -> (r: String)
    ensures
        r@ == spec_entry_remote(root@, *e),
{
    let mut out = owned(root);
    out.append("/");
    let rel = join_strings(&e.rel, "/");
    out.append(rel.as_str());
    out
}

/// Record the entries of one listing against the remote directory `root`.
fn add_listing(
    root: &str,
    entries: &Vec<LocalEntry>,
    dirs: &mut Vec<String>,
    files: &mut Vec<(String, String)>,
)
    ensures
        views(final(dirs)@) == views(old(dirs)@) + listing_dirs(root@, entries@),
        crate::command::env_views(final(files)@) == crate::command::env_views(old(files)@)
            + listing_files(root@, entries@),
{
    let ghost d0 = views(dirs@);
    let ghost f0 = crate::command::env_views(files@);
    let ghost es = entries@;
    assert(es.take(0) =~= Seq::<LocalEntry>::empty());
    assert(d0 + listing_dirs(root@, es.take(0)) =~= d0);
    assert(f0 + listing_files(root@, es.take(0)) =~= f0);
    for i in 0..entries.len()
        invariant
            es == entries@,
            views(dirs@) == d0 + listing_dirs(root@, es.take(i as int)),
            crate::command::env_views(files@) == f0 + listing_files(root@, es.take(i as int)),
    {
        let e = &entries[i];
        let remote = entry_remote(root, e);
        let t1 = Ghost(es.take(i + 1));
        assert(t1@.drop_last() =~= es.take(i as int));
        assert(t1@.last() == es[i as int]);
        if e.is_dir {
            let ghost before = dirs@;
            dirs.push(remote);
            assert(views(dirs@) =~= d0 + listing_dirs(root@, t1@)) by {
                assert(views(dirs@) =~= views(before).push(remote@));
            }
            assert(listing_files(root@, t1@) =~= listing_files(root@, es.take(i as int)));
        } else {
            let ghost before = files@;
            let local = local_path_arg(e.path.as_str());
            let ghost pair = (local@, remote@);
            files.push((local, remote));
            assert(crate::command::env_views(files@) =~= f0 + listing_files(root@, t1@)) by {
                assert(crate::command::env_views(files@) =~= crate::command::env_views(before).push(pair));
            }
            assert(listing_dirs(root@, t1@) =~= listing_dirs(root@, es.take(i as int)));
        }
    }
    assert(es.take(es.len() as int) =~= es);
}

/// The remote root of a sync directory.
fn sync_root(deploy_path: &str, dir: &str) -> (r: String)
    ensures
        r@ == spec_sync_root(deploy_path@, dir@),
{
    let mut out = owned(deploy_path);
    out.append("/");
    let name = trim_end_char_str(dir, '/');
    out.append(name.as_str());
    out
}

/// Resolve the transfer plan: the deploy path, every `sync_dirs` root, and — for sftp —
/// the contents of those roots as listed in `listings` (one listing per sync directory,
/// in the order of `sync_dirs`, each in walk order as `listing::order_listing` gives it).
///
/// Collecting *all* directories here means one `ssh … mkdir -p` creates them, so the sftp
/// batch is pure `put`.
pub fn plan_transfer(
    device: &Device,
    deploy_path: &str,
    transport: Transport,
    listings: &[Vec<LocalEntry>],
) -> (r: TransferPlan)
    ensures
        views(r.dirs@) == plan_dirs(
            deploy_path@,
            views(device.sync_dirs@),
            listings@,
            transport == Transport::Sftp,
        ),
        crate::command::env_views(r.files@) == plan_files(
            deploy_path@,
            views(device.sync_dirs@),
            listings@,
            transport == Transport::Sftp,
        ),
{
    let sftp = transport == Transport::Sftp;
    let mut dirs: Vec<String> = Vec::new();
    dirs.push(owned(deploy_path));
    let mut files: Vec<(String, String)> = Vec::new();
    let ghost sync = views(device.sync_dirs@);
    let ghost ls = listings@;
    assert(sync.take(0) =~= Seq::<Seq<char>>::empty());
    assert(views(dirs@) =~= seq![deploy_path@]);
    assert(crate::command::env_views(files@) =~= Seq::<(Seq<char>, Seq<char>)>::empty());
    for j in 0..device.sync_dirs.len()
        invariant
            sync == views(device.sync_dirs@),
            ls == listings@,
            sftp == (transport == Transport::Sftp),
            views(dirs@) == plan_dirs(deploy_path@, sync.take(j as int), ls, sftp),
            crate::command::env_views(files@) == plan_files(deploy_path@, sync.take(j as int), ls, sftp),
    {
        let root = sync_root(deploy_path, device.sync_dirs[j].as_str());
        let t1 = Ghost(sync.take(j + 1));
        assert(t1@.drop_last() =~= sync.take(j as int));
        assert(t1@[j as int] == sync[j as int]);
        let ghost before = dirs@;
        dirs.push(owned(root.as_str()));
        assert(views(dirs@) =~= views(before).push(root@));
        if sftp && j < listings.len() {
            add_listing(root.as_str(), &listings[j], &mut dirs, &mut files);
        } else {
            assert(listing_at(ls, j as int) =~= Seq::<LocalEntry>::empty() || !sftp);
            if sftp {
                assert(listing_dirs(root@, listing_at(ls, j as int)) =~= Seq::<Seq<char>>::empty());
                assert(listing_files(root@, listing_at(ls, j as int)) =~= Seq::<(Seq<char>, Seq<char>)>::empty());
            }
        }
        assert(views(dirs@) =~= plan_dirs(deploy_path@, t1@, ls, sftp));
        assert(crate::command::env_views(files@) =~= plan_files(deploy_path@, t1@, ls, sftp));
    }
    assert(sync.take(sync.len() as int) =~= sync);
    TransferPlan { dirs, files }
}

/// One `put` per planned file, into the remote path adapted for sftp.
pub open spec fn spec_sftp_put_lines(files: Seq<(Seq<char>, Seq<char>)>) -> Seq<Seq<char>> {
    files.map_values(
        |f: (Seq<char>, Seq<char>)|
            "put "@ + spec_sftp_quote(f.0) + " "@ + spec_sftp_quote(spec_sftp_path(f.1)),
    )
}

/// One `put` per planned file. Uploading file by file (rather than `put -r`) keeps
/// rsync's trailing-slash "contents into dst" semantics. The directories are already in
/// place — see [`plan_transfer`].
pub fn sftp_put_lines(plan: &TransferPlan) -> (r: Vec<String>)
    ensures
        views(r@) == spec_sftp_put_lines(crate::command::env_views(plan.files@)),
{
    let ghost fs = crate::command::env_views(plan.files@);
    let ghost want = spec_sftp_put_lines(fs);
    let mut out: Vec<String> = Vec::new();
    for i in 0..plan.files.len()
        invariant
            fs == crate::command::env_views(plan.files@),
            want == spec_sftp_put_lines(fs),
            views(out@) == want.take(i as int),
    {
        let (local, remote) = (&plan.files[i].0, &plan.files[i].1);
        let mut line = owned("put ");
        let ql = sftp_quote(local.as_str());
        line.append(ql.as_str());
        line.append(" ");
        let sp = sftp_path(remote.as_str());
        let qr = sftp_quote(sp.as_str());
        line.append(qr.as_str());
        let ghost before = out@;
        out.push(line);
        assert(views(out@) =~= want.take(i + 1)) by {
            assert(views(out@) =~= views(before).push(want[i as int]));
        }
    }
    assert(want.take(want.len() as int) =~= want);
    out
}


// ── the deploy itself ────────────────────────────────────────────────────────────────

/// Where a deploy goes: the transport chosen for the device, its SSH host and its
/// deploy path.
#[derive(Debug)]
pub struct DeployTarget {
    pub transport: Transport,
    pub host: String,
    pub deploy_path: String,
}

/// The transport that `choice` settles on, given whether `rsync` and the sftp program
/// were found; `None` when the tool it needs is missing.
pub open spec fn spec_select(choice: TransportChoice, rsync_found: bool, sftp_found: bool) -> Option<Transport> {
    match choice {
        TransportChoice::Rsync => if rsync_found {
            Some(Transport::Rsync)
        } else {
            None
        },
        TransportChoice::Sftp => if sftp_found {
            Some(Transport::Sftp)
        } else {
            None
        },
        TransportChoice::Auto => if rsync_found {
            Some(Transport::Rsync)
        } else if sftp_found {
            Some(Transport::Sftp)
        } else {
            None
        },
    }
}

/// Whether `r` is the deploy target of `d`, given which tools were found: the transport
/// is selected first (its error comes first), then the SSH host and the deploy path are
/// required, in that order.
pub open spec fn target_outcome(d: Device, rsync_found: bool, sftp_found: bool, r: Result<Option<DeployTarget>, Error>) -> bool {
    match spec_select(d.transport, rsync_found, sftp_found) {
        None => r matches Err(e) && select_outcome(
            d.transport,
            rsync_found,
            sftp_found,
            spec_sftp_cmd(d),
            Err::<Transport, Error>(e),
        ),
        Some(t) => if d.ssh_host is None {
            r matches Err(Error::MissingSshHost)
        } else if d.deploy_path is None {
            r matches Err(Error::MissingDeployPath)
        } else {
            r matches Ok(Some(x)) && x.transport == t && x.host@ == d.ssh_host->0@ && x.deploy_path@
                == d.deploy_path->0@
        },
    }
}

/// Select the transport and require the SSH settings.
fn resolve_target(device: &Device) -> (r: Result<Option<DeployTarget>, Error>)
    ensures
        exists|rf: bool, sf: bool| #[trigger] target_outcome(*device, rf, sf, r),
{
    let t = device.transport.select(device.sftp_cmd());
    let ghost (rf, sf): (bool, bool) = choose|rf: bool, sf: bool|
        #[trigger] select_outcome(device.transport, rf, sf, spec_sftp_cmd(*device), t);
    let tr = match t {
        Ok(tr) => tr,
        Err(e) => {
            let r = Err(e);
            assert(target_outcome(*device, rf, sf, r));
            return r;
        },
    };
    let r = match device.require_ssh() {
        Ok((h, p)) => Ok(Some(DeployTarget { transport: tr, host: owned(h), deploy_path: owned(p) })),
        Err(e) => Err(e),
    };
    assert(target_outcome(*device, rf, sf, r));
    r
}

/// The target of a deploy of `device`: `None` for the desktop device, which is not
/// deployed to. Whether the transport's tool is installed is the machine's answer; the
/// result is the one for some answer.
pub fn deploy_target(device: &Device) -> (r: Result<Option<DeployTarget>, Error>)
    ensures
        device.name@ == "desktop"@ ==> r matches Ok(None),
        device.name@ != "desktop"@ ==> exists|rf: bool, sf: bool| #[trigger] target_outcome(*device, rf, sf, r),
{
    if device.is_desktop() {
        return Ok(None);
    }
    resolve_target(device)
}

/// The target of a sync of `device`'s `sync_dirs`: `None` when it has none.
pub fn sync_target(device: &Device) -> (r: Result<Option<DeployTarget>, Error>)
    ensures
        device.sync_dirs@.len() == 0 ==> r matches Ok(None),
        device.sync_dirs@.len() != 0 ==> exists|rf: bool, sf: bool| #[trigger] target_outcome(*device, rf, sf, r),
{
    if device.sync_dirs.len() == 0 {
        return Ok(None);
    }
    resolve_target(device)
}

/// The commands of a deploy, and how it ends.
#[derive(Debug)]
pub struct DeploySteps {
    /// The commands to run, in order, stopping at the first one that fails.
    pub commands: Vec<Invocation>,
    /// The error to report once every command has succeeded, when the deploy cannot go on.
    pub failure: Option<Error>,
}

impl DeploySteps {
    /// The first command to run: the first one, when there is any.
    pub fn first(&self) -> (r: Option<usize>)
        ensures
            self.commands@.len() > 0 ==> r == Some(0usize),
            self.commands@.len() == 0 ==> r is None,
    {
        if self.commands.len() > 0 {
            Some(0)
        } else {
            None
        }
    }

    /// What follows once command `i` has ended with `outcome`: when it could not start or
    /// did not succeed, the deploy stops with the error naming it, and no later command
    /// runs; otherwise the next command, or none after the last.
    pub fn after(&self, i: usize, outcome: RunOutcome) -> (r: Result<Option<usize>, Error>)
        requires
            i < self.commands@.len(),
        ensures
            match outcome {
                RunOutcome::NotStarted { reason } => (r matches Err(Error::SpawnFailed { cmd: c, reason: e })
                    && c@ == self.commands@[i as int].label@ && e@ == reason@),
                RunOutcome::Finished { success, status } => if success {
                    if i + 1 < self.commands@.len() {
                        r == Ok::<Option<usize>, Error>(Some((i + 1) as usize))
                    } else {
                        r == Ok::<Option<usize>, Error>(None)
                    }
                } else {
                    (r matches Err(Error::Exited { cmd: c, status: s }) && c@ == self.commands@[i as int].label@
                        && s@ == status@)
                },
            },
    {
        let n = self.commands.len();
        match outcome.require_success(self.commands[i].label.as_str()) {
            Err(e) => Err(e),
            Ok(()) => if i + 1 < n {
                Ok(Some(i + 1))
            } else {
                Ok(None)
            },
        }
    }

    /// How the deploy ends once every command has succeeded: with the planned failure, if
    /// there is one.
    pub fn finish(self) -> (r: Result<(), Error>)
        ensures
            match self.failure {
                Some(e) => r == Err::<(), Error>(e),
                None => r is Ok,
            },
    {
        match self.failure {
            Some(e) => Err(e),
            None => Ok(()),
        }
    }
}

/// The models of a list of invocations.
pub open spec fn invocation_views(v: Seq<Invocation>) -> Seq<InvocationView> {
    v.map_values(|i: Invocation| i@)
}

/// `-i <key>` when the device has an SSH key.
pub open spec fn key_args(d: Device) -> Seq<Seq<char>> {
    match d.ssh_key {
        Some(k) => seq!["-i"@, k@],
        None => seq![],
    }
}

/// `ssh [-i key] <host> -- mkdir -p <dirs>`: one call that creates every directory.
pub open spec fn mkdir_view(d: Device, host: Seq<char>, dirs: Seq<Seq<char>>) -> InvocationView {
    InvocationView {
        program: spec_ssh_cmd(d),
        args: key_args(d) + seq![host, "--"@, spec_mkdir_command(dirs)],
        env: seq![],
        stdin: None,
        label: "ssh mkdir"@,
    }
}

/// `rsync -avz [-e <rsh>] <src> <dst>`.
pub open spec fn rsync_view(d: Device, src: Seq<char>, dst: Seq<char>) -> InvocationView {
    InvocationView {
        program: "rsync"@,
        args: seq!["-avz"@] + match spec_rsync_rsh(spec_ssh_cmd(d), d.ssh_key.deep_view()) {
            Some(rsh) => seq!["-e"@, rsh],
            None => seq![],
        } + seq![src, dst],
        env: seq![],
        stdin: None,
        label: "rsync"@,
    }
}

/// `sftp -b - [-i key] <host>`, fed the batch `lines`, one per line.
pub open spec fn sftp_view(d: Device, host: Seq<char>, lines: Seq<Seq<char>>) -> InvocationView {
    InvocationView {
        program: spec_sftp_cmd(d),
        args: seq!["-b"@, "-"@] + key_args(d) + seq![host],
        env: seq![],
        stdin: Some(join(lines, "\n"@) + "\n"@),
        label: "sftp"@,
    }
}

/// The upload of the binary: `rsync` into `<deploy_path>/`, or an sftp batch that puts it
/// at `<deploy_path>/<binary>` and makes it executable.
pub open spec fn copy_view(d: Device, t: Transport, host: Seq<char>, deploy_path: Seq<char>, release: bool, binary: Seq<char>) -> InvocationView {
    let local = spec_local_binary_path(d.target.deep_view(), release, binary);
    match t {
        Transport::Rsync => rsync_view(d, local, host + ":"@ + deploy_path + "/"@),
        Transport::Sftp => sftp_view(
            d,
            host,
            spec_sftp_binary_lines(local, spec_sftp_path(deploy_path) + "/"@ + binary),
        ),
    }
}

/// One `rsync` per sync directory, copying its contents into its remote root.
pub open spec fn rsync_sync_views(d: Device, host: Seq<char>, deploy_path: Seq<char>) -> Seq<InvocationView> {
    views(d.sync_dirs@).map_values(
        |s: Seq<char>|
            rsync_view(d, trim_end_char(s, '/') + "/"@, host + ":"@ + spec_sync_root(deploy_path, s)),
    )
}

/// The transfer of the sync directories: per directory for rsync; for sftp one batch of
/// `put`s, or nothing when there are no files.
pub open spec fn sync_views(d: Device, t: Transport, host: Seq<char>, deploy_path: Seq<char>, files: Seq<(Seq<char>, Seq<char>)>) -> Seq<InvocationView> {
    match t {
        Transport::Rsync => rsync_sync_views(d, host, deploy_path),
        Transport::Sftp => if files.len() == 0 {
            seq![]
        } else {
            seq![sftp_view(d, host, spec_sftp_put_lines(files))]
        },
    }
}

/// Whether `r` are the steps of a deploy to `(t, host, deploy_path)`, with the binary
/// `binary` (`Some((release, name))`) or, for a sync, none; `ls` lists the sync
/// directories, and `ssh_found` / `sftp_found` say whether the ssh and sftp programs were
/// found. A sync of a device without sync directories plans nothing. Otherwise the
/// directories are created first; without ssh nothing runs, and an sftp upload without
/// the sftp program stops after them.
pub open spec fn steps_outcome(
    d: Device,
    t: Transport,
    host: Seq<char>,
    deploy_path: Seq<char>,
    binary: Option<(bool, Seq<char>)>,
    ls: Seq<Vec<LocalEntry>>,
    ssh_found: bool,
    sftp_found: bool,
    r: DeploySteps,
) -> bool {
    let sftp = t == Transport::Sftp;
    let sync = views(d.sync_dirs@);
    let files = plan_files(deploy_path, sync, ls, sftp);
    let mk = mkdir_view(d, host, plan_dirs(deploy_path, sync, ls, sftp));
    let copy = match binary {
        Some(b) => seq![copy_view(d, t, host, deploy_path, b.0, b.1)],
        None => seq![],
    };
    let needs_sftp = sftp && (binary is Some || files.len() > 0);
    if binary is None && sync.len() == 0 {
        &&& r.commands@.len() == 0
        &&& r.failure is None
    } else if !ssh_found {
        &&& r.commands@.len() == 0
        &&& r.failure matches Some(Error::SshNotFound { program }) && program@ == spec_ssh_cmd(d)
    } else if needs_sftp && !sftp_found {
        &&& invocation_views(r.commands@) == seq![mk]
        &&& r.failure matches Some(Error::SftpProgramNotFound { program }) && program@ == spec_sftp_cmd(d)
    } else {
        &&& invocation_views(r.commands@) == seq![mk] + copy + sync_views(d, t, host, deploy_path, files)
        &&& r.failure is None
    }
}

/// Every deploy and sync that gets to run anything starts with one `ssh … mkdir -p` that
/// creates all planned directories: the deploy path, each sync directory's root and,
/// for sftp, every directory below them; no transfer runs before it.
pub proof fn lemma_dirs_created_first(
    d: Device,
    t: Transport,
    host: Seq<char>,
    deploy_path: Seq<char>,
    binary: Option<(bool, Seq<char>)>,
    ls: Seq<Vec<LocalEntry>>,
    ssh_found: bool,
    sftp_found: bool,
    r: DeploySteps,
)
    requires
        steps_outcome(d, t, host, deploy_path, binary, ls, ssh_found, sftp_found, r),
        r.commands@.len() > 0,
    ensures
        r.commands@[0]@ == mkdir_view(
            d,
            host,
            plan_dirs(deploy_path, views(d.sync_dirs@), ls, t == Transport::Sftp),
        ),
        plan_dirs(deploy_path, views(d.sync_dirs@), ls, t == Transport::Sftp)[0] == deploy_path,
{
    assert(invocation_views(r.commands@)[0] == r.commands@[0]@);
    lemma_plan_dirs_starts_with_deploy_path(deploy_path, views(d.sync_dirs@), ls, t == Transport::Sftp);
}

/// Each planned command runs the program it should: the directories are created with the
/// device's ssh program (`ssh_program` when set, else `ssh`), and every transfer after
/// that uses `rsync`, or, for sftp, the device's sftp program (`sftp_program` when set,
/// else `sftp`).
pub proof fn lemma_deploy_programs(
    d: Device,
    t: Transport,
    host: Seq<char>,
    deploy_path: Seq<char>,
    binary: Option<(bool, Seq<char>)>,
    ls: Seq<Vec<LocalEntry>>,
    ssh_found: bool,
    sftp_found: bool,
    r: DeploySteps,
)
    requires
        steps_outcome(d, t, host, deploy_path, binary, ls, ssh_found, sftp_found, r),
        r.commands@.len() > 0,
    ensures
        r.commands@[0]@.program == match d.ssh_program {
            Some(p) => p@,
            None => "ssh"@,
        },
        forall|i: int|
            1 <= i < r.commands@.len() ==> (#[trigger] r.commands@[i])@.program == match t {
                Transport::Rsync => "rsync"@,
                Transport::Sftp => match d.sftp_program {
                    Some(p) => p@,
                    None => "sftp"@,
                },
            },
{
    let iv = invocation_views(r.commands@);
    assert(iv[0] == r.commands@[0]@);
    let sftp = t == Transport::Sftp;
    let sync = views(d.sync_dirs@);
    let files = plan_files(deploy_path, sync, ls, sftp);
    let copy = match binary {
        Some(b) => seq![copy_view(d, t, host, deploy_path, b.0, b.1)],
        None => seq![],
    };
    let sv = sync_views(d, t, host, deploy_path, files);
    assert forall|i: int| 1 <= i < r.commands@.len() implies (#[trigger] r.commands@[i])@.program == match t {
        Transport::Rsync => "rsync"@,
        Transport::Sftp => match d.sftp_program {
            Some(p) => p@,
            None => "sftp"@,
        },
    } by {
        assert(iv[i] == r.commands@[i]@);
        let mk = mkdir_view(d, host, plan_dirs(deploy_path, sync, ls, sftp));
        assert(iv == seq![mk] + copy + sv);
        if i - 1 < copy.len() {
            assert(iv[i] == copy[i - 1]);
        } else {
            let j = i - 1 - copy.len();
            assert(iv[i] == sv[j]);
        }
    }
}

/// rsync copies each sync directory's *contents* into its remote root: the source of
/// the `j`-th sync command is the directory, with any trailing slashes trimmed, followed
/// by one `/`, and its destination is `<host>:<deploy_path>/<directory>`. The sync
/// commands follow the `mkdir` (and the binary's copy, when there is one) in the order
/// of `sync_dirs`.
pub proof fn lemma_rsync_copies_contents(
    d: Device,
    host: Seq<char>,
    deploy_path: Seq<char>,
    binary: Option<(bool, Seq<char>)>,
    ls: Seq<Vec<LocalEntry>>,
    sftp_found: bool,
    r: DeploySteps,
    j: int,
)
    requires
        steps_outcome(d, Transport::Rsync, host, deploy_path, binary, ls, true, sftp_found, r),
        0 <= j < d.sync_dirs@.len(),
    ensures
        ({
            let k = 1 + (if binary is Some {
                1int
            } else {
                0int
            }) + j;
            let c = r.commands@[k]@;
            let dir = trim_end_char(d.sync_dirs@[j]@, '/');
            let src = c.args[c.args.len() - 2];
            &&& k < r.commands@.len()
            &&& c.program == "rsync"@
            &&& c.args.len() >= 3
            &&& c.args[0] == "-avz"@
            &&& src.len() > 0
            &&& src.last() == '/'
            &&& src.drop_last() == dir
            &&& c.args.last() == host + ":"@ + deploy_path + "/"@ + dir
        }),
{
    let sync = views(d.sync_dirs@);
    assert(sync[j] == d.sync_dirs@[j]@);
    let files = plan_files(deploy_path, sync, ls, false);
    let copy = match binary {
        Some(b) => seq![copy_view(d, Transport::Rsync, host, deploy_path, b.0, b.1)],
        None => seq![],
    };
    let sv = rsync_sync_views(d, host, deploy_path);
    let mk = mkdir_view(d, host, plan_dirs(deploy_path, sync, ls, false));
    let iv = invocation_views(r.commands@);
    assert(iv == seq![mk] + copy + sv);
    let k = 1 + copy.len() + j;
    assert(iv[k] == r.commands@[k]@);
    assert(iv[k] == sv[j]);
    let dir = trim_end_char(sync[j], '/');
    let src = dir + "/"@;
    reveal_strlit("/");
    assert(src.drop_last() =~= dir);
    let c = sv[j];
    let rsh = match spec_rsync_rsh(spec_ssh_cmd(d), d.ssh_key.deep_view()) {
        Some(x) => seq!["-e"@, x],
        None => Seq::<Seq<char>>::empty(),
    };
    assert(c.args == seq!["-avz"@] + rsh + seq![src, host + ":"@ + spec_sync_root(deploy_path, sync[j])]);
    assert(c.args[c.args.len() - 2] == src);
    assert(host + ":"@ + spec_sync_root(deploy_path, sync[j]) =~= host + ":"@ + deploy_path + "/"@ + dir);
}

proof fn lemma_plan_dirs_starts_with_deploy_path(deploy_path: Seq<char>, sync: Seq<Seq<char>>, ls: Seq<Vec<LocalEntry>>, sftp: bool)
    ensures
        plan_dirs(deploy_path, sync, ls, sftp).len() > 0,
        plan_dirs(deploy_path, sync, ls, sftp)[0] == deploy_path,
    decreases sync.len(),
{
    if sync.len() > 0 {
        lemma_plan_dirs_starts_with_deploy_path(deploy_path, sync.drop_last(), ls, sftp);
    }
}

/// `-i <key>` when the device has an SSH key.
pub(crate) fn key_args_vec(device: &Device) -> (r: Vec<String>)
    ensures
        views(r@) == key_args(*device),
{
    let mut v: Vec<String> = Vec::new();
    if let Some(k) = &device.ssh_key {
        v.push(owned("-i"));
        v.push(k.clone());
    }
    assert(views(v@) =~= key_args(*device));
    v
}

/// An invocation with no environment and no input.
pub(crate) fn plain_invocation(program: String, args: Vec<String>, label: &str) -> (r: Invocation)
    ensures
        r@ == (InvocationView {
            program: program@,
            args: views(args@),
            env: seq![],
            stdin: None,
            label: label@,
        }),
{
    let inv = Invocation { program, args, env: Vec::new(), stdin: None, label: owned(label) };
    assert(env_views(inv.env@) =~= Seq::<(Seq<char>, Seq<char>)>::empty());
    inv
}

/// Create the given directories on the device with a single `ssh … mkdir -p`.
fn mkdir_invocation(device: &Device, host: &str, dirs: &[String]) -> (r: Invocation)
    ensures
        r@ == mkdir_view(*device, host@, views(dirs@)),
{
    let head = key_args_vec(device);
    let mut tail: Vec<String> = Vec::new();
    tail.push(owned(host));
    tail.push(owned("--"));
    tail.push(mkdir_command(dirs));
    let args = args_then(head, tail.as_slice());
    assert(views(args@) =~= key_args(*device) + seq![host@, "--"@, spec_mkdir_command(views(dirs@))]);
    plain_invocation(owned(device.ssh_cmd()), args, "ssh mkdir")
}

/// `rsync -avz [-e <rsh>] <src> <dst>`.
fn rsync_invocation(device: &Device, src: &str, dst: &str) -> (r: Invocation)
    ensures
        r@ == rsync_view(*device, src@, dst@),
{
    let key: Option<&str> = match &device.ssh_key {
        Some(k) => Some(k.as_str()),
        None => None,
    };
    assert(match key {
        Some(k) => Some(k@),
        None => None,
    } == device.ssh_key.deep_view());
    let mut args: Vec<String> = Vec::new();
    args.push(owned("-avz"));
    if let Some(rsh) = rsync_rsh(device.ssh_cmd(), key) {
        args.push(owned("-e"));
        args.push(rsh);
    }
    args.push(owned(src));
    args.push(owned(dst));
    assert(views(args@) =~= rsync_view(*device, src@, dst@).args);
    plain_invocation(owned("rsync"), args, "rsync")
}

/// `sftp -b - [-i key] <host>`, fed `lines` on its standard input.
fn sftp_invocation(device: &Device, host: &str, lines: &Vec<String>) -> (r: Invocation)
    ensures
        r@ == sftp_view(*device, host@, views(lines@)),
{
    let mut head: Vec<String> = Vec::new();
    head.push(owned("-b"));
    head.push(owned("-"));
    let keys = key_args_vec(device);
    let head = args_then(head, keys.as_slice());
    let args = args_then(head, strings1(host).as_slice());
    assert(views(args@) =~= seq!["-b"@, "-"@] + key_args(*device) + seq![host@]);
    let mut script = join_strings(lines, "\n");
    script.append("\n");
    let inv = Invocation {
        program: owned(device.sftp_cmd()),
        args,
        env: Vec::new(),
        stdin: Some(script),
        label: owned("sftp"),
    };
    assert(env_views(inv.env@) =~= Seq::<(Seq<char>, Seq<char>)>::empty());
    inv
}

/// `<host>:<path>`.
fn host_path(host: &str, path: &str) -> (r: String)
    ensures
        r@ == host@ + ":"@ + path@,
{
    let mut out = owned(host);
    out.append(":");
    out.append(path);
    out
}

/// The upload of the binary.
fn copy_invocation(device: &Device, target: &DeployTarget, release: bool, binary_name: &str) -> (r: Invocation)
    ensures
        r@ == copy_view(*device, target.transport, target.host@, target.deploy_path@, release, binary_name@),
{
    let t: Option<&str> = match &device.target {
        Some(t) => Some(t.as_str()),
        None => None,
    };
    let local = local_binary_path(t, release, binary_name);
    assert(match t {
        Some(x) => Some(x@),
        None => None,
    } == device.target.deep_view());
    match target.transport {
        Transport::Rsync => {
            let mut dst = host_path(target.host.as_str(), target.deploy_path.as_str());
            dst.append("/");
            rsync_invocation(device, local.as_str(), dst.as_str())
        },
        Transport::Sftp => {
            let mut remote = sftp_path(target.deploy_path.as_str());
            remote.append("/");
            remote.append(binary_name);
            let lines = sftp_binary_lines(local.as_str(), remote.as_str());
            sftp_invocation(device, target.host.as_str(), &lines)
        },
    }
}

/// The steps of a deploy, given whether the ssh and sftp programs were found (see
/// [`steps_outcome`]).
fn steps_with(
    device: &Device,
    target: &DeployTarget,
    binary: Option<(bool, &str)>,
    listings: &[Vec<LocalEntry>],
    ssh_found: bool,
    sftp_found: bool,
) -> (r: DeploySteps)
    ensures
        steps_outcome(
            *device,
            target.transport,
            target.host@,
            target.deploy_path@,
            match binary {
                Some(b) => Some((b.0, b.1@)),
                None => None,
            },
            listings@,
            ssh_found,
            sftp_found,
            r,
        ),
{
    let ghost bin = match binary {
        Some(b) => Some((b.0, b.1@)),
        None => None,
    };
    let host = target.host.as_str();
    let deploy_path = target.deploy_path.as_str();
    if binary.is_none() && device.sync_dirs.len() == 0 {
        // Nothing to sync: nothing touches the device.
        return DeploySteps { commands: Vec::new(), failure: None };
    }
    let plan = plan_transfer(device, deploy_path, target.transport, listings);
    if !ssh_found {
        return DeploySteps {
            commands: Vec::new(),
            failure: Some(Error::SshNotFound { program: owned(device.ssh_cmd()) }),
        };
    }
    let mut commands: Vec<Invocation> = Vec::new();
    commands.push(mkdir_invocation(device, host, plan.dirs.as_slice()));
    let ghost mk = commands@[0]@;
    assert(invocation_views(commands@) =~= seq![mk]);
    let sftp = target.transport == Transport::Sftp;
    let needs_sftp = sftp && (binary.is_some() || plan.files.len() > 0);
    if needs_sftp && !sftp_found {
        return DeploySteps {
            commands,
            failure: Some(Error::SftpProgramNotFound { program: owned(device.sftp_cmd()) }),
        };
    }
    if let Some((release, name)) = binary {
        let ghost before = commands@;
        commands.push(copy_invocation(device, target, release, name));
        assert(invocation_views(commands@) =~= invocation_views(before).push(commands@.last()@));
    }
    let ghost head = invocation_views(commands@);
    assert(head =~= seq![mk] + match bin {
        Some(b) => seq![copy_view(*device, target.transport, host@, deploy_path@, b.0, b.1)],
        None => seq![],
    });
    let ghost files = env_views(plan.files@);
    match target.transport {
        Transport::Rsync => {
            let ghost want = rsync_sync_views(*device, host@, deploy_path@);
            let ghost sync = views(device.sync_dirs@);
            for j in 0..device.sync_dirs.len()
                invariant
                    sync == views(device.sync_dirs@),
                    want == rsync_sync_views(*device, host@, deploy_path@),
                    want.len() == sync.len(),
                    invocation_views(commands@) == head + want.take(j as int),
            {
                let dir = device.sync_dirs[j].as_str();
                let mut src = trim_end_char_str(dir, '/');
                src.append("/");
                let root = sync_root(deploy_path, dir);
                let dst = host_path(host, root.as_str());
                let inv = rsync_invocation(device, src.as_str(), dst.as_str());
                let ghost before = commands@;
                commands.push(inv);
                assert(invocation_views(commands@) =~= head + want.take(j + 1)) by {
                    assert(invocation_views(commands@) =~= invocation_views(before).push(want[j as int]));
                }
            }
            assert(want.take(want.len() as int) =~= want);
        },
        Transport::Sftp => {
            if plan.files.len() > 0 {
                let lines = sftp_put_lines(&plan);
                let ghost before = commands@;
                commands.push(sftp_invocation(device, host, &lines));
                assert(invocation_views(commands@) =~= invocation_views(before).push(
                    sftp_view(*device, host@, spec_sftp_put_lines(files)),
                ));
            } else {
                assert(invocation_views(commands@) =~= head + Seq::<InvocationView>::empty());
            }
        },
    }
    let r = DeploySteps { commands, failure: None };
    assert(invocation_views(r.commands@) == head + sync_views(*device, target.transport, host@, deploy_path@, files));
    assert(files == plan_files(deploy_path@, views(device.sync_dirs@), listings@, sftp));
    assert(head == seq![mkdir_view(*device, host@, plan_dirs(deploy_path@, views(device.sync_dirs@), listings@, sftp))] + match bin {
        Some(b) => seq![copy_view(*device, target.transport, host@, deploy_path@, b.0, b.1)],
        None => seq![],
    });
    r
}

/// The steps that copy the compiled binary to the device at `target` and sync any
/// configured `sync_dirs` (listed in `listings`, one per directory, for sftp), given
/// whether the ssh and sftp programs were found.
pub fn run_with(
    device: &Device,
    target: &DeployTarget,
    release: bool,
    binary_name: &str,
    listings: &[Vec<LocalEntry>],
    ssh_found: bool,
    sftp_found: bool,
) -> (r: DeploySteps)
    ensures
        steps_outcome(
            *device,
            target.transport,
            target.host@,
            target.deploy_path@,
            Some((release, binary_name@)),
            listings@,
            ssh_found,
            sftp_found,
            r,
        ),
{
    steps_with(device, target, Some((release, binary_name)), listings, ssh_found, sftp_found)
}

/// The steps that sync all `sync_dirs` to the device at `target`, without the binary,
/// given whether the ssh and sftp programs were found.
pub fn sync_with(
    device: &Device,
    target: &DeployTarget,
    listings: &[Vec<LocalEntry>],
    ssh_found: bool,
    sftp_found: bool,
) -> (r: DeploySteps)
    ensures
        steps_outcome(
            *device,
            target.transport,
            target.host@,
            target.deploy_path@,
            None,
            listings@,
            ssh_found,
            sftp_found,
            r,
        ),
{
    steps_with(device, target, None, listings, ssh_found, sftp_found)
}

/// Copy the compiled binary to the device and sync any configured `sync_dirs`: the steps
/// to run. Whether the ssh and sftp programs are installed is the machine's answer; the
/// steps are those for some answer.
pub fn run(
    device: &Device,
    target: &DeployTarget,
    release: bool,
    binary_name: &str,
    listings: &[Vec<LocalEntry>],
) -> (r: DeploySteps)
    ensures
        exists|ssh_found: bool, sftp_found: bool|
            #[trigger] steps_outcome(
                *device,
                target.transport,
                target.host@,
                target.deploy_path@,
                Some((release, binary_name@)),
                listings@,
                ssh_found,
                sftp_found,
                r,
            ),
{
    let ssh_found = found_on_path(device.ssh_cmd());
    let sftp_found = target.transport == Transport::Rsync || found_on_path(device.sftp_cmd());
    let r = run_with(device, target, release, binary_name, listings, ssh_found, sftp_found);
    assert(steps_outcome(
        *device,
        target.transport,
        target.host@,
        target.deploy_path@,
        Some((release, binary_name@)),
        listings@,
        ssh_found,
        sftp_found,
        r,
    ));
    r
}

/// Sync all `sync_dirs` to the device, without building or deploying: the steps to run.
/// Whether the ssh and sftp programs are installed is the machine's answer; the steps are
/// those for some answer.
pub fn sync_dirs(device: &Device, target: &DeployTarget, listings: &[Vec<LocalEntry>]) -> (r: DeploySteps)
    ensures
        exists|ssh_found: bool, sftp_found: bool|
            #[trigger] steps_outcome(
                *device,
                target.transport,
                target.host@,
                target.deploy_path@,
                None,
                listings@,
                ssh_found,
                sftp_found,
                r,
            ),
{
    let ssh_found = found_on_path(device.ssh_cmd());
    let sftp_found = target.transport == Transport::Rsync || found_on_path(device.sftp_cmd());
    let r = sync_with(device, target, listings, ssh_found, sftp_found);
    assert(steps_outcome(
        *device,
        target.transport,
        target.host@,
        target.deploy_path@,
        None,
        listings@,
        ssh_found,
        sftp_found,
        r,
    ));
    r
}

} // verus!
