//! Command fragments that the **remote** shell parses. The device runs Linux even
//! when the host does not, so everything here is POSIX-shell syntax.
//!
//! The model of the shell's reading is `read_word`: the reading of one word over the
//! quoting forms that these functions emit (plain characters, single quotes,
//! backslash escapes, and the double-quoted parameter `"$HOME"`).

use vstd::prelude::*;
use crate::text::{
    chars_of, lemma_replace_concat, lemma_replace_single, owned, push_char, replace_char, strip_prefix,
    strip_prefix_str,
};

verus! {

/// Characters that a POSIX shell reads literally outside quotes (and that this crate
/// passes through unquoted): ASCII letters and digits and `- _ . / :`.
pub open spec fn is_plain_char(c: char) -> bool {
    ||| 'a' <= c <= 'z'
    ||| 'A' <= c <= 'Z'
    ||| '0' <= c <= '9'
    ||| c == '-'
    ||| c == '_'
    ||| c == '.'
    ||| c == '/'
    ||| c == ':'
}

/// Whether every character of `s` is plain.
pub open spec fn is_plain(s: Seq<char>) -> bool {
    forall|i: int| 0 <= i < s.len() ==> is_plain_char(#[trigger] s[i])
}

/// What stands for one `'` inside a single-quoted word: close the quote, an escaped
/// quote, reopen the quote.
pub open spec fn quote_in_quotes() -> Seq<char> {
    seq!['\'', '\\', '\'', '\'']
}

/// The quoted form of `s`, as `shell_escape` produces it: a non-empty plain `s` as it
/// is, anything else (the empty string included) single-quoted.
pub open spec fn spec_shell_escape(s: Seq<char>) -> Seq<char> {
    if s.len() > 0 && is_plain(s) {
        s
    } else {
        seq!['\''] + replace_char(s, '\'', quote_in_quotes()) + seq!['\'']
    }
}

/// The token `"$HOME"`: the home directory of whoever runs the shell.
pub open spec fn home_token() -> Seq<char> {
    seq!['"', '$', 'H', 'O', 'M', 'E', '"']
}

/// The token for a path on the remote host, as `remote_path_token` produces it.
pub open spec fn spec_remote_path_token(path: Seq<char>) -> Seq<char> {
    match strip_prefix(path, seq!['~', '/']) {
        Some(rest) => home_token() + seq!['/'] + spec_shell_escape(rest),
        None => if path == seq!['~'] {
            home_token()
        } else {
            spec_shell_escape(path)
        },
    }
}

/// `r` with `p` in front, if there is a reading.
pub open spec fn prefixed(p: Seq<char>, r: Option<Seq<char>>) -> Option<Seq<char>> {
    match r {
        Some(x) => Some(p + x),
        None => None,
    }
}

/// How a POSIX shell reads the characters `w` of one word, with `home` as `$HOME`,
/// starting inside single quotes when `quoted`. `None` when `w` leaves the quoting forms
/// modelled here (an unterminated quote, a dangling backslash, or an unquoted character
/// that is not plain).
pub open spec fn read_word(w: Seq<char>, home: Seq<char>, quoted: bool) -> Option<Seq<char>>
    decreases w.len(),
{
    if w.len() == 0 {
        if quoted {
            None
        } else {
            Some(seq![])
        }
    } else if quoted {
        if w[0] == '\'' {
            read_word(w.skip(1), home, false)
        } else {
            prefixed(seq![w[0]], read_word(w.skip(1), home, true))
        }
    } else if w[0] == '\'' {
        read_word(w.skip(1), home, true)
    } else if w[0] == '\\' {
        if w.len() < 2 {
            None
        } else {
            prefixed(seq![w[1]], read_word(w.skip(2), home, false))
        }
    } else if home_token().is_prefix_of(w) {
        prefixed(home, read_word(w.skip(7), home, false))
    } else if is_plain_char(w[0]) {
        prefixed(seq![w[0]], read_word(w.skip(1), home, false))
    } else {
        None
    }
}

/// The path that the remote shell reaches for `path`: a leading `~` is the remote
/// user's home, anything else is literal.
pub open spec fn remote_expand(path: Seq<char>, home: Seq<char>) -> Seq<char> {
    if path == seq!['~'] {
        home
    } else if seq!['~', '/'].is_prefix_of(path) {
        home + path.skip(1)
    } else {
        path
    }
}

fn is_plain_char_exec(c: char) -> (r: bool)
    ensures
        r == is_plain_char(c),
{
    ('a' <= c && c <= 'z') || ('A' <= c && c <= 'Z') || ('0' <= c && c <= '9') || c == '-'
        || c == '_' || c == '.' || c == '/' || c == ':'
}

/// Quote a string so a POSIX shell reads it as a single literal word.
///
/// Plain paths and flags are returned unchanged; anything else (the empty string too,
/// which comes out as `''`) is single-quoted with
/// embedded single quotes escaped. A `~` is *not* special-cased here: it is quoted like
/// any other character, so use [`remote_path_token`] for paths that should expand
/// against the remote user's home.
pub fn shell_escape(s: &str) -> (r: String)
    ensures
        r@ == spec_shell_escape(s@),
{
    let cs = chars_of(s);
    let mut plain = true;
    for i in 0..cs.len()
        invariant
            cs@ == s@,
            plain == is_plain(s@.take(i as int)),
    {
        let ghost t = s@.take(i + 1);
        let ghost h = s@.take(i as int);
        assert(t =~= h.push(s@[i as int]));
        assert(is_plain(t) == (is_plain(h) && is_plain_char(s@[i as int]))) by {
            if is_plain(h) && is_plain_char(s@[i as int]) {
                assert forall|j: int| 0 <= j < t.len() implies is_plain_char(#[trigger] t[j]) by {
                    if j < i {
                        assert(t[j] == h[j]);
                    }
                }
            }
            if is_plain(t) {
                assert(is_plain_char(t[i as int]));
                assert forall|j: int| 0 <= j < h.len() implies is_plain_char(#[trigger] h[j]) by {
                    assert(t[j] == h[j]);
                }
            }
        }
        if !is_plain_char_exec(cs[i]) {
            plain = false;
        }
    }
    assert(s@.take(s@.len() as int) =~= s@);
    if plain && cs.len() > 0 {
        return owned(s);
    }
    let mut out = String::new();
    push_char(&mut out, '\'');
    for i in 0..cs.len()
        invariant
            cs@ == s@,
            out@ == seq!['\''] + replace_char(s@.take(i as int), '\'', quote_in_quotes()),
    {
        let c = cs[i];
        assert(s@.take(i + 1).drop_last() =~= s@.take(i as int));
        if c == '\'' {
            push_char(&mut out, '\'');
            push_char(&mut out, '\\');
            push_char(&mut out, '\'');
            push_char(&mut out, '\'');
            assert(out@ =~= seq!['\''] + replace_char(s@.take(i + 1), '\'', quote_in_quotes()));
        } else {
            push_char(&mut out, c);
            assert(out@ =~= seq!['\''] + replace_char(s@.take(i + 1), '\'', quote_in_quotes()));
        }
    }
    push_char(&mut out, '\'');
    assert(s@.take(s@.len() as int) =~= s@);
    out
}

/// Format a path that lives on the **remote** host.
///
/// A leading `~/` becomes `"$HOME"/…` so the remote shell expands it against the device
/// user's home (e.g. `/home/radxa`) rather than the host user's. Everything else is
/// escaped literally via [`shell_escape`].
pub fn remote_path_token(path: &str) -> (r: String)
    ensures
        r@ == spec_remote_path_token(path@),
{
    let tilde_slash = chars_to_string2('~', '/');
    match strip_prefix_str(path, tilde_slash.as_str()) {
        Some(rest) => {
            let mut out = home_token_string();
            push_char(&mut out, '/');
            let esc = shell_escape(rest.as_str());
            out.append(esc.as_str());
            out
        },
        None => {
            let cs = chars_of(path);
            if cs.len() == 1 && cs[0] == '~' {
                assert(path@ =~= seq!['~']);
                home_token_string()
            } else {
                assert(path@ != seq!['~']);
                shell_escape(path)
            }
        },
    }
}

/// The two-character string `a b`.
fn chars_to_string2(a: char, b: char) -> (r: String)
    ensures
        r@ == seq![a, b],
{
    let mut out = String::new();
    push_char(&mut out, a);
    push_char(&mut out, b);
    assert(out@ =~= seq![a, b]);
    out
}

/// The token `"$HOME"`.
fn home_token_string() -> (r: String)
    ensures
        r@ == home_token(),
{
    let mut out = String::new();
    push_char(&mut out, '"');
    push_char(&mut out, '$');
    push_char(&mut out, 'H');
    push_char(&mut out, 'O');
    push_char(&mut out, 'M');
    push_char(&mut out, 'E');
    push_char(&mut out, '"');
    assert(out@ =~= home_token());
    out
}

proof fn lemma_prefixed_twice(a: Seq<char>, b: Seq<char>, r: Option<Seq<char>>)
    ensures
        prefixed(a, prefixed(b, r)) == prefixed(a + b, r),
{
    match r {
        Some(x) => assert(a + (b + x) =~= (a + b) + x),
        None => {},
    }
}

proof fn lemma_read_plain(s: Seq<char>, tail: Seq<char>, home: Seq<char>)
    requires
        is_plain(s),
    ensures
        read_word(s + tail, home, false) == prefixed(s, read_word(tail, home, false)),
    decreases s.len(),
{
    if s.len() == 0 {
        assert(s + tail =~= tail);
        match read_word(tail, home, false) {
            Some(x) => assert(s + x =~= x),
            None => {},
        }
    } else {
        let w = s + tail;
        let rest = s.skip(1);
        assert(is_plain_char(s[0]));
        assert(w[0] == s[0]);
        assert(w.skip(1) =~= rest + tail);
        assert(is_plain(rest)) by {
            assert forall|j: int| 0 <= j < rest.len() implies is_plain_char(#[trigger] rest[j]) by {
                assert(rest[j] == s[j + 1]);
            }
        }
        assert(!home_token().is_prefix_of(w)) by {
            if home_token().is_prefix_of(w) {
                assert(w[0] == home_token()[0]);
            }
        }
        lemma_read_plain(rest, tail, home);
        lemma_prefixed_twice(seq![s[0]], rest, read_word(tail, home, false));
        assert(seq![s[0]] + rest =~= s);
    }
}

proof fn lemma_read_quoted(t: Seq<char>, tail: Seq<char>, home: Seq<char>)
    ensures
        read_word(replace_char(t, '\'', quote_in_quotes()) + tail, home, true) == prefixed(
            t,
            read_word(tail, home, true),
        ),
    decreases t.len(),
{
    let q = quote_in_quotes();
    if t.len() == 0 {
        assert(replace_char(t, '\'', q) + tail =~= tail);
        match read_word(tail, home, true) {
            Some(x) => assert(t + x =~= x),
            None => {},
        }
    } else {
        let c = t[0];
        let rest = t.skip(1);
        assert(t =~= seq![c] + rest);
        lemma_replace_concat(seq![c], rest, '\'', q);
        lemma_replace_single(c, '\'', q);
        let rr = replace_char(rest, '\'', q);
        lemma_read_quoted(rest, tail, home);
        lemma_prefixed_twice(seq![c], rest, read_word(tail, home, true));
        if c == '\'' {
            assert(replace_char(seq![c], '\'', q) =~= q);
            let w = q + rr + tail;
            assert(w[0] == '\'');
            let w1 = w.skip(1);
            assert(w1[0] == '\\');
            assert(w1[1] == '\'');
            let w3 = w1.skip(2);
            assert(w3[0] == '\'');
            assert(w3.skip(1) =~= rr + tail);
            assert(replace_char(t, '\'', q) + tail =~= w);
            assert(read_word(w, home, true) == read_word(w1, home, false));
            assert(read_word(w1, home, false) == prefixed(seq!['\''], read_word(w3, home, false)));
            assert(read_word(w3, home, false) == read_word(rr + tail, home, true));
        } else {
            assert(replace_char(seq![c], '\'', q) =~= seq![c]);
            let w = seq![c] + rr + tail;
            assert(w[0] == c);
            assert(w.skip(1) =~= rr + tail);
            assert(replace_char(t, '\'', q) + tail =~= w);
            assert(read_word(w, home, true) == prefixed(seq![c], read_word(rr + tail, home, true)));
        }
    }
}

/// What precedes `tail` reads back as `s`: the shell reads `shell_escape(s)` followed by
/// more characters as `s` followed by its reading of those characters.
pub proof fn lemma_shell_escape_reads_back_before(s: Seq<char>, tail: Seq<char>, home: Seq<char>)
    ensures
        read_word(spec_shell_escape(s) + tail, home, false) == prefixed(
            s,
            read_word(tail, home, false),
        ),
{
    if s.len() > 0 && is_plain(s) {
        lemma_read_plain(s, tail, home);
    } else {
        let inner = replace_char(s, '\'', quote_in_quotes());
        let w = seq!['\''] + inner + seq!['\''] + tail;
        assert(spec_shell_escape(s) + tail =~= w);
        assert(w[0] == '\'');
        assert(w.skip(1) =~= inner + (seq!['\''] + tail));
        lemma_read_quoted(s, seq!['\''] + tail, home);
        let u = seq!['\''] + tail;
        assert(u[0] == '\'');
        assert(u.skip(1) =~= tail);
    }
}

/// A POSIX shell reads `shell_escape(s)` as the single word `s`, for every `s` (the
/// empty string included, which comes out as `''`).
pub proof fn lemma_shell_escape_reads_back(s: Seq<char>, home: Seq<char>)
    ensures
        read_word(spec_shell_escape(s), home, false) == Some(s),
{
    lemma_shell_escape_reads_back_before(s, seq![], home);
    assert(spec_shell_escape(s) + seq![] =~= spec_shell_escape(s));
    assert(s + seq![] =~= s);
}

/// The remote shell reads `remote_path_token(path)` as `path` with a leading `~`
/// replaced by the remote user's home: `~` and `~/…` expand on the device, every other
/// path is taken literally.
pub proof fn lemma_remote_path_token_reads_back(path: Seq<char>, home: Seq<char>)
    ensures
        read_word(spec_remote_path_token(path), home, false) == Some(remote_expand(path, home)),
{
    let ts = seq!['~', '/'];
    let h = home_token();
    if ts.is_prefix_of(path) {
        let rest = path.skip(2);
        assert(path != seq!['~']);
        let w = h + seq!['/'] + spec_shell_escape(rest);
        assert(w[0] == '"');
        assert(h.is_prefix_of(w)) by {
            assert forall|i: int| 0 <= i < h.len() implies h[i] == w[i] by {}
        }
        let v = w.skip(7);
        assert(v =~= seq!['/'] + spec_shell_escape(rest));
        assert(v[0] == '/');
        assert(v.skip(1) =~= spec_shell_escape(rest) + seq![]);
        lemma_shell_escape_reads_back_before(rest, seq![], home);
        assert(rest + seq![] =~= rest);
        assert(!h.is_prefix_of(v)) by {
            if h.is_prefix_of(v) {
                assert(v[0] == h[0]);
            }
        }
        assert(path.skip(1) =~= seq!['/'] + rest);
        assert(home + (seq!['/'] + rest) =~= home + path.skip(1));
        assert(strip_prefix(path, ts) == Some(rest));
        assert(spec_remote_path_token(path) == w);
        assert(read_word(v, home, false) == prefixed(seq!['/'], read_word(v.skip(1), home, false)));
        assert(read_word(w, home, false) == prefixed(home, read_word(v, home, false)));
        assert(remote_expand(path, home) == home + path.skip(1));
    } else if path == seq!['~'] {
        assert(h.is_prefix_of(h)) by {
            assert forall|i: int| 0 <= i < h.len() implies h[i] == h[i] by {}
        }
        assert(h.skip(7) =~= Seq::<char>::empty());
        assert(home + seq![] =~= home);
        assert(strip_prefix(path, ts) is None);
        assert(read_word(h, home, false) == prefixed(home, read_word(h.skip(7), home, false)));
    } else {
        lemma_shell_escape_reads_back(path, home);
    }
}

} // verus!
