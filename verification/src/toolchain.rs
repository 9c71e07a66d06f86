//! Which Linux toolchain `cross` will ask rustup for, and whether it is installed.
//!
//! On a Windows host, `cross` runs rustup inside its Linux container against the host's
//! rustup home, and rustup refuses to add the Linux toolchain there. Checking up-front
//! lets the caller name the command that does install it. The caller reads the toolchain
//! files and runs `rustup`; these functions read their text.

use vstd::prelude::*;
use crate::build::{spec_strip_windows_host_triple, strip_windows_host_triple};
use crate::text::{chars_of, owned, str_eq, substring};

verus! {

/// Whether `c` has the Unicode `White_Space` property (what `char::is_whitespace`
/// tests).
pub open spec fn is_whitespace(c: char) -> bool {
    ||| '\u{9}' <= c <= '\u{d}'
    ||| c == ' '
    ||| c == '\u{85}'
    ||| c == '\u{a0}'
    ||| c == '\u{1680}'
    ||| '\u{2000}' <= c <= '\u{200a}'
    ||| c == '\u{2028}'
    ||| c == '\u{2029}'
    ||| c == '\u{202f}'
    ||| c == '\u{205f}'
    ||| c == '\u{3000}'
}

fn is_whitespace_exec(c: char) -> (r: bool)
    ensures
        r == is_whitespace(c),
{
    ('\u{9}' <= c && c <= '\u{d}') || c == ' ' || c == '\u{85}' || c == '\u{a0}' || c == '\u{1680}'
        || ('\u{2000}' <= c && c <= '\u{200a}') || c == '\u{2028}' || c == '\u{2029}' || c
        == '\u{202f}' || c == '\u{205f}' || c == '\u{3000}'
}

/// The leading run of non-whitespace characters of `s`.
pub open spec fn leading_word(s: Seq<char>) -> Seq<char>
    decreases s.len(),
{
    if s.len() == 0 || is_whitespace(s[0]) {
        seq![]
    } else {
        seq![s[0]] + leading_word(s.skip(1))
    }
}

/// The first whitespace-separated word of `s`, if it has one.
pub open spec fn spec_first_word(s: Seq<char>) -> Option<Seq<char>>
    decreases s.len(),
{
    if s.len() == 0 {
        None
    } else if is_whitespace(s[0]) {
        spec_first_word(s.skip(1))
    } else {
        Some(leading_word(s))
    }
}

/// The first word of `cs[start..end]`.
fn first_word_in(cs: &Vec<char>, start: usize, end: usize) -> (r: Option<String>)
    requires
        start <= end <= cs@.len(),
    ensures
        r.deep_view() == spec_first_word(cs@.subrange(start as int, end as int)),
{
    let mut i = start;
    while i < end && is_whitespace_exec(cs[i])
        invariant
            start <= i <= end <= cs@.len(),
            spec_first_word(cs@.subrange(start as int, end as int)) == spec_first_word(
                cs@.subrange(i as int, end as int),
            ),
        decreases end - i,
    {
        assert(cs@.subrange(i as int, end as int).skip(1) =~= cs@.subrange(i + 1, end as int));
        i = i + 1;
    }
    if i == end {
        return None;
    }
    let mut j = i;
    while j < end && !is_whitespace_exec(cs[j])
        invariant
            i <= j <= end <= cs@.len(),
            leading_word(cs@.subrange(i as int, end as int)) == cs@.subrange(i as int, j as int)
                + leading_word(cs@.subrange(j as int, end as int)),
        decreases end - j,
    {
        let ghost s = cs@.subrange(j as int, end as int);
        assert(s.skip(1) =~= cs@.subrange(j + 1, end as int));
        assert(cs@.subrange(i as int, j as int) + seq![cs@[j as int]] =~= cs@.subrange(i as int, j + 1));
        assert(cs@.subrange(i as int, j as int) + (seq![s[0]] + leading_word(s.skip(1))) =~= cs@.subrange(
            i as int,
            j + 1,
        ) + leading_word(s.skip(1)));
        j = j + 1;
    }
    assert(leading_word(cs@.subrange(j as int, end as int)) =~= Seq::<char>::empty());
    assert(cs@.subrange(i as int, j as int) + Seq::<char>::empty() =~= cs@.subrange(i as int, j as int));
    Some(substring(cs, i, j))
}

/// The first whitespace-separated word of `s`, if it has one.
pub fn first_word(s: &str) -> (r: Option<String>)
    ensures
        r.deep_view() == spec_first_word(s@),
{
    let cs = chars_of(s);
    assert(cs@.subrange(0, cs@.len() as int) =~= s@);
    first_word_in(&cs, 0, cs.len())
}

/// The lines of `s`: its pieces between `'\n'` characters (a final empty piece
/// included).
pub open spec fn split_lines(s: Seq<char>) -> Seq<Seq<char>>
    decreases s.len(),
{
    if s.len() == 0 {
        seq![seq![]]
    } else {
        let p = split_lines(s.drop_last());
        if s.last() == '\n' {
            p.push(seq![])
        } else {
            p.update(p.len() - 1, p.last().push(s.last()))
        }
    }
}

proof fn lemma_split_lines_nonempty(s: Seq<char>)
    ensures
        split_lines(s).len() >= 1,
    decreases s.len(),
{
    if s.len() > 0 {
        lemma_split_lines_nonempty(s.drop_last());
    }
}

/// Whether some line of `list` (the output of `rustup toolchain list`) starts with the
/// word `wanted`.
pub open spec fn spec_toolchain_listed(list: Seq<char>, wanted: Seq<char>) -> bool {
    exists|i: int|
        0 <= i < split_lines(list).len() && spec_first_word(#[trigger] split_lines(list)[i]) == Some(
            wanted,
        )
}

/// Whether `wanted` is among the installed toolchains that `list` (the output of
/// `rustup toolchain list`) names, one per line, each line's first word.
pub fn toolchain_listed(list: &str, wanted: &str) -> (r: bool)
    ensures
        r == spec_toolchain_listed(list@, wanted@),
{
    let cs = chars_of(list);
    let n = cs.len();
    let mut found = false;
    let mut ls: usize = 0;
    let ghost mut done: Seq<Seq<char>> = seq![];
    assert(cs@.take(0) =~= Seq::<char>::empty());
    assert(split_lines(cs@.take(0)) =~= done.push(cs@.subrange(0, 0)));
    for i in 0..n
        invariant
            n == cs@.len(),
            cs@ == list@,
            ls <= i,
            split_lines(cs@.take(i as int)) == done.push(cs@.subrange(ls as int, i as int)),
            found == exists|k: int|
                0 <= k < done.len() && spec_first_word(#[trigger] done[k]) == Some(wanted@),
    {
        let ghost t1 = cs@.take(i + 1);
        assert(t1.drop_last() =~= cs@.take(i as int));
        assert(t1.last() == cs@[i as int]);
        if cs[i] == '\n' {
            let w = first_word_in(&cs, ls, i);
            let hit = match &w {
                Some(x) => str_eq(x.as_str(), wanted),
                None => false,
            };
            let ghost line = cs@.subrange(ls as int, i as int);
            proof {
                let nd = done.push(line);
                assert(t1.len() > 0 && t1.last() == '\n');
                assert(split_lines(t1) == split_lines(cs@.take(i as int)).push(seq![]));
                assert(cs@.subrange(i + 1, i + 1) =~= Seq::<char>::empty());
                assert(split_lines(t1) =~= nd.push(cs@.subrange(i + 1, i + 1)));
                assert(hit == (spec_first_word(line) == Some(wanted@)));
                assert(nd[done.len() as int] == line);
                assert((exists|k: int| 0 <= k < nd.len() && spec_first_word(#[trigger] nd[k]) == Some(wanted@))
                    == (found || hit)) by {
                    if found {
                        let k = choose|k: int| 0 <= k < done.len() && spec_first_word(#[trigger] done[k]) == Some(wanted@);
                        assert(nd[k] == done[k]);
                    }
                    if exists|k: int| 0 <= k < nd.len() && spec_first_word(#[trigger] nd[k]) == Some(wanted@) {
                        let k = choose|k: int| 0 <= k < nd.len() && spec_first_word(#[trigger] nd[k]) == Some(wanted@);
                        if k < done.len() {
                            assert(nd[k] == done[k]);
                        }
                    }
                }
                done = nd;
            }
            found = found || hit;
            ls = i + 1;
        } else {
            proof {
                lemma_split_lines_nonempty(cs@.take(i as int));
                let p = split_lines(cs@.take(i as int));
                assert(p.last() == cs@.subrange(ls as int, i as int));
                assert(cs@.subrange(ls as int, i as int).push(cs@[i as int]) =~= cs@.subrange(ls as int, i + 1));
                assert(split_lines(t1) =~= done.push(cs@.subrange(ls as int, i + 1)));
            }
        }
    }
    assert(cs@.take(n as int) =~= list@);
    let w = first_word_in(&cs, ls, n);
    let hit = match &w {
        Some(x) => str_eq(x.as_str(), wanted),
        None => false,
    };
    proof {
        let line = cs@.subrange(ls as int, n as int);
        let all = done.push(line);
        assert(split_lines(list@) == all);
        assert(all[done.len() as int] == line);
        if found {
            let k = choose|k: int| 0 <= k < done.len() && spec_first_word(#[trigger] done[k]) == Some(wanted@);
            assert(all[k] == done[k]);
        }
        if spec_toolchain_listed(list@, wanted@) {
            let k = choose|k: int| 0 <= k < all.len() && spec_first_word(#[trigger] all[k]) == Some(wanted@);
            if k < done.len() {
                assert(all[k] == done[k]);
            }
        }
    }
    found || hit
}

/// `s` without its leading whitespace.
pub open spec fn trim_start_ws(s: Seq<char>) -> Seq<char>
    decreases s.len(),
{
    if s.len() > 0 && is_whitespace(s[0]) {
        trim_start_ws(s.skip(1))
    } else {
        s
    }
}

/// `s` without its trailing whitespace.
pub open spec fn trim_end_ws(s: Seq<char>) -> Seq<char>
    decreases s.len(),
{
    if s.len() > 0 && is_whitespace(s.last()) {
        trim_end_ws(s.drop_last())
    } else {
        s
    }
}

/// The channel that a one-line `rust-toolchain` file names: the text without its
/// surrounding whitespace, when that is non-empty and one line.
pub open spec fn spec_legacy_channel(text: Seq<char>) -> Option<Seq<char>> {
    let t = trim_end_ws(trim_start_ws(text));
    if t.len() > 0 && !t.contains('\n') {
        Some(t)
    } else {
        None
    }
}

/// The legacy one-line form of a toolchain file: the file *is* the channel name.
pub fn legacy_channel(text: &str) -> (r: Option<String>)
    ensures
        r.deep_view() == spec_legacy_channel(text@),
{
    let cs = chars_of(text);
    let n = cs.len();
    let mut a: usize = 0;
    assert(cs@.subrange(0, n as int) =~= text@);
    while a < n && is_whitespace_exec(cs[a])
        invariant
            a <= n == cs@.len(),
            cs@ == text@,
            trim_start_ws(text@) == trim_start_ws(cs@.subrange(a as int, n as int)),
        decreases n - a,
    {
        assert(cs@.subrange(a as int, n as int).skip(1) =~= cs@.subrange(a + 1, n as int));
        a = a + 1;
    }
    let mut b: usize = n;
    while b > a && is_whitespace_exec(cs[b - 1])
        invariant
            a <= b <= n == cs@.len(),
            trim_end_ws(trim_start_ws(text@)) == trim_end_ws(cs@.subrange(a as int, b as int)),
        decreases b - a,
    {
        assert(cs@.subrange(a as int, b as int).drop_last() =~= cs@.subrange(a as int, b - 1));
        b = b - 1;
    }
    let t = substring(&cs, a, b);
    if a == b {
        return None;
    }
    let mut has_newline = false;
    for i in a..b
        invariant
            a <= b <= cs@.len(),
            has_newline == exists|k: int| a <= k < i && cs@[k] == '\n',
    {
        if cs[i] == '\n' {
            has_newline = true;
        }
    }
    proof {
        let s = cs@.subrange(a as int, b as int);
        if s.contains('\n') {
            let k = choose|k: int| 0 <= k < s.len() && s[k] == '\n';
            assert(cs@[a + k] == '\n');
        }
        if has_newline {
            let k = choose|k: int| a <= k < b && cs@[k] == '\n';
            assert(s[k - a] == '\n');
        }
    }
    if has_newline {
        None
    } else {
        Some(t)
    }
}

/// The channel of the active toolchain, from the output of `rustup show
/// active-toolchain` (e.g. `stable-x86_64-pc-windows-msvc (default)`): its first word
/// without the Windows host triple. `None` when there is no word or it does not end in
/// one.
pub open spec fn spec_active_channel(output: Seq<char>) -> Option<Seq<char>> {
    match spec_first_word(output) {
        Some(name) => spec_strip_windows_host_triple(name),
        None => None,
    }
}

/// The channel of the active toolchain, from the output of `rustup show active-toolchain`.
pub fn active_channel(output: &str) -> (r: Option<String>)
    ensures
        r.deep_view() == spec_active_channel(output@),
{
    match first_word(output) {
        Some(name) => match strip_windows_host_triple(name.as_str()) {
            Some(c) => Some(owned(c)),
            None => None,
        },
        None => None,
    }
}

/// The Linux toolchain that `cross` needs for `channel`.
pub fn cross_toolchain(channel: &str) -> (r: String)
    ensures
        r@ == channel@ + "-x86_64-unknown-linux-gnu"@,
{
    let mut out = owned(channel);
    out.append("-x86_64-unknown-linux-gnu");
    out
}

/// The warning for a missing toolchain `wanted`, naming the command that installs it.
pub open spec fn spec_toolchain_warning(wanted: Seq<char>) -> Seq<char> {
    "`cross` needs the "@ + wanted
        + " toolchain, which is not installed. rustup will refuse to add it from inside the container (\"may not be able to run on this system\"). Install it first:\n  rustup toolchain install "@
        + wanted + " --profile minimal --force-non-host"@
}

/// The warning for a missing toolchain `wanted`, naming the command that installs it.
pub fn toolchain_warning(wanted: &str) -> (r: String)
    ensures
        r@ == spec_toolchain_warning(wanted@),
{
    let mut out = owned("`cross` needs the ");
    out.append(wanted);
    out.append(
        " toolchain, which is not installed. rustup will refuse to add it from inside the container (\"may not be able to run on this system\"). Install it first:\n  rustup toolchain install ",
    );
    out.append(wanted);
    out.append(" --profile minimal --force-non-host");
    out
}

} // verus!
