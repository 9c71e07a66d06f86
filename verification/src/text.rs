//! Character-level text helpers. Every string is modelled by its view, the
//! `Seq<char>` of its characters; these functions compute on those sequences.

use vstd::prelude::*;

verus! {

broadcast use vstd::string::group_string_axioms;

/// `s` with every occurrence of `from` replaced by `to`.
pub open spec fn replace_char(s: Seq<char>, from: char, to: Seq<char>) -> Seq<char>
    decreases s.len(),
{
    if s.len() == 0 {
        seq![]
    } else {
        replace_char(s.drop_last(), from, to) + (if s.last() == from {
            to
        } else {
            seq![s.last()]
        })
    }
}

/// The rest of `s` after the prefix `p`, when `s` starts with `p`.
pub open spec fn strip_prefix(s: Seq<char>, p: Seq<char>) -> Option<Seq<char>> {
    if p.is_prefix_of(s) {
        Some(s.skip(p.len() as int))
    } else {
        None
    }
}

/// The part of `s` before the suffix `p`, when `s` ends with `p`.
pub open spec fn strip_suffix(s: Seq<char>, p: Seq<char>) -> Option<Seq<char>> {
    if p.is_suffix_of(s) {
        Some(s.take(s.len() - p.len()))
    } else {
        None
    }
}

/// `s` without any trailing run of `c`.
pub open spec fn trim_end_char(s: Seq<char>, c: char) -> Seq<char>
    decreases s.len(),
{
    if s.len() > 0 && s.last() == c {
        trim_end_char(s.drop_last(), c)
    } else {
        s
    }
}

/// The parts joined with `sep` between consecutive parts.
pub open spec fn join(parts: Seq<Seq<char>>, sep: Seq<char>) -> Seq<char>
    decreases parts.len(),
{
    if parts.len() == 0 {
        seq![]
    } else if parts.len() == 1 {
        parts[0]
    } else {
        join(parts.drop_last(), sep) + sep + parts.last()
    }
}

/// The views of a sequence of strings.
pub open spec fn views(v: Seq<String>) -> Seq<Seq<char>> {
    v.map_values(|s: String| s@)
}

/// The characters of `s`, in order.
pub fn chars_of(s: &str) -> (r: Vec<char>)
    ensures
        r@ == s@,
{
    let mut out: Vec<char> = Vec::new();
    for c in it: s.chars()
        invariant
            out@ == it.seq().take(it.index() as int),
    {
        out.push(c);
    }
    out
}

/// Appends one character to a `String`.
///
/// Trusted: `String::push` appends the given `char` to the end of the string.
#[verifier::external_body]
pub(crate) fn push_char(s: &mut String, c: char)
    ensures
        final(s)@ == old(s)@.push(c),
{
    s.push(c)
}

/// A `String` holding exactly the characters of `cs`.
pub fn string_of(cs: &Vec<char>) -> (r: String)
    ensures
        r@ == cs@,
{
    let mut out = String::new();
    for i in 0..cs.len()
        invariant
            out@ == cs@.take(i as int),
    {
        push_char(&mut out, cs[i]);
        assert(cs@.take(i as int).push(cs@[i as int]) =~= cs@.take(i + 1));
    }
    assert(cs@.take(cs@.len() as int) =~= cs@);
    out
}

/// An owned copy of `s`.
pub fn owned(s: &str) -> (r: String)
    ensures
        r@ == s@,
{
    s.to_owned()
}

/// A copy of a string (its view is kept).
pub fn copy_string(s: &String) -> (r: String)
    ensures
        r@ == s@,
{
    s.clone()
}

/// Whether two sequences of characters are equal.
fn chars_eq(a: &Vec<char>, b: &Vec<char>) -> (r: bool)
    ensures
        r == (a@ == b@),
{
    if a.len() != b.len() {
        return false;
    }
    for i in 0..a.len()
        invariant
            a@.len() == b@.len(),
            forall|j: int| 0 <= j < i ==> a@[j] == b@[j],
    {
        if a[i] != b[i] {
            return false;
        }
    }
    assert(a@ =~= b@);
    true
}

/// Whether two strings hold the same characters.
pub fn str_eq(a: &str, b: &str) -> (r: bool)
    ensures
        r == (a@ == b@),
{
    let ac = chars_of(a);
    let bc = chars_of(b);
    chars_eq(&ac, &bc)
}

/// Whether `s` starts with `p`.
pub fn starts_with(s: &str, p: &str) -> (r: bool)
    ensures
        r == p@.is_prefix_of(s@),
{
    let sc = chars_of(s);
    let pc = chars_of(p);
    if pc.len() > sc.len() {
        return false;
    }
    for i in 0..pc.len()
        invariant
            sc@ == s@,
            pc@ == p@,
            pc@.len() <= sc@.len(),
            forall|j: int| 0 <= j < i ==> pc@[j] == sc@[j],
    {
        if pc[i] != sc[i] {
            return false;
        }
    }
    true
}

/// Whether `s` ends with `p`.
pub fn ends_with(s: &str, p: &str) -> (r: bool)
    ensures
        r == p@.is_suffix_of(s@),
{
    let sc = chars_of(s);
    let pc = chars_of(p);
    if pc.len() > sc.len() {
        return false;
    }
    let off = sc.len() - pc.len();
    for i in 0..pc.len()
        invariant
            sc@ == s@,
            pc@ == p@,
            pc@.len() <= sc@.len(),
            off + pc@.len() == sc@.len(),
            forall|j: int| 0 <= j < i ==> pc@[j] == sc@[j + off],
    {
        assert(off + i < sc.len());
        if pc[i] != sc[off + i] {
            return false;
        }
    }
    true
}

/// The characters `cs[from..to]` as a `String`.
pub(crate) fn substring(cs: &Vec<char>, from: usize, to: usize) -> (r: String)
    requires
        from <= to <= cs@.len(),
    ensures
        r@ == cs@.subrange(from as int, to as int),
{
    let mut out = String::new();
    for i in from..to
        invariant
            from <= to <= cs@.len(),
            out@ == cs@.subrange(from as int, i as int),
    {
        push_char(&mut out, cs[i]);
        assert(cs@.subrange(from as int, i as int).push(cs@[i as int]) =~= cs@.subrange(
            from as int,
            i + 1,
        ));
    }
    out
}

/// `s` without the prefix `p`, or `None` when `s` does not start with `p`.
pub fn strip_prefix_str(s: &str, p: &str) -> (r: Option<String>)
    ensures
        r.deep_view() == strip_prefix(s@, p@),
{
    if starts_with(s, p) {
        let sc = chars_of(s);
        let pc = chars_of(p);
        let rest = substring(&sc, pc.len(), sc.len());
        assert(rest@ =~= s@.skip(p@.len() as int));
        Some(rest)
    } else {
        None
    }
}

/// `s` without the suffix `p`, or `None` when `s` does not end with `p`.
pub fn strip_suffix_str(s: &str, p: &str) -> (r: Option<String>)
    ensures
        r.deep_view() == strip_suffix(s@, p@),
{
    if ends_with(s, p) {
        let sc = chars_of(s);
        let pc = chars_of(p);
        let head = substring(&sc, 0, sc.len() - pc.len());
        assert(head@ =~= s@.take(s@.len() - p@.len()));
        Some(head)
    } else {
        None
    }
}

/// Whether `s` holds the character `c`.
pub fn contains_char(s: &str, c: char) -> (r: bool)
    ensures
        r == s@.contains(c),
{
    let sc = chars_of(s);
    for i in 0..sc.len()
        invariant
            sc@ == s@,
            forall|j: int| 0 <= j < i ==> sc@[j] != c,
    {
        if sc[i] == c {
            assert(s@[i as int] == c);
            return true;
        }
    }
    false
}

/// `s` with every occurrence of `from` replaced by `to`.
pub fn replace_char_str(s: &str, from: char, to: &str) -> (r: String)
    ensures
        r@ == replace_char(s@, from, to@),
{
    let sc = chars_of(s);
    let mut out = String::new();
    for i in 0..sc.len()
        invariant
            sc@ == s@,
            out@ == replace_char(s@.take(i as int), from, to@),
    {
        let c = sc[i];
        assert(s@.take(i + 1).drop_last() =~= s@.take(i as int));
        if c == from {
            out.append(to);
        } else {
            push_char(&mut out, c);
        }
    }
    assert(s@.take(s@.len() as int) =~= s@);
    out
}

/// `s` with every occurrence of `from` replaced by the character `to`.
pub fn replace_char_by(s: &str, from: char, to: char) -> (r: String)
    ensures
        r@ == replace_char(s@, from, seq![to]),
{
    let sc = chars_of(s);
    let mut out = String::new();
    for i in 0..sc.len()
        invariant
            sc@ == s@,
            out@ == replace_char(s@.take(i as int), from, seq![to]),
    {
        let c = sc[i];
        assert(s@.take(i + 1).drop_last() =~= s@.take(i as int));
        if c == from {
            push_char(&mut out, to);
        } else {
            push_char(&mut out, c);
        }
    }
    assert(s@.take(s@.len() as int) =~= s@);
    out
}

/// Replacing in a concatenation replaces in each part.
pub(crate) proof fn lemma_replace_concat(a: Seq<char>, b: Seq<char>, from: char, to: Seq<char>)
    ensures
        replace_char(a + b, from, to) == replace_char(a, from, to) + replace_char(b, from, to),
    decreases b.len(),
{
    if b.len() == 0 {
        assert(a + b =~= a);
        assert(replace_char(a, from, to) + replace_char(b, from, to) =~= replace_char(a, from, to));
    } else {
        lemma_replace_concat(a, b.drop_last(), from, to);
        assert((a + b).drop_last() =~= a + b.drop_last());
        assert((a + b).last() == b.last());
    }
}

/// Replacing in a one-character sequence.
pub(crate) proof fn lemma_replace_single(c: char, from: char, to: Seq<char>)
    ensures
        replace_char(seq![c], from, to) == (if c == from {
            to
        } else {
            seq![c]
        }),
{
    let s = seq![c];
    assert(s.drop_last() =~= Seq::<char>::empty());
    assert(replace_char(s.drop_last(), from, to) =~= Seq::<char>::empty());
    assert(Seq::<char>::empty() + to =~= to);
    assert(Seq::<char>::empty() + seq![c] =~= seq![c]);
}

/// After replacing every `from` by another character, no `from` is left.
pub(crate) proof fn lemma_replace_removes(s: Seq<char>, from: char, to: char)
    requires
        to != from,
    ensures
        !replace_char(s, from, seq![to]).contains(from),
    decreases s.len(),
{
    if s.len() > 0 {
        lemma_replace_removes(s.drop_last(), from, to);
        let a = replace_char(s.drop_last(), from, seq![to]);
        let b = if s.last() == from {
            seq![to]
        } else {
            seq![s.last()]
        };
        assert forall|i: int| 0 <= i < (a + b).len() implies (a + b)[i] != from by {
            if i < a.len() {
                assert((a + b)[i] == a[i]);
            } else {
                assert((a + b)[i] == b[i - a.len()]);
            }
        }
    }
}

/// Replacing an ASCII character by another keeps ASCII text ASCII.
pub proof fn lemma_replace_keeps_ascii(s: Seq<char>, from: char, to: char)
    requires
        all_ascii(s),
        (to as u32) < 128,
    ensures
        all_ascii(replace_char(s, from, seq![to])),
    decreases s.len(),
{
    if s.len() > 0 {
        assert(all_ascii(s.drop_last())) by {
            assert forall|i: int| 0 <= i < s.drop_last().len() implies (s.drop_last()[i] as u32) < 128 by {
                assert(s.drop_last()[i] == s[i]);
            }
        }
        lemma_replace_keeps_ascii(s.drop_last(), from, to);
        assert((s.last() as u32) < 128) by {
            assert(s.last() == s[s.len() - 1]);
        }
    }
}

/// `s` without its trailing run of `c`.
pub fn trim_end_char_str(s: &str, c: char) -> (r: String)
    ensures
        r@ == trim_end_char(s@, c),
{
    let sc = chars_of(s);
    let mut end = sc.len();
    assert(s@.take(end as int) =~= s@);
    while end > 0 && sc[end - 1] == c
        invariant
            sc@ == s@,
            end <= sc@.len(),
            trim_end_char(s@, c) == trim_end_char(s@.take(end as int), c),
        decreases end,
    {
        assert(s@.take(end as int).drop_last() =~= s@.take(end - 1));
        end = end - 1;
    }
    substring(&sc, 0, end)
}

/// The strings joined with `sep` between consecutive ones.
pub fn join_strings(parts: &Vec<String>, sep: &str) -> (r: String)
    ensures
        r@ == join(views(parts@), sep@),
{
    let mut out = String::new();
    let ghost pv = views(parts@);
    for i in 0..parts.len()
        invariant
            pv == views(parts@),
            out@ == join(pv.take(i as int), sep@),
    {
        assert(pv.take(i + 1).drop_last() =~= pv.take(i as int));
        if i != 0 {
            out.append(sep);
        }
        out.append(parts[i].as_str());
    }
    assert(pv.take(parts@.len() as int) =~= pv);
    out
}

/// A copy of an optional string (its view is kept).
pub fn clone_opt(s: &Option<String>) -> (r: Option<String>)
    ensures
        r.deep_view() == s.deep_view(),
{
    match s {
        Some(x) => Some(x.clone()),
        None => None,
    }
}

/// A copy of a list of strings (the views are kept).
pub fn clone_strings(v: &Vec<String>) -> (r: Vec<String>)
    ensures
        views(r@) == views(v@),
{
    let mut out: Vec<String> = Vec::new();
    for i in 0..v.len()
        invariant
            out@.len() == i,
            views(out@) == views(v@).take(i as int),
    {
        let c = v[i].clone();
        let ghost before = out@;
        out.push(c);
        assert(out@ == before.push(c));
        assert(c@ == v@[i as int]@);
        assert(views(out@) =~= views(v@).take(i + 1)) by {
            assert forall|j: int| 0 <= j < out@.len() implies views(out@)[j] == views(v@).take(
                i + 1,
            )[j] by {
                if j < i {
                    assert(views(before)[j] == views(v@).take(i as int)[j]);
                }
            }
        }
    }
    assert(views(v@).take(v@.len() as int) =~= views(v@));
    out
}

/// The views of an optional list of strings.
pub open spec fn opt_views(o: Option<Vec<String>>) -> Option<Seq<Seq<char>>> {
    match o {
        Some(v) => Some(views(v@)),
        None => None,
    }
}

/// A copy of an optional list of strings (the views are kept).
pub fn clone_opt_strings(o: &Option<Vec<String>>) -> (r: Option<Vec<String>>)
    ensures
        opt_views(r) == opt_views(*o),
{
    match o {
        Some(v) => Some(clone_strings(v)),
        None => None,
    }
}

/// The upper-case form of `s` as `str::to_uppercase` defines it (Unicode).
pub uninterp spec fn std_uppercase(s: Seq<char>) -> Seq<char>;

/// The ASCII upper-case form of one character.
pub open spec fn ascii_upper(c: char) -> char {
    if 'a' <= c <= 'z' {
        ((c as u32) - 32) as char
    } else {
        c
    }
}

/// Whether every character of `s` is ASCII.
pub open spec fn all_ascii(s: Seq<char>) -> bool {
    forall|i: int| 0 <= i < s.len() ==> (s[i] as u32) < 128
}

/// The upper-case form of `s`.
///
/// Trusted: `str::to_uppercase` maps each character to its Unicode upper case. The
/// result is named `std_uppercase`; of ASCII text the contract also states the plain
/// mapping of `a`..=`z` to `A`..=`Z`, which the Unicode tables give for those characters.
#[verifier::external_body]
pub(crate) fn to_uppercase(s: &str) -> (r: String)
    ensures
        r@ == std_uppercase(s@),
        all_ascii(s@) ==> r@ == s@.map_values(|c: char| ascii_upper(c)),
{
    s.to_uppercase()
}

} // verus!
