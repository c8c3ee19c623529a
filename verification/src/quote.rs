//! Quoting of values for the generated shell code, and joining of quoted
//! values into word lists.
use vstd::prelude::*;

use crate::powershell::ps_escape;
use crate::text::{views, contains, contains_seq, owned, push_char, push_str, replace, replace_char};

verus! {

/// A value in POSIX single quotes, each `'` written as `'\''`.
pub open spec fn posix_quoted(v: Seq<char>) -> Seq<char> {
    seq!['\''] + replace_char(v, '\'', "'\\''"@) + seq!['\'']
}

/// A value in PowerShell single quotes, each quote character (`'` and
/// U+2018 through U+201B) doubled.
pub open spec fn ps_quoted(v: Seq<char>) -> Seq<char> {
    seq!['\''] + ps_escape(v) + seq!['\'']
}

/// `n` hash signs.
pub open spec fn hash_run(n: nat) -> Seq<char> {
    Seq::new(n, |i: int| '#')
}

/// The closing delimiter of a Nushell raw string with `n` hashes.
pub open spec fn nu_closer(n: nat) -> Seq<char> {
    seq!['\''] + hash_run(n)
}

/// The fewest hashes, from `n` on, whose closing delimiter does not occur in
/// `v`.
pub open spec fn free_hashes(v: Seq<char>, n: nat) -> nat
    decreases v.len() + 1 - n,
{
    if n > v.len() || !contains_seq(v, nu_closer(n)) {
        n
    } else {
        free_hashes(v, n + 1)
    }
}

/// A value as a Nushell raw string `r#'...'#`, with as many hashes as it
/// takes for the value not to close it early (at least one).
pub open spec fn nu_quoted(v: Seq<char>) -> Seq<char> {
    let n = free_hashes(v, 1);
    seq!['r'] + hash_run(n) + seq!['\''] + v + nu_closer(n)
}

/// Items joined by a separator.
pub open spec fn joined(items: Seq<Seq<char>>, sep: Seq<char>) -> Seq<char>
    decreases items.len(),
{
    if items.len() == 0 {
        Seq::empty()
    } else if items.len() == 1 {
        items[0]
    } else {
        joined(items.drop_last(), sep) + sep + items.last()
    }
}

/// Values POSIX-quoted and separated by spaces.
pub open spec fn posix_words(values: Seq<Seq<char>>) -> Seq<char> {
    joined(values.map_values(|v: Seq<char>| posix_quoted(v)), " "@)
}

/// Values PowerShell-quoted and separated by commas.
pub open spec fn ps_words(values: Seq<Seq<char>>) -> Seq<char> {
    joined(values.map_values(|v: Seq<char>| ps_quoted(v)), ", "@)
}

/// Quotes a value for POSIX shells.
pub fn quote_posix(value: &str) -> (q: String)
    ensures
        q@ == posix_quoted(value@),
{
    let mut q = String::new();
    push_char(&mut q, '\'');
    push_str(&mut q, replace(value, '\'', "'\\''").as_str());
    push_char(&mut q, '\'');
    assert(q@ =~= posix_quoted(value@));
    q
}

/// Quotes a value for PowerShell.
pub fn quote_ps(value: &str) -> (q: String)
    ensures
        q@ == ps_quoted(value@),
{
    crate::powershell::quote(value)
}

proof fn lemma_long_needle(h: Seq<char>, n: Seq<char>)
    requires
        n.len() > h.len(),
    ensures
        !contains_seq(h, n),
{
}

/// Quotes a value as a Nushell raw string.
pub fn quote_nu(value: &str) -> (q: String)
    ensures
        q@ == nu_quoted(value@),
{
    let ghost v = value@;
    let n = crate::text::chars_of(value).len();
    let mut count: usize = 1;
    let mut hashes = String::new();
    push_char(&mut hashes, '#');
    assert(hashes@ =~= hash_run(1));
    loop
        invariant
            1 <= count <= v.len() + 1,
            v == value@,
            n == v.len(),
            hashes@ == hash_run(count as nat),
            free_hashes(v, 1) == free_hashes(v, count as nat),
        decreases v.len() + 1 - count,
    {
        let mut closer = String::new();
        push_char(&mut closer, '\'');
        push_str(&mut closer, hashes.as_str());
        assert(closer@ =~= nu_closer(count as nat));
        if !contains(value, closer.as_str()) {
            let mut q = String::new();
            push_char(&mut q, 'r');
            push_str(&mut q, hashes.as_str());
            push_char(&mut q, '\'');
            push_str(&mut q, value);
            push_str(&mut q, closer.as_str());
            assert(q@ =~= nu_quoted(value@));
            return q;
        }
        proof {
            if count as int + 1 > v.len() {
                lemma_long_needle(v, nu_closer(count as nat));
            }
        }
        push_char(&mut hashes, '#');
        assert(hashes@ =~= hash_run((count + 1) as nat));
        count = count + 1;
    }
}

/// Strings joined by a separator (`[String]::join`).
pub fn join(items: &Vec<String>, sep: &str) -> (s: String)
    ensures
        s@ == joined(views(items@), sep@),
{
    let ghost vs = views(items@);
    let mut s = String::new();
    let mut i: usize = 0;
    while i < items.len()
        invariant
            i <= items@.len(),
            vs == views(items@),
            s@ == joined(vs.take(i as int), sep@),
        decreases items@.len() - i,
    {
        assert(vs.take(i + 1).drop_last() =~= vs.take(i as int));
        if i > 0 {
            push_str(&mut s, sep);
        }
        push_str(&mut s, items[i].as_str());
        assert(s@ =~= joined(vs.take(i + 1), sep@));
        i = i + 1;
    }
    assert(vs.take(i as int) =~= vs);
    s
}

/// Values POSIX-quoted and separated by spaces.
pub fn shell_array(values: &Vec<String>) -> (s: String)
    ensures
        s@ == posix_words(views(values@)),
{
    let mut quoted: Vec<String> = Vec::new();
    let mut i: usize = 0;
    while i < values.len()
        invariant
            i <= values@.len(),
            views(quoted@) == views(values@).take(
                i as int,
            ).map_values(|v: Seq<char>| posix_quoted(v)),
        decreases values@.len() - i,
    {
        let ghost before = quoted@;
        quoted.push(quote_posix(values[i].as_str()));
        assert(views(quoted@) =~= views(before).push(
            posix_quoted(values@[i as int]@),
        ));
        assert(views(values@).take(i + 1).map_values(
            |v: Seq<char>| posix_quoted(v),
        ) =~= views(values@).take(i as int).map_values(
            |v: Seq<char>| posix_quoted(v),
        ).push(posix_quoted(values@[i as int]@)));
        i = i + 1;
    }
    assert(views(values@).take(i as int) =~= values@.map_values(
        |x: String| x@,
    ));
    join(&quoted, " ")
}

/// Values PowerShell-quoted and separated by commas.
pub fn ps_array(values: &Vec<String>) -> (s: String)
    ensures
        s@ == ps_words(views(values@)),
{
    let mut quoted: Vec<String> = Vec::new();
    let mut i: usize = 0;
    while i < values.len()
        invariant
            i <= values@.len(),
            views(quoted@) == views(values@).take(
                i as int,
            ).map_values(|v: Seq<char>| ps_quoted(v)),
        decreases values@.len() - i,
    {
        let ghost before = quoted@;
        quoted.push(quote_ps(values[i].as_str()));
        assert(views(quoted@) =~= views(before).push(
            ps_quoted(values@[i as int]@),
        ));
        assert(views(values@).take(i + 1).map_values(
            |v: Seq<char>| ps_quoted(v),
        ) =~= views(values@).take(i as int).map_values(
            |v: Seq<char>| ps_quoted(v),
        ).push(ps_quoted(values@[i as int]@)));
        i = i + 1;
    }
    assert(views(values@).take(i as int) =~= values@.map_values(
        |x: String| x@,
    ));
    join(&quoted, ", ")
}

} // verus!
