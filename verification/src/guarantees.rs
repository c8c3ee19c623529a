//! What the outputs of single operations must satisfy, stated over their
//! inputs and results: the directory a Git query names, the mount name made
//! from a file name, a worktree's state column, the completion destinations,
//! and the key sequence a binding command binds.
use vstd::prelude::*;

use crate::cli::Shell;
use crate::completions::{destination_set, sorted_destinations};
use crate::config::{Config, KeyBinding};
use crate::key_bindings::{bind_text, key_text};
use crate::laws::{lemma_contains_append, lemma_contains_middle, lemma_sorted_enumeration};
use crate::quote::joined;
use crate::text::contains_seq;
use crate::worktree::{state_text, RowModel};
use crate::mounts::{is_ascii_alnum, lower_char, slug_model, slug_state, trim_dashes};
use crate::path_bytes::PathModel;
use crate::resolver::git_directory_model;
use crate::text::{sorted_seq, strictly_sorted, views};
use vstd::utf8::{decode_utf8, valid_utf8};

verus! {

/// The directory a successful Git query names is the printed path without
/// its line ending: for a non-empty UTF-8 path `p` holding no line feed or
/// carriage return, printing `p` and a line feed (or, on Windows, a carriage
/// return and a line feed) names exactly `p`.
pub proof fn law_git_directory_is_the_printed_line(p: Seq<u8>, windows: bool)
    requires
        p.len() > 0,
        valid_utf8(p),
        !p.contains(10u8),
        !p.contains(13u8),
    ensures
        git_directory_model(true, p + seq![10u8], windows) == Ok::<PathModel, Seq<char>>(
            PathModel::Text(decode_utf8(p)),
        ),
        windows ==> git_directory_model(true, p + seq![13u8, 10u8], windows) == Ok::<
            PathModel,
            Seq<char>,
        >(PathModel::Text(decode_utf8(p))),
{
    let a = p + seq![10u8];
    assert(a.last() == 10u8);
    assert(a.drop_last() =~= p);
    assert(p.last() != 13u8) by {
        assert(p[p.len() - 1] == p.last());
    }
    let b = p + seq![13u8, 10u8];
    assert(b.last() == 10u8);
    assert(b.drop_last() =~= p + seq![13u8]);
    assert((p + seq![13u8]).last() == 13u8);
    assert((p + seq![13u8]).drop_last() =~= p);
}

/// The binding command binds the chord under the name the shell gives it:
/// Bash's `bind -x` and Zsh's `bindkey` take exactly `key_text` of the chord,
/// which is readline's `\C-o` / `\eo` and Zsh's `^O` / `^[o`.
pub proof fn law_binding_binds_the_chords_key(shell: Shell, chord: KeyBinding)
    requires
        shell == Shell::Bash || shell == Shell::Zsh,
        chord == KeyBinding::CtrlO || chord == KeyBinding::AltO,
    ensures
        shell == Shell::Bash ==> bind_text(shell, chord) == "\\builtin bind -x '\""@ + key_text(
            shell,
            chord,
        ) + "\":_cj_key_widget'"@,
        shell == Shell::Zsh ==> bind_text(shell, chord)
            == "\\builtin zle -N _cj_key_widget\n\\builtin bindkey '"@ + key_text(shell, chord)
            + "' _cj_key_widget"@,
        key_text(Shell::Bash, KeyBinding::CtrlO) == "\\C-o"@,
        key_text(Shell::Bash, KeyBinding::AltO) == "\\eo"@,
        key_text(Shell::Zsh, KeyBinding::CtrlO) == "^O"@,
        key_text(Shell::Zsh, KeyBinding::AltO) == "^[o"@,
{
    reveal_strlit(r#"\builtin bind -x '"\C-o":_cj_key_widget'"#);
    reveal_strlit(r#"\builtin bind -x '"\eo":_cj_key_widget'"#);
    reveal_strlit("\\builtin zle -N _cj_key_widget\n\\builtin bindkey '^O' _cj_key_widget");
    reveal_strlit("\\builtin zle -N _cj_key_widget\n\\builtin bindkey '^[o' _cj_key_widget");
    reveal_strlit(r"\C-o");
    reveal_strlit(r"\eo");
    reveal_strlit("^O");
    reveal_strlit("^[o");
    reveal_strlit("\\C-o");
    reveal_strlit("\\eo");
    reveal_strlit("\\builtin bind -x '\"");
    reveal_strlit("\":_cj_key_widget'");
    reveal_strlit("\\builtin zle -N _cj_key_widget\n\\builtin bindkey '");
    reveal_strlit("' _cj_key_widget");
    assert(bind_text(shell, chord) =~= if shell == Shell::Bash {
        "\\builtin bind -x '\""@ + key_text(shell, chord) + "\":_cj_key_widget'"@
    } else {
        "\\builtin zle -N _cj_key_widget\n\\builtin bindkey '"@ + key_text(shell, chord)
            + "' _cj_key_widget"@
    });
}

/// Every configured name is offered for completion: each top and
/// main-worktree keyword, each alias, each mount, and both tickers.
pub proof fn law_every_configured_name_is_a_destination(c: &Config, k: Seq<char>)
    ensures
        c.mounts.contains(k) ==> sorted_destinations(c).contains(k),
        c.aliases.contains(k) ==> sorted_destinations(c).contains(k),
        views(c.keywords.top@).contains(k) ==> sorted_destinations(c).contains(k),
        views(c.keywords.main_worktree@).contains(k) ==> sorted_destinations(c).contains(k),
        sorted_destinations(c).contains(c.tickers.navigate_up@),
        sorted_destinations(c).contains(c.tickers.navigate_down@),
        strictly_sorted(sorted_destinations(c)),
{
    let t = seq![c.tickers.navigate_up@, c.tickers.navigate_down@];
    let q = views(c.keywords.top@) + views(c.keywords.main_worktree@) + c.aliases.keys()
        + c.mounts.keys() + t;
    assert(q.to_set() =~= destination_set(c)) by {
        assert forall|x: Seq<char>| q.to_set().contains(x) <==> destination_set(c).contains(x) by {
            let a = views(c.keywords.top@);
            let b = views(c.keywords.main_worktree@);
            let d = c.aliases.keys();
            let e = c.mounts.keys();
            vstd::seq_lib::seq_to_set_distributes_over_add(a, b);
            vstd::seq_lib::seq_to_set_distributes_over_add(a + b, d);
            vstd::seq_lib::seq_to_set_distributes_over_add(a + b + d, e);
            vstd::seq_lib::seq_to_set_distributes_over_add(a + b + d + e, t);
            assert(t.to_set() =~= set![c.tickers.navigate_up@, c.tickers.navigate_down@]) by {
                assert(t[0] == c.tickers.navigate_up@ && t[1] == c.tickers.navigate_down@);
            }
        }
    }
    lemma_sorted_enumeration(q);
    let w = sorted_seq(q.to_set());
    assert(strictly_sorted(w) && w.to_set() == destination_set(c));
    let s = sorted_destinations(c);
    assert(strictly_sorted(s) && s.to_set() == destination_set(c));
    assert(destination_set(c).contains(c.tickers.navigate_up@));
    assert(destination_set(c).contains(c.tickers.navigate_down@));
    if c.mounts.contains(k) {
        let i = choose|i: int| 0 <= i < c.mounts.keys().len() && c.mounts.keys()[i] == k;
        assert(c.mounts.keys().to_set().contains(k));
        assert(destination_set(c).contains(k));
    }
    if c.aliases.contains(k) {
        let i = choose|i: int| 0 <= i < c.aliases.keys().len() && c.aliases.keys()[i] == k;
        assert(c.aliases.keys().to_set().contains(k));
        assert(destination_set(c).contains(k));
    }
    if views(c.keywords.top@).contains(k) {
        assert(views(c.keywords.top@).to_set().contains(k));
        assert(destination_set(c).contains(k));
    }
    if views(c.keywords.main_worktree@).contains(k) {
        assert(views(c.keywords.main_worktree@).to_set().contains(k));
        assert(destination_set(c).contains(k));
    }
}

proof fn lemma_joined_contains(items: Seq<Seq<char>>, sep: Seq<char>, k: int)
    requires
        0 <= k < items.len(),
    ensures
        contains_seq(joined(items, sep), items[k]),
    decreases items.len(),
{
    let e = Seq::<char>::empty();
    if items.len() == 1 {
        lemma_contains_middle(e, items[0], e);
        assert(e + items[0] + e =~= items[0]);
    } else if k == items.len() - 1 {
        lemma_contains_middle(joined(items.drop_last(), sep) + sep, items.last(), e);
        assert(joined(items.drop_last(), sep) + sep + items.last() + e =~= joined(items, sep));
    } else {
        lemma_joined_contains(items.drop_last(), sep, k);
        assert(items.drop_last()[k] == items[k]);
        lemma_contains_append(joined(items.drop_last(), sep), sep, items[k]);
        lemma_contains_append(joined(items.drop_last(), sep) + sep, items.last(), items[k]);
    }
}

proof fn lemma_joined_prefix(items: Seq<Seq<char>>, sep: Seq<char>)
    requires
        items.len() > 0,
    ensures
        joined(items, sep).len() >= items[0].len(),
        joined(items, sep).take(items[0].len() as int) == items[0],
    decreases items.len(),
{
    if items.len() == 1 {
        assert(items[0].take(items[0].len() as int) =~= items[0]);
    } else {
        lemma_joined_prefix(items.drop_last(), sep);
        assert(items.drop_last()[0] == items[0]);
        let j = joined(items.drop_last(), sep);
        assert((j + sep + items.last()).take(items[0].len() as int) =~= j.take(items[0].len() as int));
    }
}

/// A worktree's state names every flag that is set, and is `linked` only
/// when no flag is set.
pub proof fn law_state_names_every_set_flag(r: RowModel)
    ensures
        r.main ==> contains_seq(state_text(r), "main"@),
        r.bare ==> contains_seq(state_text(r), "bare"@),
        r.detached ==> contains_seq(state_text(r), "detached"@),
        r.locked ==> contains_seq(state_text(r), "locked"@),
        r.prunable ==> contains_seq(state_text(r), "prunable"@),
        (state_text(r) == "linked"@) <==> !(r.main || r.bare || r.detached || r.locked
            || r.prunable),
{
    reveal_strlit("main");
    reveal_strlit("bare");
    reveal_strlit("detached");
    reveal_strlit("locked");
    reveal_strlit("prunable");
    reveal_strlit("linked");
    let m = if r.main { seq!["main"@] } else { Seq::<Seq<char>>::empty() };
    let b = if r.bare { seq!["bare"@] } else { Seq::<Seq<char>>::empty() };
    let d = if r.detached { seq!["detached"@] } else { Seq::<Seq<char>>::empty() };
    let l = if r.locked { seq!["locked"@] } else { Seq::<Seq<char>>::empty() };
    let p = if r.prunable { seq!["prunable"@] } else { Seq::<Seq<char>>::empty() };
    let states = m + b + d + l + p;
    let any = r.main || r.bare || r.detached || r.locked || r.prunable;
    if any {
        assert(states.len() > 0);
        assert(state_text(r) == joined(states, ","@));
        if r.main {
            assert(states[0] == "main"@);
            lemma_joined_contains(states, ","@, 0);
        }
        if r.bare {
            let k = m.len() as int;
            assert(states[k] == "bare"@);
            lemma_joined_contains(states, ","@, k);
        }
        if r.detached {
            let k = (m.len() + b.len()) as int;
            assert(states[k] == "detached"@);
            lemma_joined_contains(states, ","@, k);
        }
        if r.locked {
            let k = (m.len() + b.len() + d.len()) as int;
            assert(states[k] == "locked"@);
            lemma_joined_contains(states, ","@, k);
        }
        if r.prunable {
            let k = (m.len() + b.len() + d.len() + l.len()) as int;
            assert(states[k] == "prunable"@);
            lemma_joined_contains(states, ","@, k);
        }
        lemma_joined_prefix(states, ","@);
        let w = states[0];
        let t = state_text(r);
        assert(w == "main"@ || w == "bare"@ || w == "detached"@ || w == "locked"@ || w == "prunable"@);
        if t == "linked"@ {
            assert(t[0] == w[0]);
            assert(t[1] == w[1]);
            assert(false);
        }
    } else {
        assert(states.len() == 0);
    }
}

/// Whether a character is an ASCII letter or digit.
pub open spec fn ascii_alphanumeric(c: char) -> bool {
    ('0' <= c && c <= '9') || ('a' <= c && c <= 'z') || ('A' <= c && c <= 'Z')
}

/// A character with an ASCII capital lowered.
pub open spec fn ascii_lowered(c: char) -> char {
    if 'A' <= c && c <= 'Z' {
        ((c as u32) + 32) as char
    } else {
        c
    }
}

/// The ASCII letters and digits of a text, in order, letters lowered.
pub open spec fn lowered_alphanumerics(s: Seq<char>) -> Seq<char>
    decreases s.len(),
{
    if s.len() == 0 {
        Seq::empty()
    } else {
        lowered_alphanumerics(s.drop_last()) + if ascii_alphanumeric(s.last()) {
            seq![ascii_lowered(s.last())]
        } else {
            Seq::empty()
        }
    }
}

/// Whether a character may stand in a mount name: a lower-case ASCII letter,
/// a digit, or a dash.
pub open spec fn slug_char(c: char) -> bool {
    ('0' <= c && c <= '9') || ('a' <= c && c <= 'z') || c == '-'
}

proof fn lemma_lowered_idempotent(c: char)
    requires
        ascii_alphanumeric(c),
    ensures
        ascii_alphanumeric(ascii_lowered(c)),
        ascii_lowered(ascii_lowered(c)) == ascii_lowered(c),
        ('0' <= ascii_lowered(c) <= '9') || ('a' <= ascii_lowered(c) <= 'z'),
{
}

proof fn lemma_alnum_push(s: Seq<char>, c: char)
    ensures
        lowered_alphanumerics(s.push(c)) == lowered_alphanumerics(s) + if ascii_alphanumeric(c) {
            seq![ascii_lowered(c)]
        } else {
            Seq::<char>::empty()
        },
{
    assert(s.push(c).drop_last() =~= s);
}

/// What building a slug keeps at every step.
proof fn lemma_slug_state(s: Seq<char>)
    ensures
        ({
            let (out, dash) = slug_state(s);
            &&& lowered_alphanumerics(out) == lowered_alphanumerics(s)
            &&& (forall|i: int| 0 <= i < out.len() ==> slug_char(#[trigger] out[i]))
            &&& (out.len() > 0 ==> out[0] != '-')
            &&& (forall|i: int| 0 <= i < out.len() - 1 ==> !(#[trigger] out[i] == '-' && out[i + 1] == '-'))
            &&& (dash <==> (out.len() > 0 && out.last() == '-'))
        }),
    decreases s.len(),
{
    if s.len() > 0 {
        lemma_slug_state(s.drop_last());
        let (out, dash) = slug_state(s.drop_last());
        let c = s.last();
        lemma_alnum_push(s.drop_last(), c);
        assert(s.drop_last().push(c) =~= s);
        if is_ascii_alnum(c) {
            lemma_lowered_idempotent(c);
            assert(lower_char(c) == ascii_lowered(c));
            lemma_alnum_push(out, lower_char(c));
        } else if out.len() > 0 && !dash {
            lemma_alnum_push(out, '-');
        }
    }
}

/// Trailing dashes hold no letter or digit.
proof fn lemma_trim_dashes(s: Seq<char>)
    ensures
        lowered_alphanumerics(trim_dashes(s)) == lowered_alphanumerics(s),
        trim_dashes(s).len() <= s.len(),
        trim_dashes(s) == s.take(trim_dashes(s).len() as int),
        trim_dashes(s).len() > 0 ==> trim_dashes(s).last() != '-',
    decreases s.len(),
{
    if s.len() > 0 && s.last() == '-' {
        lemma_trim_dashes(s.drop_last());
        lemma_alnum_push(s.drop_last(), '-');
        assert(s.drop_last().push('-') =~= s);
        let t = trim_dashes(s.drop_last());
        assert(s.take(t.len() as int) =~= s.drop_last().take(t.len() as int));
    } else {
        assert(s.take(s.len() as int) =~= s);
    }
}

/// A mount name keeps every ASCII letter and digit of the file name, in
/// order and with letters lowered; it holds only lower-case letters, digits
/// and single dashes between them; and there is no name exactly when the
/// file name has no ASCII letter or digit.
pub proof fn law_slug_keeps_letters_and_digits(name: Seq<char>)
    ensures
        slug_model(name) is None <==> lowered_alphanumerics(name).len() == 0,
        slug_model(name) matches Some(v) ==> {
            &&& lowered_alphanumerics(v) == lowered_alphanumerics(name)
            &&& forall|i: int| 0 <= i < v.len() ==> slug_char(#[trigger] v[i])
            &&& v[0] != '-'
            &&& v.last() != '-'
            &&& forall|i: int| 0 <= i < v.len() - 1 ==> !(#[trigger] v[i] == '-' && v[i + 1] == '-')
        },
{
    lemma_slug_state(name);
    let out = slug_state(name).0;
    lemma_trim_dashes(out);
    let v = trim_dashes(out);
    if v.len() == 0 {
        if out.len() > 0 {
            assert(out[0] != '-');
            assert(lowered_alphanumerics(v) =~= Seq::<char>::empty());
            lemma_first_alnum(out);
        }
    } else {
        assert forall|i: int| 0 <= i < v.len() implies slug_char(#[trigger] v[i]) by {
            assert(v[i] == out[i]);
        }
        assert forall|i: int| 0 <= i < v.len() - 1 implies !(#[trigger] v[i] == '-' && v[i + 1] == '-') by {
            assert(v[i] == out[i] && v[i + 1] == out[i + 1]);
        }
        assert(v[0] == out[0]);
        lemma_first_alnum(v);
    }
}

/// A text whose first character is not a dash and which holds only mount
/// name characters has a letter or digit.
proof fn lemma_first_alnum(v: Seq<char>)
    requires
        v.len() > 0,
        v[0] != '-',
        forall|i: int| 0 <= i < v.len() ==> slug_char(#[trigger] v[i]),
    ensures
        lowered_alphanumerics(v).len() > 0,
    decreases v.len(),
{
    if v.len() > 1 {
        assert(v.drop_last()[0] == v[0]);
        assert forall|i: int| 0 <= i < v.drop_last().len() implies slug_char(#[trigger] v.drop_last()[i]) by {
            assert(v.drop_last()[i] == v[i]);
        }
        lemma_first_alnum(v.drop_last());
    } else {
        assert(slug_char(v[0]));
    }
}

} // verus!
