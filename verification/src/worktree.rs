//! Git worktrees: reading `git worktree list --porcelain -z`, the table that
//! `cj -w` prints, and the picker's input and selection.
use vstd::prelude::*;
use vstd::utf8::{decode_utf8, valid_utf8};

use crate::path_bytes::utf8_text;
use crate::paths::{component_model, components, components_model, path_components, Component, ComponentModel};
use crate::quote::{join, joined};
use crate::text::{chars_of, decimal, decimal_text, has_prefix, owned, push_char, push_str, str_eq, views};

verus! {

/// One worktree as Git lists it.
#[derive(Debug)]
pub struct Worktree {
    pub path: String,
    pub head: Option<String>,
    pub branch: Option<String>,
    pub bare: bool,
    pub detached: bool,
    /// Locked, with the reason when one was given.
    pub locked: Option<Option<String>>,
    /// Prunable, with the reason when one was given.
    pub prunable: Option<Option<String>>,
}

/// A worktree with text as character sequences.
pub struct WorktreeModel {
    pub path: Seq<char>,
    pub head: Option<Seq<char>>,
    pub branch: Option<Seq<char>>,
    pub bare: bool,
    pub detached: bool,
    pub locked: Option<Option<Seq<char>>>,
    pub prunable: Option<Option<Seq<char>>>,
}

/// An optional text as an optional character sequence.
pub open spec fn opt_seq(o: Option<String>) -> Option<Seq<char>> {
    match o {
        Some(s) => Some(s@),
        None => None,
    }
}

/// An optional reason as a character sequence.
pub open spec fn opt_opt_seq(o: Option<Option<String>>) -> Option<Option<Seq<char>>> {
    match o {
        Some(r) => Some(opt_seq(r)),
        None => None,
    }
}

/// The model of a worktree.
pub open spec fn worktree_model(w: Worktree) -> WorktreeModel {
    WorktreeModel {
        path: w.path@,
        head: opt_seq(w.head),
        branch: opt_seq(w.branch),
        bare: w.bare,
        detached: w.detached,
        locked: opt_opt_seq(w.locked),
        prunable: opt_opt_seq(w.prunable),
    }
}

/// The models of worktrees.
pub open spec fn worktree_models(v: Seq<Worktree>) -> Seq<WorktreeModel> {
    v.map_values(|w: Worktree| worktree_model(w))
}

/// `b` split at every NUL byte (`split(|b| *b == 0)`): `n` NULs give `n + 1`
/// fields.
pub open spec fn split_fields(b: Seq<u8>) -> Seq<Seq<u8>>
    decreases b.len(),
{
    if b.len() == 0 {
        seq![Seq::empty()]
    } else {
        let rest = split_fields(b.drop_last());
        if b.last() == 0u8 {
            rest.push(Seq::empty())
        } else {
            rest.update(rest.len() - 1, rest.last().push(b.last()))
        }
    }
}

/// The first space of a text at or after `from`.
pub open spec fn space_index(s: Seq<char>, from: int) -> Option<int>
    decreases s.len() - from,
{
    if from < 0 || from >= s.len() {
        None
    } else if s[from] == ' ' {
        Some(from)
    } else {
        space_index(s, from + 1)
    }
}

/// A field's key and value (`split_once(' ')`, or the whole field and
/// nothing).
pub open spec fn key_value(s: Seq<char>) -> (Seq<char>, Seq<char>) {
    match space_index(s, 0) {
        Some(i) => (s.take(i), s.skip(i + 1)),
        None => (s, Seq::empty()),
    }
}

/// A branch name without `refs/heads/`.
pub open spec fn branch_name(b: Seq<char>) -> Seq<char> {
    if has_prefix(b, "refs/heads/"@) {
        b.skip(11)
    } else {
        b
    }
}

/// A reason, if one was given.
pub open spec fn reason(v: Seq<char>) -> Option<Seq<char>> {
    if v.len() == 0 {
        None
    } else {
        Some(v)
    }
}

/// The state of reading: the finished records and the one being read.
pub struct ParseState {
    pub done: Seq<WorktreeModel>,
    pub current: Option<WorktreeModel>,
}

/// The state after one field of the listing.
pub open spec fn apply_field(st: ParseState, field: Seq<u8>) -> Result<ParseState, Seq<char>> {
    if field.len() == 0 {
        Ok(
            match st.current {
                Some(w) => ParseState { done: st.done.push(w), current: None },
                None => st,
            },
        )
    } else if !valid_utf8(field) {
        Err("git returned a non-UTF-8 worktree record"@)
    } else {
        let (key, value) = key_value(decode_utf8(field));
        if key == "worktree"@ {
            if value.len() == 0 {
                Err("git returned an empty worktree path"@)
            } else {
                let fresh = WorktreeModel {
                    path: value,
                    head: None,
                    branch: None,
                    bare: false,
                    detached: false,
                    locked: None,
                    prunable: None,
                };
                Ok(
                    ParseState {
                        done: match st.current {
                            Some(w) => st.done.push(w),
                            None => st.done,
                        },
                        current: Some(fresh),
                    },
                )
            }
        } else {
            match st.current {
                None => Err("git returned "@ + key + " before a worktree path"@),
                Some(w) => Ok(
                    ParseState {
                        done: st.done,
                        current: Some(
                            if key == "HEAD"@ {
                                WorktreeModel { head: Some(value), ..w }
                            } else if key == "branch"@ {
                                WorktreeModel { branch: Some(branch_name(value)), ..w }
                            } else if key == "bare"@ {
                                WorktreeModel { bare: true, ..w }
                            } else if key == "detached"@ {
                                WorktreeModel { detached: true, ..w }
                            } else if key == "locked"@ {
                                WorktreeModel { locked: Some(reason(value)), ..w }
                            } else if key == "prunable"@ {
                                WorktreeModel { prunable: Some(reason(value)), ..w }
                            } else {
                                w
                            },
                        ),
                    },
                ),
            }
        }
    }
}

/// The state after the first `n` fields, or the first error.
pub open spec fn apply_fields(fields: Seq<Seq<u8>>, n: int) -> Result<ParseState, Seq<char>>
    decreases n,
{
    if n <= 0 {
        Ok(ParseState { done: Seq::empty(), current: None })
    } else {
        match apply_fields(fields, n - 1) {
            Ok(st) => apply_field(st, fields[n - 1]),
            Err(e) => Err(e),
        }
    }
}

/// The worktrees of a porcelain listing, or why it cannot be read.
pub open spec fn parse_model(b: Seq<u8>) -> Result<Seq<WorktreeModel>, Seq<char>> {
    let fields = split_fields(b);
    match apply_fields(fields, fields.len() as int) {
        Err(e) => Err(e),
        Ok(st) => {
            let all = match st.current {
                Some(w) => st.done.push(w),
                None => st.done,
            };
            if all.len() == 0 {
                Err("git did not return any worktrees"@)
            } else {
                Ok(all)
            }
        },
    }
}


/// The reading state of records in hand.
pub open spec fn state_of(done: Seq<Worktree>, current: Option<Worktree>) -> ParseState {
    ParseState {
        done: worktree_models(done),
        current: match current {
            Some(w) => Some(worktree_model(w)),
            None => None,
        },
    }
}

fn text_slice(c: &Vec<char>, from: usize, to: usize) -> (s: String)
    requires
        from <= to <= c@.len(),
    ensures
        s@ == c@.subrange(from as int, to as int),
{
    let mut s = String::new();
    let mut k = from;
    while k < to
        invariant
            from <= k <= to <= c@.len(),
            s@ == c@.subrange(from as int, k as int),
        decreases to - k,
    {
        push_char(&mut s, c[k]);
        assert(s@ =~= c@.subrange(from as int, k + 1));
        k = k + 1;
    }
    s
}

/// A field's key and value.
fn split_key(text: &str) -> (r: (String, String))
    ensures
        (r.0@, r.1@) == key_value(text@),
{
    let c = chars_of(text);
    let mut i: usize = 0;
    while i < c.len() && c[i] != ' '
        invariant
            i <= c@.len(),
            c@ == text@,
            space_index(text@, 0) == space_index(text@, i as int),
        decreases c@.len() - i,
    {
        i = i + 1;
    }
    let n = c.len();
    if i < n {
        let key = text_slice(&c, 0, i);
        let value = text_slice(&c, i + 1, n);
        assert(key@ =~= text@.take(i as int));
        assert(value@ =~= text@.skip(i + 1));
        (key, value)
    } else {
        assert(c@.subrange(0, n as int) =~= text@);
        (text_slice(&c, 0, n), String::new())
    }
}

/// A branch name without `refs/heads/`.
pub fn strip_branch_prefix(branch: &str) -> (b: String)
    ensures
        b@ == branch_name(branch@),
{
    if crate::text::starts_with(branch, "refs/heads/") {
        let c = chars_of(branch);
        let n = c.len();
        proof {
            reveal_strlit("refs/heads/");
        }
        let b = text_slice(&c, 11, n);
        assert(b@ =~= branch@.skip(11));
        b
    } else {
        owned(branch)
    }
}

/// A reason, if one was given.
pub fn optional_reason(value: &str) -> (r: Option<String>)
    ensures
        opt_seq(r) == reason(value@),
{
    if chars_of(value).len() == 0 {
        None
    } else {
        Some(owned(value))
    }
}

impl Worktree {
    /// A worktree at a path, with nothing else known yet.
    pub fn new(path: &str) -> (r: Result<Worktree, String>)
        ensures
            match r {
                Ok(w) => path@.len() > 0 && worktree_model(w) == (WorktreeModel {
                    path: path@,
                    head: None,
                    branch: None,
                    bare: false,
                    detached: false,
                    locked: None,
                    prunable: None,
                }),
                Err(e) => path@.len() == 0 && e@ == "git returned an empty worktree path"@,
            },
    {
        if chars_of(path).len() == 0 {
            return Err(owned("git returned an empty worktree path"));
        }
        Ok(
            Worktree {
                path: owned(path),
                head: None,
                branch: None,
                bare: false,
                detached: false,
                locked: None,
                prunable: None,
            },
        )
    }
}

fn process(field: &Vec<u8>, done: &mut Vec<Worktree>, current: Option<Worktree>) -> (r: Result<
    Option<Worktree>,
    String,
>)
    ensures
        match r {
            Ok(c) => apply_field(state_of(old(done)@, current), field@) == Ok::<ParseState, Seq<char>>(
                state_of(final(done)@, c),
            ),
            Err(e) => apply_field(state_of(old(done)@, current), field@) == Err::<ParseState, Seq<char>>(
                e@,
            ),
        },
{
    if field.len() == 0 {
        match current {
            Some(w) => {
                let ghost before = done@;
                done.push(w);
                assert(worktree_models(done@) =~= worktree_models(before).push(worktree_model(w)));
            },
            None => {},
        }
        return Ok(None);
    }
    let text = match utf8_text(field.as_slice()) {
        Some(t) => t,
        None => {
            return Err(owned("git returned a non-UTF-8 worktree record"));
        },
    };
    let (key, value) = split_key(text.as_str());
    if str_eq(key.as_str(), "worktree") {
        let fresh = match Worktree::new(value.as_str()) {
            Ok(w) => w,
            Err(e) => {
                return Err(e);
            },
        };
        match current {
            Some(w) => {
                let ghost before = done@;
                done.push(w);
                assert(worktree_models(done@) =~= worktree_models(before).push(worktree_model(w)));
            },
            None => {},
        }
        return Ok(Some(fresh));
    }
    let mut w = match current {
        None => {
            let mut e = owned("git returned ");
            push_str(&mut e, key.as_str());
            push_str(&mut e, " before a worktree path");
            return Err(e);
        },
        Some(w) => w,
    };
    if str_eq(key.as_str(), "HEAD") {
        w.head = Some(value);
    } else if str_eq(key.as_str(), "branch") {
        w.branch = Some(strip_branch_prefix(value.as_str()));
    } else if str_eq(key.as_str(), "bare") {
        w.bare = true;
    } else if str_eq(key.as_str(), "detached") {
        w.detached = true;
    } else if str_eq(key.as_str(), "locked") {
        w.locked = Some(optional_reason(value.as_str()));
    } else if str_eq(key.as_str(), "prunable") {
        w.prunable = Some(optional_reason(value.as_str()));
    }
    Ok(Some(w))
}

proof fn lemma_apply_prefix(f: Seq<Seq<u8>>, g: Seq<Seq<u8>>, n: int)
    requires
        0 <= n <= f.len(),
        n <= g.len(),
        f.take(n) == g.take(n),
    ensures
        apply_fields(f, n) == apply_fields(g, n),
    decreases n,
{
    if n > 0 {
        assert(f.take(n - 1) =~= f.take(n).take(n - 1));
        assert(g.take(n - 1) =~= g.take(n).take(n - 1));
        assert(f[n - 1] == f.take(n)[n - 1]);
        assert(g[n - 1] == g.take(n)[n - 1]);
        lemma_apply_prefix(f, g, n - 1);
    }
}

proof fn lemma_apply_err(f: Seq<Seq<u8>>, m: int, n: int, e: Seq<char>)
    requires
        0 <= m <= n <= f.len(),
        apply_fields(f, m) == Err::<ParseState, Seq<char>>(e),
    ensures
        apply_fields(f, n) == Err::<ParseState, Seq<char>>(e),
    decreases n - m,
{
    if m < n {
        lemma_apply_err(f, m + 1, n, e);
    }
}

proof fn lemma_split_step(b: Seq<u8>, j: int)
    requires
        0 <= j < b.len(),
    ensures
        split_fields(b.take(j)).len() <= split_fields(b.take(j + 1)).len(),
        forall|k: int|
            0 <= k < split_fields(b.take(j)).len() - 1 ==> #[trigger] split_fields(b.take(j + 1))[k]
                == split_fields(b.take(j))[k],
{
    assert(b.take(j + 1).drop_last() =~= b.take(j));
    lemma_split_len(b.take(j));
}

proof fn lemma_split_prefix(b: Seq<u8>, j: int)
    requires
        0 <= j <= b.len(),
    ensures
        split_fields(b.take(j)).len() <= split_fields(b).len(),
        forall|k: int|
            0 <= k < split_fields(b.take(j)).len() - 1 ==> #[trigger] split_fields(b)[k] == split_fields(
                b.take(j),
            )[k],
    decreases b.len() - j,
{
    if j == b.len() {
        assert(b.take(j) =~= b);
    } else {
        lemma_split_step(b, j);
        lemma_split_prefix(b, j + 1);
        assert forall|k: int| 0 <= k < split_fields(b.take(j)).len() - 1 implies #[trigger] split_fields(b)[k]
            == split_fields(b.take(j))[k] by {
            assert(split_fields(b.take(j + 1))[k] == split_fields(b.take(j))[k]);
        }
    }
}

proof fn lemma_split_len(b: Seq<u8>)
    ensures
        split_fields(b).len() >= 1,
    decreases b.len(),
{
    if b.len() > 0 {
        lemma_split_len(b.drop_last());
    }
}

/// What listing the worktrees gives: Git's failure (outside a repository
/// when it says nothing), or the worktrees it printed.
pub open spec fn list_model(success: bool, stdout: Seq<u8>, stderr: Seq<u8>) -> Result<
    Seq<WorktreeModel>,
    Seq<char>,
> {
    if !success {
        let detail = crate::text::trimmed(crate::text::lossy_utf8(stderr));
        if detail.len() == 0 {
            Err("current directory is not in a Git repository"@)
        } else {
            Err("git worktree list failed: "@ + detail)
        }
    } else {
        parse_model(stdout)
    }
}

/// The worktrees from the outcome of `git worktree list --porcelain -z`.
pub fn list_from(success: bool, stdout: &[u8], stderr: &[u8]) -> (r: Result<Vec<Worktree>, String>)
    ensures
        match r {
            Ok(v) => list_model(success, stdout@, stderr@) == Ok::<Seq<WorktreeModel>, Seq<char>>(
                worktree_models(v@),
            ),
            Err(e) => list_model(success, stdout@, stderr@) == Err::<Seq<WorktreeModel>, Seq<char>>(e@),
        },
{
    if !success {
        let detail = crate::text::trim(crate::text::utf8_lossy(stderr).as_str());
        if chars_of(detail.as_str()).len() == 0 {
            return Err(owned("current directory is not in a Git repository"));
        }
        let mut e = owned("git worktree list failed: ");
        push_str(&mut e, detail.as_str());
        return Err(e);
    }
    parse(stdout)
}

/// Reads the worktrees of `git worktree list --porcelain -z`.
pub fn parse(output: &[u8]) -> (r: Result<Vec<Worktree>, String>)
    ensures
        match r {
            Ok(v) => parse_model(output@) == Ok::<Seq<WorktreeModel>, Seq<char>>(worktree_models(v@)),
            Err(e) => parse_model(output@) == Err::<Seq<WorktreeModel>, Seq<char>>(e@),
        },
{
    let mut done: Vec<Worktree> = Vec::new();
    let mut current: Option<Worktree> = None;
    let mut field: Vec<u8> = Vec::new();
    let mut i: usize = 0;
    proof {
        assert(output@.take(0) =~= Seq::<u8>::empty());
        assert(split_fields(output@.take(0)) =~= seq![Seq::<u8>::empty()]);
        assert(worktree_models(done@) =~= Seq::<WorktreeModel>::empty());
    }
    while i < output.len()
        invariant
            i <= output@.len(),
            split_fields(output@.take(i as int)).len() >= 1,
            field@ == split_fields(output@.take(i as int)).last(),
            apply_fields(
                split_fields(output@.take(i as int)),
                split_fields(output@.take(i as int)).len() - 1,
            ) == Ok::<ParseState, Seq<char>>(state_of(done@, current)),
        decreases output@.len() - i,
    {
        let ghost fs = split_fields(output@.take(i as int));
        let ghost next = split_fields(output@.take(i + 1));
        assert(output@.take(i + 1).drop_last() =~= output@.take(i as int));
        assert(output@.take(i + 1).last() == output@[i as int]);
        if output[i] == 0u8 {
            assert(next =~= fs.push(Seq::empty()));
            let r = process(&field, &mut done, current);
            match r {
                Ok(c) => {
                    current = c;
                },
                Err(e) => {
                    proof {
                        assert(next.take(fs.len() - 1) =~= fs.take(fs.len() - 1));
                        lemma_apply_prefix(next, fs, fs.len() - 1);
                        assert(next[fs.len() - 1] == fs.last());
                        assert(apply_fields(next, fs.len() as int) == Err::<ParseState, Seq<char>>(e@));
                        let all = split_fields(output@);
                        lemma_split_prefix(output@, i + 1);
                        assert(all.take(fs.len() as int) =~= next.take(fs.len() as int));
                        lemma_apply_prefix(all, next, fs.len() as int);
                        lemma_apply_err(all, fs.len() as int, all.len() as int, e@);
                    }
                    return Err(e);
                },
            }
            proof {
                assert(next.take(fs.len() - 1) =~= fs.take(fs.len() - 1));
                lemma_apply_prefix(next, fs, fs.len() - 1);
                assert(next[fs.len() - 1] == fs.last());
            }
            field = Vec::new();
            assert(field@ =~= next.last());
        } else {
            assert(next =~= fs.update(fs.len() - 1, fs.last().push(output@[i as int])));
            field.push(output[i]);
            proof {
                assert(next.take(fs.len() - 1) =~= fs.take(fs.len() - 1));
                lemma_apply_prefix(next, fs, fs.len() - 1);
            }
        }
        i = i + 1;
    }
    assert(output@.take(i as int) =~= output@);
    let ghost fs = split_fields(output@);
    let last = process(&field, &mut done, current);
    let current = match last {
        Ok(c) => c,
        Err(e) => {
            return Err(e);
        },
    };
    match current {
        Some(w) => {
            let ghost before = done@;
            done.push(w);
            assert(worktree_models(done@) =~= worktree_models(before).push(worktree_model(w)));
        },
        None => {},
    }
    if done.len() == 0 {
        return Err(owned("git did not return any worktrees"));
    }
    Ok(done)
}


/// How many leading components two paths share.
pub open spec fn common_len(a: Seq<ComponentModel>, b: Seq<ComponentModel>, i: int) -> int
    decreases a.len() - i,
{
    if i < 0 || i >= a.len() || i >= b.len() || a[i] != b[i] {
        i
    } else {
        common_len(a, b, i + 1)
    }
}

/// Whether every component of `c` from `from` on is a name.
pub open spec fn all_normal(c: Seq<ComponentModel>, from: int) -> bool {
    forall|k: int| from <= k < c.len() ==> #[trigger] c[k] is Normal
}

/// A path relative to a base: `..` for each name of the base below the
/// shared components, then the rest of the path; `.` for the base itself.
/// The path stays as it is when nothing is shared or the base goes on with
/// anything but names.
pub open spec fn relative_model(path: Seq<char>, base: Seq<char>, windows: bool) -> Seq<char> {
    let pc = path_components(path, windows);
    let bc = path_components(base, windows);
    let common = common_len(pc, bc, 0);
    if common == 0 || !all_normal(bc, common) {
        path
    } else {
        let parts = Seq::new((bc.len() - common) as nat, |k: int| ".."@) + pc.skip(common).map_values(
            |c: ComponentModel| crate::resolver::component_text(c, windows),
        );
        if parts.len() == 0 {
            "."@
        } else {
            joined(parts, seq![crate::resolver::separator(windows)])
        }
    }
}

fn same_component(a: &Component, b: &Component) -> (same: bool)
    ensures
        same == (component_model(*a) == component_model(*b)),
{
    match (a, b) {
        (Component::Prefix(x), Component::Prefix(y)) => str_eq(x.as_str(), y.as_str()),
        (Component::RootDir, Component::RootDir) => true,
        (Component::CurDir, Component::CurDir) => true,
        (Component::ParentDir, Component::ParentDir) => true,
        (Component::Normal(x), Component::Normal(y)) => str_eq(x.as_str(), y.as_str()),
        _ => false,
    }
}

fn component_text_of(c: &Component, windows: bool) -> (s: String)
    ensures
        s@ == crate::resolver::component_text(component_model(*c), windows),
{
    match c {
        Component::Prefix(p) => p.clone(),
        Component::RootDir => {
            let mut s = String::new();
            push_char(&mut s, if windows { '\\' } else { '/' });
            assert(s@ =~= seq![crate::resolver::separator(windows)]);
            s
        },
        Component::CurDir => {
            let mut s = String::new();
            push_char(&mut s, '.');
            assert(s@ =~= seq!['.']);
            s
        },
        Component::ParentDir => {
            let mut s = String::new();
            push_char(&mut s, '.');
            push_char(&mut s, '.');
            assert(s@ =~= seq!['.', '.']);
            s
        },
        Component::Normal(n) => n.clone(),
    }
}

/// A path relative to a base (see `relative_model`).
pub fn relative_path(path: &str, base: &str, windows: bool) -> (r: String)
    ensures
        r@ == relative_model(path@, base@, windows),
{
    let pc = components(path, windows);
    let bc = components(base, windows);
    let ghost pm = components_model(pc@);
    let ghost bm = components_model(bc@);
    let mut common: usize = 0;
    while common < pc.len() && common < bc.len() && same_component(&pc[common], &bc[common])
        invariant
            common <= pc@.len(),
            common <= bc@.len(),
            pm == components_model(pc@),
            bm == components_model(bc@),
            common_len(pm, bm, 0) == common_len(pm, bm, common as int),
        decreases pc@.len() - common,
    {
        common = common + 1;
    }
    assert(common_len(pm, bm, common as int) == common);
    if common == 0 {
        return owned(path);
    }
    let mut k = common;
    while k < bc.len()
        invariant
            common <= k <= bc@.len(),
            bm == components_model(bc@),
            pm == components_model(pc@),
            pm == path_components(path@, windows),
            bm == path_components(base@, windows),
            common == common_len(pm, bm, 0),
            common > 0,
            all_normal(bm.take(k as int), common as int),
        decreases bc@.len() - k,
    {
        match &bc[k] {
            Component::Normal(_) => {},
            _ => {
                assert(!(bm[k as int] is Normal));
                return owned(path);
            },
        }
        assert(all_normal(bm.take(k + 1), common as int)) by {
            assert forall|q: int| common <= q < k + 1 implies #[trigger] bm.take(k + 1)[q] is Normal by {
                if q < k {
                    assert(bm.take(k + 1)[q] == bm.take(k as int)[q]);
                }
            }
        }
        k = k + 1;
    }
    assert(bm.take(k as int) =~= bm);
    let mut parts: Vec<String> = Vec::new();
    let mut u: usize = common;
    while u < bc.len()
        invariant
            common <= u <= bc@.len(),
            views(parts@) == Seq::new((u - common) as nat, |q: int| ".."@),
        decreases bc@.len() - u,
    {
        let ghost before = parts@;
        parts.push(owned(".."));
        assert(views(parts@) =~= views(before).push(".."@));
        assert(views(parts@) =~= Seq::new((u + 1 - common) as nat, |q: int| ".."@));
        u = u + 1;
    }
    let ghost ups = views(parts@);
    let mut v: usize = common;
    while v < pc.len()
        invariant
            common <= v <= pc@.len(),
            pm == components_model(pc@),
            views(parts@) == ups + pm.skip(common as int).take(v - common).map_values(
                |c: ComponentModel| crate::resolver::component_text(c, windows),
            ),
        decreases pc@.len() - v,
    {
        let ghost before = parts@;
        parts.push(component_text_of(&pc[v], windows));
        assert(pm.skip(common as int).take(v + 1 - common) =~= pm.skip(common as int).take(v - common).push(pm[v as int]));
        assert(views(parts@) =~= views(before).push(crate::resolver::component_text(pm[v as int], windows)));
        assert(views(parts@) =~= ups + pm.skip(common as int).take(v + 1 - common).map_values(
            |c: ComponentModel| crate::resolver::component_text(c, windows),
        ));
        v = v + 1;
    }
    assert(pm.skip(common as int).take(v - common) =~= pm.skip(common as int));
    if parts.len() == 0 {
        return owned(".");
    }
    let mut sep = String::new();
    push_char(&mut sep, if windows { '\\' } else { '/' });
    assert(sep@ =~= seq![crate::resolver::separator(windows)]);
    join(&parts, sep.as_str())
}

/// One row of the worktree listing.
#[derive(Debug)]
pub struct WorktreeRow {
    pub path: String,
    pub branch: Option<String>,
    pub head: Option<String>,
    pub main: bool,
    pub bare: bool,
    pub detached: bool,
    pub locked: bool,
    pub lock_reason: Option<String>,
    pub prunable: bool,
    pub prune_reason: Option<String>,
}

/// A row with text as character sequences.
pub struct RowModel {
    pub path: Seq<char>,
    pub branch: Option<Seq<char>>,
    pub head: Option<Seq<char>>,
    pub main: bool,
    pub bare: bool,
    pub detached: bool,
    pub locked: bool,
    pub lock_reason: Option<Seq<char>>,
    pub prunable: bool,
    pub prune_reason: Option<Seq<char>>,
}

/// The model of a row.
pub open spec fn row_model(r: WorktreeRow) -> RowModel {
    RowModel {
        path: r.path@,
        branch: opt_seq(r.branch),
        head: opt_seq(r.head),
        main: r.main,
        bare: r.bare,
        detached: r.detached,
        locked: r.locked,
        lock_reason: opt_seq(r.lock_reason),
        prunable: r.prunable,
        prune_reason: opt_seq(r.prune_reason),
    }
}

/// The models of rows.
pub open spec fn row_models(v: Seq<WorktreeRow>) -> Seq<RowModel> {
    v.map_values(|r: WorktreeRow| row_model(r))
}

/// The row of a worktree; the first one listed is the main worktree.
pub open spec fn row_of(w: WorktreeModel, main: bool, relative: bool, cwd: Seq<char>, windows: bool) -> RowModel {
    RowModel {
        path: if relative {
            relative_model(w.path, cwd, windows)
        } else {
            w.path
        },
        branch: w.branch,
        head: w.head,
        main,
        bare: w.bare,
        detached: w.detached,
        locked: w.locked is Some,
        lock_reason: match w.locked {
            Some(r) => r,
            None => None,
        },
        prunable: w.prunable is Some,
        prune_reason: match w.prunable {
            Some(r) => r,
            None => None,
        },
    }
}

fn copy_opt(o: &Option<String>) -> (c: Option<String>)
    ensures
        opt_seq(c) == opt_seq(*o),
{
    match o {
        Some(s) => Some(s.clone()),
        None => None,
    }
}

fn flatten_reason(o: &Option<Option<String>>) -> (c: Option<String>)
    ensures
        opt_seq(c) == match opt_opt_seq(*o) {
            Some(r) => r,
            None => None,
        },
{
    match o {
        Some(r) => copy_opt(r),
        None => None,
    }
}

impl Worktree {
    /// The row of this worktree in a listing.
    pub fn row(&self, main: bool, relative: bool, cwd: &str, windows: bool) -> (r: WorktreeRow)
        ensures
            row_model(r) == row_of(worktree_model(*self), main, relative, cwd@, windows),
    {
        let path = if relative {
            relative_path(self.path.as_str(), cwd, windows)
        } else {
            self.path.clone()
        };
        WorktreeRow {
            path,
            branch: copy_opt(&self.branch),
            head: copy_opt(&self.head),
            main,
            bare: self.bare,
            detached: self.detached,
            locked: self.locked.is_some(),
            lock_reason: flatten_reason(&self.locked),
            prunable: self.prunable.is_some(),
            prune_reason: flatten_reason(&self.prunable),
        }
    }
}

/// The rows of a listing.
pub fn rows(worktrees: &Vec<Worktree>, relative: bool, cwd: &str, windows: bool) -> (v: Vec<WorktreeRow>)
    ensures
        v@.len() == worktrees@.len(),
        forall|i: int|
            0 <= i < v@.len() ==> row_model(#[trigger] v@[i]) == row_of(
                worktree_model(worktrees@[i]),
                i == 0,
                relative,
                cwd@,
                windows,
            ),
{
    let mut v: Vec<WorktreeRow> = Vec::new();
    let mut i: usize = 0;
    while i < worktrees.len()
        invariant
            i <= worktrees@.len(),
            v@.len() == i,
            forall|k: int|
                0 <= k < i ==> row_model(#[trigger] v@[k]) == row_of(
                    worktree_model(worktrees@[k]),
                    k == 0,
                    relative,
                    cwd@,
                    windows,
                ),
        decreases worktrees@.len() - i,
    {
        v.push(worktrees[i].row(i == 0, relative, cwd, windows));
        i = i + 1;
    }
    v
}

/// The states of a row joined by commas; `linked` when it has none.
pub open spec fn state_text(r: RowModel) -> Seq<char> {
    let states = (if r.main { seq!["main"@] } else { Seq::empty() }) + (if r.bare {
        seq!["bare"@]
    } else {
        Seq::empty()
    }) + (if r.detached { seq!["detached"@] } else { Seq::empty() }) + (if r.locked {
        seq!["locked"@]
    } else {
        Seq::empty()
    }) + (if r.prunable { seq!["prunable"@] } else { Seq::empty() });
    if states.len() == 0 {
        "linked"@
    } else {
        joined(states, ","@)
    }
}

/// The states of a row.
pub fn state(row: &WorktreeRow) -> (s: String)
    ensures
        s@ == state_text(row_model(*row)),
{
    let mut states: Vec<String> = Vec::new();
    if row.main {
        states.push(owned("main"));
    }
    if row.bare {
        states.push(owned("bare"));
    }
    if row.detached {
        states.push(owned("detached"));
    }
    if row.locked {
        states.push(owned("locked"));
    }
    if row.prunable {
        states.push(owned("prunable"));
    }
    let ghost r = row_model(*row);
    assert(views(states@) =~= (if r.main { seq!["main"@] } else { Seq::<Seq<char>>::empty() }) + (if r.bare {
        seq!["bare"@]
    } else {
        Seq::<Seq<char>>::empty()
    }) + (if r.detached { seq!["detached"@] } else { Seq::<Seq<char>>::empty() }) + (if r.locked {
        seq!["locked"@]
    } else {
        Seq::<Seq<char>>::empty()
    }) + (if r.prunable { seq!["prunable"@] } else { Seq::<Seq<char>>::empty() }));
    if states.len() == 0 {
        return owned("linked");
    }
    join(&states, ",")
}


/// The UTF-8 length of one character.
pub open spec fn char_width(c: char) -> nat {
    if (c as u32) < 0x80 {
        1
    } else if (c as u32) < 0x800 {
        2
    } else if (c as u32) < 0x10000 {
        3
    } else {
        4
    }
}

/// The UTF-8 length of a text.
pub open spec fn width_sum(s: Seq<char>) -> nat
    decreases s.len(),
{
    if s.len() == 0 {
        0
    } else {
        width_sum(s.drop_last()) + char_width(s.last())
    }
}

/// How many leading characters, from `k` on, fit in eight bytes.
pub open spec fn head_len(h: Seq<char>, k: int) -> int
    decreases h.len() - k,
{
    if k < 0 || k >= h.len() || width_sum(h.take(k + 1)) > 8 {
        k
    } else {
        head_len(h, k + 1)
    }
}

/// The abbreviated commit: the longest prefix of at most eight bytes.
pub open spec fn short_head(h: Seq<char>) -> Seq<char> {
    h.take(head_len(h, 0))
}

fn width_of(c: char) -> (w: usize)
    ensures
        w as nat == char_width(c),
{
    if (c as u32) < 0x80 {
        1
    } else if (c as u32) < 0x800 {
        2
    } else if (c as u32) < 0x10000 {
        3
    } else {
        4
    }
}

/// The abbreviated commit.
fn abbreviate(head: &str) -> (s: String)
    ensures
        s@ == short_head(head@),
{
    let c = chars_of(head);
    let mut k: usize = 0;
    let mut used: usize = 0;
    assert(head@.take(0) =~= Seq::<char>::empty());
    while k < c.len() && used + width_of(c[k]) <= 8
        invariant
            k <= c@.len(),
            c@ == head@,
            used as nat == width_sum(head@.take(k as int)),
            used <= 8,
            head_len(head@, 0) == head_len(head@, k as int),
        decreases c@.len() - k,
    {
        assert(head@.take(k + 1).drop_last() =~= head@.take(k as int));
        used = used + width_of(c[k]);
        k = k + 1;
    }
    if k < c.len() {
        assert(head@.take(k + 1).drop_last() =~= head@.take(k as int));
    }
    let mut s = String::new();
    let mut q: usize = 0;
    while q < k
        invariant
            q <= k <= c@.len(),
            c@ == head@,
            s@ == head@.take(q as int),
        decreases k - q,
    {
        push_char(&mut s, c[q]);
        assert(s@ =~= head@.take(q + 1));
        q = q + 1;
    }
    s
}

/// The cells of a row in the table: path, branch, abbreviated commit, state.
pub open spec fn cells(r: RowModel) -> (Seq<char>, Seq<char>, Seq<char>, Seq<char>) {
    (
        r.path,
        match r.branch {
            Some(b) => b,
            None => "-"@,
        },
        match r.head {
            Some(h) => short_head(h),
            None => "-"@,
        },
        state_text(r),
    )
}

/// The widest path of the first `n` rows, at least four.
pub open spec fn path_width(rows: Seq<RowModel>, n: int) -> nat
    decreases n,
{
    if n <= 0 {
        4
    } else {
        let w = path_width(rows, n - 1);
        let l = cells(rows[n - 1]).0.len();
        if l > w {
            l
        } else {
            w
        }
    }
}

/// The widest branch of the first `n` rows, at least six.
pub open spec fn branch_width(rows: Seq<RowModel>, n: int) -> nat
    decreases n,
{
    if n <= 0 {
        6
    } else {
        let w = branch_width(rows, n - 1);
        let l = cells(rows[n - 1]).1.len();
        if l > w {
            l
        } else {
            w
        }
    }
}

/// One line of the table.
pub open spec fn worktree_line(c: (Seq<char>, Seq<char>, Seq<char>, Seq<char>), pw: nat, bw: nat) -> Seq<char> {
    crate::mounts::padded(c.0, pw) + "  "@ + crate::mounts::padded(c.1, bw) + "  "@
        + crate::mounts::padded(c.2, 8) + "  "@ + c.3
}

/// The worktree table: a header and one line per row.
pub open spec fn table_text(rows: Seq<RowModel>) -> Seq<char> {
    let pw = path_width(rows, rows.len() as int);
    let bw = branch_width(rows, rows.len() as int);
    joined(
        seq![worktree_line(("PATH"@, "BRANCH"@, "HEAD"@, "STATE"@), pw, bw)] + rows.map_values(
            |r: RowModel| worktree_line(cells(r), pw, bw),
        ),
        "\n"@,
    )
}

fn pad_to(out: &mut String, s: &str, w: usize)
    ensures
        final(out)@ == old(out)@ + crate::mounts::padded(s@, w as nat),
{
    push_str(out, s);
    let n = chars_of(s).len();
    let ghost start = old(out)@ + s@;
    let mut k = n;
    while k < w
        invariant
            n == s@.len(),
            n <= k <= w || (k == n && n >= w),
            out@ == start + crate::mounts::spaces(k - n),
        decreases w - k,
    {
        push_char(out, ' ');
        assert(crate::mounts::spaces(k + 1 - n) =~= crate::mounts::spaces(k - n).push(' '));
        k = k + 1;
    }
    assert(crate::mounts::spaces(k - n) =~= crate::mounts::spaces(w - n));
}

/// The table of worktree rows.
pub fn render_table(rows: &Vec<WorktreeRow>) -> (out: String)
    ensures
        out@ == table_text(row_models(rows@)),
{
    let ghost rm = row_models(rows@);
    let mut paths: Vec<String> = Vec::new();
    let mut branches: Vec<String> = Vec::new();
    let mut heads: Vec<String> = Vec::new();
    let mut states: Vec<String> = Vec::new();
    let mut pw: usize = 4;
    let mut bw: usize = 6;
    let mut i: usize = 0;
    while i < rows.len()
        invariant
            i <= rows@.len(),
            rm == row_models(rows@),
            paths@.len() == i,
            branches@.len() == i,
            heads@.len() == i,
            states@.len() == i,
            forall|k: int| 0 <= k < i ==> (#[trigger] paths@[k]@, branches@[k]@, heads@[k]@, states@[k]@) == cells(rm[k]),
            pw as nat == path_width(rm, i as int),
            bw as nat == branch_width(rm, i as int),
        decreases rows@.len() - i,
    {
        let r = &rows[i];
        assert(rm[i as int] == row_model(*r));
        let p = r.path.clone();
        let b = match &r.branch {
            Some(b) => b.clone(),
            None => owned("-"),
        };
        let h = match &r.head {
            Some(h) => abbreviate(h.as_str()),
            None => owned("-"),
        };
        let s = state(r);
        let pl = chars_of(p.as_str()).len();
        let bl = chars_of(b.as_str()).len();
        if pl > pw {
            pw = pl;
        }
        if bl > bw {
            bw = bl;
        }
        paths.push(p);
        branches.push(b);
        heads.push(h);
        states.push(s);
        i = i + 1;
    }
    let mut lines: Vec<String> = Vec::new();
    let mut header = String::new();
    pad_to(&mut header, "PATH", pw);
    push_str(&mut header, "  ");
    pad_to(&mut header, "BRANCH", bw);
    push_str(&mut header, "  ");
    pad_to(&mut header, "HEAD", 8);
    push_str(&mut header, "  ");
    push_str(&mut header, "STATE");
    assert(header@ =~= worktree_line(("PATH"@, "BRANCH"@, "HEAD"@, "STATE"@), pw as nat, bw as nat));
    lines.push(header);
    let ghost head_line = seq![worktree_line(("PATH"@, "BRANCH"@, "HEAD"@, "STATE"@), pw as nat, bw as nat)];
    let mut j: usize = 0;
    while j < rows.len()
        invariant
            j <= rows@.len(),
            rm == row_models(rows@),
            paths@.len() == rows@.len(),
            branches@.len() == rows@.len(),
            heads@.len() == rows@.len(),
            states@.len() == rows@.len(),
            forall|k: int| 0 <= k < rows@.len() ==> (#[trigger] paths@[k]@, branches@[k]@, heads@[k]@, states@[k]@) == cells(rm[k]),
            views(lines@) == head_line + rm.take(j as int).map_values(|r: RowModel| worktree_line(cells(r), pw as nat, bw as nat)),
        decreases rows@.len() - j,
    {
        let mut line = String::new();
        pad_to(&mut line, paths[j].as_str(), pw);
        push_str(&mut line, "  ");
        pad_to(&mut line, branches[j].as_str(), bw);
        push_str(&mut line, "  ");
        pad_to(&mut line, heads[j].as_str(), 8);
        push_str(&mut line, "  ");
        push_str(&mut line, states[j].as_str());
        assert((paths@[j as int]@, branches@[j as int]@, heads@[j as int]@, states@[j as int]@) == cells(rm[j as int]));
        assert(line@ =~= worktree_line(cells(rm[j as int]), pw as nat, bw as nat));
        let ghost before = lines@;
        lines.push(line);
        assert(views(lines@) =~= views(before).push(worktree_line(cells(rm[j as int]), pw as nat, bw as nat)));
        assert(rm.take(j + 1).map_values(|r: RowModel| worktree_line(cells(r), pw as nat, bw as nat)) =~= rm.take(j as int).map_values(|r: RowModel| worktree_line(cells(r), pw as nat, bw as nat)).push(worktree_line(cells(rm[j as int]), pw as nat, bw as nat)));
        j = j + 1;
    }
    assert(rm.take(j as int) =~= rm);
    join(&lines, "\n")
}


/// The picker's line for a worktree: its index, path, branch and state,
/// separated by tabs and ended by NUL.
pub open spec fn fzf_record(i: nat, r: RowModel) -> Seq<char> {
    decimal_text(i) + "\t"@ + r.path + "\t"@ + match r.branch {
        Some(b) => b,
        None => "-"@,
    } + "\t"@ + state_text(r) + seq!['\0']
}

/// The picker's lines for the first `n` worktrees.
pub open spec fn fzf_text(ws: Seq<WorktreeModel>, n: int) -> Seq<char>
    decreases n,
{
    if n <= 0 {
        Seq::empty()
    } else {
        fzf_text(ws, n - 1) + fzf_record(
            (n - 1) as nat,
            row_of(ws[n - 1], n - 1 == 0, false, Seq::empty(), false),
        )
    }
}

/// The bytes handed to the picker.
pub fn fzf_input(worktrees: &Vec<Worktree>) -> (input: Vec<u8>)
    ensures
        input@ == vstd::utf8::encode_utf8(fzf_text(worktree_models(worktrees@), worktrees@.len() as int)),
{
    let mut text = String::new();
    let mut i: usize = 0;
    while i < worktrees.len()
        invariant
            i <= worktrees@.len(),
            text@ == fzf_text(worktree_models(worktrees@), i as int),
        decreases worktrees@.len() - i,
    {
        let row = worktrees[i].row(i == 0, false, "", false);
        proof {
            reveal_strlit("");
        }
        assert(worktree_models(worktrees@)[i as int] == worktree_model(worktrees@[i as int]));
        push_str(&mut text, decimal(i).as_str());
        push_str(&mut text, "\t");
        push_str(&mut text, row.path.as_str());
        push_str(&mut text, "\t");
        match &row.branch {
            Some(b) => push_str(&mut text, b.as_str()),
            None => push_str(&mut text, "-"),
        }
        push_str(&mut text, "\t");
        push_str(&mut text, state(&row).as_str());
        push_char(&mut text, '\0');
        assert(text@ =~= fzf_text(worktree_models(worktrees@), i + 1));
        i = i + 1;
    }
    vstd::slice::slice_to_vec(text.as_str().as_bytes())
}

/// The end of the run of `b` from `i` that does not hold `stop`.
pub open spec fn run_end(b: Seq<u8>, i: int, stop: u8) -> int
    decreases b.len() - i,
{
    if i < 0 || i >= b.len() || b[i] == stop {
        i
    } else {
        run_end(b, i + 1, stop)
    }
}

/// `usize::from_str`: an optional `+` and at least one ASCII digit, in range.
pub open spec fn usize_value(s: Seq<char>) -> Option<nat> {
    let digits = if s.len() > 0 && s[0] == '+' {
        s.skip(1)
    } else {
        s
    };
    if digits.len() > 0 && crate::text::all_digits(digits) && crate::text::decimal_value(digits)
        <= usize::MAX {
        Some(crate::text::decimal_value(digits))
    } else {
        None
    }
}

/// The index that the picker printed: the first tab-separated part of its
/// first NUL-terminated record.
pub open spec fn selected_index(stdout: Seq<u8>) -> Option<nat> {
    let record = stdout.take(run_end(stdout, 0, 0u8));
    let part = record.take(run_end(record, 0, 9u8));
    if valid_utf8(part) {
        usize_value(decode_utf8(part))
    } else {
        None
    }
}

/// What the picker's outcome selects: nothing when it was cancelled (exit
/// code 1 or 130), the chosen worktree's path, or why it cannot be read.
pub open spec fn pick_model(
    ws: Seq<WorktreeModel>,
    code: Option<i32>,
    success: bool,
    status: Seq<char>,
    stdout: Seq<u8>,
) -> Result<Option<Seq<char>>, Seq<char>> {
    if code == Some(1i32) || code == Some(130i32) {
        Ok(None)
    } else if !success {
        Err("fzf exited with "@ + status)
    } else {
        match selected_index(stdout) {
            None => Err("fzf returned an invalid worktree selection"@),
            Some(i) => if i < ws.len() {
                Ok(Some(ws[i as int].path))
            } else {
                Err("fzf returned an unknown worktree selection"@)
            },
        }
    }
}

fn leading_run(b: &[u8], stop: u8) -> (r: Vec<u8>)
    ensures
        r@ == b@.take(run_end(b@, 0, stop)),
{
    let mut r: Vec<u8> = Vec::new();
    let mut i: usize = 0;
    while i < b.len() && b[i] != stop
        invariant
            i <= b@.len(),
            run_end(b@, 0, stop) == run_end(b@, i as int, stop),
            r@ == b@.take(i as int),
        decreases b@.len() - i,
    {
        r.push(b[i]);
        assert(r@ =~= b@.take(i + 1));
        i = i + 1;
    }
    r
}

/// What the picker's outcome selects (see `pick_model`); `status` is how the
/// exit status prints.
pub fn pick_outcome(
    worktrees: &Vec<Worktree>,
    code: Option<i32>,
    success: bool,
    status: &str,
    stdout: &[u8],
) -> (r: Result<Option<String>, String>)
    ensures
        match r {
            Ok(p) => pick_model(worktree_models(worktrees@), code, success, status@, stdout@) == Ok::<
                Option<Seq<char>>,
                Seq<char>,
            >(opt_seq(p)),
            Err(e) => pick_model(worktree_models(worktrees@), code, success, status@, stdout@) == Err::<
                Option<Seq<char>>,
                Seq<char>,
            >(e@),
        },
{
    if code == Some(1i32) || code == Some(130i32) {
        return Ok(None);
    }
    if !success {
        let mut e = owned("fzf exited with ");
        push_str(&mut e, status);
        return Err(e);
    }
    let record = leading_run(stdout, 0u8);
    let part = leading_run(record.as_slice(), 9u8);
    let index = match utf8_text(part.as_slice()) {
        None => None,
        Some(t) => {
            let c = chars_of(t.as_str());
            let start: usize = if c.len() > 0 && c[0] == '+' {
                1
            } else {
                0
            };
            let ghost digits = if t@.len() > 0 && t@[0] == '+' {
                t@.skip(1)
            } else {
                t@
            };
            assert(c@.skip(start as int) =~= digits);
            match crate::text::parse_bounded_decimal(&c, start, usize::MAX as u64) {
                Some(v) => Some(v as usize),
                None => None,
            }
        },
    };
    match index {
        None => Err(owned("fzf returned an invalid worktree selection")),
        Some(i) => {
            if i < worktrees.len() {
                Ok(Some(worktrees[i].path.clone()))
            } else {
                Err(owned("fzf returned an unknown worktree selection"))
            }
        },
    }
}

/// Every worktree path followed by a NUL byte, for shell completion.
pub open spec fn paths0_text(ws: Seq<WorktreeModel>) -> Seq<char>
    decreases ws.len(),
{
    if ws.len() == 0 {
        Seq::empty()
    } else {
        paths0_text(ws.drop_last()) + ws.last().path + seq!['\0']
    }
}

/// The worktree paths, each followed by a NUL byte.
pub fn paths0(worktrees: &Vec<Worktree>) -> (out: Vec<u8>)
    ensures
        out@ == vstd::utf8::encode_utf8(paths0_text(worktree_models(worktrees@))),
{
    let mut text = String::new();
    let mut i: usize = 0;
    while i < worktrees.len()
        invariant
            i <= worktrees@.len(),
            text@ == paths0_text(worktree_models(worktrees@).take(i as int)),
        decreases worktrees@.len() - i,
    {
        assert(worktree_models(worktrees@).take(i + 1).drop_last() =~= worktree_models(worktrees@).take(i as int));
        assert(worktree_models(worktrees@).take(i + 1).last() == worktree_model(worktrees@[i as int]));
        push_str(&mut text, worktrees[i].path.as_str());
        push_char(&mut text, '\0');
        assert(text@ =~= paths0_text(worktree_models(worktrees@).take(i + 1)));
        i = i + 1;
    }
    assert(worktree_models(worktrees@).take(i as int) =~= worktree_models(worktrees@));
    vstd::slice::slice_to_vec(text.as_str().as_bytes())
}

} // verus!
