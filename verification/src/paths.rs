//! Path components of textual paths, following `std::path::Path::components`
//! for the forms cj meets: an optional Windows drive prefix, an optional root,
//! and `/`-separated (on Windows also `\`-separated) names.
use vstd::prelude::*;

use crate::config::is_separator;
use crate::text::{chars_of, push_char};

verus! {

/// One component of a path.
#[derive(Debug, PartialEq)]
pub enum Component {
    Prefix(String),
    RootDir,
    CurDir,
    ParentDir,
    Normal(String),
}

/// A component with its text as a character sequence.
pub enum ComponentModel {
    Prefix(Seq<char>),
    RootDir,
    CurDir,
    ParentDir,
    Normal(Seq<char>),
}

/// The model of a component.
pub open spec fn component_model(c: Component) -> ComponentModel {
    match c {
        Component::Prefix(s) => ComponentModel::Prefix(s@),
        Component::RootDir => ComponentModel::RootDir,
        Component::CurDir => ComponentModel::CurDir,
        Component::ParentDir => ComponentModel::ParentDir,
        Component::Normal(s) => ComponentModel::Normal(s@),
    }
}

/// The models of a list of components.
pub open spec fn components_model(v: Seq<Component>) -> Seq<ComponentModel> {
    v.map_values(|c: Component| component_model(c))
}

/// `s` split at every separator; separators themselves are dropped, so a
/// path of `n` separators gives `n + 1` segments.
pub open spec fn segments(s: Seq<char>, windows: bool) -> Seq<Seq<char>>
    decreases s.len(),
{
    if s.len() == 0 {
        seq![Seq::empty()]
    } else {
        let rest = segments(s.drop_last(), windows);
        if is_separator(s.last(), windows) {
            rest.push(Seq::empty())
        } else {
            rest.update(rest.len() - 1, rest.last().push(s.last()))
        }
    }
}

/// The component a segment contributes: none for an empty segment or an
/// inner `.`; a leading `.` of a relative path is the current directory.
pub open spec fn segment_component(seg: Seq<char>, first: bool, rooted: bool) -> Seq<ComponentModel> {
    if seg.len() == 0 {
        Seq::empty()
    } else if seg == seq!['.'] {
        if first && !rooted {
            seq![ComponentModel::CurDir]
        } else {
            Seq::empty()
        }
    } else if seg == seq!['.', '.'] {
        seq![ComponentModel::ParentDir]
    } else {
        seq![ComponentModel::Normal(seg)]
    }
}

/// The components of the first `n` segments.
pub open spec fn segments_components(segs: Seq<Seq<char>>, n: int, rooted: bool) -> Seq<
    ComponentModel,
>
    decreases n,
{
    if n <= 0 {
        Seq::empty()
    } else {
        segments_components(segs, n - 1, rooted) + segment_component(
            segs[n - 1],
            n - 1 == 0,
            rooted,
        )
    }
}

/// Whether `s` starts with a Windows drive prefix such as `C:`.
pub open spec fn has_drive(s: Seq<char>, windows: bool) -> bool {
    windows && s.len() >= 2 && s[1] == ':' && (('a' <= s[0] && s[0] <= 'z') || ('A' <= s[0]
        && s[0] <= 'Z'))
}

/// The components of a path without a prefix.
pub open spec fn body_components(s: Seq<char>, windows: bool) -> Seq<ComponentModel> {
    let rooted = s.len() > 0 && is_separator(s[0], windows);
    let segs = segments(s, windows);
    (if rooted {
        seq![ComponentModel::RootDir]
    } else {
        Seq::empty()
    }) + segments_components(segs, segs.len() as int, rooted)
}

/// The components of a path.
pub open spec fn path_components(s: Seq<char>, windows: bool) -> Seq<ComponentModel> {
    if has_drive(s, windows) {
        seq![ComponentModel::Prefix(s.take(2))] + body_components(s.skip(2), windows)
    } else {
        body_components(s, windows)
    }
}

/// Splits a path into segments.
fn split_segments(chars: &Vec<char>, start: usize, windows: bool) -> (segs: Vec<String>)
    requires
        start <= chars@.len(),
    ensures
        segs@.map_values(|s: String| s@) == segments(chars@.skip(start as int), windows),
        segs@.len() >= 1,
{
    let mut segs: Vec<String> = Vec::new();
    segs.push(String::new());
    let mut i = start;
    assert(chars@.skip(start as int).take(0) =~= Seq::<char>::empty());
    assert(segs@.map_values(|s: String| s@) =~= seq![Seq::<char>::empty()]);
    while i < chars.len()
        invariant
            start <= i <= chars@.len(),
            segs@.len() >= 1,
            segs@.map_values(|s: String| s@) == segments(
                chars@.skip(start as int).take(i - start),
                windows,
            ),
        decreases chars@.len() - i,
    {
        let c = chars[i];
        let ghost prefix = chars@.skip(start as int).take(i - start);
        let ghost next = chars@.skip(start as int).take(i + 1 - start);
        assert(next.drop_last() =~= prefix);
        assert(next.last() == c);
        if c == '/' || (windows && c == '\\') {
            segs.push(String::new());
            assert(segs@.map_values(|s: String| s@) =~= segments(prefix, windows).push(
                Seq::empty(),
            ));
        } else {
            let last = segs.len() - 1;
            let mut seg = segs.pop().unwrap();
            push_char(&mut seg, c);
            segs.push(seg);
            let ghost before = segments(prefix, windows);
            assert(segs@.map_values(|s: String| s@) =~= before.update(
                before.len() - 1,
                before.last().push(c),
            ));
        }
        i = i + 1;
    }
    assert(chars@.skip(start as int).take(i - start) =~= chars@.skip(start as int));
    segs
}

/// Whether a string is exactly one or two dots.
fn dots(s: &String) -> (r: (bool, bool))
    ensures
        r.0 == (s@ == seq!['.']),
        r.1 == (s@ == seq!['.', '.']),
{
    let c = chars_of(s.as_str());
    let one = c.len() == 1 && c[0] == '.';
    let two = c.len() == 2 && c[0] == '.' && c[1] == '.';
    proof {
        if s@ == seq!['.'] {
            assert(c@.len() == 1);
        }
        if s@ == seq!['.', '.'] {
            assert(c@.len() == 2);
        }
        if one {
            assert(s@ =~= seq!['.']);
        }
        if two {
            assert(s@ =~= seq!['.', '.']);
        }
    }
    (one, two)
}

/// The components of the part of `chars` from `start` on.
fn body(chars: &Vec<char>, start: usize, windows: bool, out: &mut Vec<Component>)
    requires
        start <= chars@.len(),
    ensures
        components_model(final(out)@) == components_model(old(out)@) + body_components(
            chars@.skip(start as int),
            windows,
        ),
{
    let ghost s = chars@.skip(start as int);
    let rooted = start < chars.len() && (chars[start] == '/' || (windows && chars[start] == '\\'));
    assert(rooted == (s.len() > 0 && is_separator(s[0], windows)));
    let ghost base = components_model(out@);
    if rooted {
        out.push(Component::RootDir);
    }
    let ghost head = if rooted {
        seq![ComponentModel::RootDir]
    } else {
        Seq::<ComponentModel>::empty()
    };
    assert(components_model(out@) =~= base + head);
    let segs = split_segments(chars, start, windows);
    let ghost sv = segs@.map_values(|s: String| s@);
    let mut j: usize = 0;
    while j < segs.len()
        invariant
            j <= segs@.len(),
            sv == segs@.map_values(|s: String| s@),
            sv == segments(s, windows),
            components_model(out@) == base + head + segments_components(sv, j as int, rooted),
        decreases segs@.len() - j,
    {
        let seg = &segs[j];
        assert(seg@ == sv[j as int]);
        let (one, two) = dots(seg);
        let ghost piece = segment_component(sv[j as int], j == 0, rooted);
        let ghost prior = components_model(out@);
        if seg.as_str().is_empty() {
            assert(piece =~= Seq::<ComponentModel>::empty());
        } else if one {
            if j == 0 && !rooted {
                out.push(Component::CurDir);
            }
        } else if two {
            out.push(Component::ParentDir);
        } else {
            out.push(Component::Normal(seg.clone()));
        }
        assert(components_model(out@) =~= prior + piece);
        j = j + 1;
    }
}

/// The components of a path (`Path::components`).
pub fn components(path: &str, windows: bool) -> (out: Vec<Component>)
    ensures
        components_model(out@) == path_components(path@, windows),
{
    let chars = chars_of(path);
    let mut out: Vec<Component> = Vec::new();
    let drive = windows && chars.len() >= 2 && chars[1] == ':' && (('a' <= chars[0] && chars[0]
        <= 'z') || ('A' <= chars[0] && chars[0] <= 'Z'));
    if drive {
        let mut prefix = String::new();
        push_char(&mut prefix, chars[0]);
        push_char(&mut prefix, chars[1]);
        assert(prefix@ =~= path@.take(2));
        out.push(Component::Prefix(prefix));
        assert(components_model(out@) =~= seq![ComponentModel::Prefix(path@.take(2))]);
        body(&chars, 2, windows, &mut out);
    } else {
        assert(components_model(out@) =~= Seq::<ComponentModel>::empty());
        body(&chars, 0, windows, &mut out);
        assert(chars@.skip(0) =~= path@);
        assert(components_model(out@) =~= body_components(path@, windows));
    }
    out
}

} // verus!
