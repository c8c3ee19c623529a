//! The decisions of the interactive zoxide helper that the key widgets run:
//! its private stdout protocol (`selected`, `unavailable`, `empty`,
//! `cancelled`) and its errors, from what the programs it ran returned.
use vstd::prelude::*;
use vstd::utf8::encode_utf8;

use crate::config::is_absolute_path;
use crate::path_bytes::{strip_line_ending, without_line_ending};
use crate::paths::{components, path_components};
use crate::text::{lossy_utf8, owned, push_str, trim, trimmed, utf8_lossy};

verus! {

/// Whether a program name is looked up on `PATH`: a bare name is, a path
/// with a directory part or an absolute path is used as it is.
pub open spec fn searches_path_model(program: Seq<char>, windows: bool) -> bool {
    !(path_components(program, windows).len() > 1 || is_absolute_path(program, windows))
}

/// Whether a program name is looked up on `PATH`.
pub fn searches_path(program: &str, windows: bool) -> (r: bool)
    ensures
        r == searches_path_model(program@, windows),
{
    let c = components(program, windows);
    !(c.len() > 1 || crate::config::is_absolute(program, windows))
}

fn text_bytes(s: &str) -> (b: Vec<u8>)
    ensures
        b@ == encode_utf8(s@),
{
    vstd::slice::slice_to_vec(s.as_bytes())
}

/// The reply when a program cannot be found.
pub open spec fn unavailable_text(kind: Seq<char>, program: Seq<char>) -> Seq<char> {
    "unavailable\n"@ + kind + " executable not found: "@ + program
}

/// The reply when a program cannot be found (`kind` is `zoxide` or `fzf`).
pub fn unavailable_reply(kind: &str, program: &str) -> (reply: Vec<u8>)
    ensures
        reply@ == encode_utf8(unavailable_text(kind@, program@)),
{
    let mut s = owned("unavailable\n");
    push_str(&mut s, kind);
    push_str(&mut s, " executable not found: ");
    push_str(&mut s, program);
    text_bytes(s.as_str())
}

/// What listing zoxide's candidates decides: a failed listing is an error, no
/// candidate is the `empty` reply, and otherwise the picker opens (`None`).
pub open spec fn listing_model(success: bool, status: Seq<char>, stderr: Seq<u8>, empty: bool) -> Option<
    Result<Seq<u8>, Seq<char>>,
> {
    if !success {
        Some(Err("zoxide query failed ("@ + status + "): "@ + trimmed(lossy_utf8(stderr))))
    } else if empty {
        Some(Ok(encode_utf8("empty\n"@)))
    } else {
        None
    }
}

/// What listing zoxide's candidates decides.
pub fn listing_outcome(success: bool, status: &str, stderr: &[u8], empty: bool) -> (r: Option<
    Result<Vec<u8>, String>,
>)
    ensures
        match r {
            Some(Ok(b)) => listing_model(success, status@, stderr@, empty) == Some(
                Ok::<Seq<u8>, Seq<char>>(b@),
            ),
            Some(Err(e)) => listing_model(success, status@, stderr@, empty) == Some(
                Err::<Seq<u8>, Seq<char>>(e@),
            ),
            None => listing_model(success, status@, stderr@, empty) is None,
        },
{
    if !success {
        let mut e = owned("zoxide query failed (");
        push_str(&mut e, status);
        push_str(&mut e, "): ");
        push_str(&mut e, trim(utf8_lossy(stderr).as_str()).as_str());
        return Some(Err(e));
    }
    if empty {
        return Some(Ok(text_bytes("empty\n")));
    }
    None
}

/// What the interactive picker's outcome decides: an interrupt or no
/// selection is `cancelled`, a failure is an error, a selection is replied
/// as `selected` with its path (which must not hold NUL).
pub open spec fn interactive_model(
    code: Option<i32>,
    success: bool,
    status: Seq<char>,
    stdout: Seq<u8>,
    windows: bool,
) -> Result<Seq<u8>, Seq<char>> {
    if code == Some(130i32) {
        Ok(encode_utf8("cancelled\n"@))
    } else if !success {
        Err("interactive zoxide query failed ("@ + status + ")"@)
    } else {
        let target = strip_line_ending(stdout, windows);
        if target.len() == 0 {
            Ok(encode_utf8("cancelled\n"@))
        } else if target.contains(0u8) {
            Err("interactive zoxide returned a path containing NUL"@)
        } else {
            Ok(encode_utf8("selected\n"@) + target)
        }
    }
}

/// What the interactive picker's outcome decides.
pub fn interactive_outcome(
    code: Option<i32>,
    success: bool,
    status: &str,
    stdout: &[u8],
    windows: bool,
) -> (r: Result<Vec<u8>, String>)
    ensures
        match r {
            Ok(b) => interactive_model(code, success, status@, stdout@, windows) == Ok::<
                Seq<u8>,
                Seq<char>,
            >(b@),
            Err(e) => interactive_model(code, success, status@, stdout@, windows) == Err::<
                Seq<u8>,
                Seq<char>,
            >(e@),
        },
{
    if code == Some(130i32) {
        return Ok(text_bytes("cancelled\n"));
    }
    if !success {
        let mut e = owned("interactive zoxide query failed (");
        push_str(&mut e, status);
        push_str(&mut e, ")");
        return Err(e);
    }
    let target = without_line_ending(stdout, windows);
    if target.len() == 0 {
        return Ok(text_bytes("cancelled\n"));
    }
    let mut i: usize = 0;
    while i < target.len()
        invariant
            i <= target@.len(),
            forall|k: int| 0 <= k < i ==> target@[k] != 0u8,
            target@ == strip_line_ending(stdout@, windows),
            target@.len() > 0,
            code != Some(130i32),
            success,
        decreases target@.len() - i,
    {
        if target[i] == 0u8 {
            assert(target@.contains(0u8)) by {
                assert(target@[i as int] == 0u8);
            }
            return Err(owned("interactive zoxide returned a path containing NUL"));
        }
        i = i + 1;
    }
    assert(!target@.contains(0u8));
    let mut reply = text_bytes("selected\n");
    let ghost head = reply@;
    let mut k: usize = 0;
    while k < target.len()
        invariant
            k <= target@.len(),
            reply@ == head + target@.take(k as int),
            head == encode_utf8("selected\n"@),
        decreases target@.len() - k,
    {
        reply.push(target[k]);
        assert(reply@ =~= head + target@.take(k + 1));
        k = k + 1;
    }
    assert(target@.take(k as int) =~= target@);
    Ok(reply)
}

} // verus!
