//! Paths as the bytes that processes print and read: trailing line endings,
//! UTF-8 decoding, and the bytes written for a path.
use vstd::prelude::*;
use vstd::utf8::{decode_utf8, valid_utf8};

use crate::cli::OsArg;

verus! {

/// A path as text or as the platform's raw bytes.
pub enum PathModel {
    Text(Seq<char>),
    Raw(Seq<u8>),
}

/// The model of an argument used as a path.
pub open spec fn path_model(a: OsArg) -> PathModel {
    match a {
        OsArg::Text(s) => PathModel::Text(s@),
        OsArg::Raw(b) => PathModel::Raw(b@),
    }
}

/// `bytes` without one trailing line feed and, on Windows, then without one
/// trailing carriage return.
pub open spec fn strip_line_ending(bytes: Seq<u8>, windows: bool) -> Seq<u8> {
    let a = if bytes.len() > 0 && bytes.last() == 10u8 {
        bytes.drop_last()
    } else {
        bytes
    };
    if windows && a.len() > 0 && a.last() == 13u8 {
        a.drop_last()
    } else {
        a
    }
}

/// The path that a process's raw output names: text when it is UTF-8, raw
/// bytes otherwise.
pub open spec fn bytes_path(bytes: Seq<u8>) -> PathModel {
    if valid_utf8(bytes) {
        PathModel::Text(decode_utf8(bytes))
    } else {
        PathModel::Raw(bytes)
    }
}

/// What `from_bytes` gives: on Unix any bytes name a path; elsewhere only
/// UTF-8 does, and other bytes are the error `invalid`.
pub open spec fn from_bytes_model(bytes: Seq<u8>, invalid: Seq<char>, windows: bool) -> Result<
    PathModel,
    Seq<char>,
> {
    if windows && !valid_utf8(bytes) {
        Err(invalid)
    } else {
        Ok(bytes_path(bytes))
    }
}

/// The model of a path result.
pub open spec fn path_result(r: Result<OsArg, String>) -> Result<PathModel, Seq<char>> {
    match r {
        Ok(p) => Ok(path_model(p)),
        Err(e) => Err(e@),
    }
}

/// The bytes that are written for a path, or why none can be.
pub open spec fn output_model(p: PathModel, windows: bool) -> Result<Seq<u8>, Seq<char>> {
    match p {
        PathModel::Text(s) => Ok(vstd::utf8::encode_utf8(s)),
        PathModel::Raw(b) => if windows {
            Err("cannot write a non-Unicode path on this platform"@)
        } else {
            Ok(b)
        },
    }
}

/// Decodes UTF-8 bytes (`std::str::from_utf8`), `None` when they are not
/// UTF-8.
#[verifier::external_body]
pub(crate) fn utf8_text(bytes: &[u8]) -> (text: Option<String>)
    ensures
        match text {
            Some(s) => valid_utf8(bytes@) && s@ == decode_utf8(bytes@),
            None => !valid_utf8(bytes@),
        },
{
    std::str::from_utf8(bytes).ok().map(|s| s.to_owned())
}

/// `bytes` without its trailing line ending.
pub fn without_line_ending(bytes: &[u8], windows: bool) -> (out: Vec<u8>)
    ensures
        out@ == strip_line_ending(bytes@, windows),
{
    let n = bytes.len();
    let mut end = n;
    if end > 0 && bytes[end - 1] == 10u8 {
        end = end - 1;
    }
    let ghost a = if n > 0 && bytes@.last() == 10u8 {
        bytes@.drop_last()
    } else {
        bytes@
    };
    assert(a =~= bytes@.take(end as int));
    if windows && end > 0 && bytes[end - 1] == 13u8 {
        end = end - 1;
    }
    let mut out: Vec<u8> = Vec::new();
    let mut i: usize = 0;
    while i < end
        invariant
            i <= end <= bytes@.len(),
            out@ == bytes@.take(i as int),
        decreases end - i,
    {
        out.push(bytes[i]);
        assert(out@ =~= bytes@.take(i + 1));
        i = i + 1;
    }
    assert(out@ =~= strip_line_ending(bytes@, windows));
    out
}

/// The path named by raw bytes that a process printed.
pub fn from_bytes(bytes: &[u8], invalid_utf8: &str, windows: bool) -> (r: Result<OsArg, String>)
    ensures
        path_result(r) == from_bytes_model(bytes@, invalid_utf8@, windows),
{
    match utf8_text(bytes) {
        Some(s) => Ok(OsArg::Text(s)),
        None => {
            if windows {
                Err(invalid_utf8.to_owned())
            } else {
                Ok(OsArg::Raw(vstd::slice::slice_to_vec(bytes)))
            }
        },
    }
}

/// The bytes written for a path.
pub fn output_bytes(path: &OsArg, windows: bool) -> (r: Result<Vec<u8>, String>)
    ensures
        match r {
            Ok(b) => output_model(path_model(*path), windows) == Ok::<Seq<u8>, Seq<char>>(b@),
            Err(e) => output_model(path_model(*path), windows) == Err::<Seq<u8>, Seq<char>>(e@),
        },
{
    match path {
        OsArg::Text(s) => Ok(vstd::slice::slice_to_vec(s.as_str().as_bytes())),
        OsArg::Raw(b) => {
            if windows {
                Err("cannot write a non-Unicode path on this platform".to_owned())
            } else {
                Ok(b.clone())
            }
        },
    }
}

} // verus!
