//! What a run of `cj` prints: the bytes for stdout, the diagnostics for
//! stderr, and whether a line feed ends stdout.
use vstd::prelude::*;

use crate::cli::OsArg;
use crate::path_bytes::{output_bytes, output_model, path_model};

verus! {

/// The outcome of a command.
#[derive(Debug)]
pub struct Execution {
    pub stdout: Vec<u8>,
    pub stderr: String,
    pub write_stdout: bool,
    pub trailing_newline: bool,
}

impl Execution {
    /// Text for stdout, ended by a line feed.
    pub fn stdout(stdout: String) -> (e: Execution)
        ensures
            e.stdout@ == vstd::utf8::encode_utf8(stdout@),
            e.stderr@.len() == 0,
            e.write_stdout,
            e.trailing_newline,
    {
        let bytes = vstd::slice::slice_to_vec(stdout.as_str().as_bytes());
        Execution { stdout: bytes, stderr: String::new(), write_stdout: true, trailing_newline: true }
    }

    /// Bytes for stdout exactly as they are.
    pub fn raw(stdout: Vec<u8>) -> (e: Execution)
        ensures
            e.stdout@ == stdout@,
            e.stderr@.len() == 0,
            e.write_stdout,
            !e.trailing_newline,
    {
        Execution { stdout, stderr: String::new(), write_stdout: true, trailing_newline: false }
    }

    /// Nothing to print.
    pub fn silent() -> (e: Execution)
        ensures
            e.stdout@.len() == 0,
            e.stderr@.len() == 0,
            !e.write_stdout,
            !e.trailing_newline,
    {
        Execution { stdout: Vec::new(), stderr: String::new(), write_stdout: false, trailing_newline: false }
    }

    /// A path for the shell to change to, ended by a line feed.
    pub fn path(path: &OsArg, windows: bool) -> (r: Result<Execution, String>)
        ensures
            match r {
                Ok(e) => output_model(path_model(*path), windows) == Ok::<Seq<u8>, Seq<char>>(e.stdout@)
                    && e.stderr@.len() == 0 && e.write_stdout && e.trailing_newline,
                Err(m) => output_model(path_model(*path), windows) == Err::<Seq<u8>, Seq<char>>(m@),
            },
    {
        match output_bytes(path, windows) {
            Ok(bytes) => Ok(
                Execution { stdout: bytes, stderr: String::new(), write_stdout: true, trailing_newline: true },
            ),
            Err(e) => Err(e),
        }
    }

    /// Appends what goes to stdout: the bytes, then a line feed when one is
    /// owed.
    pub fn write_to(&self, out: &mut Vec<u8>)
        ensures
            final(out)@ == old(out)@ + self.stdout@ + if self.trailing_newline {
                seq![10u8]
            } else {
                Seq::<u8>::empty()
            },
    {
        let mut i: usize = 0;
        let ghost start = out@;
        while i < self.stdout.len()
            invariant
                i <= self.stdout@.len(),
                out@ == start + self.stdout@.take(i as int),
            decreases self.stdout@.len() - i,
        {
            out.push(self.stdout[i]);
            assert(out@ =~= start + self.stdout@.take(i + 1));
            i = i + 1;
        }
        assert(self.stdout@.take(i as int) =~= self.stdout@);
        if self.trailing_newline {
            out.push(10u8);
        }
        assert(out@ =~= start + self.stdout@ + if self.trailing_newline {
            seq![10u8]
        } else {
            Seq::<u8>::empty()
        });
    }
}

} // verus!
