//! String literals embedded in generated PowerShell source.
use vstd::prelude::*;

use crate::text::{chars_of, concat_map, push_char};

verus! {

/// The characters that delimit a PowerShell single-quoted string: the ASCII
/// apostrophe and U+2018 through U+201B.
pub open spec fn is_ps_quote(c: char) -> bool {
    c == '\'' || ('\u{2018}' <= c && c <= '\u{201b}')
}

/// One character of a PowerShell single-quoted literal's body.
pub open spec fn ps_escape_char(c: char) -> Seq<char> {
    if is_ps_quote(c) { seq![c, c] } else { seq![c] }
}

/// The body of a PowerShell single-quoted literal: each quote character doubled.
pub open spec fn ps_escape(s: Seq<char>) -> Seq<char> {
    concat_map(s, |c: char| ps_escape_char(c))
}

/// Matches PowerShell's `CodeGeneration.EscapeSingleQuotedStringContent`
/// wrapped in single quotes.
pub fn quote(value: &str) -> (quoted: String)
    ensures
        quoted@ == seq!['\''] + ps_escape(value@) + seq!['\''],
{
    let chars = chars_of(value);
    let mut quoted = String::new();
    push_char(&mut quoted, '\'');
    let mut i: usize = 0;
    while i < chars.len()
        invariant
            i <= chars@.len(),
            chars@ == value@,
            quoted@ == seq!['\''] + ps_escape(value@.take(i as int)),
        decreases chars@.len() - i,
    {
        let character = chars[i];
        assert(value@.take(i + 1).drop_last() =~= value@.take(i as int));
        push_char(&mut quoted, character);
        if character == '\'' || ('\u{2018}' <= character && character <= '\u{201b}') {
            push_char(&mut quoted, character);
        }
        i = i + 1;
    }
    assert(value@.take(i as int) =~= value@);
    push_char(&mut quoted, '\'');
    quoted
}

} // verus!
