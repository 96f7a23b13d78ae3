//! The rule on values that are given on the command line.

use crate::text::{chars_of, string_of, trim, trim_end_index, trim_start_index};
use vstd::prelude::*;

verus! {

/// Whether `text` begins and ends with `quote`.
pub open spec fn is_quoted(text: Seq<char>, quote: char) -> bool {
    text.len() > 0 && text.first() == quote && text.last() == quote
}

/// Whether a value, without the white space around it, stands in double or
/// single quotes.
pub open spec fn has_quotes(value: Seq<char>) -> bool {
    is_quoted(trim(value), '"') || is_quoted(trim(value), '\'')
}

/// A value as the program takes it: without the white space around it. A
/// value that stands in quotes is refused.
pub fn validate_no_quotes(s: &str) -> (value: Result<String, String>)
    ensures
        match value {
            Ok(text) => !has_quotes(s@) && text@ == trim(s@),
            Err(reason) => has_quotes(s@) && reason@
                == "Value must not be quoted, remove the quotes."@,
        },
{
    let chars = chars_of(s);
    let start = trim_start_index(&chars, 0, chars.len());
    let end = trim_end_index(&chars, start, chars.len());
    proof {
        assert(chars@.subrange(0, chars.len() as int) == chars@);
        assert(chars@.skip(start as int) == chars@.subrange(start as int, chars.len() as int));
        assert(chars@.subrange(start as int, chars.len() as int).take(end - start)
            == chars@.subrange(start as int, end as int));
    }
    if start < end {
        let first = chars[start];
        let last = chars[end - 1];
        if (first == '"' && last == '"') || (first == '\'' && last == '\'') {
            return Err("Value must not be quoted, remove the quotes.".to_owned());
        }
    }
    Ok(string_of(&chars, start, end))
}

} // verus!
