use vstd::prelude::*;

verus! {

/// A delimiter that cannot separate fields: it must be ASCII and none of carriage
/// return, line feed, double quote or NUL.
#[derive(Debug, Clone, Copy, PartialEq, Eq, Structural)]
pub struct InvalidDelimiter {
    pub delimiter: char,
}

/// Whether `delimiter` can separate fields.
pub open spec fn valid_delimiter(delimiter: char) -> bool {
    &&& (delimiter as u32) < 128
    &&& delimiter != '\r'
    &&& delimiter != '\n'
    &&& delimiter != '"'
    &&& delimiter != '\0'
}

/// Accepts a delimiter that can separate fields and rejects any other.
pub fn check_delimiter(delimiter: char) -> (r: Result<(), InvalidDelimiter>)
    ensures
        r is Ok <==> valid_delimiter(delimiter),
        r is Ok <==> ((delimiter as u32) < 128 && delimiter != '\r' && delimiter != '\n'
            && delimiter != '"' && delimiter != '\0'),
        r is Err ==> r == Err::<(), InvalidDelimiter>(InvalidDelimiter { delimiter }),
{
    if (delimiter as u32) >= 128 || delimiter == '\r' || delimiter == '\n' || delimiter == '"'
        || delimiter == '\0' {
        Err(InvalidDelimiter { delimiter })
    } else {
        Ok(())
    }
}

/// A delimiter can separate fields exactly when it is an ASCII character other than
/// carriage return, line feed, double quote and NUL: every other ASCII character,
/// such as `|`, `;` or a tab, is accepted.
pub proof fn lemma_valid_delimiter_exactly(delimiter: char)
    ensures
        valid_delimiter(delimiter) <==> ((delimiter as u32) < 128 && delimiter != '\r'
            && delimiter != '\n' && delimiter != '"' && delimiter != '\0'),
{
}

} // verus!
