//! Move identifiers, from the `move-core-types` crate.
use move_core_types::identifier::Identifier;
use vstd::prelude::*;

verus! {

/// A character that may stand in an identifier.
pub open spec fn is_identifier_char(c: char) -> bool {
    c == '_' || 'a' <= c <= 'z' || 'A' <= c <= 'Z' || '0' <= c <= '9'
}

/// A Move identifier: a letter followed by letters, digits and underscores, an
/// underscore followed by at least one of these, or the name `<SELF>`.
pub open spec fn is_identifier(name: Seq<char>) -> bool {
    ||| name == "<SELF>"@
    ||| {
        &&& name.len() > 0
        &&& 'a' <= name[0] <= 'z' || 'A' <= name[0] <= 'Z' || (name[0] == '_' && name.len() > 1)
        &&& forall|i: int| 1 <= i < name.len() ==> is_identifier_char(#[trigger] name[i])
    }
}

/// What is said of a name that is no identifier.
pub open spec fn identifier_error(name: Seq<char>) -> Seq<char> {
    "Invalid identifier '"@ + name + "'"@
}

/// Calls `Identifier::new` of `move-core-types`: an identifier keeps the text of
/// the name; the error of any other name reads `Invalid identifier '..'`.
#[verifier::external_body]
pub(crate) fn new_identifier(name: &str) -> (identifier: Result<String, String>)
    ensures
        match identifier {
            Ok(text) => is_identifier(name@) && text@ == name@,
            Err(message) => !is_identifier(name@) && message@ == identifier_error(name@),
        },
{
    match Identifier::new(name) {
        Ok(identifier) => Ok(identifier.into_string()),
        Err(error) => Err(error.to_string()),
    }
}

} // verus!
