use vstd::prelude::*;

use crate::lexer::same_text;
use std::path::PathBuf;

verus! {

#[verifier::external_type_specification]
#[verifier::external_body]
pub struct ExPathBuf(PathBuf);

/// Relies on `PathBuf::from` for `&str`: it wraps the text as a path, whatever it holds.
#[verifier::external_body]
fn path_from(s: &str) -> (r: PathBuf) {
    PathBuf::from(s)
}

/// The name ends in the source file extension `.o2`.
pub open spec fn is_oxygen_file_name(s: Seq<char>) -> bool {
    s.len() >= 3 && s.subrange(s.len() - 3, s.len() as int) == ".o2"@
}

/// Accepts the name of a source file: it must end in `.o2`.
pub fn validate_oxygen_file(s: &str) -> (r: Result<PathBuf, String>)
    ensures
        r is Ok <==> is_oxygen_file_name(s@),
        r is Err ==> r->Err_0@ == "must end with '.o2'"@,
{
    let n = s.unicode_len();
    if n >= 3 && same_text(s.substring_char(n - 3, n), ".o2") {
        Ok(path_from(s))
    } else {
        Err("must end with '.o2'".to_owned())
    }
}

} // verus!
