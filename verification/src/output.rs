//! Where a result goes when the caller names no place for it.

use vstd::prelude::*;
use vstd::string::StringExecFns;

verus! {

/// `s` ends with `suffix`.
pub open spec fn ends_with(s: Seq<char>, suffix: Seq<char>) -> bool {
    s.len() >= suffix.len() && s.skip(s.len() - suffix.len()) == suffix
}

/// `str::strip_suffix`: the string without the suffix, where it ends with
/// the suffix.
#[verifier::external_body]
fn strip_suffix(s: &str, suffix: &str) -> (rest: Option<String>)
    ensures
        match rest {
            Some(rest) => ends_with(s@, suffix@) && rest@ == s@.take(s@.len() - suffix@.len()),
            None => !ends_with(s@, suffix@),
        },
{
    s.strip_suffix(suffix).map(|rest| rest.to_owned())
}

/// The place for the picture of `file`: the file's name with `.png` behind it,
/// and `output.png` for bytes that come from no file.
pub fn encoded_default_output(file: Option<String>) -> (output: String)
    ensures
        output@ == match file {
            Some(name) => name@ + ".png"@,
            None => "output.png"@,
        },
{
    match file {
        Some(file) => file.concat(".png"),
        None => "output.png".to_owned(),
    }
}

/// The place for the file decoded from the picture `file`: the picture's name
/// without its `.png`, or with `.decoded` behind it where it has none.
pub fn decoded_default_output(file: &String) -> (output: String)
    ensures
        output@ == if ends_with(file@, ".png"@) {
            file@.take(file@.len() - ".png"@.len())
        } else {
            file@ + ".decoded"@
        },
{
    match strip_suffix(file.as_str(), ".png") {
        Some(output) => output,
        None => file.clone().concat(".decoded"),
    }
}

} // verus!
