//! Helpers over strings: greeting, length, first character, and appending.

use vstd::prelude::*;
use vstd::string::StrSliceExecFns;
use vstd::string::StringExecFns;

verus! {

/// Builds the greeting `"Hello, <name>!"`.
pub fn greet(name: &str) -> (r: String)
    ensures
        r@ == "Hello, "@ + name@ + "!"@,
{
    let mut r = String::from_str("Hello, ");
    r.append(name);
    r.append("!");
    r
}

/// Consumes a string and reports its length in bytes.
pub fn take_ownership(s: String) -> (r: usize)
    ensures
        r == vstd::utf8::encode_utf8(s@).len() as usize,
{
    s.as_str().len()
}

/// Returns the first character of a string, or nothing if it is empty.
pub fn borrow_first_char(s: &str) -> (r: Option<char>)
    ensures
        s@.len() == 0 ==> r is None,
        s@.len() > 0 ==> r == Some(s@[0]),
{
    if s.is_empty() {
        None
    } else {
        Some(s.get_char(0))
    }
}

/// Appends an exclamation mark to the string in place.
pub fn push_exclamation(s: &mut String)
    ensures
        final(s)@ == old(s)@ + "!"@,
{
    s.append("!");
}

} // verus!
