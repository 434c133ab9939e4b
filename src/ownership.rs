//! Strings handed out of, and through, a function: ownership moves with the
//! value.

use vstd::prelude::*;
use vstd::string::*;
use vstd::utf8::encode_utf8;

verus! {

/// A string made inside the function, whose ownership passes to the caller.
pub fn gives_ownership() -> (r: String)
    ensures
        r@ == "Hello, from the outside!"@,
{
    let some_string = "Hello, from the outside!".to_owned();
    some_string
}

/// Takes a string, hands it back extended, with its length in bytes.
pub fn takes_and_gives_back(a_string: String) -> (r: (String, usize))
    ensures
        r.0@ == a_string@ + ", and shadowed from the outside!"@,
        r.1 == encode_utf8(r.0@).len() as usize,
{
    let mut tempstr: String = a_string.clone();
    tempstr.append(", and shadowed from the outside!");
    let a_string = tempstr.clone();
    let length = a_string.as_str().len();
    (a_string, length)
}

} // verus!
