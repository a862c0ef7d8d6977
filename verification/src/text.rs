//! Small string helpers: a fixed sample string and a lifetime-unifying
//! choice between two borrowed strings.

use vstd::prelude::*;
use vstd::string::StringExecFns;

verus! {

/// A sample string, padded with spaces on both sides.
pub fn ret_string() -> (r: String)
    ensures
        r@ == "  A String object  "@,
{
    String::from_str("  A String object  ")
}

/// One of the two strings, under a lifetime that both outlive: `s1` when
/// `select_s1` holds, `s2` otherwise.
pub fn choose_str<'c, 'a: 'c, 'b: 'c>(s1: &'a str, s2: &'b str, select_s1: bool) -> (r: &'c str)
    ensures
        r@ == if select_s1 {
            s1@
        } else {
            s2@
        },
{
    if select_s1 {
        s1
    } else {
        s2
    }
}

} // verus!
