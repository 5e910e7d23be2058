//! Small verified string routines shared by the rest of the crate.

use vstd::prelude::*;
use vstd::string::{StringExecFns, StringSliceAdditionalSpecFns};
use vstd::utf8::encode_utf8_decode_utf8;

verus! {

/// The separator placed between the values of one sense when they are joined.
pub open spec fn separator() -> Seq<char> {
    seq![';', ' ']
}

/// The values joined with `"; "`: the empty sequence joins to the empty text,
/// a single value to itself, and each further value follows a separator.
pub open spec fn joined(values: Seq<Seq<char>>) -> Seq<char>
    decreases values.len(),
{
    if values.len() == 0 {
        Seq::empty()
    } else if values.len() == 1 {
        values[0]
    } else {
        joined(values.drop_last()) + separator() + values.last()
    }
}

/// The views of the strings of a vector, in order.
pub open spec fn texts(values: Seq<String>) -> Seq<Seq<char>> {
    values.map_values(|s: String| s@)
}

/// Whether two string slices hold the same characters.
pub fn same_text(a: &str, b: &str) -> (same: bool)
    ensures
        same == (a@ == b@),
{
    let left = a.as_bytes();
    let right = b.as_bytes();
    let n = left.len();
    if n != right.len() {
        return false;
    }
    let mut i: usize = 0;
    while i < n
        invariant
            left@ == a.spec_bytes(),
            right@ == b.spec_bytes(),
            n == left@.len(),
            n == right@.len(),
            i <= n,
            forall|j: int| 0 <= j < i ==> left@[j] == right@[j],
        decreases n - i,
    {
        if left[i] != right[i] {
            return false;
        }
        i += 1;
    }
    proof {
        assert(left@ =~= right@);
        encode_utf8_decode_utf8(a@);
        encode_utf8_decode_utf8(b@);
    }
    true
}

/// Joins the values with `"; "`.
pub fn join_values(values: &Vec<String>) -> (out: String)
    ensures
        out@ == joined(texts(values@)),
{
    let mut out = String::new();
    let n = values.len();
    let mut i: usize = 0;
    while i < n
        invariant
            n == values@.len(),
            i <= n,
            out@ == joined(texts(values@).take(i as int)),
        decreases n - i,
    {
        if i > 0 {
            out.append("; ");
            proof {
                reveal_strlit("; ");
            }
        }
        out.append(values[i].as_str());
        assert(texts(values@).take(i + 1).drop_last() =~= texts(values@).take(i as int));
        i += 1;
    }
    assert(texts(values@).take(n as int) =~= texts(values@));
    out
}

} // verus!
