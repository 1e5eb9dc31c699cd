//! Lower-case hexadecimal rendering of byte strings.

use vstd::prelude::*;
use vstd::string::{StrSliceExecFns, StringExecFns};

verus! {

/// The ASCII code of the lower-case hexadecimal digit for `d`.
pub open spec fn hex_digit(d: u8) -> u8
    recommends
        d < 16,
{
    if d < 10 {
        (d + 48) as u8
    } else {
        (d + 87) as u8
    }
}

/// Two lower-case hexadecimal digits per byte, high nibble first.
pub open spec fn hex_of(s: Seq<u8>) -> Seq<char>
    decreases s.len(),
{
    if s.len() == 0 {
        Seq::empty()
    } else {
        hex_of(s.drop_last()).push(hex_digit(s.last() / 16) as char).push(
            hex_digit(s.last() % 16) as char,
        )
    }
}

/// Appends the hexadecimal digit for `d` to `s`.
fn push_digit(s: &mut String, d: u8)
    requires
        d < 16,
    ensures
        final(s)@ == old(s)@.push(hex_digit(d) as char),
{
    let digits: &str = "0123456789abcdef";
    proof {
        reveal_strlit("0123456789abcdef");
    }
    let one = digits.substring_ascii(d as usize, d as usize + 1);
    proof {
        assert(one@.len() == 1);
        assert(one@[0] == digits@[d as int]);
        assert(digits@[d as int] == hex_digit(d) as char) by {
            if d < 10 {
            } else {
            }
        }
        assert(one@ =~= seq![hex_digit(d) as char]);
    }
    s.append(one);
}

/// Renders `arr` as lower-case hexadecimal, two digits per byte.
pub fn hexstring(arr: &[u8]) -> (r: String)
    ensures
        r@ == hex_of(arr@),
{
    let mut r = String::new();
    let mut i: usize = 0;
    while i < arr.len()
        invariant
            i <= arr@.len(),
            r@ == hex_of(arr@.take(i as int)),
        decreases arr@.len() - i,
    {
        let b = arr[i];
        proof {
            assert(arr@.take(i + 1).drop_last() =~= arr@.take(i as int));
            assert(arr@.take(i + 1).last() == b);
        }
        push_digit(&mut r, b / 16);
        push_digit(&mut r, b % 16);
        i += 1;
    }
    assert(arr@.take(i as int) =~= arr@);
    r
}

} // verus!
