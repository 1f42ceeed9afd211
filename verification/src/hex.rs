//! Writing bytes out as text, two upper-case hexadecimal digits to a byte.

use vstd::prelude::*;
use vstd::string::StringExecFns;

verus! {

/// The digit of a value below sixteen; every greater value is written as the
/// last digit.
pub open spec fn digit_text(n: u8) -> Seq<char> {
    if n == 0 {
        seq!['0']
    } else if n == 1 {
        seq!['1']
    } else if n == 2 {
        seq!['2']
    } else if n == 3 {
        seq!['3']
    } else if n == 4 {
        seq!['4']
    } else if n == 5 {
        seq!['5']
    } else if n == 6 {
        seq!['6']
    } else if n == 7 {
        seq!['7']
    } else if n == 8 {
        seq!['8']
    } else if n == 9 {
        seq!['9']
    } else if n == 10 {
        seq!['A']
    } else if n == 11 {
        seq!['B']
    } else if n == 12 {
        seq!['C']
    } else if n == 13 {
        seq!['D']
    } else if n == 14 {
        seq!['E']
    } else {
        seq!['F']
    }
}

/// The two digits of a byte, the high four bits first.
pub open spec fn byte_text(b: u8) -> Seq<char> {
    digit_text(b >> 4) + digit_text(b & 0x0f)
}

/// The digits of a sequence of bytes, in order.
pub open spec fn hex_text(bytes: Seq<u8>) -> Seq<char>
    decreases bytes.len(),
{
    if bytes.len() == 0 {
        Seq::empty()
    } else {
        hex_text(bytes.drop_last()) + byte_text(bytes.last())
    }
}

/// The digit of a value as a string.
fn digit(n: u8) -> (s: &'static str)
    ensures
        s@ == digit_text(n),
{
    proof {
        reveal_strlit("0");
        reveal_strlit("1");
        reveal_strlit("2");
        reveal_strlit("3");
        reveal_strlit("4");
        reveal_strlit("5");
        reveal_strlit("6");
        reveal_strlit("7");
        reveal_strlit("8");
        reveal_strlit("9");
        reveal_strlit("A");
        reveal_strlit("B");
        reveal_strlit("C");
        reveal_strlit("D");
        reveal_strlit("E");
        reveal_strlit("F");
    }
    let s = if n == 0 {
        "0"
    } else if n == 1 {
        "1"
    } else if n == 2 {
        "2"
    } else if n == 3 {
        "3"
    } else if n == 4 {
        "4"
    } else if n == 5 {
        "5"
    } else if n == 6 {
        "6"
    } else if n == 7 {
        "7"
    } else if n == 8 {
        "8"
    } else if n == 9 {
        "9"
    } else if n == 10 {
        "A"
    } else if n == 11 {
        "B"
    } else if n == 12 {
        "C"
    } else if n == 13 {
        "D"
    } else if n == 14 {
        "E"
    } else {
        "F"
    };
    assert(s@ =~= digit_text(n));
    s
}

/// Append the digits of sixteen bytes to a string.
pub fn append_hex(out: &mut String, bytes: &[u8; 16])
    ensures
        final(out)@ == old(out)@ + hex_text(bytes@),
{
    let mut i: usize = 0;
    assert(bytes@.take(0) =~= Seq::empty());
    assert(out@ =~= old(out)@ + hex_text(bytes@.take(0)));
    while i < 16
        invariant
            i <= 16,
            out@ == old(out)@ + hex_text(bytes@.take(i as int)),
        decreases 16 - i,
    {
        let b = bytes[i];
        let ghost before = out@;
        out.append(digit(b >> 4));
        out.append(digit(b & 0x0f));
        proof {
            let now = bytes@.take(i + 1);
            assert(now.drop_last() =~= bytes@.take(i as int));
            assert(now.last() == b);
            assert(out@ =~= old(out)@ + hex_text(now));
        }
        i += 1;
    }
    assert(bytes@.take(16) =~= bytes@);
}

} // verus!
