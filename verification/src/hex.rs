//! Bytes written out as hexadecimal text.

use vstd::prelude::*;
use vstd::string::*;

verus! {

/// The sixteen hexadecimal digits, in upper or in lower case.
pub open spec fn hex_digits(upper: bool) -> Seq<char> {
    if upper {
        seq!['0', '1', '2', '3', '4', '5', '6', '7', '8', '9', 'A', 'B', 'C', 'D', 'E', 'F']
    } else {
        seq!['0', '1', '2', '3', '4', '5', '6', '7', '8', '9', 'a', 'b', 'c', 'd', 'e', 'f']
    }
}

/// The nibble of `bytes` that the hexadecimal digit at position `i` stands for:
/// the high half of a byte at even positions, the low half at odd ones.
pub open spec fn nibble_at(bytes: Seq<u8>, i: int) -> int {
    if i % 2 == 0 {
        bytes[i / 2] as int / 16
    } else {
        bytes[i / 2] as int % 16
    }
}

/// `bytes` in hexadecimal: two digits for each byte, the high nibble first.
pub open spec fn hex_of(bytes: Seq<u8>, upper: bool) -> Seq<char> {
    Seq::new(2 * bytes.len(), |i: int| hex_digits(upper)[nibble_at(bytes, i)])
}

/// The text of one hexadecimal digit.
fn digit_text(nibble: u8, upper: bool) -> (text: &'static str)
    requires
        nibble < 16,
    ensures
        text@ == seq![hex_digits(upper)[nibble as int]],
{
    proof {
        reveal_strlit("0");
        reveal_strlit("1");
        reveal_strlit("2");
        reveal_strlit("3");
        reveal_strlit("4");
        reveal_strlit("5");
        reveal_strlit("6");
        reveal_strlit("7");
        reveal_strlit("8");
        reveal_strlit("9");
        reveal_strlit("a");
        reveal_strlit("b");
        reveal_strlit("c");
        reveal_strlit("d");
        reveal_strlit("e");
        reveal_strlit("f");
        reveal_strlit("A");
        reveal_strlit("B");
        reveal_strlit("C");
        reveal_strlit("D");
        reveal_strlit("E");
        reveal_strlit("F");
    }
    let text = match nibble {
        0 => "0",
        1 => "1",
        2 => "2",
        3 => "3",
        4 => "4",
        5 => "5",
        6 => "6",
        7 => "7",
        8 => "8",
        9 => "9",
        10 => if upper { "A" } else { "a" },
        11 => if upper { "B" } else { "b" },
        12 => if upper { "C" } else { "c" },
        13 => if upper { "D" } else { "d" },
        14 => if upper { "E" } else { "e" },
        _ => if upper { "F" } else { "f" },
    };
    assert(text@ =~= seq![hex_digits(upper)[nibble as int]]);
    text
}

/// Appends the hexadecimal digits of `bytes` to `out`.
pub fn push_hex(out: &mut String, bytes: &[u8], upper: bool)
    ensures
        final(out)@ == old(out)@ + hex_of(bytes@, upper),
{
    let mut i: usize = 0;
    assert(out@ =~= old(out)@ + hex_of(bytes@.take(0), upper));
    while i < bytes.len()
        invariant
            i <= bytes.len(),
            out@ == old(out)@ + hex_of(bytes@.take(i as int), upper),
        decreases bytes.len() - i,
    {
        let byte = bytes[i];
        let ghost before = out@;
        out.append(digit_text(byte / 16, upper));
        out.append(digit_text(byte % 16, upper));
        proof {
            let done = hex_of(bytes@.take(i as int), upper);
            let next = hex_of(bytes@.take(i + 1), upper);
            let pair = seq![
                hex_digits(upper)[byte as int / 16],
                hex_digits(upper)[byte as int % 16],
            ];
            assert(out@ =~= before + pair);
            assert(next =~= done + pair) by {
                assert forall|k: int| 0 <= k < next.len() implies next[k] == (done + pair)[k] by {
                    if k < 2 * i {
                        assert(bytes@.take(i + 1)[k / 2] == bytes@.take(i as int)[k / 2]);
                    } else {
                        assert(k / 2 == i);
                        assert(bytes@.take(i + 1)[k / 2] == byte);
                    }
                }
            }
            assert(out@ =~= old(out)@ + next);
        }
        i += 1;
    }
    assert(bytes@.take(bytes.len() as int) =~= bytes@);
}

/// A borrowed run of bytes that can be written out in hexadecimal.
pub struct HexSlice<'a>(pub &'a [u8]);

impl<'a> HexSlice<'a> {
    /// Wraps `data`.
    pub fn new(data: &'a [u8]) -> (slice: HexSlice<'a>)
        ensures
            slice.0@ == data@,
    {
        HexSlice(data)
    }

    /// The bytes in lower-case hexadecimal, two digits each.
    pub fn to_lower_hex(&self) -> (text: String)
        ensures
            text@ == hex_of(self.0@, false),
    {
        let mut text = String::new();
        push_hex(&mut text, self.0, false);
        assert(text@ =~= hex_of(self.0@, false));
        text
    }

    /// The bytes in upper-case hexadecimal, two digits each.
    pub fn to_upper_hex(&self) -> (text: String)
        ensures
            text@ == hex_of(self.0@, true),
    {
        let mut text = String::new();
        push_hex(&mut text, self.0, true);
        assert(text@ =~= hex_of(self.0@, true));
        text
    }
}

} // verus!
