//! The reversed hex encoding used for change ids: each byte becomes two
//! digits drawn from the alphabet `z`..`k`, where `z` stands for 0 and
//! `k` for 15, high nibble first.

use vstd::prelude::*;

verus! {

/// The digit alphabet of the reversed hex encoding: 0 is 'z', 15 is 'k'.
pub open spec fn reverse_hex_digit(d: nat) -> char {
    if d == 0 {
        'z'
    } else if d == 1 {
        'y'
    } else if d == 2 {
        'x'
    } else if d == 3 {
        'w'
    } else if d == 4 {
        'v'
    } else if d == 5 {
        'u'
    } else if d == 6 {
        't'
    } else if d == 7 {
        's'
    } else if d == 8 {
        'r'
    } else if d == 9 {
        'q'
    } else if d == 10 {
        'p'
    } else if d == 11 {
        'o'
    } else if d == 12 {
        'n'
    } else if d == 13 {
        'm'
    } else if d == 14 {
        'l'
    } else {
        'k'
    }
}

/// The reversed hex encoding of a byte sequence: two digits per byte,
/// high nibble first.
pub open spec fn reverse_hex_spec(bytes: Seq<u8>) -> Seq<char> {
    Seq::new(
        bytes.len() * 2,
        |i: int|
            if i % 2 == 0 {
                reverse_hex_digit((bytes[i / 2] / 16) as nat)
            } else {
                reverse_hex_digit((bytes[i / 2] % 16) as nat)
            },
    )
}

fn reverse_hex_digit_str(d: u8) -> (r: &'static str)
    requires
        d < 16,
    ensures
        r@ == seq![reverse_hex_digit(d as nat)],
{
    let r: &'static str = match d {
        0 => "z",
        1 => "y",
        2 => "x",
        3 => "w",
        4 => "v",
        5 => "u",
        6 => "t",
        7 => "s",
        8 => "r",
        9 => "q",
        10 => "p",
        11 => "o",
        12 => "n",
        13 => "m",
        14 => "l",
        _ => "k",
    };
    proof {
        reveal_strlit("z");
        reveal_strlit("y");
        reveal_strlit("x");
        reveal_strlit("w");
        reveal_strlit("v");
        reveal_strlit("u");
        reveal_strlit("t");
        reveal_strlit("s");
        reveal_strlit("r");
        reveal_strlit("q");
        reveal_strlit("p");
        reveal_strlit("o");
        reveal_strlit("n");
        reveal_strlit("m");
        reveal_strlit("l");
        reveal_strlit("k");
        assert(r@ =~= seq![reverse_hex_digit(d as nat)]);
    }
    r
}

/// Encode a byte string in the reversed hex alphabet, as the change-id
/// display encoding does.
pub fn encode_reverse_hex(bytes: &[u8]) -> (r: String)
    ensures
        r@ == reverse_hex_spec(bytes@),
{
    let mut out = String::new();
    let n = bytes.len();
    let mut i: usize = 0;
    while i < n
        invariant
            n == bytes@.len(),
            i <= n,
            out@ == reverse_hex_spec(bytes@.take(i as int)),
        decreases n - i,
    {
        let b = bytes[i];
        out.append(reverse_hex_digit_str(b / 16));
        out.append(reverse_hex_digit_str(b % 16));
        i = i + 1;
        proof {
            assert(out@ =~= reverse_hex_spec(bytes@.take(i as int)));
        }
    }
    proof {
        assert(bytes@.take(n as int) =~= bytes@);
    }
    out
}

} // verus!
