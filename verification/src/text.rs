//! Verified text building: decimal rendering of counters and sizes, and the
//! lowercase hex encoding used by the dump protocol and the CSV export.

use vstd::prelude::*;
use vstd::string::StringExecFns;

verus! {

/// The character for one decimal digit.
pub open spec fn spec_dec_digit(d: nat) -> char {
    if d == 0 {
        '0'
    } else if d == 1 {
        '1'
    } else if d == 2 {
        '2'
    } else if d == 3 {
        '3'
    } else if d == 4 {
        '4'
    } else if d == 5 {
        '5'
    } else if d == 6 {
        '6'
    } else if d == 7 {
        '7'
    } else if d == 8 {
        '8'
    } else {
        '9'
    }
}

/// Decimal rendering of `n`, most significant digit first, no leading
/// zeroes (a lone zero for 0).
pub open spec fn spec_dec(n: nat) -> Seq<char>
    decreases n,
{
    if n < 10 {
        seq![spec_dec_digit(n)]
    } else {
        spec_dec(n / 10).push(spec_dec_digit(n % 10))
    }
}

/// The character for one hex digit, lowercase.
pub open spec fn spec_hex_digit(d: nat) -> char {
    if d < 10 {
        spec_dec_digit(d)
    } else if d == 10 {
        'a'
    } else if d == 11 {
        'b'
    } else if d == 12 {
        'c'
    } else if d == 13 {
        'd'
    } else if d == 14 {
        'e'
    } else {
        'f'
    }
}

/// Two lowercase hex characters for one byte, high nibble first.
pub open spec fn spec_hex_byte(b: u8) -> Seq<char> {
    seq![spec_hex_digit(b as nat / 16), spec_hex_digit(b as nat % 16)]
}

/// Lowercase hex rendering of a byte string, two characters per byte.
pub open spec fn spec_hex(bytes: Seq<u8>) -> Seq<char>
    decreases bytes.len(),
{
    if bytes.len() == 0 {
        Seq::empty()
    } else {
        spec_hex_byte(bytes[0]) + spec_hex(bytes.drop_first())
    }
}

/// Hex rendering distributes over concatenation.
pub proof fn lemma_spec_hex_concat(a: Seq<u8>, b: Seq<u8>)
    ensures
        spec_hex(a + b) == spec_hex(a) + spec_hex(b),
    decreases a.len(),
{
    if a.len() == 0 {
        assert(a + b =~= b);
        assert(spec_hex(a) + spec_hex(b) =~= spec_hex(b));
    } else {
        assert((a + b).drop_first() =~= a.drop_first() + b);
        lemma_spec_hex_concat(a.drop_first(), b);
        assert(spec_hex_byte(a[0]) + (spec_hex(a.drop_first()) + spec_hex(b)) =~= (spec_hex_byte(
            a[0],
        ) + spec_hex(a.drop_first())) + spec_hex(b));
    }
}

/// One decimal digit as a string slice.
fn dec_digit_str(d: u64) -> (r: &'static str)
    requires
        d < 10,
    ensures
        r@ =~= seq![spec_dec_digit(d as nat)],
{
    proof {
        reveal_strlit("0");
        reveal_strlit("1");
        reveal_strlit("2");
        reveal_strlit("3");
        reveal_strlit("4");
        reveal_strlit("5");
        reveal_strlit("6");
        reveal_strlit("7");
        reveal_strlit("8");
        reveal_strlit("9");
    }
    match d {
        0 => "0",
        1 => "1",
        2 => "2",
        3 => "3",
        4 => "4",
        5 => "5",
        6 => "6",
        7 => "7",
        8 => "8",
        _ => "9",
    }
}

/// One hex digit as a string slice.
fn hex_digit_str(d: u8) -> (r: &'static str)
    requires
        d < 16,
    ensures
        r@ =~= seq![spec_hex_digit(d as nat)],
{
    proof {
        reveal_strlit("a");
        reveal_strlit("b");
        reveal_strlit("c");
        reveal_strlit("d");
        reveal_strlit("e");
        reveal_strlit("f");
    }
    if d < 10 {
        dec_digit_str(d as u64)
    } else {
        match d {
            10 => "a",
            11 => "b",
            12 => "c",
            13 => "d",
            14 => "e",
            _ => "f",
        }
    }
}

/// Render `n` in decimal.
pub fn u64_to_dec(n: u64) -> (r: String)
    ensures
        r@ == spec_dec(n as nat),
    decreases n,
{
    if n < 10 {
        String::from_str(dec_digit_str(n))
    } else {
        let mut r = u64_to_dec(n / 10);
        r.append(dec_digit_str(n % 10));
        proof {
            assert(spec_dec(n as nat / 10).push(spec_dec_digit(n as nat % 10)) =~= spec_dec(
                n as nat / 10,
            ) + seq![spec_dec_digit(n as nat % 10)]);
        }
        r
    }
}

/// Append the two hex characters of `b` to `out`.
pub fn push_hex_byte(out: &mut String, b: u8)
    ensures
        final(out)@ == old(out)@ + spec_hex_byte(b),
{
    out.append(hex_digit_str(b / 16));
    out.append(hex_digit_str(b % 16));
    proof {
        assert(old(out)@ + seq![spec_hex_digit(b as nat / 16)] + seq![spec_hex_digit(
            b as nat % 16,
        )] =~= old(out)@ + spec_hex_byte(b));
    }
}

/// Render a byte string in lowercase hex, two characters per byte.
pub fn bytes_to_hex(data: &[u8]) -> (r: String)
    ensures
        r@ == spec_hex(data@),
{
    let mut r = String::new();
    let mut i: usize = 0;
    while i < data.len()
        invariant
            i <= data@.len(),
            r@ == spec_hex(data@.take(i as int)),
        decreases data@.len() - i,
    {
        proof {
            lemma_spec_hex_concat(data@.take(i as int), seq![data@[i as int]]);
            assert(data@.take(i as int) + seq![data@[i as int]] =~= data@.take(i + 1));
            let single = seq![data@[i as int]];
            assert(single.drop_first() =~= Seq::<u8>::empty());
            assert(spec_hex(single) == spec_hex_byte(data@[i as int]) + spec_hex(
                Seq::<u8>::empty(),
            ));
            assert(spec_hex_byte(data@[i as int]) + Seq::<char>::empty() =~= spec_hex_byte(
                data@[i as int],
            ));
        }
        push_hex_byte(&mut r, data[i]);
        i += 1;
    }
    proof {
        assert(data@.take(data@.len() as int) =~= data@);
    }
    r
}

} // verus!
