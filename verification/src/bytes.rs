//! Byte- and string-level building blocks: big-endian integers, decimal
//! rendering, and lowercase hexadecimal encoding.

use vstd::prelude::*;

verus! {

/// The big-endian 8-byte encoding of `n`.
pub open spec fn u64_be_bytes(n: u64) -> Seq<u8> {
    seq![
        ((n >> 56) & 0xff) as u8,
        ((n >> 48) & 0xff) as u8,
        ((n >> 40) & 0xff) as u8,
        ((n >> 32) & 0xff) as u8,
        ((n >> 24) & 0xff) as u8,
        ((n >> 16) & 0xff) as u8,
        ((n >> 8) & 0xff) as u8,
        (n & 0xff) as u8,
    ]
}

/// The integer read back from 8 big-endian bytes.
pub open spec fn u64_from_be(s: Seq<u8>) -> u64
    recommends
        s.len() == 8,
{
    (((s[0] as u64) << 56) | ((s[1] as u64) << 48) | ((s[2] as u64) << 40) | ((s[3] as u64) << 32)
        | ((s[4] as u64) << 24) | ((s[5] as u64) << 16) | ((s[6] as u64) << 8) | (s[7] as u64)) as u64
}

/// Reading back the big-endian encoding of `n` yields `n`.
pub proof fn lemma_u64_be_round_trip(n: u64)
    ensures
        u64_from_be(u64_be_bytes(n)) == n,
{
    let s = u64_be_bytes(n);
    lemma_shift_and_ff_bound(n >> 56);
    lemma_shift_and_ff_bound(n >> 48);
    lemma_shift_and_ff_bound(n >> 40);
    lemma_shift_and_ff_bound(n >> 32);
    lemma_shift_and_ff_bound(n >> 24);
    lemma_shift_and_ff_bound(n >> 16);
    lemma_shift_and_ff_bound(n >> 8);
    lemma_shift_and_ff_bound(n);
    assert(s[0] as u64 == (n >> 56) & 0xff);
    assert(s[1] as u64 == (n >> 48) & 0xff);
    assert(s[2] as u64 == (n >> 40) & 0xff);
    assert(s[3] as u64 == (n >> 32) & 0xff);
    assert(s[4] as u64 == (n >> 24) & 0xff);
    assert(s[5] as u64 == (n >> 16) & 0xff);
    assert(s[6] as u64 == (n >> 8) & 0xff);
    assert(s[7] as u64 == n & 0xff);
    assert(((((n >> 56) & 0xff) as u64) << 56) | ((((n >> 48) & 0xff) as u64) << 48) | ((((n >> 40)
        & 0xff) as u64) << 40) | ((((n >> 32) & 0xff) as u64) << 32) | ((((n >> 24) & 0xff) as u64)
        << 24) | ((((n >> 16) & 0xff) as u64) << 16) | ((((n >> 8) & 0xff) as u64) << 8) | ((n
        & 0xff) as u64) == n) by (bit_vector);
    assert(u64_from_be(s) == n);
}

proof fn lemma_shift_and_ff_bound(x: u64)
    ensures
        x & 0xff < 256,
{
    assert(x & 0xff < 256) by (bit_vector);
}

/// Appends the big-endian encoding of `n` to `out`.
pub fn push_u64_be(out: &mut Vec<u8>, n: u64)
    ensures
        final(out)@ == old(out)@ + u64_be_bytes(n),
{
    proof {
        lemma_shift_and_ff_bound(n >> 56);
        lemma_shift_and_ff_bound(n >> 48);
        lemma_shift_and_ff_bound(n >> 40);
        lemma_shift_and_ff_bound(n >> 32);
        lemma_shift_and_ff_bound(n >> 24);
        lemma_shift_and_ff_bound(n >> 16);
        lemma_shift_and_ff_bound(n >> 8);
        lemma_shift_and_ff_bound(n);
    }
    out.push(((n >> 56) & 0xff) as u8);
    out.push(((n >> 48) & 0xff) as u8);
    out.push(((n >> 40) & 0xff) as u8);
    out.push(((n >> 32) & 0xff) as u8);
    out.push(((n >> 24) & 0xff) as u8);
    out.push(((n >> 16) & 0xff) as u8);
    out.push(((n >> 8) & 0xff) as u8);
    out.push((n & 0xff) as u8);
    proof {
        assert(out@ =~= old(out)@ + u64_be_bytes(n));
    }
}

/// Reads a big-endian integer from 8 bytes of `s` starting at `pos`.
pub fn read_u64_be(s: &[u8], pos: usize) -> (r: u64)
    requires
        pos + 8 <= s@.len(),
    ensures
        r == u64_from_be(s@.subrange(pos as int, pos as int + 8)),
{
    let b0 = s[pos];
    let b1 = s[pos + 1];
    let b2 = s[pos + 2];
    let b3 = s[pos + 3];
    let b4 = s[pos + 4];
    let b5 = s[pos + 5];
    let b6 = s[pos + 6];
    let b7 = s[pos + 7];
    let r: u64 = ((b0 as u64) << 56) | ((b1 as u64) << 48) | ((b2 as u64) << 40) | ((b3 as u64)
        << 32) | ((b4 as u64) << 24) | ((b5 as u64) << 16) | ((b6 as u64) << 8) | (b7 as u64);
    proof {
        let sub = s@.subrange(pos as int, pos as int + 8);
        assert(sub[0] == b0 && sub[1] == b1 && sub[2] == b2 && sub[3] == b3 && sub[4] == b4
            && sub[5] == b5 && sub[6] == b6 && sub[7] == b7);
    }
    r
}

/// The character for one decimal digit.
pub open spec fn dec_digit_char(d: nat) -> char
    recommends
        d < 10,
{
    if d == 0 {
        '0'
    } else if d == 1 {
        '1'
    } else if d == 2 {
        '2'
    } else if d == 3 {
        '3'
    } else if d == 4 {
        '4'
    } else if d == 5 {
        '5'
    } else if d == 6 {
        '6'
    } else if d == 7 {
        '7'
    } else if d == 8 {
        '8'
    } else {
        '9'
    }
}

/// The decimal rendering of `n`, without padding.
pub open spec fn dec_str(n: nat) -> Seq<char>
    decreases n,
{
    if n < 10 {
        seq![dec_digit_char(n)]
    } else {
        dec_str(n / 10) + seq![dec_digit_char(n % 10)]
    }
}

fn dec_digit_string(d: u64) -> (r: String)
    requires
        d < 10,
    ensures
        r@ == seq![dec_digit_char(d as nat)],
{
    let r = if d == 0 {
        String::from_str("0")
    } else if d == 1 {
        String::from_str("1")
    } else if d == 2 {
        String::from_str("2")
    } else if d == 3 {
        String::from_str("3")
    } else if d == 4 {
        String::from_str("4")
    } else if d == 5 {
        String::from_str("5")
    } else if d == 6 {
        String::from_str("6")
    } else if d == 7 {
        String::from_str("7")
    } else {
        String::from_str("8")
    };
    // "9" is handled below so that every digit has exactly one literal.
    let r = if d == 9 {
        String::from_str("9")
    } else {
        r
    };
    proof {
        reveal_strlit("0");
        reveal_strlit("1");
        reveal_strlit("2");
        reveal_strlit("3");
        reveal_strlit("4");
        reveal_strlit("5");
        reveal_strlit("6");
        reveal_strlit("7");
        reveal_strlit("8");
        reveal_strlit("9");
        assert(r@ =~= seq![dec_digit_char(d as nat)]);
    }
    r
}

/// Renders `n` in decimal.
pub fn u64_to_dec_string(n: u64) -> (r: String)
    ensures
        r@ == dec_str(n as nat),
    decreases n,
{
    if n < 10 {
        dec_digit_string(n)
    } else {
        let mut prefix = u64_to_dec_string(n / 10);
        let last = dec_digit_string(n % 10);
        prefix.append(last.as_str());
        proof {
            assert(prefix@ =~= dec_str(n as nat));
        }
        prefix
    }
}

/// The character for one lowercase hexadecimal digit.
pub open spec fn hex_digit_char(d: nat) -> char
    recommends
        d < 16,
{
    if d < 10 {
        dec_digit_char(d)
    } else if d == 10 {
        'a'
    } else if d == 11 {
        'b'
    } else if d == 12 {
        'c'
    } else if d == 13 {
        'd'
    } else if d == 14 {
        'e'
    } else {
        'f'
    }
}

/// The lowercase hexadecimal rendering of a byte string: two digits per
/// byte, high nibble first.
pub open spec fn hex_of(b: Seq<u8>) -> Seq<char> {
    Seq::new(
        b.len() * 2,
        |i: int|
            if i % 2 == 0 {
                hex_digit_char((b[i / 2] / 16) as nat)
            } else {
                hex_digit_char((b[i / 2] % 16) as nat)
            },
    )
}

/// Every character of a hexadecimal rendering is a hex digit.
pub proof fn lemma_hex_of_is_hex(b: Seq<u8>)
    ensures
        hex_of(b).len() == b.len() * 2,
        forall|i: int|
            0 <= i < hex_of(b).len() ==> crate::is_hex_digit_char(#[trigger] hex_of(b)[i]),
{
    assert forall|i: int| 0 <= i < hex_of(b).len() implies crate::is_hex_digit_char(
        #[trigger] hex_of(b)[i],
    ) by {
        let d = if i % 2 == 0 {
            (b[i / 2] / 16) as nat
        } else {
            (b[i / 2] % 16) as nat
        };
        assert(d < 16);
        assert(hex_of(b)[i] == hex_digit_char(d));
    }
}

} // verus!
