//! Base64 with the URL-safe alphabet and without padding, as WebAuthn writes
//! a challenge.
use vstd::prelude::*;

verus! {

/// The character that stands for the six-bit value `v`.
pub open spec fn alphabet(v: int) -> u8 {
    if v < 26 {
        (65 + v) as u8
    } else if v < 52 {
        (97 + (v - 26)) as u8
    } else if v < 62 {
        (48 + (v - 52)) as u8
    } else if v == 62 {
        45u8
    } else {
        95u8
    }
}

/// The byte of `data` at `i`, and zero past its end.
pub open spec fn byte_at(data: Seq<u8>, i: int) -> int {
    if 0 <= i < data.len() {
        data[i] as int
    } else {
        0
    }
}

/// The `k`-th group of six bits of `data`, read from the most significant bit
/// of the first byte on.
pub open spec fn sextet(data: Seq<u8>, k: int) -> int {
    let g = 3 * (k / 4);
    if k % 4 == 0 {
        byte_at(data, g) / 4
    } else if k % 4 == 1 {
        (byte_at(data, g) % 4) * 16 + byte_at(data, g + 1) / 16
    } else if k % 4 == 2 {
        (byte_at(data, g + 1) % 16) * 4 + byte_at(data, g + 2) / 64
    } else {
        byte_at(data, g + 2) % 64
    }
}

/// How many characters encode `n` bytes.
pub open spec fn encoded_len(n: nat) -> nat {
    ((4 * n + 2) / 3) as nat
}

/// The encoding of `data`.
pub open spec fn encoded(data: Seq<u8>) -> Seq<u8> {
    Seq::new(encoded_len(data.len()), |k: int| alphabet(sextet(data, k)))
}

fn alphabet_char(v: u8) -> (c: u8)
    requires
        v < 64,
    ensures
        c == alphabet(v as int),
{
    if v < 26 {
        65 + v
    } else if v < 52 {
        97 + (v - 26)
    } else if v < 62 {
        48 + (v - 52)
    } else if v == 62 {
        45
    } else {
        95
    }
}

/// Writes the 43 characters that encode the 32 bytes of `src` into `dst`.
pub fn encode(dst: &mut [u8; 43], src: &[u8; 32])
    ensures
        final(dst)@ == encoded(src@),
{
    let mut g: usize = 0;
    while g < 10
        invariant
            g <= 10,
            forall|k: int| 0 <= k < 4 * g ==> dst@[k] == alphabet(sextet(src@, k)),
        decreases 10 - g,
    {
        let a: u8 = src[3 * g];
        let b: u8 = src[3 * g + 1];
        let c: u8 = src[3 * g + 2];
        let k: usize = 4 * g;
        dst[k] = alphabet_char(a / 4);
        dst[k + 1] = alphabet_char((a % 4) * 16 + b / 16);
        dst[k + 2] = alphabet_char((b % 16) * 4 + c / 64);
        dst[k + 3] = alphabet_char(c % 64);
        g = g + 1;
    }
    let a: u8 = src[30];
    let b: u8 = src[31];
    dst[40] = alphabet_char(a / 4);
    dst[41] = alphabet_char((a % 4) * 16 + b / 16);
    dst[42] = alphabet_char((b % 16) * 4);
    assert(dst@ =~= encoded(src@));
}

} // verus!
