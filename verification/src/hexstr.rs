//! Hexadecimal encoding and decoding of byte strings.
//!
//! Request fields (addresses, code, call data) arrive as hex text and results
//! leave as hex text, so this codec is stated exactly: `bytes_of_hex` and
//! `hex_of_bytes` give the mathematical meaning, the executable functions are
//! proved against them, and the round-trip lemmas relate the two directions.

use vstd::prelude::*;

verus! {

/// Numeric value of an ASCII hexadecimal digit; 16 for any other character.
pub open spec fn hex_val(c: char) -> nat {
    if '0' <= c && c <= '9' {
        (c as int - '0' as int) as nat
    } else if 'a' <= c && c <= 'f' {
        (c as int - 'a' as int + 10) as nat
    } else if 'A' <= c && c <= 'F' {
        (c as int - 'A' as int + 10) as nat
    } else {
        16
    }
}

pub open spec fn is_hex_digit(c: char) -> bool {
    hex_val(c) < 16
}

/// A string decodes as hex when its length is even and every character is a digit.
pub open spec fn is_hex_string(s: Seq<char>) -> bool {
    &&& s.len() % 2 == 0
    &&& forall|i: int| 0 <= i < s.len() ==> is_hex_digit(#[trigger] s[i])
}

/// Byte carried by one pair of hex digits.
pub open spec fn hex_byte(hi: char, lo: char) -> u8
    recommends
        is_hex_digit(hi),
        is_hex_digit(lo),
{
    (hex_val(hi) * 16 + hex_val(lo)) as u8
}

/// Bytes carried by a hex string: one byte for each pair of digits.
pub open spec fn bytes_of_hex(s: Seq<char>) -> Seq<u8> {
    Seq::new((s.len() / 2) as nat, |i: int| hex_byte(s[2 * i], s[2 * i + 1]))
}

/// Lowercase digit character for a nibble.
pub open spec fn hex_char(n: u8) -> char
    recommends
        n < 16,
{
    if n == 0 {
        '0'
    } else if n == 1 {
        '1'
    } else if n == 2 {
        '2'
    } else if n == 3 {
        '3'
    } else if n == 4 {
        '4'
    } else if n == 5 {
        '5'
    } else if n == 6 {
        '6'
    } else if n == 7 {
        '7'
    } else if n == 8 {
        '8'
    } else if n == 9 {
        '9'
    } else if n == 10 {
        'a'
    } else if n == 11 {
        'b'
    } else if n == 12 {
        'c'
    } else if n == 13 {
        'd'
    } else if n == 14 {
        'e'
    } else {
        'f'
    }
}

/// Lowercase hex encoding of a byte sequence: two digits per byte,
/// high nibble first.
pub open spec fn hex_of_bytes(b: Seq<u8>) -> Seq<char> {
    Seq::new(
        (b.len() * 2) as nat,
        |i: int|
            if i % 2 == 0 {
                hex_char(b[i / 2] / 16)
            } else {
                hex_char(b[i / 2] % 16)
            },
    )
}

pub open spec fn is_lower_hex_digit(c: char) -> bool {
    ('0' <= c && c <= '9') || ('a' <= c && c <= 'f')
}

/// Canonical hex form: even length, lowercase digits only. Encoding always
/// produces this form.
pub open spec fn is_canonical_hex(s: Seq<char>) -> bool {
    &&& s.len() % 2 == 0
    &&& forall|i: int| 0 <= i < s.len() ==> is_lower_hex_digit(#[trigger] s[i])
}

proof fn lemma_hex_val_of_hex_char(n: u8)
    requires
        n < 16,
    ensures
        is_hex_digit(hex_char(n)),
        is_lower_hex_digit(hex_char(n)),
        hex_val(hex_char(n)) == n,
{
}

proof fn lemma_hex_char_of_hex_val(c: char)
    requires
        is_lower_hex_digit(c),
    ensures
        is_hex_digit(c),
        hex_val(c) < 16,
        hex_char(hex_val(c) as u8) == c,
{
}

/// Decoding inverts encoding: the lowercase hex text of any byte sequence
/// decodes back to exactly that sequence.
pub proof fn lemma_hex_round_trip_bytes(b: Seq<u8>)
    ensures
        is_canonical_hex(hex_of_bytes(b)),
        is_hex_string(hex_of_bytes(b)),
        bytes_of_hex(hex_of_bytes(b)) == b,
{
    let s = hex_of_bytes(b);
    assert forall|i: int| 0 <= i < s.len() implies is_lower_hex_digit(#[trigger] s[i]) by {
        if i % 2 == 0 {
            lemma_hex_val_of_hex_char(b[i / 2] / 16);
        } else {
            lemma_hex_val_of_hex_char(b[i / 2] % 16);
        }
    }
    assert forall|i: int| 0 <= i < s.len() implies is_hex_digit(#[trigger] s[i]) by {
        lemma_hex_char_of_hex_val(s[i]);
    }
    assert forall|i: int| 0 <= i < b.len() implies bytes_of_hex(s)[i] == b[i] by {
        lemma_hex_val_of_hex_char(b[i] / 16);
        lemma_hex_val_of_hex_char(b[i] % 16);
        assert(s[2 * i] == hex_char(b[i] / 16));
        assert(s[2 * i + 1] == hex_char(b[i] % 16));
    }
    assert(bytes_of_hex(s) =~= b);
}

/// Encoding inverts decoding on canonical input: re-encoding the bytes of a
/// canonical (lowercase) hex string yields the original string.
pub proof fn lemma_hex_round_trip_string(s: Seq<char>)
    requires
        is_canonical_hex(s),
    ensures
        is_hex_string(s),
        hex_of_bytes(bytes_of_hex(s)) == s,
{
    assert forall|i: int| 0 <= i < s.len() implies is_hex_digit(#[trigger] s[i]) by {
        lemma_hex_char_of_hex_val(s[i]);
    }
    let b = bytes_of_hex(s);
    let t = hex_of_bytes(b);
    assert forall|i: int| 0 <= i < t.len() implies t[i] == s[i] by {
        let j = i / 2;
        lemma_hex_char_of_hex_val(s[2 * j]);
        lemma_hex_char_of_hex_val(s[2 * j + 1]);
        assert(b[j] == hex_byte(s[2 * j], s[2 * j + 1]));
        assert(hex_val(s[2 * j]) < 16 && hex_val(s[2 * j + 1]) < 16);
        assert(b[j] / 16 == hex_val(s[2 * j]) && b[j] % 16 == hex_val(s[2 * j + 1])) by {
            assert(b[j] == hex_val(s[2 * j]) * 16 + hex_val(s[2 * j + 1]));
        }
        if i % 2 == 0 {
            assert(i == 2 * j);
            assert(t[i] == hex_char(b[j] / 16));
        } else {
            assert(i == 2 * j + 1);
            assert(t[i] == hex_char(b[j] % 16));
        }
    }
    assert(t =~= s);
}

/// Hex-digit value of an ASCII byte; 16 for any byte that is not a digit.
/// Mirrors `hex_val` on characters below 0x80.
pub open spec fn byte_hex_val(b: u8) -> nat {
    if 48 <= b && b <= 57 {
        (b - 48) as nat
    } else if 97 <= b && b <= 102 {
        (b - 97 + 10) as nat
    } else if 65 <= b && b <= 70 {
        (b - 65 + 10) as nat
    } else {
        16
    }
}

pub proof fn lemma_char_byte_hex_val(c: char)
    requires
        c <= '\u{7f}',
    ensures
        hex_val(c) == byte_hex_val(c as u8),
{
}

pub fn nibble_of_byte(b: u8) -> (v: u8)
    ensures
        v == byte_hex_val(b),
{
    if 48 <= b && b <= 57 {
        b - 48
    } else if 97 <= b && b <= 102 {
        b - 97 + 10
    } else if 65 <= b && b <= 70 {
        b - 65 + 10
    } else {
        16
    }
}

/// Decode a hex string. Returns the carried bytes exactly when the input is
/// well-formed hex (even length, digits only, either case); `None` otherwise.
pub fn hex_decode(s: &str) -> (r: Option<Vec<u8>>)
    ensures
        match r {
            Some(v) => is_hex_string(s@) && v@ == bytes_of_hex(s@),
            None => !is_hex_string(s@),
        },
{
    broadcast use vstd::string::is_ascii_spec_bytes;

    if !s.is_ascii() {
        proof {
            let i = choose|i: int|
                !(0 <= i < s@.len() ==> '\0' <= #[trigger] s@[i] <= '\u{7f}');
            assert(!is_hex_digit(s@[i]));
        }
        return None;
    }
    let n = s.unicode_len();
    if n % 2 != 0 {
        return None;
    }
    let mut out: Vec<u8> = Vec::new();
    let mut i: usize = 0;
    while i < n
        invariant
            s.is_ascii(),
            n == s@.len(),
            n % 2 == 0,
            i % 2 == 0,
            i <= n,
            forall|j: int| 0 <= j < i ==> is_hex_digit(#[trigger] s@[j]),
            out@ =~= bytes_of_hex(s@.take(i as int)),
        decreases n - i,
    {
        let hb = s.get_ascii(i);
        let lb = s.get_ascii(i + 1);
        let hv = nibble_of_byte(hb);
        let lv = nibble_of_byte(lb);
        proof {
            lemma_char_byte_hex_val(s@[i as int]);
            lemma_char_byte_hex_val(s@[i as int + 1]);
        }
        if hv >= 16 || lv >= 16 {
            return None;
        }
        out.push(hv * 16 + lv);
        proof {
            let t0 = s@.take(i as int);
            let t1 = s@.take(i as int + 2);
            assert(hv * 16 + lv == hex_byte(s@[i as int], s@[i as int + 1]));
            assert forall|k: int| 0 <= k < t1.len() / 2 implies bytes_of_hex(t1)[k]
                == out@.push(hex_byte(s@[i as int], s@[i as int + 1]))[k] by {
                if k < t0.len() / 2 {
                    assert(bytes_of_hex(t0)[k] == hex_byte(t0[2 * k], t0[2 * k + 1]));
                }
            }
        }
        i = i + 2;
    }
    proof {
        assert(s@.take(n as int) =~= s@);
    }
    Some(out)
}

fn push_nibble(out: &mut String, n: u8)
    requires
        n < 16,
    ensures
        final(out)@ == old(out)@.push(hex_char(n)),
{
    match n {
        0 => {
            proof { reveal_strlit("0"); }
            out.append("0");
        },
        1 => {
            proof { reveal_strlit("1"); }
            out.append("1");
        },
        2 => {
            proof { reveal_strlit("2"); }
            out.append("2");
        },
        3 => {
            proof { reveal_strlit("3"); }
            out.append("3");
        },
        4 => {
            proof { reveal_strlit("4"); }
            out.append("4");
        },
        5 => {
            proof { reveal_strlit("5"); }
            out.append("5");
        },
        6 => {
            proof { reveal_strlit("6"); }
            out.append("6");
        },
        7 => {
            proof { reveal_strlit("7"); }
            out.append("7");
        },
        8 => {
            proof { reveal_strlit("8"); }
            out.append("8");
        },
        9 => {
            proof { reveal_strlit("9"); }
            out.append("9");
        },
        10 => {
            proof { reveal_strlit("a"); }
            out.append("a");
        },
        11 => {
            proof { reveal_strlit("b"); }
            out.append("b");
        },
        12 => {
            proof { reveal_strlit("c"); }
            out.append("c");
        },
        13 => {
            proof { reveal_strlit("d"); }
            out.append("d");
        },
        14 => {
            proof { reveal_strlit("e"); }
            out.append("e");
        },
        _ => {
            proof { reveal_strlit("f"); }
            out.append("f");
        },
    }
    assert(out@ =~= old(out)@.push(hex_char(n)));
}

/// Encode bytes as lowercase hex text, two digits per byte, high nibble first.
pub fn hex_encode(bytes: &[u8]) -> (r: String)
    ensures
        r@ == hex_of_bytes(bytes@),
{
    let mut out = String::new();
    let n = bytes.len();
    let mut i: usize = 0;
    while i < n
        invariant
            n == bytes@.len(),
            i <= n,
            out@ =~= hex_of_bytes(bytes@.take(i as int)),
        decreases n - i,
    {
        let b = bytes[i];
        push_nibble(&mut out, b / 16);
        push_nibble(&mut out, b % 16);
        proof {
            let t0 = bytes@.take(i as int);
            let t1 = bytes@.take(i as int + 1);
            assert forall|k: int| 0 <= k < t1.len() * 2 implies hex_of_bytes(t1)[k]
                == hex_of_bytes(t0).push(hex_char(b / 16)).push(hex_char(b % 16))[k] by {
                assert(t1[k / 2] == bytes@.take(i as int + 1)[k / 2]);
            }
            assert(out@ =~= hex_of_bytes(t1));
        }
        i = i + 1;
    }
    proof {
        assert(bytes@.take(n as int) =~= bytes@);
    }
    out
}

} // verus!
