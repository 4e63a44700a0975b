//! Fixed-width values of the state model: 20-byte account addresses and
//! 32-byte words (storage keys, storage values, 256-bit numbers), together
//! with the text forms they arrive in (hex addresses, decimal or hex
//! unsigned integers).
//!
//! A word is read as a big-endian number by `be_val`; every constructor and
//! parser is proved against that meaning.

use vstd::prelude::*;
use crate::hexstr::{
    bytes_of_hex, hex_val, is_hex_digit, is_hex_string, lemma_char_byte_hex_val, nibble_of_byte,
};

verus! {

/// Big-endian numeric value of a byte string.
pub open spec fn be_val(s: Seq<u8>) -> nat
    decreases s.len(),
{
    if s.len() == 0 {
        0
    } else {
        (be_val(s.drop_last()) * 256 + s.last()) as nat
    }
}

/// 256 raised to a power: the weight of a byte position.
pub open spec fn pow256(e: nat) -> nat
    decreases e,
{
    if e == 0 {
        1
    } else {
        256 * pow256((e - 1) as nat)
    }
}

pub open spec fn zero_bytes(n: nat) -> Seq<u8> {
    Seq::new(n, |i: int| 0u8)
}

pub proof fn lemma_pow256_16()
    ensures
        pow256(16) == 0x1_0000_0000_0000_0000_0000_0000_0000_0000,
{
    assert(pow256(0) == 1);
    assert(pow256(1) == 256);
    assert(pow256(2) == 0x1_0000) by {
        lemma_pow256_adds(1, 1);
    }
    assert(pow256(4) == 0x1_0000_0000) by {
        lemma_pow256_adds(2, 2);
    }
    assert(pow256(8) == 0x1_0000_0000_0000_0000) by {
        lemma_pow256_adds(4, 4);
    }
    assert(pow256(16) == 0x1_0000_0000_0000_0000_0000_0000_0000_0000) by {
        lemma_pow256_adds(8, 8);
    }
}

pub proof fn lemma_pow256_adds(a: nat, b: nat)
    ensures
        pow256(a + b) == pow256(a) * pow256(b),
    decreases a,
{
    if a == 0 {
        assert(pow256(0) == 1);
    } else {
        lemma_pow256_adds((a - 1) as nat, b);
        assert(pow256((a + b - 1) as nat) == pow256((a - 1) as nat) * pow256(b));
        assert(pow256(a + b) == 256 * pow256((a + b - 1) as nat));
        assert(pow256(a) == 256 * pow256((a - 1) as nat));
        assert(256 * (pow256((a - 1) as nat) * pow256(b)) == (256 * pow256((a - 1) as nat))
            * pow256(b)) by (nonlinear_arith);
    }
}

pub proof fn lemma_be_val_single(b: u8)
    ensures
        be_val(seq![b]) == b,
{
    assert(seq![b].drop_last() =~= Seq::<u8>::empty());
    assert(be_val(Seq::<u8>::empty()) == 0);
    assert(seq![b].last() == b);
}

pub proof fn lemma_be_val_concat(a: Seq<u8>, b: Seq<u8>)
    ensures
        be_val(a + b) == be_val(a) * pow256(b.len()) + be_val(b),
    decreases b.len(),
{
    if b.len() == 0 {
        assert(a + b =~= a);
        assert(pow256(0) == 1);
        assert(be_val(b) == 0);
    } else {
        lemma_be_val_concat(a, b.drop_last());
        assert((a + b).drop_last() =~= a + b.drop_last());
        assert((a + b).last() == b.last());
        let x = be_val(a);
        let y = be_val(b.drop_last());
        let p = pow256((b.len() - 1) as nat);
        assert(be_val(a + b) == (x * p + y) * 256 + b.last());
        assert((x * p + y) * 256 == x * (p * 256) + y * 256) by (nonlinear_arith);
        assert(pow256(b.len()) == p * 256) by {
            lemma_pow256_adds((b.len() - 1) as nat, 1);
            assert(pow256(0) == 1);
            assert(pow256(1) == 256);
        }
        assert(be_val(b) == y * 256 + b.last());
        assert(x * (p * 256) == x * pow256(b.len()));
    }
}

pub proof fn lemma_be_val_bound(s: Seq<u8>)
    ensures
        be_val(s) < pow256(s.len()),
    decreases s.len(),
{
    if s.len() == 0 {
    } else {
        lemma_be_val_bound(s.drop_last());
        let y = be_val(s.drop_last());
        let p = pow256((s.len() - 1) as nat);
        assert(y + 1 <= p);
        assert(y * 256 + 256 <= p * 256) by (nonlinear_arith)
            requires y + 1 <= p;
        assert(pow256(s.len()) == 256 * p);
    }
}

pub proof fn lemma_be_val_zero(n: nat)
    ensures
        be_val(zero_bytes(n)) == 0,
    decreases n,
{
    if n == 0 {
    } else {
        lemma_be_val_zero((n - 1) as nat);
        assert(zero_bytes(n).drop_last() =~= zero_bytes((n - 1) as nat));
    }
}

/// A 20-byte account address.
pub struct Address {
    pub bytes: Vec<u8>,
}

impl Address {
    pub open spec fn wf(&self) -> bool {
        self.bytes@.len() == 20
    }
}

impl View for Address {
    type V = Seq<u8>;

    open spec fn view(&self) -> Seq<u8> {
        self.bytes@
    }
}

/// A 32-byte word: storage key, storage value, block hash, or a 256-bit
/// unsigned number in big-endian form.
pub struct Word {
    pub bytes: Vec<u8>,
}

impl Word {
    pub open spec fn wf(&self) -> bool {
        self.bytes@.len() == 32
    }

    /// The number this word holds, read big-endian.
    pub open spec fn val(&self) -> nat {
        be_val(self.bytes@)
    }
}

impl View for Word {
    type V = Seq<u8>;

    open spec fn view(&self) -> Seq<u8> {
        self.bytes@
    }
}

impl Word {
    /// An owned copy of this word.
    pub fn dup(&self) -> (w: Word)
        ensures
            w@ == self@,
    {
        let mut bytes: Vec<u8> = Vec::new();
        bytes.extend_from_slice(self.bytes.as_slice());
        proof {
            assert(bytes@ =~= self.bytes@);
        }
        Word { bytes }
    }
}

/// The all-zero address: the placeholder for fields not sourced remotely.
pub fn address_zero() -> (a: Address)
    ensures
        a.wf(),
        a@ == zero_bytes(20),
{
    let bytes = vec![0u8; 20];
    proof {
        assert(bytes@ =~= zero_bytes(20));
    }
    Address { bytes }
}

/// The all-zero word.
pub fn word_zero() -> (w: Word)
    ensures
        w.wf(),
        w@ == zero_bytes(32),
        w.val() == 0,
{
    let bytes = vec![0u8; 32];
    proof {
        assert(bytes@ =~= zero_bytes(32));
        lemma_be_val_zero(32);
    }
    Word { bytes }
}

/// Build the word holding a number that fits in 128 bits.
pub fn word_from_u128(v: u128) -> (w: Word)
    ensures
        w.wf(),
        w.val() == v,
{
    let mut bytes: Vec<u8> = vec![0u8; 32];
    let mut x: u128 = v;
    let mut i: usize = 0;
    proof {
        assert(bytes@.skip(32) =~= Seq::<u8>::empty());
        assert(be_val(Seq::<u8>::empty()) == 0);
        assert(pow256(0) == 1);
    }
    while i < 32
        invariant
            bytes@.len() == 32,
            i <= 32,
            v as nat == (x as nat) * pow256(i as nat) + be_val(bytes@.skip(32 - i as int)),
        decreases 32 - i,
    {
        let ghost old_bytes = bytes@;
        let ghost old_x = x as nat;
        let b: u8 = (x % 256) as u8;
        bytes[31 - i] = b;
        x = x / 256;
        proof {
            let suffix = old_bytes.skip(32 - i as int);
            assert(bytes@.skip(31 - i as int) =~= seq![b] + suffix);
            lemma_be_val_concat(seq![b], suffix);
            lemma_be_val_single(b);
            assert(old_x == 256 * (x as nat) + b);
            assert((256 * (x as nat) + b) * pow256(i as nat) == (x as nat) * (256 * pow256(
                i as nat,
            )) + b * pow256(i as nat)) by (nonlinear_arith);
            assert(pow256(i as nat + 1) == 256 * pow256(i as nat));
            assert(be_val(seq![b] + suffix) == b * pow256(i as nat) + be_val(suffix)) by {
                assert(suffix.len() == i as nat);
            }
        }
        i = i + 1;
    }
    proof {
        assert(bytes@.skip(0) =~= bytes@);
        assert(pow256(32) == pow256(16) * pow256(16)) by {
            lemma_pow256_adds(16, 16);
        }
        lemma_pow256_16();
        assert((x as nat) * pow256(32) <= v as nat);
        if x as nat >= 1 {
            assert((x as nat) * pow256(32) >= 1 * pow256(32)) by (nonlinear_arith)
                requires x as nat >= 1;
            assert(pow256(32) >= pow256(16)) by (nonlinear_arith)
                requires pow256(32) == pow256(16) * pow256(16), pow256(16) >= 1;
            assert(false);
        }
    }
    Word { bytes }
}

/// Multiply a word by a small base and add a digit, in place.
/// Returns false exactly when the result does not fit in 256 bits;
/// the word is unchanged in value terms only on success.
fn word_mul_add(w: &mut Word, base: u8, digit: u8) -> (ok: bool)
    requires
        old(w).wf(),
        2 <= base <= 16,
        digit < base,
    ensures
        final(w).wf(),
        ok ==> final(w).val() == old(w).val() * base + digit,
        !ok ==> old(w).val() * base + digit >= pow256(32),
{
    let ghost orig = w.bytes@;
    let mut carry: u16 = digit as u16;
    let mut j: usize = 32;
    proof {
        assert(orig.skip(32) =~= Seq::<u8>::empty());
        assert(be_val(Seq::<u8>::empty()) == 0);
        assert(be_val(orig.skip(j as int)) == 0);
        assert(be_val(w.bytes@.skip(j as int)) == 0);
        assert(pow256((32 - j) as nat) == 1);
    }
    while j > 0
        invariant
            w.bytes@.len() == 32,
            orig.len() == 32,
            j <= 32,
            carry <= 16,
            2 <= base <= 16,
            digit < base,
            w.bytes@.take(j as int) =~= orig.take(j as int),
            be_val(orig.skip(j as int)) * base + digit == (carry as nat) * pow256((32 - j) as nat)
                + be_val(w.bytes@.skip(j as int)),
        decreases j,
    {
        let ghost prev = w.bytes@;
        let ghost c0 = carry as nat;
        let jj = j - 1;
        let wb: u16 = w.bytes[jj] as u16;
        let bb: u16 = base as u16;
        assert(wb * bb + carry <= 4096) by (nonlinear_arith)
            requires
                wb <= 255,
                bb <= 16,
                carry <= 16,
        ;
        let t: u16 = wb * bb + carry;
        w.bytes[jj] = (t % 256) as u8;
        carry = t / 256;
        proof {
            let p = pow256((32 - j) as nat);
            let os = orig.skip(j as int);
            let ns = prev.skip(j as int);
            let ob = orig[jj as int];
            let nb = (t % 256) as u8;
            let c1 = (t / 256) as nat;
            let nsv = be_val(ns);
            assert(prev[jj as int] == ob) by {
                assert(prev.take(j as int)[jj as int] == orig.take(j as int)[jj as int]);
            }
            assert(orig.skip(jj as int) =~= seq![ob] + os);
            assert(w.bytes@.skip(jj as int) =~= seq![nb] + ns);
            assert(w.bytes@.skip(j as int) =~= ns);
            lemma_be_val_concat(seq![ob], os);
            lemma_be_val_concat(seq![nb], ns);
            lemma_be_val_single(ob);
            lemma_be_val_single(nb);
            assert(os.len() == (32 - j) as nat && ns.len() == (32 - j) as nat);
            assert(pow256((32 - jj) as nat) == 256 * p);
            assert(t == ob * base + c0);
            assert(t as nat == 256 * c1 + nb);
            assert(be_val(orig.skip(jj as int)) * base + digit == (ob as nat) * (base as nat) * p
                + (be_val(os) * base + digit)) by (nonlinear_arith)
                requires
                    be_val(orig.skip(jj as int)) == ob * p + be_val(os),
            ;
            assert((ob as nat) * (base as nat) * p + (c0 * p + nsv) == (t as nat) * p + nsv)
                by (nonlinear_arith)
                requires
                    t as nat == (ob as nat) * (base as nat) + c0,
            ;
            assert((t as nat) * p + nsv == c1 * (256 * p) + (nb as nat) * p + nsv)
                by (nonlinear_arith)
                requires
                    t as nat == 256 * c1 + nb,
            ;
            assert((nb as nat) * p + nsv == be_val(w.bytes@.skip(jj as int)));
            assert forall|k: int| 0 <= k < jj implies w.bytes@.take(jj as int)[k] == orig.take(
                jj as int,
            )[k] by {
                assert(w.bytes@[k] == prev[k]);
                assert(prev.take(j as int)[k] == orig.take(j as int)[k]);
            }
            assert(w.bytes@.take(jj as int) =~= orig.take(jj as int));
        }
        j = jj;
    }
    proof {
        assert(w.bytes@.skip(0) =~= w.bytes@);
        assert(orig.skip(0) =~= orig);
        if carry == 0 {
        } else {
            assert((carry as nat) * pow256(32) >= 1 * pow256(32)) by (nonlinear_arith)
                requires
                    carry as nat >= 1,
            ;
        }
    }
    carry == 0
}

/// Numeric value of a decimal digit string.
pub open spec fn dec_val(s: Seq<char>) -> nat
    decreases s.len(),
{
    if s.len() == 0 {
        0
    } else {
        (dec_val(s.drop_last()) * 10 + (s.last() as int - '0' as int)) as nat
    }
}

pub open spec fn is_dec_digit(c: char) -> bool {
    '0' <= c && c <= '9'
}

/// Numeric value of a hex digit string (a number, so odd lengths count too).
pub open spec fn hex_num_val(s: Seq<char>) -> nat
    decreases s.len(),
{
    if s.len() == 0 {
        0
    } else {
        hex_num_val(s.drop_last()) * 16 + hex_val(s.last())
    }
}

/// Shape of an unsigned-integer literal: `0x` followed by at least one and
/// at most 64 hex digits, or at least one decimal digit.
pub open spec fn is_hex_literal(s: Seq<char>) -> bool {
    &&& s.len() >= 3
    &&& s.len() <= 66
    &&& s[0] == '0'
    &&& s[1] == 'x'
    &&& forall|i: int| 2 <= i < s.len() ==> is_hex_digit(#[trigger] s[i])
}

pub open spec fn is_dec_literal(s: Seq<char>) -> bool {
    &&& s.len() >= 1
    &&& forall|i: int| 0 <= i < s.len() ==> is_dec_digit(#[trigger] s[i])
}

/// Value of an unsigned-integer literal, hex or decimal.
pub open spec fn uint_literal_val(s: Seq<char>) -> nat {
    if is_hex_literal(s) {
        hex_num_val(s.skip(2))
    } else {
        dec_val(s)
    }
}

pub open spec fn is_uint_literal(s: Seq<char>) -> bool {
    is_hex_literal(s) || is_dec_literal(s)
}

/// The string with an optional `0x` prefix removed.
pub open spec fn strip_0x(s: Seq<char>) -> Seq<char> {
    if s.len() >= 2 && s[0] == '0' && s[1] == 'x' {
        s.skip(2)
    } else {
        s
    }
}

/// A fixed-width hex field: an optional `0x` prefix, then exactly `2 * n`
/// hex digits, upper or lower case.
pub open spec fn is_fixed_hex(s: Seq<char>, n: nat) -> bool {
    strip_0x(s).len() == 2 * n && is_hex_string(strip_0x(s))
}

pub open spec fn is_address_str(s: Seq<char>) -> bool {
    is_fixed_hex(s, 20)
}

pub open spec fn address_of_str(s: Seq<char>) -> Seq<u8> {
    bytes_of_hex(strip_0x(s))
}

pub open spec fn is_word_str(s: Seq<char>) -> bool {
    is_fixed_hex(s, 32)
}

pub open spec fn word_of_str(s: Seq<char>) -> Seq<u8> {
    bytes_of_hex(strip_0x(s))
}

proof fn lemma_hex_digit_is_ascii(c: char)
    requires
        is_hex_digit(c),
    ensures
        '\0' <= c <= '\u{7f}',
{
}

/// Parse an optional-`0x`, exactly-`2 * n`-digit hex field.
fn parse_fixed_hex(s: &str, n: usize) -> (r: Option<Vec<u8>>)
    requires
        n <= 32,
    ensures
        match r {
            Some(v) => is_fixed_hex(s@, n as nat) && v@ == bytes_of_hex(strip_0x(s@)),
            None => !is_fixed_hex(s@, n as nat),
        },
{
    if !s.is_ascii() {
        proof {
            if is_fixed_hex(s@, n as nat) {
                let i = choose|i: int|
                    !(0 <= i < s@.len() ==> '\0' <= #[trigger] s@[i] <= '\u{7f}');
                if s@.len() >= 2 && s@[0] == '0' && s@[1] == 'x' {
                    if i >= 2 {
                        assert(strip_0x(s@)[i - 2] == s@[i]);
                        lemma_hex_digit_is_ascii(s@[i]);
                    }
                } else {
                    assert(strip_0x(s@)[i] == s@[i]);
                    lemma_hex_digit_is_ascii(s@[i]);
                }
            }
        }
        return None;
    }
    let len = s.unicode_len();
    let start: usize = if len >= 2 && s.get_char(0) == '0' && s.get_char(1) == 'x' {
        2
    } else {
        0
    };
    proof {
        if start == 2 {
            assert(strip_0x(s@) =~= s@.subrange(2, s@.len() as int));
        } else {
            assert(strip_0x(s@) =~= s@.subrange(0, s@.len() as int));
        }
    }
    if len - start != 2 * n {
        return None;
    }
    let t = s.substring_ascii(start, len);
    let r = crate::hexstr::hex_decode(t);
    proof {
        assert(t@ == strip_0x(s@));
    }
    r
}

/// Parse a 20-byte address given as hex text, `0x` prefix optional.
pub fn parse_address(s: &str) -> (r: Option<Address>)
    ensures
        match r {
            Some(a) => a.wf() && is_address_str(s@) && a@ == address_of_str(s@),
            None => !is_address_str(s@),
        },
{
    match parse_fixed_hex(s, 20) {
        Some(v) => Some(Address { bytes: v }),
        None => None,
    }
}

/// Parse a 32-byte word given as exactly 64 hex digits, `0x` prefix optional.
pub fn parse_word(s: &str) -> (r: Option<Word>)
    ensures
        match r {
            Some(w) => w.wf() && is_word_str(s@) && w@ == word_of_str(s@),
            None => !is_word_str(s@),
        },
{
    match parse_fixed_hex(s, 32) {
        Some(v) => Some(Word { bytes: v }),
        None => None,
    }
}

proof fn lemma_dec_val_take_monotone(t: Seq<char>, i: int, j: int)
    requires
        0 <= i <= j <= t.len(),
        forall|k: int| 0 <= k < t.len() ==> is_dec_digit(#[trigger] t[k]),
    ensures
        dec_val(t.take(j)) >= dec_val(t.take(i)),
    decreases j - i,
{
    if i < j {
        lemma_dec_val_take_monotone(t, i, j - 1);
        assert(t.take(j).drop_last() =~= t.take(j - 1));
        let x = dec_val(t.take(j - 1));
        let d = t[j - 1] as int - '0' as int;
        assert(0 <= d <= 9);
        assert(dec_val(t.take(j)) == x * 10 + d);
    }
}

proof fn lemma_hex_num_val_take_monotone(t: Seq<char>, i: int, j: int)
    requires
        0 <= i <= j <= t.len(),
    ensures
        hex_num_val(t.take(j)) >= hex_num_val(t.take(i)),
    decreases j - i,
{
    if i < j {
        lemma_hex_num_val_take_monotone(t, i, j - 1);
        assert(t.take(j).drop_last() =~= t.take(j - 1));
        let x = hex_num_val(t.take(j - 1));
        assert(hex_num_val(t.take(j)) == x * 16 + hex_val(t[j - 1]));
    }
}

/// Parse an unsigned-integer literal, decimal or `0x`-prefixed hex, into a
/// 256-bit word. Rejects anything that is not a literal and any value that
/// does not fit in 256 bits.
pub fn parse_uint(s: &str) -> (r: Option<Word>)
    ensures
        match r {
            Some(w) => w.wf() && is_uint_literal(s@) && uint_literal_val(s@) < pow256(32)
                && w.val() == uint_literal_val(s@),
            None => !is_uint_literal(s@) || uint_literal_val(s@) >= pow256(32),
        },
{
    broadcast use vstd::string::is_ascii_spec_bytes;

    if !s.is_ascii() {
        proof {
            let i = choose|i: int|
                !(0 <= i < s@.len() ==> '\0' <= #[trigger] s@[i] <= '\u{7f}');
            if is_hex_literal(s@) {
                if i >= 2 {
                    assert(is_hex_digit(s@[i]));
                    lemma_hex_digit_is_ascii(s@[i]);
                }
            }
            if is_dec_literal(s@) {
                assert(is_dec_digit(s@[i]));
            }
        }
        return None;
    }
    let len = s.unicode_len();
    if len >= 2 && s.get_char(0) == '0' && s.get_char(1) == 'x' {
        // hex literal
        if len < 3 || len > 66 {
            proof {
                if is_dec_literal(s@) {
                    assert(is_dec_digit(s@[1]));
                }
            }
            return None;
        }
        let mut w = word_zero();
        let mut i: usize = 2;
        proof {
            assert(s@.skip(2).take(0) =~= Seq::<char>::empty());
            assert(hex_num_val(Seq::<char>::empty()) == 0);
        }
        while i < len
            invariant
                s.is_ascii(),
                s@.len() == len,
                2 <= i <= len,
                3 <= len <= 66,
                s@[0] == '0' && s@[1] == 'x',
                w.wf(),
                forall|k: int| 2 <= k < i ==> is_hex_digit(#[trigger] s@[k]),
                w.val() == hex_num_val(s@.skip(2).take(i - 2)),
            decreases len - i,
        {
            let b = s.get_ascii(i);
            let v = nibble_of_byte(b);
            proof {
                lemma_char_byte_hex_val(s@[i as int]);
            }
            if v >= 16 {
                proof {
                    if is_dec_literal(s@) {
                        assert(is_dec_digit(s@[1]));
                    }
                }
                return None;
            }
            let ghost prefix = s@.skip(2).take(i - 2);
            let ok = word_mul_add(&mut w, 16, v);
            proof {
                assert(s@.skip(2).take(i - 2 + 1).drop_last() =~= prefix);
                assert(s@.skip(2).take(i - 2 + 1).last() == s@[i as int]);
                assert(hex_num_val(s@.skip(2).take(i - 2 + 1)) == hex_num_val(prefix) * 16
                    + hex_val(s@[i as int]));
            }
            if !ok {
                proof {
                    let t = s@.skip(2);
                    lemma_hex_num_val_take_monotone(t, i - 2 + 1, t.len() as int);
                    assert(t.take(t.len() as int) =~= t);
                    if is_dec_literal(s@) {
                        assert(is_dec_digit(s@[1]));
                    }
                }
                return None;
            }
            i = i + 1;
        }
        proof {
            assert(s@.skip(2).take(len - 2) =~= s@.skip(2));
            assert(is_hex_literal(s@));
            lemma_be_val_bound(w.bytes@);
        }
        Some(w)
    } else {
        // decimal literal
        if len == 0 {
            return None;
        }
        let mut w = word_zero();
        let mut i: usize = 0;
        proof {
            assert(s@.take(0) =~= Seq::<char>::empty());
            assert(dec_val(Seq::<char>::empty()) == 0);
        }
        while i < len
            invariant
                s.is_ascii(),
                s@.len() == len,
                i <= len,
                1 <= len,
                !(s@.len() >= 2 && s@[0] == '0' && s@[1] == 'x'),
                w.wf(),
                forall|k: int| 0 <= k < i ==> is_dec_digit(#[trigger] s@[k]),
                w.val() == dec_val(s@.take(i as int)),
            decreases len - i,
        {
            let b = s.get_ascii(i);
            if b < 48 || b > 57 {
                proof {
                    assert(!is_dec_digit(s@[i as int]));
                }
                return None;
            }
            let ghost prefix = s@.take(i as int);
            let ok = word_mul_add(&mut w, 10, b - 48);
            proof {
                assert(s@.take(i as int + 1).drop_last() =~= prefix);
                assert(s@.take(i as int + 1).last() == s@[i as int]);
                assert(s@[i as int] as int - '0' as int == b - 48);
                assert(dec_val(s@.take(i as int + 1)) == dec_val(prefix) * 10 + (b - 48));
            }
            if !ok {
                proof {
                    if is_dec_literal(s@) {
                        lemma_dec_val_take_monotone(s@, i as int + 1, s@.len() as int);
                        assert(s@.take(s@.len() as int) =~= s@);
                    }
                }
                return None;
            }
            i = i + 1;
        }
        proof {
            assert(s@.take(len as int) =~= s@);
            assert(is_dec_literal(s@));
            lemma_be_val_bound(w.bytes@);
        }
        Some(w)
    }
}

} // verus!
