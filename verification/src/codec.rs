//! Binary encoding of state queries and values.
//!
//! A state lookup travels to the node as a compact binary message holding the
//! variable's name, the nesting depth (0 for a scalar, 1 for a single-key map
//! lookup) and the optional index key, in protobuf wire framing: base-128
//! varints and length-delimited fields. The spec functions give the exact
//! bytes; the executable encoders are proved to produce them. The encoded
//! message is carried inside a JSON transport argument as base64 text, which
//! is the one outside call here.

use vstd::prelude::*;
use vstd::utf8::is_ascii_chars;
use crate::values::Word;

verus! {

/// Little-endian base-128 varint encoding.
pub open spec fn varint(n: nat) -> Seq<u8>
    decreases n,
{
    if n < 128 {
        seq![n as u8]
    } else {
        seq![(n % 128 + 128) as u8] + varint(n / 128)
    }
}

/// A length-delimited field: tag, payload length, payload.
pub open spec fn len_field(field: nat, payload: Seq<u8>) -> Seq<u8> {
    varint(field * 8 + 2) + varint(payload.len()) + payload
}

/// A varint field: tag, value.
pub open spec fn varint_field(field: nat, value: nat) -> Seq<u8> {
    varint(field * 8) + varint(value)
}

/// Bytes of an ASCII character string, one byte per character.
pub open spec fn ascii_bytes(s: Seq<char>) -> Seq<u8> {
    Seq::new(s.len(), |i: int| s[i] as u8)
}

/// Nesting depth of a lookup: 1 exactly when an index key is present.
pub open spec fn depth_of(key: Option<Seq<u8>>) -> nat {
    match key {
        Option::Some(_) => 1,
        Option::None => 0,
    }
}

/// The state-query message: variable name (field 1), nesting depth
/// (field 2), then the index key if there is one (field 3).
pub open spec fn query_bytes(name: Seq<u8>, key: Option<Seq<u8>>) -> Seq<u8> {
    len_field(1, name) + varint_field(2, depth_of(key)) + (match key {
        Option::Some(k) => len_field(3, k),
        Option::None => Seq::<u8>::empty(),
    })
}

/// The value message: the raw byte value (field 1).
pub open spec fn value_bytes(v: Seq<u8>) -> Seq<u8> {
    len_field(1, v)
}

/// A state-variable lookup: the variable's name and, for single-level map
/// variables, the exact index key.
pub struct StateQuery {
    pub name: String,
    pub key: Option<Word>,
}

impl StateQuery {
    pub open spec fn wf(&self) -> bool {
        &&& is_ascii_chars(self.name@)
        &&& self.name@.len() <= 64
        &&& match self.key {
            Option::Some(k) => k.wf(),
            Option::None => true,
        }
    }

    /// The index key's bytes, as the message carries them.
    pub open spec fn key_view(&self) -> Option<Seq<u8>> {
        match self.key {
            Option::Some(k) => Option::Some(k@),
            Option::None => Option::None,
        }
    }

    /// The exact bytes this query encodes to.
    pub open spec fn encoded(&self) -> Seq<u8> {
        query_bytes(ascii_bytes(self.name@), self.key_view())
    }
}

/// Append the varint encoding of a number.
pub fn encode_varint_into(x: u64, out: &mut Vec<u8>)
    ensures
        final(out)@ == old(out)@ + varint(x as nat),
{
    let ghost start = out@;
    let mut x = x;
    let ghost x0 = x as nat;
    while x >= 128
        invariant
            start + varint(x0) =~= out@ + varint(x as nat),
        decreases x,
    {
        let b: u8 = ((x % 128) + 128) as u8;
        out.push(b);
        proof {
            assert(varint((x as nat) / 128) == varint((x / 128) as nat));
        }
        x = x / 128;
        proof {
            assert(out@ + varint(x as nat) =~= out@.drop_last() + (seq![b] + varint(x as nat)));
        }
    }
    out.push(x as u8);
    proof {
        assert(varint(x as nat) == seq![x as u8]);
        assert(out@ =~= out@.drop_last() + seq![x as u8]);
        assert(out@ =~= start + varint(x0));
    }
}

/// Encode a state query into its binary message.
pub fn encode_query(q: &StateQuery) -> (r: Vec<u8>)
    requires
        q.wf(),
    ensures
        r@ == q.encoded(),
{
    let mut out: Vec<u8> = Vec::new();
    let name_str = q.name.as_str();
    let name_bytes = name_str.as_bytes_vec();
    proof {
        vstd::string::is_ascii_spec_bytes(name_str);
        assert(name_bytes@ =~= ascii_bytes(q.name@));
    }
    // name field
    encode_varint_into(10, &mut out);
    encode_varint_into(name_bytes.len() as u64, &mut out);
    out.extend_from_slice(name_bytes.as_slice());
    // depth field, then the key, if any
    encode_varint_into(16, &mut out);
    match &q.key {
        Option::None => {
            encode_varint_into(0, &mut out);
        },
        Option::Some(k) => {
            encode_varint_into(1, &mut out);
            encode_varint_into(26, &mut out);
            encode_varint_into(k.bytes.len() as u64, &mut out);
            out.extend_from_slice(k.bytes.as_slice());
        },
    }
    proof {
        assert(out@ =~= q.encoded());
    }
    out
}

/// Encode a 32-byte value into its binary message.
pub fn encode_value(v: &Word) -> (r: Vec<u8>)
    requires
        v.wf(),
    ensures
        r@ == value_bytes(v@),
{
    let mut out: Vec<u8> = Vec::new();
    encode_varint_into(10, &mut out);
    encode_varint_into(v.bytes.len() as u64, &mut out);
    out.extend_from_slice(v.bytes.as_slice());
    proof {
        assert(out@ =~= value_bytes(v@));
    }
    out
}

/// What the transport's base64 text holds for a given byte string.
pub uninterp spec fn base64_of(bytes: Seq<u8>) -> Seq<char>;

/// Relies on base64::encode: standard alphabet with `=` padding, so the
/// result is a function of the input bytes alone, four characters for every
/// started group of three bytes.
#[verifier::external_body]
pub(crate) fn base64_encode(bytes: &Vec<u8>) -> (r: String)
    ensures
        r@ == base64_of(bytes@),
        r@.len() == ((bytes@.len() + 2) / 3) * 4,
{
    base64::encode(bytes)
}

} // verus!
