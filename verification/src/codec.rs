use vstd::prelude::*;

use vstd::bytes::spec_u32_to_le_bytes;
use vstd::utf8::encode_utf8;

verus! {

/// The canonical serialization of a text payload: its UTF-8 byte length as a
/// 4-byte little-endian prefix, followed by its UTF-8 bytes.
pub open spec fn serialized_string(s: Seq<char>) -> Seq<u8> {
    spec_u32_to_le_bytes(encode_utf8(s).len() as u32) + encode_utf8(s)
}

/// Whether a text payload can be serialized at all: its UTF-8 byte length
/// must fit the 4-byte length prefix.
pub open spec fn serializable(s: Seq<char>) -> bool {
    encode_utf8(s).len() <= u32::MAX
}

/// The payload dispatched to a callback target: the 8-byte entry-point
/// selector followed by the canonical serialization of the response.
pub open spec fn callback_payload(disc: Seq<u8>, response: Seq<char>) -> Seq<u8> {
    disc + serialized_string(response)
}

/// Relies on `anchor_lang::AnchorSerialize` (borsh) for `String`: it writes
/// the string's byte length as a little-endian `u32` followed by the
/// string's UTF-8 bytes, and fails exactly when that length exceeds
/// `u32::MAX`, the `Vec` writer itself being infallible.
#[verifier::external_body]
fn serialize_string(s: &String) -> (r: Option<Vec<u8>>)
    ensures
        r is Some <==> serializable(s@),
        r matches Some(v) ==> v@ == serialized_string(s@),
{
    let mut out: Vec<u8> = Vec::new();
    match anchor_lang::AnchorSerialize::serialize(s, &mut out) {
        Ok(()) => Some(out),
        Err(_) => None,
    }
}

/// Builds the exact payload bytes a callback dispatch carries: the given
/// selector, then the canonical serialization of `response`. Returns `None`
/// exactly when the response cannot be serialized.
pub fn build_payload(disc: &[u8; 8], response: &String) -> (r: Option<Vec<u8>>)
    ensures
        r is Some <==> serializable(response@),
        r matches Some(v) ==> v@ == callback_payload(disc@, response@),
{
    let mut ser = match serialize_string(response) {
        Some(b) => b,
        None => {
            return None;
        },
    };
    let mut data: Vec<u8> = Vec::new();
    let mut i: usize = 0;
    while i < 8
        invariant
            0 <= i <= 8,
            data@ == disc@.subrange(0, i as int),
            ser@ == serialized_string(response@),
        decreases 8 - i,
    {
        data.push(disc[i]);
        proof {
            assert(data@ =~= disc@.subrange(0, i + 1 as int));
        }
        i += 1;
    }
    proof {
        assert(data@ =~= disc@);
    }
    data.append(&mut ser);
    Some(data)
}

} // verus!
