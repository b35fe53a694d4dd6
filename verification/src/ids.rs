//! Host identifiers and their display form.
//!
//! The store assigns each host a numeric identifier.  Persisted and
//! displayed, the identifier is a 16-byte value rendered in the canonical
//! hyphenated UUID form; the rendering is delegated to the `uuid` crate.

use vstd::prelude::*;

verus! {

/// The canonical hyphenated rendering of a 16-byte identifier, as the
/// `uuid` crate's formatter produces it: a function of the bytes alone.
pub uninterp spec fn uuid_str_of(b: Seq<u8>) -> Seq<char>;

/// The 16-byte form of a numeric host identifier: eight zero bytes, then
/// the identifier in big-endian order.
pub open spec fn id_byte_seq(id: u64) -> Seq<u8> {
    seq![
        0u8,
        0u8,
        0u8,
        0u8,
        0u8,
        0u8,
        0u8,
        0u8,
        ((id >> 56) & 0xff) as u8,
        ((id >> 48) & 0xff) as u8,
        ((id >> 40) & 0xff) as u8,
        ((id >> 32) & 0xff) as u8,
        ((id >> 24) & 0xff) as u8,
        ((id >> 16) & 0xff) as u8,
        ((id >> 8) & 0xff) as u8,
        (id & 0xff) as u8,
    ]
}

/// Expand a numeric host identifier to its 16-byte form.
pub fn id_bytes(id: u64) -> (r: Vec<u8>)
    ensures
        r@ == id_byte_seq(id),
        r@.len() == 16,
{
    let mut r: Vec<u8> = Vec::new();
    r.push(0u8);
    r.push(0u8);
    r.push(0u8);
    r.push(0u8);
    r.push(0u8);
    r.push(0u8);
    r.push(0u8);
    r.push(0u8);
    r.push(((id >> 56) & 0xff) as u8);
    r.push(((id >> 48) & 0xff) as u8);
    r.push(((id >> 40) & 0xff) as u8);
    r.push(((id >> 32) & 0xff) as u8);
    r.push(((id >> 24) & 0xff) as u8);
    r.push(((id >> 16) & 0xff) as u8);
    r.push(((id >> 8) & 0xff) as u8);
    r.push((id & 0xff) as u8);
    proof {
        assert(r@ =~= id_byte_seq(id));
    }
    r
}

/// Relies on `uuid::Uuid::from_slice`, which errors exactly when the slice
/// is not 16 bytes long and otherwise takes the bytes as given, and on
/// `uuid::Uuid`'s `Display`, which renders the 16 bytes in the lower-case
/// hyphenated form, 36 characters, a function of the bytes alone.
#[verifier::external_body]
fn hyphenated_uuid(bytes: &Vec<u8>) -> (r: Option<String>)
    ensures
        r is Some <==> bytes@.len() == 16,
        r matches Some(s) ==> s@ == uuid_str_of(bytes@) && s@.len() == 36,
{
    match uuid::Uuid::from_slice(bytes.as_slice()) {
        Ok(u) => Some(u.to_string()),
        Err(_) => None,
    }
}

/// The display form of a numeric host identifier: its 16-byte form in the
/// canonical hyphenated rendering.
pub fn format_host_id(id: u64) -> (s: String)
    ensures
        s@ == uuid_str_of(id_byte_seq(id)),
        s@.len() == 36,
{
    let bytes = id_bytes(id);
    match hyphenated_uuid(&bytes) {
        Some(s) => s,
        None => {
            proof {
                assert(false);
            }
            String::new()
        },
    }
}

} // verus!
