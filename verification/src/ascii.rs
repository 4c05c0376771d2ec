//! ASCII names on the wire.
//!
//! Type-definition records carry NUL-terminated names of at most 20 bytes.
//! The protocol restricts names to printable ASCII, so each wire byte is one
//! character and a name round-trips byte-for-byte.

use vstd::prelude::*;
use vstd::string::StringSliceAdditionalSpecFns;

verus! {

/// Longest name a type-definition record may carry, in bytes.
pub const MAX_NAME_LEN: usize = 20;

/// The wire bytes of an ASCII name: one byte per character.
pub open spec fn spec_ascii_bytes(s: Seq<char>) -> Seq<u8> {
    Seq::new(s.len(), |i: int| s[i] as u8)
}

/// A name the protocol can carry: at most 20 ASCII characters, none of them
/// NUL (NUL terminates the name on the wire).
pub open spec fn wf_name(s: Seq<char>) -> bool {
    &&& s.len() <= MAX_NAME_LEN
    &&& forall|i: int| 0 <= i < s.len() ==> '\0' < #[trigger] s[i] <= '\u{7f}'
}

/// Relies on `String::from_utf8_lossy`: bytes below 0x80 are ASCII, so the
/// lossless path is taken and each byte decodes to the character of the same
/// code.
#[verifier::external_body]
pub(crate) fn string_from_ascii(bytes: &Vec<u8>) -> (r: String)
    requires
        forall|i: int| 0 <= i < bytes@.len() ==> bytes@[i] < 0x80,
    ensures
        r@ == bytes@.map_values(|b: u8| b as char),
{
    String::from_utf8_lossy(bytes.as_slice()).into_owned()
}

/// An ASCII string's UTF-8 bytes are exactly its per-character bytes.
pub proof fn lemma_ascii_str_bytes(s: &str)
    requires
        vstd::string::is_ascii(s),
    ensures
        s.spec_bytes() == spec_ascii_bytes(s@),
{
    broadcast use vstd::string::is_ascii_spec_bytes;

    assert(s.spec_bytes() =~= spec_ascii_bytes(s@));
}

} // verus!
