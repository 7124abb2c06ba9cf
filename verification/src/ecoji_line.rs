//! Line with Ecoji base-1024 emoji encoding: the digest's bytes are
//! re-rendered as the emoji string that encodes them.

use vstd::prelude::*;

use crate::base_line::{assemble, assembled, is_classified, FormattableLine, Line};
use crate::hex_pairs::{decodes_as_hex, hex_bytes, parse_hex_pairs};

verus! {

/// The UTF-8 bytes of the Ecoji base-1024 emoji encoding of `bytes`.
pub uninterp spec fn ecoji_of(bytes: Seq<u8>) -> Seq<u8>;

/// Relies on `ecoji::encode_to_string`: the Ecoji encoding of the bytes
/// read from the source, a function of those bytes alone. Reading from a
/// byte slice cannot fail, so neither can the encoding.
#[verifier::external_body]
fn ecoji_encode(bytes: &Vec<u8>) -> (r: Vec<u8>)
    ensures
        r@ == ecoji_of(bytes@),
{
    let mut source: &[u8] = bytes.as_slice();
    match ecoji::encode_to_string(&mut source) {
        Ok(s) => s.into_bytes(),
        Err(_) => Vec::new(),
    }
}

/// Relies on `ecoji::decode_to_vec`: the inverse of the Ecoji encoding.
/// Decoding the encoding of a byte sequence of whole five-byte blocks
/// gives back exactly that sequence; other inputs may decode or fail.
#[verifier::external_body]
fn ecoji_decode(encoded: &Vec<u8>) -> (r: Option<Vec<u8>>)
    ensures
        (exists|b: Seq<u8>| #[trigger] ecoji_of(b) == encoded@ && b.len() % 5 == 0) ==> r is Some,
        r matches Some(v) ==> forall|b: Seq<u8>|
            #[trigger] ecoji_of(b) == encoded@ && b.len() % 5 == 0 ==> v@ == b,
{
    let mut source: &[u8] = encoded.as_slice();
    match ecoji::decode_to_vec(&mut source) {
        Ok(v) => Some(v),
        Err(_) => None,
    }
}

/// Encoding a byte sequence of whole five-byte blocks and decoding the
/// result gives back the original bytes exactly.
pub fn ecoji_round_trip(bytes: &Vec<u8>) -> (r: Option<Vec<u8>>)
    ensures
        bytes@.len() % 5 == 0 ==> (r matches Some(v) && v@ == bytes@),
{
    let encoded = ecoji_encode(bytes);
    ecoji_decode(&encoded)
}

/// What the Ecoji formatter returns: when the digest text splits into
/// valid two-character hexadecimal chunks, the Ecoji encoding of the bytes
/// those chunks denote; otherwise the text unchanged, exactly.
pub open spec fn ecoji_format(s: Seq<u8>) -> Seq<u8> {
    if decodes_as_hex(s) {
        ecoji_of(hex_bytes(s))
    } else {
        s
    }
}

/// A digest text not decomposable into valid two-character hexadecimal
/// chunks is returned unchanged by the Ecoji formatter.
pub proof fn lemma_ecoji_fallback(s: Seq<u8>)
    requires
        !decodes_as_hex(s),
    ensures
        ecoji_format(s) == s,
{
}

/// Line with Ecoji base-1024 emoji encoding.
pub struct EcojiLine(pub FormattableLine);

impl EcojiLine {
    /// Derives a line from its text, classifying it.
    pub fn from(contents: Vec<u8>) -> (r: Self)
        ensures
            is_classified(r.line_of(), contents@),
            r.line_of().wf(),
    {
        EcojiLine(FormattableLine::from(contents))
    }

    /// The processed line: the digest span re-encoded as emoji, everything
    /// around it unchanged, and the whole line unchanged when no span was
    /// found.
    pub fn to_formatted(&self) -> (r: Vec<u8>)
        requires
            self.line_of().wf(),
        ensures
            r@ == assembled::<Self>(self.line_of()),
    {
        assemble::<Self>(self.get_line())
    }
}

impl Line for EcojiLine {
    open spec fn line_of(&self) -> FormattableLine {
        self.0
    }

    open spec fn format_spec(hash: Seq<u8>) -> Seq<u8> {
        ecoji_format(hash)
    }

    fn from_contents(contents: Vec<u8>) -> (r: Self) {
        Self::from(contents)
    }

    fn get_line(&self) -> (r: &FormattableLine) {
        &self.0
    }

    /// Formats a base16-format hash or digest.
    ///
    /// The bytes the digest denotes are encoded with the Ecoji base-1024
    /// emoji encoding; text that is not a whole number of valid
    /// two-character hexadecimal chunks is returned unchanged.
    fn format_hash(hash: Vec<u8>) -> (r: Vec<u8>) {
        match parse_hex_pairs(&hash) {
            Some(bytes) => ecoji_encode(&bytes),
            None => hash,
        }
    }
}

} // verus!
