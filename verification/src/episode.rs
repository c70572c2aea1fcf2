//! The episode record and its stable binary layout.
//!
//! A persisted record always has both fields populated; a record that
//! cannot be fully resolved is never persisted. The layout is
//! `[duration milliseconds: 8 bytes little-endian]`,
//! `[URL byte length: 8 bytes little-endian]`, `[URL: UTF-8 bytes]`.
//! Bytes that do not carry exactly that shape decode to nothing: they
//! signal a corrupt record, never a panic.

use crate::duration::Duration;
use vstd::bytes::lemma_auto_spec_u64_to_from_le_bytes;
use vstd::bytes::spec_u64_from_le_bytes;
use vstd::bytes::spec_u64_to_le_bytes;
use vstd::bytes::u64_from_le_bytes;
use vstd::bytes::u64_to_le_bytes;
use vstd::prelude::*;
use vstd::slice::slice_subrange;
use vstd::slice::slice_to_vec;
use vstd::utf8::decode_utf8;
use vstd::utf8::encode_utf8;
use vstd::utf8::encode_utf8_decode_utf8;
use vstd::utf8::encode_utf8_valid_utf8;
use vstd::utf8::valid_utf8;

verus! {

/// A fully resolved episode: a playable stream URL and a duration.
#[derive(Clone, Debug)]
pub struct Episode {
    pub stream_url: String,
    /// The duration of the episode.
    pub duration: Duration,
}

/// Serialized form of a record whose URL holds the characters `url` and
/// whose duration counts `millis` milliseconds.
pub open spec fn spec_encode(url: Seq<char>, millis: u64) -> Seq<u8> {
    spec_u64_to_le_bytes(millis) + spec_u64_to_le_bytes(encode_utf8(url).len() as u64)
        + encode_utf8(url)
}

/// Serialized form of an episode record.
pub open spec fn spec_serialize(ep: Episode) -> Seq<u8> {
    spec_encode(ep.stream_url@, ep.duration.millis)
}

/// What stored bytes decode to: the URL characters and the millisecond
/// count, or nothing when the bytes do not carry a record.
pub open spec fn spec_deserialize(b: Seq<u8>) -> Option<(Seq<char>, u64)> {
    if b.len() < 16 {
        None
    } else {
        let millis = spec_u64_from_le_bytes(b.subrange(0, 8));
        let n = spec_u64_from_le_bytes(b.subrange(8, 16));
        let rest = b.subrange(16, b.len() as int);
        if n == rest.len() && valid_utf8(rest) {
            Some((decode_utf8(rest), millis))
        } else {
            None
        }
    }
}

/// Relies on `String::from_utf8`: it succeeds exactly on valid UTF-8
/// input and yields the characters the bytes encode.
#[verifier::external_body]
fn string_from_utf8(bytes: Vec<u8>) -> (r: Option<String>)
    ensures
        r matches Some(s) ==> valid_utf8(bytes@) && s@ == decode_utf8(bytes@),
        r is None ==> !valid_utf8(bytes@),
{
    String::from_utf8(bytes).ok()
}

impl Episode {
    /// Serializes the record into its stable binary layout.
    pub fn serialize(&self) -> (r: Vec<u8>)
        ensures
            r@ == spec_serialize(*self),
    {
        let mut out = u64_to_le_bytes(self.duration.millis);
        let url_bytes = self.stream_url.as_str().as_bytes_vec();
        let mut len_bytes = u64_to_le_bytes(url_bytes.len() as u64);
        out.append(&mut len_bytes);
        let mut url_bytes = url_bytes;
        out.append(&mut url_bytes);
        proof {
            assert(out@ =~= spec_serialize(*self));
        }
        out
    }

    /// Decodes stored bytes back into a record; `None` signals a corrupt
    /// or foreign value.
    pub fn deserialize(bytes: &[u8]) -> (r: Option<Episode>)
        ensures
            match r {
                Some(ep) => spec_deserialize(bytes@) == Some(
                    (ep.stream_url@, ep.duration.millis),
                ),
                None => spec_deserialize(bytes@) is None,
            },
    {
        let len = bytes.len();
        if len < 16 {
            return None;
        }
        let millis = u64_from_le_bytes(slice_subrange(bytes, 0, 8));
        let n = u64_from_le_bytes(slice_subrange(bytes, 8, 16));
        if n != (len - 16) as u64 {
            return None;
        }
        let rest = slice_subrange(bytes, 16, len);
        let url_vec = slice_to_vec(rest);
        match string_from_utf8(url_vec) {
            Some(s) => Some(Episode { stream_url: s, duration: Duration::from_millis(millis) }),
            None => None,
        }
    }
}

/// Law: the codec round-trips — deserializing a serialized record yields
/// exactly the record's URL characters and millisecond count.
pub proof fn lemma_round_trip(ep: Episode)
    requires
        encode_utf8(ep.stream_url@).len() <= u64::MAX,
    ensures
        spec_deserialize(spec_serialize(ep)) == Some((ep.stream_url@, ep.duration.millis)),
{
    let url = ep.stream_url@;
    let millis = ep.duration.millis;
    let ub = encode_utf8(url);
    let b = spec_serialize(ep);
    lemma_auto_spec_u64_to_from_le_bytes();
    assert(b.subrange(0, 8) =~= spec_u64_to_le_bytes(millis));
    assert(b.subrange(8, 16) =~= spec_u64_to_le_bytes(ub.len() as u64));
    assert(b.subrange(16, b.len() as int) =~= ub);
    encode_utf8_valid_utf8(url);
    encode_utf8_decode_utf8(url);
}

} // verus!
