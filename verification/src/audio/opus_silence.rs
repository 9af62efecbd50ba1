//! A packet of silence.
use crate::buf::{bytes_content, bytes_from_vec};
use bytes::Bytes;
use vstd::prelude::*;

verus! {

/// The bytes of the packet: a valid Opus packet of one 20 ms frame.
pub open spec fn silence_bytes() -> Seq<u8> {
    seq![0xF8u8, 0xFFu8, 0xFEu8]
}

/// A compact valid Opus packet commonly used to represent silence or comfort
/// noise.
pub fn packet() -> (r: Bytes)
    ensures
        bytes_content(r) == silence_bytes(),
{
    let bytes: Vec<u8> = vec![0xF8u8, 0xFFu8, 0xFEu8];
    proof {
        assert(bytes@ =~= silence_bytes());
    }
    bytes_from_vec(bytes)
}

/// The packet of silence plays for 20 ms.
pub proof fn law_silence_duration()
    ensures
        crate::audio::opus_duration::packet_micros(silence_bytes()) == Some(20_000int),
{
}

/// The packet of silence is these three bytes.
pub proof fn law_silence()
    ensures
        silence_bytes() == seq![248u8, 255u8, 254u8],
{
}

} // verus!
