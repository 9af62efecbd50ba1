//! How long an Opus packet plays.
use crate::time::duration_nanos;
use std::time::Duration;
use vstd::prelude::*;

verus! {

/// Twice the length of one frame in milliseconds, by the configuration number of
/// the TOC byte (RFC 6716, section 3.1).
pub open spec fn frame_ms_x2(config: int) -> int {
    if config < 12 {
        // SILK-only: 10, 20, 40, 60 ms.
        seq![20int, 40, 80, 120][config % 4]
    } else if config < 16 {
        // Hybrid: 10, 20 ms.
        seq![20int, 40][config % 2]
    } else {
        // CELT-only: 2.5, 5, 10, 20 ms.
        seq![5int, 10, 20, 40][config % 4]
    }
}

/// The number of frames in a packet. Code 3 counts them in the low six bits of
/// the second byte.
pub open spec fn frame_count(packet: Seq<u8>) -> Option<int> {
    let code = packet[0] as int % 4;
    if code == 0 {
        Some(1)
    } else if code < 3 {
        Some(2)
    } else if packet.len() < 2 {
        None
    } else {
        Some(packet[1] as int % 64)
    }
}

/// The playing time in microseconds.
pub open spec fn packet_micros(packet: Seq<u8>) -> Option<int> {
    if packet.len() == 0 {
        None
    } else {
        match frame_count(packet) {
            Some(count) => if count == 0 {
                None
            } else {
                Some(frame_ms_x2(packet[0] as int / 8) * count * 500)
            },
            None => None,
        }
    }
}

/// Returns the playback duration encoded in an Opus packet's TOC byte.
///
/// Based on RFC 6716 section 3.1. The duration is independent of the output
/// sample rate; Opus frame sizes are defined in milliseconds.
pub fn packet_duration(packet: &[u8]) -> (r: Option<Duration>)
    ensures
        match r {
            Some(d) => packet_micros(packet@) is Some && duration_nanos(d) == packet_micros(
                packet@,
            )->0 * 1_000,
            None => packet_micros(packet@) is None,
        },
{
    if packet.len() == 0 {
        return None;
    }
    let toc: u8 = packet[0];
    let config: u8 = toc >> 3;
    let code: u8 = toc & 0b11;
    proof {
        assert(toc >> 3 == toc / 8) by (bit_vector);
        assert(toc & 0b11 == toc % 4) by (bit_vector);
    }
    let frame: u32 = match frame_duration_ms_x2(config) {
        Some(frame) => frame,
        None => return None,
    };
    let count: u32 = if code == 0 {
        1
    } else if code < 3 {
        2
    } else {
        if packet.len() < 2 {
            return None;
        }
        let second: u8 = packet[1];
        proof {
            assert(second & 0b0011_1111 == second % 64) by (bit_vector);
        }
        (second & 0b0011_1111) as u32
    };
    if count == 0 {
        return None;
    }
    proof {
        assert(0 <= frame * count <= 120 * 63) by (nonlinear_arith)
            requires
                0 <= frame <= 120,
                0 <= count <= 63,
        ;
    }
    let total: u64 = (frame * count) as u64;
    Some(Duration::from_micros(total * 500))
}

/// Twice the length of one frame in milliseconds.
fn frame_duration_ms_x2(config: u8) -> (r: Option<u32>)
    ensures
        match r {
            Some(n) => config < 32 && n == frame_ms_x2(config as int) && n <= 120,
            None => config >= 32,
        },
{
    if config < 12 {
        match config % 4 {
            0 => Some(20),
            1 => Some(40),
            2 => Some(80),
            _ => Some(120),
        }
    } else if config < 16 {
        match config % 2 {
            0 => Some(20),
            _ => Some(40),
        }
    } else if config < 32 {
        match config % 4 {
            0 => Some(5),
            1 => Some(10),
            2 => Some(20),
            _ => Some(40),
        }
    } else {
        None
    }
}

/// No packet plays longer than 63 frames of 60 ms, nor shorter than 2.5 ms.
pub proof fn law_duration_bounds(packet: Seq<u8>)
    requires
        packet_micros(packet) is Some,
    ensures
        2_500 <= packet_micros(packet)->0 <= 63 * 60_000,
{
    let frame = frame_ms_x2(packet[0] as int / 8);
    let count = frame_count(packet)->0;
    assert(2_500 <= frame * count * 500 <= 63 * 60_000) by (nonlinear_arith)
        requires
            5 <= frame <= 120,
            1 <= count <= 63,
    ;
}

/// The length of a frame in microseconds, by the five high bits of the first byte, and
/// the number of frames, by its two low bits: 0 is one frame, 1 and 2 are two, and 3 asks
/// for a second byte whose six low bits count them.
pub proof fn law_packet_durations(config: u8, code: u8, stereo: u8, rest: Seq<u8>)
    requires
        config < 32,
        code < 4,
        stereo < 2,
    ensures
        ({
            let packet = seq![(config * 8 + stereo * 4 + code) as u8] + rest;
            let frame = if config < 12 {
                if config % 4 == 0 {
                    10_000int
                } else if config % 4 == 1 {
                    20_000
                } else if config % 4 == 2 {
                    40_000
                } else {
                    60_000
                }
            } else if config < 16 {
                if config % 2 == 0 {
                    10_000
                } else {
                    20_000
                }
            } else if config % 4 == 0 {
                2_500
            } else if config % 4 == 1 {
                5_000
            } else if config % 4 == 2 {
                10_000
            } else {
                20_000
            };
            &&& code == 0 ==> packet_micros(packet) == Some(frame)
            &&& code == 1 || code == 2 ==> packet_micros(packet) == Some(2 * frame)
            &&& code == 3 && (rest.len() == 0 || rest[0] % 64 == 0) ==> packet_micros(packet)
                is None
            &&& code == 3 && rest.len() > 0 && rest[0] % 64 > 0 ==> packet_micros(packet) == Some(
                frame * (rest[0] % 64),
            )
        }),
        packet_micros(Seq::<u8>::empty()) is None,
{
    let packet = seq![(config * 8 + stereo * 4 + code) as u8] + rest;
    assert(packet[0] as int / 8 == config && packet[0] as int % 4 == code);
    if rest.len() > 0 {
        assert(packet[1] == rest[0]);
        let x = frame_ms_x2(config as int);
        let n = rest[0] as int % 64;
        assert(x * n * 500 == (x * 500) * n) by (nonlinear_arith);
    }
}

} // verus!
