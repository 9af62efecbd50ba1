//! PCM samples as bytes, and the buffer that an Opus decoder writes to.
use vstd::prelude::*;

verus! {

/// The two bytes of a sample, least significant first.
pub open spec fn sample_bytes(v: i16) -> Seq<u8> {
    let u = if v >= 0 {
        v as int
    } else {
        v + 0x1_0000
    };
    seq![(u % 0x100) as u8, (u / 0x100) as u8]
}

/// The bytes of some samples, one sample after the other.
pub open spec fn pcm_bytes(samples: Seq<i16>) -> Seq<u8>
    decreases samples.len(),
{
    if samples.len() == 0 {
        seq![]
    } else {
        pcm_bytes(samples.drop_last()) + sample_bytes(samples.last())
    }
}

/// The sample that two bytes write, least significant first.
pub open spec fn sample_of(low: u8, high: u8) -> int {
    let u = high as int * 0x100 + low as int;
    if u < 0x8000 {
        u
    } else {
        u - 0x1_0000
    }
}

/// PCM samples as S16LE bytes.
pub fn pcm_i16_to_le_bytes(samples: &[i16]) -> (out: Vec<u8>)
    ensures
        out@ == pcm_bytes(samples@),
{
    let mut out: Vec<u8> = Vec::new();
    proof {
        assert(samples@.take(0) =~= seq![]);
        assert(out@ =~= pcm_bytes(samples@.take(0)));
    }
    for i in 0..samples.len()
        invariant
            out@ == pcm_bytes(samples@.take(i as int)),
    {
        let ghost before = out@;
        let v: i16 = samples[i];
        let u: u16 = if v >= 0 {
            v as u16
        } else {
            (v as i32 + 0x1_0000) as u16
        };
        out.push((u % 0x100) as u8);
        out.push((u / 0x100) as u8);
        proof {
            assert(samples@.take(i + 1).drop_last() =~= samples@.take(i as int));
            assert(out@ =~= before + sample_bytes(v));
        }
    }
    proof {
        assert(samples@.take(samples@.len() as int) =~= samples@);
    }
    out
}

/// The bytes of every sample read back as that sample, and there are no others.
pub proof fn law_pcm_bytes(samples: Seq<i16>)
    ensures
        pcm_bytes(samples).len() == 2 * samples.len(),
        forall|i: int|
            #![trigger samples[i]]
            0 <= i < samples.len() ==> sample_of(
                pcm_bytes(samples)[2 * i],
                pcm_bytes(samples)[2 * i + 1],
            ) == samples[i],
    decreases samples.len(),
{
    if samples.len() > 0 {
        let rest = samples.drop_last();
        law_pcm_bytes(rest);
        assert forall|i: int|
            #![trigger samples[i]]
            0 <= i < samples.len() implies sample_of(
            pcm_bytes(samples)[2 * i],
            pcm_bytes(samples)[2 * i + 1],
        ) == samples[i] by {
            if i < rest.len() {
                assert(samples[i] == rest[i]);
                assert(pcm_bytes(samples)[2 * i] == pcm_bytes(rest)[2 * i]);
                assert(pcm_bytes(samples)[2 * i + 1] == pcm_bytes(rest)[2 * i + 1]);
            }
        }
    }
}

/// How many samples the longest Opus packet, 120 ms, can decode to; never under
/// the 1920 samples that it takes at 16 kHz.
pub fn scratch_len(sample_rate: u32) -> (r: usize)
    ensures
        r == (if sample_rate as int * 120 / 1000 < 1920 {
            1920
        } else {
            sample_rate as int * 120 / 1000
        }),
{
    let needed: u64 = sample_rate as u64 * 120 / 1000;
    if needed < 1920 {
        1920
    } else {
        needed as usize
    }
}

/// The samples that a decoder wrote to the front of its buffer.
pub fn decoded_samples(scratch: &Vec<i16>, samples: usize) -> (r: Vec<i16>)
    requires
        samples <= scratch@.len(),
    ensures
        r@ == scratch@.take(samples as int),
{
    let r = vstd::slice::slice_to_vec(
        vstd::slice::slice_subrange(scratch.as_slice(), 0, samples),
    );
    proof {
        assert(r@ =~= scratch@.take(samples as int));
    }
    r
}

/// A sample is written as its two's-complement number, least significant byte first.
pub proof fn law_sample_order(samples: Seq<i16>, i: int)
    requires
        0 <= i < samples.len(),
    ensures
        ({
            let low = pcm_bytes(samples)[2 * i] as int;
            let high = pcm_bytes(samples)[2 * i + 1] as int;
            low + 256 * high == (if samples[i] >= 0 {
                samples[i] as int
            } else {
                samples[i] + 65536
            })
        }),
{
    law_pcm_bytes(samples);
    assert(sample_of(pcm_bytes(samples)[2 * i], pcm_bytes(samples)[2 * i + 1]) == samples[i]);
}

} // verus!
