//! The last stretch of audio, kept until it is known whether it is needed.
use std::collections::VecDeque;
use vstd::prelude::*;

verus! {

/// Fixed-capacity FIFO ring buffer for PCM samples. Pushing past the capacity
/// evicts the oldest sample.
#[derive(Debug)]
pub struct PcmRingBuffer {
    storage: VecDeque<i16>,
    capacity: usize,
}

/// The last `n` elements, or all of them if there are fewer.
pub open spec fn last_n(s: Seq<i16>, n: nat) -> Seq<i16> {
    if s.len() <= n {
        s
    } else {
        s.skip(s.len() - n)
    }
}

impl PcmRingBuffer {
    /// The samples, from the oldest to the newest.
    pub closed spec fn view(self) -> Seq<i16> {
        self.storage@
    }

    pub closed spec fn capacity(self) -> nat {
        self.capacity as nat
    }

    /// No more samples than the capacity are held.
    pub open spec fn wf(self) -> bool {
        self@.len() <= self.capacity()
    }

    /// An empty buffer.
    pub fn new(capacity: usize) -> (r: Self)
        ensures
            r.wf(),
            r@ == Seq::<i16>::empty(),
            r.capacity() == capacity,
    {
        PcmRingBuffer { storage: VecDeque::new(), capacity }
    }

    /// Adds samples and keeps the newest.
    pub fn push(&mut self, samples: &[i16])
        requires
            old(self).wf(),
        ensures
            final(self).wf(),
            final(self).capacity() == old(self).capacity(),
            final(self)@ == last_n(old(self)@ + samples@, old(self).capacity()),
    {
        let ghost given = self.storage@;
        proof {
            assert(given + samples@.take(0) =~= given);
        }
        for i in 0..samples.len()
            invariant
                self.wf(),
                self.capacity == old(self).capacity,
                given == old(self).storage@,
                self.storage@ == last_n(given + samples@.take(i as int), self.capacity as nat),
        {
            let ghost so_far = given + samples@.take(i as int);
            proof {
                assert(given + samples@.take(i + 1) =~= so_far.push(samples@[i as int]));
            }
            if self.capacity > 0 {
                if self.storage.len() == self.capacity {
                    let _ = self.storage.pop_front();
                }
                self.storage.push_back(samples[i]);
            }
            proof {
                assert(self.storage@ =~= last_n(
                    so_far.push(samples@[i as int]),
                    self.capacity as nat,
                ));
            }
        }
        proof {
            assert(samples@.take(samples@.len() as int) =~= samples@);
        }
    }

    /// All samples that are held, from the oldest to the newest.
    pub fn drain(&self) -> (r: Vec<i16>)
        ensures
            r@ == self@,
    {
        let mut r: Vec<i16> = Vec::new();
        for i in 0..self.storage.len()
            invariant
                r@ == self.storage@.take(i as int),
        {
            r.push(self.storage[i]);
        }
        proof {
            assert(self.storage@.take(self.storage@.len() as int) =~= self.storage@);
        }
        r
    }
}

/// How the audio is cut into pieces makes no difference: what is kept is the end
/// of all of it.
pub proof fn law_last_in_pieces(s: Seq<i16>, a: Seq<i16>, b: Seq<i16>, n: nat)
    ensures
        last_n(last_n(s + a, n) + b, n) == last_n(s + (a + b), n),
{
    assert(s + (a + b) =~= (s + a) + b);
    assert(last_n(last_n(s + a, n) + b, n) =~= last_n((s + a) + b, n));
}

/// What is kept is the end of the audio: no more than fits, all of it if it fits, and
/// nothing but its last samples in their order.
pub proof fn law_the_end_is_kept(s: Seq<i16>, n: nat)
    ensures
        last_n(s, n).len() == (if s.len() <= n {
            s.len()
        } else {
            n
        }),
        forall|i: int|
            0 <= i < last_n(s, n).len() ==> #[trigger] last_n(s, n)[i] == s[s.len() - last_n(
                s,
                n,
            ).len() + i],
{
}

} // verus!
