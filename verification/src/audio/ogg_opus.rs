//! Taking Opus packets out of an Ogg stream that arrives in pieces.
use crate::buf::{bytes_content, bytes_from_vec, copy_range, extend};
use bytes::Bytes;
use vstd::prelude::*;

verus! {

/// A page of the stream could not be read.
#[derive(Debug, Clone, Copy, PartialEq, Eq, Structural)]
pub struct OggError;

/// Incrementally demuxes Ogg Opus pages into raw Opus packets.
///
/// Each packet that comes out can be decoded on its own. The packets `OpusHead`
/// and `OpusTags` are skipped, and so is everything before both were seen.
#[derive(Debug)]
pub struct OggOpusPacketizer {
    buffer: Vec<u8>,
    pending_packet: Vec<u8>,
    head_seen: bool,
    tags_seen: bool,
}

/// What a demuxer holds between two pieces of the stream.
pub struct Demux {
    /// Bytes that do not make a page yet.
    pub buffer: Seq<u8>,
    /// The start of a packet that goes on in the next page.
    pub pending: Seq<u8>,
    pub head_seen: bool,
    pub tags_seen: bool,
}

/// The bytes `OggS`, which start a page.
pub open spec fn page_magic() -> Seq<u8> {
    seq![0x4fu8, 0x67u8, 0x67u8, 0x53u8]
}

/// The bytes `OpusHead`.
pub open spec fn head_magic() -> Seq<u8> {
    seq![0x4fu8, 0x70u8, 0x75u8, 0x73u8, 0x48u8, 0x65u8, 0x61u8, 0x64u8]
}

/// The bytes `OpusTags`.
pub open spec fn tags_magic() -> Seq<u8> {
    seq![0x4fu8, 0x70u8, 0x75u8, 0x73u8, 0x54u8, 0x61u8, 0x67u8, 0x73u8]
}

/// `OggS` stands at `i`.
pub open spec fn magic_at(b: Seq<u8>, i: int) -> bool {
    0 <= i && i + 4 <= b.len() && b.subrange(i, i + 4) == page_magic()
}

/// Where a page could start: the first `OggS` at or after `i`, or else the last
/// three bytes, which a later piece may complete.
pub open spec fn sync_from(b: Seq<u8>, i: int) -> int
    decreases b.len() - i,
{
    if i < 0 || i + 4 > b.len() {
        if b.len() < 3 {
            0
        } else {
            b.len() - 3
        }
    } else if magic_at(b, i) {
        i
    } else {
        sync_from(b, i + 1)
    }
}

/// The buffer from the place where a page could start.
pub open spec fn resynced(b: Seq<u8>) -> Seq<u8> {
    if b.len() < 4 {
        b
    } else {
        b.skip(sync_from(b, 0))
    }
}

/// The sum of some segment lengths.
pub open spec fn lace_sum(laces: Seq<u8>) -> nat
    decreases laces.len(),
{
    if laces.len() == 0 {
        0
    } else {
        lace_sum(laces.drop_last()) + laces.last() as nat
    }
}

/// The segment table of the page at the front of `b`.
pub open spec fn page_laces(b: Seq<u8>) -> Seq<u8> {
    b.subrange(27, 27 + b[26] as int)
}

/// The length of the page at the front of `b`, if all of it is there.
pub open spec fn page_len(b: Seq<u8>) -> Option<int> {
    if b.len() < 27 || b.len() < 27 + b[26] as int {
        None
    } else {
        let n = 27 + b[26] as int + lace_sum(page_laces(b));
        if b.len() < n {
            None
        } else {
            Some(n)
        }
    }
}

/// What becomes of one complete packet.
pub open spec fn accept(s: Demux, packet: Seq<u8>) -> (Demux, Seq<Seq<u8>>) {
    if packet.len() == 0 {
        (s, seq![])
    } else if head_magic().is_prefix_of(packet) {
        (Demux { head_seen: true, ..s }, seq![])
    } else if tags_magic().is_prefix_of(packet) {
        (Demux { tags_seen: true, ..s }, seq![])
    } else if s.head_seen && s.tags_seen {
        (s, seq![packet])
    } else {
        (s, seq![])
    }
}

/// Cuts a page's payload at its segments. A segment shorter than 255 bytes ends
/// a packet.
pub open spec fn laced(s: Demux, laces: Seq<u8>, payload: Seq<u8>) -> (Demux, Seq<Seq<u8>>)
    decreases laces.len(),
{
    if laces.len() == 0 {
        (s, seq![])
    } else {
        let n = laces[0] as int;
        let packet = s.pending + payload.take(n);
        if n < 255 {
            let (next, out) = accept(Demux { pending: seq![], ..s }, packet);
            let (end, rest) = laced(next, laces.skip(1), payload.skip(n));
            (end, out + rest)
        } else {
            laced(Demux { pending: packet, ..s }, laces.skip(1), payload.skip(n))
        }
    }
}

/// Takes the page of length `n` off the front of `b`.
pub open spec fn page_taken(s: Demux, b: Seq<u8>, n: int) -> (Demux, Seq<Seq<u8>>) {
    laced(
        Demux { buffer: b.skip(n), ..s },
        page_laces(b),
        b.subrange(27 + b[26] as int, n),
    )
}

/// Cutting a page leaves the buffer alone.
pub proof fn lemma_laced_buffer(s: Demux, laces: Seq<u8>, payload: Seq<u8>)
    ensures
        laced(s, laces, payload).0.buffer == s.buffer,
    decreases laces.len(),
{
    if laces.len() > 0 {
        let n = laces[0] as int;
        let packet = s.pending + payload.take(n);
        if n < 255 {
            let (next, out) = accept(Demux { pending: seq![], ..s }, packet);
            lemma_laced_buffer(next, laces.skip(1), payload.skip(n));
        } else {
            lemma_laced_buffer(
                Demux { pending: packet, ..s },
                laces.skip(1),
                payload.skip(n),
            );
        }
    }
}

/// What is known of the place where a page could start.
pub proof fn lemma_sync_from(b: Seq<u8>, i: int)
    requires
        0 <= i,
        b.len() >= 4,
        i + 3 <= b.len(),
    ensures
        i <= sync_from(b, i) <= b.len() - 3,
        forall|j: int| i <= j < sync_from(b, i) ==> !magic_at(b, j),
        sync_from(b, i) < b.len() - 3 ==> magic_at(b, sync_from(b, i)),
    decreases b.len() - i,
{
    if i + 4 <= b.len() && !magic_at(b, i) {
        lemma_sync_from(b, i + 1);
    }
}

/// A place that meets the description is the place.
proof fn lemma_sync_unique(b: Seq<u8>, i: int, p: int)
    requires
        0 <= i <= p <= b.len() - 3,
        b.len() >= 4,
        forall|j: int| i <= j < p ==> !magic_at(b, j),
        p < b.len() - 3 ==> magic_at(b, p),
    ensures
        sync_from(b, i) == p,
    decreases p - i,
{
    if i < p {
        assert(!magic_at(b, i));
        lemma_sync_unique(b, i + 1, p);
    }
}

/// Takes every page that is complete.
pub open spec fn drained(s: Demux) -> (Demux, Seq<Seq<u8>>)
    decreases s.buffer.len(),
{
    let b = resynced(s.buffer);
    match page_len(b) {
        None => (Demux { buffer: b, ..s }, seq![]),
        Some(n) => {
            let (next, out) = page_taken(s, b, n);
            proof {
                if s.buffer.len() >= 4 {
                    lemma_sync_from(s.buffer, 0);
                }
                lemma_laced_buffer(
                    Demux { buffer: b.skip(n), ..s },
                    page_laces(b),
                    b.subrange(27 + b[26] as int, n),
                );
            }
            let (end, rest) = drained(next);
            (end, out + rest)
        },
    }
}

/// What one more piece of the stream does.
pub open spec fn pushed(s: Demux, data: Seq<u8>) -> (Demux, Seq<Seq<u8>>) {
    drained(Demux { buffer: s.buffer + data, ..s })
}

/// The packets that came out.
pub open spec fn packet_bytes(packets: Seq<Bytes>) -> Seq<Seq<u8>> {
    Seq::new(packets.len(), |i: int| bytes_content(packets[i]))
}

/// Whether `data` starts with `prefix`.
fn starts_with(data: &[u8], prefix: &[u8]) -> (r: bool)
    ensures
        r == prefix@.is_prefix_of(data@),
{
    if data.len() < prefix.len() {
        return false;
    }
    for i in 0..prefix.len()
        invariant
            prefix@.len() <= data@.len(),
            forall|j: int| 0 <= j < i ==> prefix@[j] == data@[j],
    {
        if data[i] != prefix[i] {
            proof {
                assert(data@.subrange(0, prefix@.len() as int)[i as int] != prefix@[i as int]);
            }
            return false;
        }
    }
    proof {
        assert(prefix@ =~= data@.subrange(0, prefix@.len() as int));
    }
    true
}

impl OggOpusPacketizer {
    /// The state of the demuxer.
    pub closed spec fn view(self) -> Demux {
        Demux {
            buffer: self.buffer@,
            pending: self.pending_packet@,
            head_seen: self.head_seen,
            tags_seen: self.tags_seen,
        }
    }

    /// A demuxer that has seen nothing.
    pub fn new() -> (r: Self)
        ensures
            r@ == (Demux { buffer: seq![], pending: seq![], head_seen: false, tags_seen: false }),
    {
        let r = OggOpusPacketizer {
            buffer: Vec::new(),
            pending_packet: Vec::new(),
            head_seen: false,
            tags_seen: false,
        };
        proof {
            assert(r@.buffer =~= seq![]);
            assert(r@.pending =~= seq![]);
        }
        r
    }

    /// Takes the next piece of the stream and gives the packets that it completes.
    pub fn push(&mut self, data: &[u8]) -> (r: Result<Vec<Bytes>, OggError>)
        ensures
            match r {
                Ok(packets) => (final(self)@, packet_bytes(packets@)) == pushed(old(self)@, data@),
                Err(_) => false,
            },
    {
        extend(&mut self.buffer, data);
        let mut packets: Vec<Bytes> = Vec::new();
        let ghost start = self@;
        proof {
            assert(packet_bytes(packets@) =~= seq![]);
            assert(packet_bytes(packets@) + drained(self@).1 =~= drained(self@).1);
        }
        loop
            invariant_except_break
                drained(start) == (
                    drained(self@).0,
                    packet_bytes(packets@) + drained(self@).1,
                ),
            invariant
                start == (Demux { buffer: old(self)@.buffer + data@, ..old(self)@ }),
            ensures
                drained(start) == (self@, packet_bytes(packets@)),
            decreases self@.buffer.len(),
        {
            let ghost before = self@;
            self.resync();
            let ghost b = self@.buffer;
            let ghost done = packet_bytes(packets@);
            proof {
                assert(done + Seq::<Seq<u8>>::empty() =~= done);
            }
            let len: usize = self.buffer.len();
            if len < 27 {
                break;
            }
            let segment_count: usize = self.buffer[26] as usize;
            if len < 27 + segment_count {
                break;
            }
            let laces = copy_range(self.buffer.as_slice(), 27, 27 + segment_count);
            let payload_len: usize = sum_laces(&laces);
            let page_end: usize = 27 + segment_count + payload_len;
            if len < page_end {
                break;
            }
            let payload = copy_range(self.buffer.as_slice(), 27 + segment_count, page_end);
            self.buffer = copy_range(self.buffer.as_slice(), page_end, len);
            proof {
                assert(page_len(b) == Some(page_end as int));
                assert(self@.buffer =~= b.skip(page_end as int));
                assert(laces@ =~= page_laces(b));
                assert(payload@ == b.subrange(27 + b[26] as int, page_end as int));
                if before.buffer.len() >= 4 {
                    lemma_sync_from(before.buffer, 0);
                }
                lemma_laced_buffer(self@, laces@, payload@);
            }
            let ghost cut = laced(self@, laces@, payload@);
            self.unlace(&laces, &payload, &mut packets);
            proof {
                assert(packet_bytes(packets@) == done + cut.1);
                assert((done + cut.1) + drained(self@).1 =~= done + (cut.1 + drained(self@).1));
            }
        }
        Ok(packets)
    }

    /// Cuts a page's payload at its segments.
    fn unlace(&mut self, laces: &Vec<u8>, payload: &Vec<u8>, packets: &mut Vec<Bytes>)
        requires
            lace_sum(laces@) == payload@.len(),
        ensures
            final(self)@ == laced(old(self)@, laces@, payload@).0,
            packet_bytes(final(packets)@) == packet_bytes(old(packets)@) + laced(
                old(self)@,
                laces@,
                payload@,
            ).1,
    {
        let total: usize = payload.len();
        let mut offset: usize = 0;
        let ghost whole = laced(self@, laces@, payload@);
        let ghost given = packet_bytes(packets@);
        let ghost mut cut: Seq<Seq<u8>> = seq![];
        proof {
            assert(laces@.skip(0) =~= laces@);
            assert(payload@.skip(0) =~= payload@);
            assert(laces@.take(0) =~= seq![]);
            assert(given + cut =~= given);
            assert(cut + whole.1 =~= whole.1);
        }
        for i in 0..laces.len()
            invariant
                lace_sum(laces@) == payload@.len(),
                total == payload@.len(),
                offset == lace_sum(laces@.take(i as int)),
                packet_bytes(packets@) == given + cut,
                whole.0 == laced(self@, laces@.skip(i as int), payload@.skip(offset as int)).0,
                whole.1 == cut + laced(
                    self@,
                    laces@.skip(i as int),
                    payload@.skip(offset as int),
                ).1,
        {
            let lace: u8 = laces[i];
            let len: usize = lace as usize;
            let ghost s = self@;
            let ghost rest_laces = laces@.skip(i as int);
            let ghost rest = payload@.skip(offset as int);
            proof {
                assert(laces@.take(i + 1).drop_last() =~= laces@.take(i as int));
                lemma_lace_sum_take(laces@, i + 1);
                assert(rest_laces[0] == lace);
                assert(rest_laces.skip(1) =~= laces@.skip(i + 1));
                assert(rest.skip(len as int) =~= payload@.skip(offset + len));
                assert(rest.take(len as int) =~= payload@.subrange(
                    offset as int,
                    offset + len,
                ));
            }
            extend(
                &mut self.pending_packet,
                vstd::slice::slice_subrange(payload.as_slice(), offset, offset + len),
            );
            offset = offset + len;
            if lace < 255 {
                let mut completed: Vec<u8> = Vec::new();
                std::mem::swap(&mut completed, &mut self.pending_packet);
                proof {
                    assert(self@.pending =~= seq![]);
                    assert(completed@ == s.pending + rest.take(len as int));
                }
                let ghost empty = self@;
                self.accept_packet(completed, packets);
                proof {
                    let (next, out) = accept(empty, completed@);
                    let tail = laced(next, rest_laces.skip(1), rest.skip(len as int));
                    assert((given + cut) + out =~= given + (cut + out));
                    assert(cut + (out + tail.1) =~= (cut + out) + tail.1);
                    cut = cut + out;
                }
            }
        }
        proof {
            assert(laces@.skip(laces@.len() as int) =~= seq![]);
            assert(cut + Seq::<Seq<u8>>::empty() =~= cut);
        }
    }

    /// Drops what stands before the place where a page could start.
    fn resync(&mut self)
        ensures
            final(self)@ == (Demux { buffer: resynced(old(self)@.buffer), ..old(self)@ }),
    {
        let len: usize = self.buffer.len();
        if len < 4 {
            return ;
        }
        let mut i: usize = 0;
        while i <= len - 4 && !(self.buffer[i] == 0x4f && self.buffer[i + 1] == 0x67
            && self.buffer[i + 2] == 0x67 && self.buffer[i + 3] == 0x53)
            invariant
                self@ == old(self)@,
                len == self.buffer@.len(),
                4 <= len,
                i + 3 <= len,
                forall|j: int| 0 <= j < i ==> !magic_at(self.buffer@, j),
            decreases len - i,
        {
            proof {
                assert(self.buffer@.subrange(i as int, i + 4)[0] == self.buffer@[i as int]);
                assert(self.buffer@.subrange(i as int, i + 4)[1] == self.buffer@[i + 1]);
                assert(self.buffer@.subrange(i as int, i + 4)[2] == self.buffer@[i + 2]);
                assert(self.buffer@.subrange(i as int, i + 4)[3] == self.buffer@[i + 3]);
            }
            i = i + 1;
        }
        proof {
            if i + 4 <= len {
                assert(self.buffer@.subrange(i as int, i + 4) =~= page_magic());
            }
            lemma_sync_unique(self.buffer@, 0, i as int);
        }
        self.buffer = copy_range(self.buffer.as_slice(), i, len);
        proof {
            assert(self.buffer@ =~= resynced(old(self)@.buffer));
        }
    }

    /// Keeps, skips or drops one complete packet.
    fn accept_packet(&mut self, packet: Vec<u8>, out: &mut Vec<Bytes>)
        ensures
            final(self)@ == accept(old(self)@, packet@).0,
            packet_bytes(final(out)@) == packet_bytes(old(out)@) + accept(old(self)@, packet@).1,
    {
        proof {
            assert(packet_bytes(out@) + Seq::<Seq<u8>>::empty() =~= packet_bytes(out@));
        }
        if packet.len() == 0 {
            return ;
        }
        let head: [u8; 8] = [0x4f, 0x70, 0x75, 0x73, 0x48, 0x65, 0x61, 0x64];
        let tags: [u8; 8] = [0x4f, 0x70, 0x75, 0x73, 0x54, 0x61, 0x67, 0x73];
        proof {
            assert(head@ =~= head_magic());
            assert(tags@ =~= tags_magic());
        }
        if starts_with(packet.as_slice(), head.as_slice()) {
            self.head_seen = true;
            return ;
        }
        if starts_with(packet.as_slice(), tags.as_slice()) {
            self.tags_seen = true;
            return ;
        }
        if self.head_seen && self.tags_seen {
            let ghost before = out@;
            let ghost bytes = packet@;
            out.push(bytes_from_vec(packet));
            proof {
                assert(packet_bytes(out@) =~= packet_bytes(before) + seq![bytes]);
            }
        }
    }
}

impl Default for OggOpusPacketizer {
    fn default() -> (r: Self)
        ensures
            r@ == (Demux { buffer: seq![], pending: seq![], head_seen: false, tags_seen: false }),
    {
        OggOpusPacketizer::new()
    }
}

/// The sum of the segment lengths.
fn sum_laces(laces: &Vec<u8>) -> (r: usize)
    requires
        laces@.len() <= 255,
    ensures
        r == lace_sum(laces@),
        r <= 255 * 255,
{
    let mut sum: usize = 0;
    for i in 0..laces.len()
        invariant
            laces@.len() <= 255,
            sum == lace_sum(laces@.take(i as int)),
            sum <= 255 * i,
    {
        proof {
            assert(laces@.take(i + 1).drop_last() =~= laces@.take(i as int));
        }
        sum = sum + laces[i] as usize;
    }
    proof {
        assert(laces@.take(laces@.len() as int) =~= laces@);
    }
    sum
}

/// The segments up to one of them are no longer than all of them.
proof fn lemma_lace_sum_take(laces: Seq<u8>, n: int)
    requires
        0 <= n <= laces.len(),
    ensures
        lace_sum(laces.take(n)) <= lace_sum(laces),
    decreases laces.len() - n,
{
    if n < laces.len() {
        assert(laces.take(n + 1).drop_last() =~= laces.take(n));
        lemma_lace_sum_take(laces, n + 1);
    } else {
        assert(laces.take(n) =~= laces);
    }
}

/// Looking for a page start early or late makes no difference.
proof fn lemma_resync_append(x: Seq<u8>, c: Seq<u8>)
    ensures
        resynced(resynced(x) + c) == resynced(x + c),
        page_len(resynced(x)) is Some ==> resynced(x + c) == resynced(x) + c,
{
    if x.len() >= 4 {
        let p = sync_from(x, 0);
        let b = x.skip(p);
        let all = x + c;
        lemma_sync_from(x, 0);
        assert(b + c =~= all.skip(p));
        assert forall|j: int| 0 <= j < p implies !magic_at(all, j) by {
            assert(all.subrange(j, j + 4) =~= x.subrange(j, j + 4));
            assert(!magic_at(x, j));
        }
        let q = sync_from(all, 0);
        lemma_sync_from(all, 0);
        assert(q >= p) by {
            if q < p {
                assert(!magic_at(all, q));
            }
        }
        if b.len() + c.len() >= 4 {
            assert forall|j: int| 0 <= j < q - p implies !magic_at(b + c, j) by {
                assert((b + c).subrange(j, j + 4) =~= all.subrange(p + j, p + j + 4));
                assert(!magic_at(all, p + j));
            }
            if q < all.len() - 3 {
                assert((b + c).subrange(q - p, q - p + 4) =~= all.subrange(q, q + 4));
            }
            lemma_sync_unique(b + c, 0, q - p);
            assert((b + c).skip(q - p) =~= all.skip(q));
        } else {
            assert(c =~= seq![]);
            assert(all =~= x);
        }
        if b.len() >= 27 {
            assert(all.subrange(p, p + 4) =~= x.subrange(p, p + 4));
            assert(magic_at(all, p));
            lemma_sync_unique(all, 0, p);
        }
    }
}

/// A page that is complete stays the same page when more bytes follow.
proof fn lemma_page_append(s: Demux, b: Seq<u8>, c: Seq<u8>)
    requires
        page_len(b) is Some,
    ensures
        page_len(b + c) == page_len(b),
        ({
            let n = page_len(b)->0;
            let (next, out) = page_taken(s, b, n);
            page_taken(s, b + c, n) == (Demux { buffer: next.buffer + c, ..next }, out)
        }),
{
    let n = page_len(b)->0;
    assert(page_laces(b + c) =~= page_laces(b));
    assert((b + c).subrange(27 + b[26] as int, n) =~= b.subrange(27 + b[26] as int, n));
    assert((b + c).skip(n) =~= b.skip(n) + c);
    lemma_laced_any_buffer(
        Demux { buffer: b.skip(n), ..s },
        b.skip(n) + c,
        page_laces(b),
        b.subrange(27 + b[26] as int, n),
    );
    lemma_laced_buffer(
        Demux { buffer: b.skip(n), ..s },
        page_laces(b),
        b.subrange(27 + b[26] as int, n),
    );
}

/// Cutting a page does not look at the buffer.
proof fn lemma_laced_any_buffer(s: Demux, buffer: Seq<u8>, laces: Seq<u8>, payload: Seq<u8>)
    ensures
        laced(Demux { buffer, ..s }, laces, payload) == (
            Demux { buffer, ..laced(s, laces, payload).0 },
            laced(s, laces, payload).1,
        ),
    decreases laces.len(),
{
    if laces.len() > 0 {
        let n = laces[0] as int;
        let packet = s.pending + payload.take(n);
        if n < 255 {
            let (next, out) = accept(Demux { pending: seq![], ..s }, packet);
            lemma_laced_any_buffer(next, buffer, laces.skip(1), payload.skip(n));
        } else {
            lemma_laced_any_buffer(
                Demux { pending: packet, ..s },
                buffer,
                laces.skip(1),
                payload.skip(n),
            );
        }
    }
}

/// How the stream is cut into pieces makes no difference: two pieces give the
/// packets, and leave the state, that the two together give.
pub proof fn law_push_in_pieces(s: Demux, a: Seq<u8>, c: Seq<u8>)
    ensures
        ({
            let (middle, first) = pushed(s, a);
            let (end, second) = pushed(middle, c);
            pushed(s, a + c) == (end, first + second)
        }),
{
    assert(s.buffer + (a + c) =~= (s.buffer + a) + c);
    lemma_drained_append(Demux { buffer: s.buffer + a, ..s }, c);
}

/// Draining before or after more bytes come makes no difference.
proof fn lemma_drained_append(s: Demux, c: Seq<u8>)
    ensures
        ({
            let (middle, first) = drained(s);
            let (end, second) = pushed(middle, c);
            drained(Demux { buffer: s.buffer + c, ..s }) == (end, first + second)
        }),
    decreases s.buffer.len(),
{
    let b = resynced(s.buffer);
    lemma_resync_append(s.buffer, c);
    match page_len(b) {
        None => {
            let second = pushed(drained(s).0, c).1;
            assert(Seq::<Seq<u8>>::empty() + second =~= second);
        },
        Some(n) => {
            if s.buffer.len() >= 4 {
                lemma_sync_from(s.buffer, 0);
            }
            lemma_page_append(s, b, c);
            let (next, out) = page_taken(s, b, n);
            lemma_laced_buffer(
                Demux { buffer: b.skip(n), ..s },
                page_laces(b),
                b.subrange(27 + b[26] as int, n),
            );
            lemma_drained_append(next, c);
            let (middle, first) = drained(next);
            let (end, second) = pushed(middle, c);
            assert(out + (first + second) =~= (out + first) + second);
        },
    }
}

/// The segment table of a packet of `n` bytes.
pub open spec fn laces_of(n: nat) -> Seq<u8>
    decreases n,
{
    if n < 255 {
        seq![n as u8]
    } else {
        seq![255u8] + laces_of((n - 255) as nat)
    }
}

/// A page that holds one whole packet. `fields` are the 22 bytes between the
/// magic and the segment table, which the demuxer does not read.
pub open spec fn page_of(fields: Seq<u8>, packet: Seq<u8>) -> Seq<u8> {
    page_magic() + fields + seq![laces_of(packet.len()).len() as u8] + laces_of(packet.len())
        + packet
}

proof fn lemma_lace_sum_first(a: u8, laces: Seq<u8>)
    ensures
        lace_sum(seq![a] + laces) == a + lace_sum(laces),
    decreases laces.len(),
{
    let all = seq![a] + laces;
    if laces.len() == 0 {
        assert(all.drop_last() =~= laces);
    } else {
        assert(all.drop_last() =~= seq![a] + laces.drop_last());
        lemma_lace_sum_first(a, laces.drop_last());
    }
}

proof fn lemma_laces_of(n: nat)
    ensures
        lace_sum(laces_of(n)) == n,
        laces_of(n).len() == n / 255 + 1,
    decreases n,
{
    if n < 255 {
        assert(seq![n as u8].drop_last() =~= seq![]);
        assert(lace_sum(seq![n as u8].drop_last()) == 0);
    } else {
        lemma_laces_of((n - 255) as nat);
        lemma_lace_sum_first(255, laces_of((n - 255) as nat));
    }
}

proof fn lemma_laced_packet(s: Demux, payload: Seq<u8>)
    ensures
        laced(s, laces_of(payload.len()), payload) == accept(
            Demux { pending: seq![], ..s },
            s.pending + payload,
        ),
    decreases payload.len(),
{
    let laces = laces_of(payload.len());
    let n = laces[0] as int;
    if payload.len() < 255 {
        assert(payload.take(n) =~= payload);
        assert(laces.skip(1) =~= seq![]);
        let (next, out) = accept(Demux { pending: seq![], ..s }, s.pending + payload);
        assert(laced(next, laces.skip(1), payload.skip(n)) == (next, Seq::<Seq<u8>>::empty()));
        assert(out + Seq::<Seq<u8>>::empty() =~= out);
    } else {
        let rest = payload.skip(255);
        assert(laces.skip(1) =~= laces_of(rest.len()));
        lemma_laced_packet(Demux { pending: s.pending + payload.take(255), ..s }, rest);
        assert((s.pending + payload.take(255)) + rest =~= s.pending + payload);
    }
}

/// A page: the bytes `OggS`, 22 bytes that the demuxer does not read, the number of
/// segments, their lengths, and the payload.
pub open spec fn page_with(fields: Seq<u8>, table: Seq<u8>, payload: Seq<u8>) -> Seq<u8> {
    seq![0x4fu8, 0x67u8, 0x67u8, 0x53u8] + fields + seq![table.len() as u8] + table + payload
}

proof fn lemma_page_is_cut(s: Demux, fields: Seq<u8>, table: Seq<u8>, payload: Seq<u8>)
    requires
        s.buffer.len() == 0,
        fields.len() == 22,
        table.len() <= 255,
        lace_sum(table) == payload.len(),
    ensures
        pushed(s, page_with(fields, table, payload)) == laced(s, table, payload),
{
    let page = page_with(fields, table, payload);
    let n = page.len() as int;
    assert(s.buffer + page =~= page);
    assert(page.subrange(0, 4) =~= page_magic());
    assert(magic_at(page, 0));
    assert(resynced(page) =~= page);
    assert(page[26] == table.len());
    assert(page_laces(page) =~= table);
    assert(page_len(page) == Some(n));
    assert(page.subrange(27 + page[26] as int, n) =~= payload);
    assert(page.skip(n) =~= s.buffer);
    let start = Demux { buffer: page, ..s };
    let (next, out) = page_taken(start, page, n);
    assert((Demux { buffer: page.skip(n), ..start }) == s);
    assert((next, out) == laced(s, table, payload));
    lemma_laced_buffer(s, table, payload);
    assert(resynced(next.buffer) =~= next.buffer);
    assert(drained(next) == (next, Seq::<Seq<u8>>::empty()));
    assert(out + Seq::<Seq<u8>>::empty() =~= out);
}

/// A page with one packet in it gives that packet, or what was pending with the
/// packet behind it, to the header filter, and leaves nothing over.
pub proof fn law_page_gives_its_packet(s: Demux, fields: Seq<u8>, packet: Seq<u8>)
    requires
        s.buffer.len() == 0,
        fields.len() == 22,
        packet.len() < 255 * 255,
    ensures
        pushed(s, page_of(fields, packet)) == accept(
            Demux { pending: seq![], ..s },
            s.pending + packet,
        ),
{
    let laces = laces_of(packet.len());
    lemma_laces_of(packet.len());
    lemma_page_is_cut(s, fields, laces, packet);
    lemma_laced_packet(s, packet);
    assert(page_of(fields, packet) =~= page_with(fields, laces, packet));
}

/// A packet starts with the eight bytes `OpusHead`.
pub open spec fn is_head(packet: Seq<u8>) -> bool {
    packet.len() >= 8 && packet.take(8) == seq![
        0x4fu8,
        0x70u8,
        0x75u8,
        0x73u8,
        0x48u8,
        0x65u8,
        0x61u8,
        0x64u8,
    ]
}

/// A packet starts with the eight bytes `OpusTags`.
pub open spec fn is_tags(packet: Seq<u8>) -> bool {
    packet.len() >= 8 && packet.take(8) == seq![
        0x4fu8,
        0x70u8,
        0x75u8,
        0x73u8,
        0x54u8,
        0x61u8,
        0x67u8,
        0x73u8,
    ]
}

/// A packet that is neither empty nor a header.
pub open spec fn is_audio(packet: Seq<u8>) -> bool {
    packet.len() > 0 && !is_head(packet) && !is_tags(packet)
}

/// The headers are told by their first bytes.
proof fn lemma_headers(packet: Seq<u8>)
    ensures
        head_magic().is_prefix_of(packet) == is_head(packet),
        tags_magic().is_prefix_of(packet) == is_tags(packet),
{
    if packet.len() >= 8 {
        assert(packet.take(8) =~= packet.subrange(0, 8));
    }
}

/// From `s` to `end` only audio came out, if anything did both headers have been seen,
/// and a header that was seen stays seen.
pub open spec fn only_audio(s: Demux, end: Demux, out: Seq<Seq<u8>>) -> bool {
    &&& forall|i: int| 0 <= i < out.len() ==> is_audio(#[trigger] out[i])
    &&& out.len() > 0 ==> end.head_seen && end.tags_seen
    &&& s.head_seen ==> end.head_seen
    &&& s.tags_seen ==> end.tags_seen
}

/// A page gives audio alone.
proof fn lemma_laced_audio(s: Demux, laces: Seq<u8>, payload: Seq<u8>)
    ensures
        only_audio(s, laced(s, laces, payload).0, laced(s, laces, payload).1),
    decreases laces.len(),
{
    if laces.len() > 0 {
        let n = laces[0] as int;
        let packet = s.pending + payload.take(n);
        lemma_headers(packet);
        if n < 255 {
            let (next, out) = accept(Demux { pending: seq![], ..s }, packet);
            lemma_laced_audio(next, laces.skip(1), payload.skip(n));
        } else {
            lemma_laced_audio(Demux { pending: packet, ..s }, laces.skip(1), payload.skip(n));
        }
    }
}

/// The pages that are complete give audio alone.
proof fn lemma_drained_audio(s: Demux)
    ensures
        only_audio(s, drained(s).0, drained(s).1),
    decreases s.buffer.len(),
{
    let b = resynced(s.buffer);
    match page_len(b) {
        None => {},
        Some(n) => {
            let payload = b.subrange(27 + b[26] as int, n);
            let start = Demux { buffer: b.skip(n), ..s };
            if s.buffer.len() >= 4 {
                lemma_sync_from(s.buffer, 0);
            }
            lemma_laced_buffer(start, page_laces(b), payload);
            lemma_laced_audio(start, page_laces(b), payload);
            lemma_drained_audio(page_taken(s, b, n).0);
        },
    }
}

/// Headers are never handed on, nor is anything before both of them have come: what
/// a piece of the stream brings out is audio, and it brings out nothing as long as
/// a header is missing.
pub proof fn law_headers_are_kept_back(s: Demux, data: Seq<u8>)
    ensures
        only_audio(s, pushed(s, data).0, pushed(s, data).1),
        !pushed(s, data).0.head_seen || !pushed(s, data).0.tags_seen ==> pushed(s, data).1.len()
            == 0,
{
    lemma_drained_audio(Demux { buffer: s.buffer + data, ..s });
}

/// Some runs of bytes, one after another.
pub open spec fn joined_bytes(parts: Seq<Seq<u8>>) -> Seq<u8>
    decreases parts.len(),
{
    if parts.len() == 0 {
        seq![]
    } else {
        parts[0] + joined_bytes(parts.skip(1))
    }
}

/// The segment tables of some packets, one after another.
pub open spec fn tables_of(packets: Seq<Seq<u8>>) -> Seq<u8>
    decreases packets.len(),
{
    if packets.len() == 0 {
        seq![]
    } else {
        laces_of(packets[0].len()) + tables_of(packets.skip(1))
    }
}

/// Those of some packets that are audio, in their order.
pub open spec fn audio_of(packets: Seq<Seq<u8>>) -> Seq<Seq<u8>>
    decreases packets.len(),
{
    if packets.len() == 0 {
        seq![]
    } else if is_audio(packets[0]) {
        seq![packets[0]] + audio_of(packets.skip(1))
    } else {
        audio_of(packets.skip(1))
    }
}

/// The first packet of a page goes on with what was pending.
pub open spec fn continued(pending: Seq<u8>, packets: Seq<Seq<u8>>) -> Seq<Seq<u8>> {
    if packets.len() == 0 {
        packets
    } else {
        seq![pending + packets[0]] + packets.skip(1)
    }
}

/// The table of a packet that goes on in the next page.
pub open spec fn open_table(n: nat) -> Seq<u8> {
    Seq::new(n, |i: int| 255u8)
}

proof fn lemma_lace_sum_add(a: Seq<u8>, b: Seq<u8>)
    ensures
        lace_sum(a + b) == lace_sum(a) + lace_sum(b),
    decreases b.len(),
{
    if b.len() == 0 {
        assert(a + b =~= a);
    } else {
        assert((a + b).drop_last() =~= a + b.drop_last());
        lemma_lace_sum_add(a, b.drop_last());
    }
}

proof fn lemma_tables(packets: Seq<Seq<u8>>)
    ensures
        lace_sum(tables_of(packets)) == joined_bytes(packets).len(),
    decreases packets.len(),
{
    if packets.len() > 0 {
        lemma_laces_of(packets[0].len());
        lemma_tables(packets.skip(1));
        lemma_lace_sum_add(laces_of(packets[0].len()), tables_of(packets.skip(1)));
    }
}

proof fn lemma_open_table(n: nat)
    ensures
        lace_sum(open_table(n)) == 255 * n,
    decreases n,
{
    if n > 0 {
        lemma_open_table((n - 1) as nat);
        assert(open_table(n).drop_last() =~= open_table((n - 1) as nat));
    }
}

/// A packet that goes on in the next page stays pending.
proof fn lemma_laced_open(s: Demux, n: nat, payload: Seq<u8>)
    requires
        payload.len() == 255 * n,
    ensures
        laced(s, open_table(n), payload) == (
            Demux { pending: s.pending + payload, ..s },
            Seq::<Seq<u8>>::empty(),
        ),
    decreases n,
{
    if n == 0 {
        assert(s.pending + payload =~= s.pending);
    } else {
        let packet = s.pending + payload.take(255);
        assert(open_table(n).skip(1) =~= open_table((n - 1) as nat));
        lemma_laced_open(
            Demux { pending: packet, ..s },
            (n - 1) as nat,
            payload.skip(255),
        );
        assert(packet + payload.skip(255) =~= s.pending + payload);
    }
}

/// The first packet of a page comes before what follows it.
proof fn lemma_laced_first(s: Demux, packet: Seq<u8>, table: Seq<u8>, more: Seq<u8>)
    ensures
        ({
            let (next, out) = accept(Demux { pending: seq![], ..s }, s.pending + packet);
            let (end, rest) = laced(next, table, more);
            laced(s, laces_of(packet.len()) + table, packet + more) == (end, out + rest)
        }),
    decreases packet.len(),
{
    let laces = laces_of(packet.len()) + table;
    let payload = packet + more;
    let n = laces[0] as int;
    assert(laces[0] == laces_of(packet.len())[0]);
    if packet.len() < 255 {
        assert(payload.take(n) =~= packet);
        assert(payload.skip(n) =~= more);
        assert(laces.skip(1) =~= table);
    } else {
        let rest = packet.skip(255);
        assert(payload.take(255) =~= packet.take(255));
        assert(payload.skip(255) =~= rest + more);
        assert(laces.skip(1) =~= laces_of(rest.len()) + table);
        lemma_laced_first(Demux { pending: s.pending + packet.take(255), ..s }, rest, table, more);
        assert((s.pending + packet.take(255)) + rest =~= s.pending + packet);
    }
}

proof fn lemma_laced_packets(s: Demux, packets: Seq<Seq<u8>>, n: nat, rest: Seq<u8>)
    requires
        s.head_seen,
        s.tags_seen,
        rest.len() == 255 * n,
    ensures
        laced(s, tables_of(packets) + open_table(n), joined_bytes(packets) + rest) == (
            Demux {
                pending: if packets.len() == 0 {
                    s.pending + rest
                } else {
                    rest
                },
                ..s
            },
            audio_of(continued(s.pending, packets)),
        ),
    decreases packets.len(),
{
    if packets.len() == 0 {
        assert(tables_of(packets) + open_table(n) =~= open_table(n));
        assert(joined_bytes(packets) + rest =~= rest);
        lemma_laced_open(s, n, rest);
    } else {
        let others = packets.skip(1);
        let first = s.pending + packets[0];
        let empty = Demux { pending: seq![], ..s };
        let (next, out) = accept(empty, first);
        lemma_headers(first);
        assert(next == empty);
        let table = tables_of(others) + open_table(n);
        let more = joined_bytes(others) + rest;
        lemma_laced_first(s, packets[0], table, more);
        assert(tables_of(packets) + open_table(n) =~= laces_of(packets[0].len()) + table);
        assert(joined_bytes(packets) + rest =~= packets[0] + more);
        lemma_laced_packets(empty, others, n, rest);
        if others.len() == 0 {
            assert(Seq::<u8>::empty() + rest =~= rest);
            assert(continued(seq![], others) =~= others);
        } else {
            assert(Seq::<u8>::empty() + others[0] =~= others[0]);
            assert(continued(seq![], others) =~= others);
        }
        let all = continued(s.pending, packets);
        assert(all[0] == first);
        assert(all.skip(1) =~= others);
        assert(Seq::<Seq<u8>>::empty() + audio_of(others) =~= audio_of(others));
    }
}

/// Once both headers were seen, a page gives every packet of audio that ends in it, in
/// order, the first of them with what the pages before it left open; what goes on in
/// the next page stays open, and nothing else is kept.
#[verifier::spinoff_prover]
pub proof fn law_page_gives_all_its_packets(
    s: Demux,
    fields: Seq<u8>,
    packets: Seq<Seq<u8>>,
    n: nat,
    rest: Seq<u8>,
)
    requires
        s.buffer.len() == 0,
        s.head_seen,
        s.tags_seen,
        fields.len() == 22,
        rest.len() == 255 * n,
        tables_of(packets).len() + n <= 255,
    ensures
        ({
            let table = tables_of(packets) + open_table(n);
            let (end, out) = pushed(
                s,
                page_with(fields, table, joined_bytes(packets) + rest),
            );
            &&& out == audio_of(continued(s.pending, packets))
            &&& end == (Demux {
                pending: if packets.len() == 0 {
                    s.pending + rest
                } else {
                    rest
                },
                ..s
            })
        }),
{
    let table = tables_of(packets) + open_table(n);
    let payload = joined_bytes(packets) + rest;
    lemma_tables(packets);
    lemma_open_table(n);
    lemma_lace_sum_add(tables_of(packets), open_table(n));
    lemma_page_is_cut(s, fields, table, payload);
    lemma_laced_packets(s, packets, n, rest);
}

/// A packet of its own page that starts with `OpusHead` or `OpusTags` is that header,
/// and no other packet is. Audio is handed on exactly when both were seen before it.
pub proof fn law_headers_are_recognised(s: Demux, fields: Seq<u8>, packet: Seq<u8>)
    requires
        s.buffer.len() == 0,
        s.pending.len() == 0,
        fields.len() == 22,
        packet.len() < 255 * 255,
    ensures
        ({
            let (end, out) = pushed(s, page_of(fields, packet));
            &&& end.head_seen == (s.head_seen || is_head(packet))
            &&& end.tags_seen == (s.tags_seen || is_tags(packet))
            &&& end.buffer.len() == 0
            &&& end.pending.len() == 0
            &&& out == (if is_audio(packet) && s.head_seen && s.tags_seen {
                seq![packet]
            } else {
                seq![]
            })
        }),
{
    law_page_gives_its_packet(s, fields, packet);
    assert(s.pending + packet =~= packet);
    lemma_headers(packet);
    if packet.len() >= 8 && is_head(packet) && is_tags(packet) {
        assert(packet.take(8)[4] == 0x48u8);
        assert(packet.take(8)[4] == 0x54u8);
    }
}

/// Bytes before a page that do not look like the start of one make no difference.
pub proof fn law_junk_is_skipped(s: Demux, junk: Seq<u8>, page: Seq<u8>)
    requires
        s.buffer.len() == 0,
        page.len() >= 4,
        page.take(4) == seq![0x4fu8, 0x67u8, 0x67u8, 0x53u8],
        forall|i: int|
            0 <= i < junk.len() ==> #[trigger] (junk + page).subrange(i, i + 4) != seq![
                0x4fu8,
                0x67u8,
                0x67u8,
                0x53u8,
            ],
    ensures
        pushed(s, junk + page) == pushed(s, page),
{
    let b = junk + page;
    let n = junk.len() as int;
    assert(s.buffer + b =~= b);
    assert(s.buffer + page =~= page);
    assert(page_magic() =~= seq![0x4fu8, 0x67u8, 0x67u8, 0x53u8]);
    assert(page.subrange(0, 4) =~= page.take(4));
    assert(magic_at(page, 0));
    assert(b.subrange(n, n + 4) =~= page.subrange(0, 4));
    assert(magic_at(b, n));
    lemma_sync_unique(b, 0, n);
    assert(b.skip(n) =~= page);
    assert(resynced(b) =~= page);
    assert(resynced(page) =~= page);
}

} // verus!
