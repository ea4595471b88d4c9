//! The transmitter side of a sub-channel whose bytes the sim scene chooses:
//! the payload source, cycled on whole logical frames, and the clause-12
//! time interleaver that spreads each frame's bits over the following
//! frames (EN 300 401 clause 12).
//!
//! Between the two sit energy dispersal, the mother code and puncturing,
//! which the scene's encoder performs; the interleaver takes the punctured
//! bits and returns the bits to transmit.

use vstd::prelude::*;
use vstd::arithmetic::div_mod::{lemma_mod_equivalence, lemma_small_mod};

verus! {

/// `p` zero-filled (or cut) to `n` bits.
pub open spec fn padded(p: Seq<u8>, n: nat) -> Seq<u8> {
    Seq::new(n, |i: int| if i < p.len() { p[i] } else { 0u8 })
}

/// The delay of bit `i`, in frames: the map's entry for `i` modulo the
/// interleaving depth.
pub open spec fn delay_of(delays: Seq<usize>, i: int) -> int {
    delays[i % (delays.len() as int)] as int
}

/// Bit `i` of the frame transmitted `r` frames in: bit `i` of the input
/// frame `delay_of(i)` frames earlier, or 0 while no such frame exists.
pub open spec fn sent_bit(history: Seq<Seq<u8>>, delays: Seq<usize>, r: int, i: int) -> u8 {
    let d = delay_of(delays, i);
    if r >= d {
        history[r - d][i]
    } else {
        0u8
    }
}

/// The interleaver as data: the frame width, the delay map, and every
/// input frame so far (zero-filled to the width).
pub struct InterleaverView {
    pub cu_bits: nat,
    pub delays: Seq<usize>,
    pub history: Seq<Seq<u8>>,
}

/// The clause-12 time interleaver for one sub-channel.
pub struct TimeInterleaver {
    cu_bits: usize,
    delays: Vec<usize>,
    /// The last `depth` input frames, frame `r` in slot `r % depth`.
    ring: Vec<u8>,
    frame: u64,
    history: Ghost<Seq<Seq<u8>>>,
}

proof fn lemma_cell_in_ring(slot: int, i: int, cu: int, depth: int)
    requires
        0 <= slot < depth,
        0 <= i < cu,
    ensures
        0 <= slot * cu + i < depth * cu,
        slot * cu + cu <= depth * cu,
{
    assert(slot * cu + i < depth * cu && slot * cu + cu <= depth * cu) by (nonlinear_arith)
        requires
            0 <= slot < depth,
            0 <= i < cu,
    ;
    assert(0 <= slot * cu) by (nonlinear_arith)
        requires
            0 <= slot,
            0 <= cu,
    ;
}

proof fn lemma_slot_fits(slot: int, cu: int, depth: int)
    requires
        0 <= slot < depth,
        0 <= cu,
    ensures
        0 <= slot * cu,
        slot * cu + cu <= depth * cu,
{
    assert(0 <= slot * cu && slot * cu + cu <= depth * cu) by (nonlinear_arith)
        requires
            0 <= slot < depth,
            0 <= cu,
    ;
}

proof fn lemma_other_slot_untouched(s1: int, i: int, s2: int, cu: int)
    requires
        0 <= s1,
        0 <= s2,
        s1 != s2,
        0 <= i < cu,
    ensures
        s1 * cu + i < s2 * cu || s1 * cu + i >= s2 * cu + cu,
{
    if s1 < s2 {
        assert(s1 * cu + i < s2 * cu) by (nonlinear_arith)
            requires
                s1 < s2,
                0 <= i < cu,
        ;
    } else {
        assert(s1 * cu + i >= s2 * cu + cu) by (nonlinear_arith)
            requires
                s1 > s2,
                0 <= i < cu,
        ;
    }
}

proof fn lemma_recent_slots_differ(r: int, q: int, depth: int)
    requires
        0 <= q < r,
        r - q < depth,
    ensures
        r % depth != q % depth,
{
    lemma_mod_equivalence(r, q, depth);
    lemma_small_mod((r - q) as nat, depth as nat);
}

impl View for TimeInterleaver {
    type V = InterleaverView;

    closed spec fn view(&self) -> InterleaverView {
        InterleaverView { cu_bits: self.cu_bits as nat, delays: self.delays@, history: self.history@ }
    }
}

impl TimeInterleaver {
    /// The ring holds, for each of the last `depth` input frames, that
    /// frame in slot `frame % depth`.
    pub closed spec fn wf(self) -> bool {
        let depth = self.delays@.len() as int;
        let cu = self.cu_bits as int;
        let h = self.history@;
        &&& depth >= 1
        &&& forall|j: int| 0 <= j < depth ==> #[trigger] self.delays@[j] < depth
        &&& self.ring@.len() == depth * cu
        &&& self.frame as int == h.len()
        &&& forall|k: int| 0 <= k < h.len() ==> #[trigger] h[k].len() == cu
        &&& forall|r: int, i: int|
            0 <= r < h.len() && h.len() - depth <= r && 0 <= i < cu ==> self.ring@[(r % depth)
                * cu + i] == #[trigger] h[r][i]
    }

    /// An interleaver for frames of `cu_bits` bits whose bit `i` is delayed
    /// by `delays[i % delays.len()]` frames; the depth is the map's length.
    pub fn new(cu_bits: usize, delays: Vec<usize>) -> (t: Self)
        requires
            delays@.len() >= 1,
            forall|j: int| 0 <= j < delays@.len() ==> #[trigger] delays@[j] < delays@.len(),
            delays@.len() * cu_bits <= usize::MAX,
        ensures
            t.wf(),
            t@ == (InterleaverView { cu_bits: cu_bits as nat, delays: delays@, history: Seq::empty() }),
    {
        let n = delays.len() * cu_bits;
        let mut ring: Vec<u8> = Vec::new();
        while ring.len() < n
            invariant
                ring@.len() <= n,
            decreases n - ring@.len(),
        {
            ring.push(0);
        }
        TimeInterleaver { cu_bits, delays, ring, frame: 0, history: Ghost(Seq::empty()) }
    }

    /// Frames interleaved so far.
    pub fn frames(&self) -> (n: u64)
        requires
            self.wf(),
        ensures
            n == self@.history.len(),
    {
        self.frame
    }

    /// Bits per frame.
    pub fn cu_bits(&self) -> (n: usize)
        ensures
            n == self@.cu_bits,
    {
        self.cu_bits
    }

    /// Interleave the next frame: take its punctured bits (zero-filled to
    /// the frame width) and return the frame to transmit, whose bit `i` is
    /// bit `i` of the input `delay_of(i)` frames back, or 0 before the
    /// first such frame.
    pub fn push(&mut self, punctured: &[u8]) -> (out: Vec<u8>)
        requires
            old(self).wf(),
            punctured@.len() <= old(self)@.cu_bits,
            old(self)@.history.len() < u64::MAX,
        ensures
            final(self).wf(),
            final(self)@ == (InterleaverView {
                history: old(self)@.history.push(padded(punctured@, old(self)@.cu_bits)),
                ..old(self)@
            }),
            out@.len() == old(self)@.cu_bits,
            forall|i: int|
                0 <= i < out@.len() ==> #[trigger] out@[i] == sent_bit(
                    final(self)@.history,
                    old(self)@.delays,
                    old(self)@.history.len() as int,
                    i,
                ),
    {
        let ghost old_ring = self.ring@;
        let ghost h = self.history@;
        let ghost p = padded(punctured@, self.cu_bits as nat);
        let depth = self.delays.len();
        let cu = self.cu_bits;
        let r = self.frame;
        let slot = (r % (depth as u64)) as usize;
        proof {
            lemma_slot_fits(slot as int, cu as int, depth as int);
        }
        let len = self.ring.len();
        let base = slot * cu;
        let mut ring: Vec<u8> = Vec::new();
        std::mem::swap(&mut ring, &mut self.ring);
        let mut i: usize = 0;
        while i < cu
            invariant
                i <= cu,
                base + cu <= ring@.len(),
                ring@.len() == old_ring.len(),
                ring@.len() == len,
                forall|j: int| 0 <= j < i ==> ring@[base + j] == #[trigger] p[j],
                forall|k: int|
                    0 <= k < ring@.len() && !(base <= k < base + i) ==> #[trigger] ring@[k]
                        == old_ring[k],
                p == padded(punctured@, cu as nat),
            decreases cu - i,
        {
            let b = if i < punctured.len() {
                punctured[i]
            } else {
                0
            };
            ring.set(base + i, b);
            i = i + 1;
        }
        let ghost h2 = h.push(p);
        proof {
            let d = depth as int;
            let c = cu as int;
            assert forall|q: int, j: int|
                0 <= q < h2.len() && h2.len() - d <= q && 0 <= j < c implies ring@[(q % d) * c + j]
                == #[trigger] h2[q][j] by {
                if q == r as int {
                    assert(q % d == slot as int);
                    assert(ring@[base + j] == p[j]);
                } else {
                    lemma_recent_slots_differ(r as int, q, d);
                    assert(0 <= q % d < d);
                    lemma_other_slot_untouched(q % d, j, slot as int, c);
                    lemma_cell_in_ring(q % d, j, c, d);
                    assert(h2[q] == h[q]);
                }
            }
        }
        let mut out: Vec<u8> = Vec::new();
        let mut i: usize = 0;
        while i < cu
            invariant
                i <= cu,
                out@.len() == i,
                depth == self.delays@.len(),
                depth >= 1,
                forall|j: int| 0 <= j < depth ==> #[trigger] self.delays@[j] < depth,
                ring@.len() == depth * cu,
                ring@.len() == len,
                r as int == h.len(),
                h2 == h.push(p),
                forall|q: int, j: int|
                    0 <= q < h2.len() && h2.len() - depth <= q && 0 <= j < cu ==> ring@[(q
                        % (depth as int)) * cu + j] == #[trigger] h2[q][j],
                forall|j: int|
                    0 <= j < i ==> #[trigger] out@[j] == sent_bit(h2, self.delays@, r as int, j),
            decreases cu - i,
        {
            let delay = self.delays[i % depth];
            assert(delay == delay_of(self.delays@, i as int));
            if r >= delay as u64 {
                let source = ((r - delay as u64) % (depth as u64)) as usize;
                assert(source < depth);
                proof {
                    lemma_cell_in_ring(source as int, i as int, cu as int, depth as int);
                }
                out.push(ring[source * cu + i]);
            } else {
                out.push(0);
            }
            i = i + 1;
        }
        self.ring = ring;
        self.frame = r + 1;
        self.history = Ghost(h2);
        proof {
            assert forall|k: int| 0 <= k < h2.len() implies #[trigger] h2[k].len() == cu by {
                if k < h.len() {
                    assert(h2[k] == h[k]);
                }
            }
        }
        out
    }
}

/// A frame-aligned position is a whole frame away from the end of a source
/// made of whole frames.
proof fn lemma_frame_fits(cursor: int, chunk: int, len: int)
    requires
        chunk > 0,
        0 <= cursor < len,
        cursor % chunk == 0,
        len % chunk == 0,
    ensures
        cursor + chunk <= len,
{
    let a = cursor / chunk;
    let b = len / chunk;
    assert(cursor == a * chunk) by (nonlinear_arith)
        requires
            chunk > 0,
            cursor % chunk == 0,
            a == cursor / chunk,
    ;
    assert(len == b * chunk) by (nonlinear_arith)
        requires
            chunk > 0,
            len % chunk == 0,
            b == len / chunk,
    ;
    assert(a < b) by (nonlinear_arith)
        requires
            chunk > 0,
            cursor == a * chunk,
            len == b * chunk,
            cursor < len,
    ;
    assert(cursor + chunk <= len) by (nonlinear_arith)
        requires
            chunk > 0,
            cursor == a * chunk,
            len == b * chunk,
            a < b,
    ;
}

/// One sub-channel whose payload the scene chooses: where it sits in the
/// CIF, the byte source it cycles through one logical frame at a time, and
/// its time interleaver.
pub struct ChosenChannel {
    /// Where the sub-channel sits in the CIF, in bits.
    start_bit: usize,
    /// Bytes one logical frame carries.
    chunk: usize,
    /// The source cycles on whole logical frames, so the scene's loop seam
    /// is a stream boundary too.
    source: Vec<u8>,
    cursor: usize,
    interleaver: TimeInterleaver,
}

impl ChosenChannel {
    /// The source is made of whole logical frames and the next payload
    /// starts on one.
    pub closed spec fn wf(self) -> bool {
        &&& self.chunk > 0
        &&& self.source@.len() > 0
        &&& (self.source@.len() as int) % (self.chunk as int) == 0
        &&& self.cursor < self.source@.len()
        &&& self.cursor % self.chunk == 0
        &&& self.interleaver.wf()
    }

    /// Where the sub-channel sits in the CIF, in bits.
    pub closed spec fn start(self) -> nat {
        self.start_bit as nat
    }

    /// The byte source.
    pub closed spec fn source(self) -> Seq<u8> {
        self.source@
    }

    /// Where the next payload starts in the source.
    pub closed spec fn cursor(self) -> nat {
        self.cursor as nat
    }

    /// Bytes per logical frame.
    pub closed spec fn chunk(self) -> nat {
        self.chunk as nat
    }

    /// The interleaver's state.
    pub closed spec fn interleaver(self) -> InterleaverView {
        self.interleaver@
    }

    /// A channel at `start_bit` whose frames are `cu_bits` bits, carrying
    /// `chunk` bytes per logical frame from `source`, interleaved with the
    /// delay map `delays`.
    pub fn new(start_bit: usize, cu_bits: usize, chunk: usize, source: Vec<u8>, delays: Vec<usize>) -> (c: Self)
        requires
            chunk > 0,
            source@.len() > 0,
            (source@.len() as int) % (chunk as int) == 0,
            delays@.len() >= 1,
            forall|j: int| 0 <= j < delays@.len() ==> #[trigger] delays@[j] < delays@.len(),
            delays@.len() * cu_bits <= usize::MAX,
        ensures
            c.wf(),
            c.start() == start_bit,
            c.source() == source@,
            c.cursor() == 0,
            c.chunk() == chunk,
            c.interleaver() == (InterleaverView {
                cu_bits: cu_bits as nat,
                delays: delays@,
                history: Seq::empty(),
            }),
    {
        let interleaver = TimeInterleaver::new(cu_bits, delays);
        assert(0usize % chunk == 0) by (nonlinear_arith)
            requires
                chunk > 0,
        ;
        ChosenChannel { start_bit, chunk, source, cursor: 0, interleaver }
    }

    /// Where the sub-channel sits in the CIF, in bits.
    pub fn start_bit(&self) -> (b: usize)
        ensures
            b == self.start(),
    {
        self.start_bit
    }

    /// Frames interleaved so far.
    pub fn frames(&self) -> (n: u64)
        requires
            self.wf(),
        ensures
            n == self.interleaver().history.len(),
    {
        self.interleaver.frames()
    }

    /// Bits per interleaved frame: the most a punctured codeword may carry.
    pub fn cu_bits(&self) -> (n: usize)
        ensures
            n == self.interleaver().cu_bits,
    {
        self.interleaver.cu_bits()
    }

    /// Logical frames one full cycle of the source spans.
    pub fn period_frames(&self) -> (n: usize)
        requires
            self.wf(),
        ensures
            n == self.source().len() / self.chunk(),
    {
        self.source.len() / self.chunk
    }

    /// The next logical frame's payload: the source's next `chunk` bytes,
    /// which never straddle the wrap; the source starts over after its last
    /// frame.
    pub fn next_payload(&mut self) -> (payload: Vec<u8>)
        requires
            old(self).wf(),
        ensures
            final(self).wf(),
            old(self).cursor() + old(self).chunk() <= old(self).source().len(),
            payload@ == old(self).source().subrange(
                old(self).cursor() as int,
                (old(self).cursor() + old(self).chunk()) as int,
            ),
            final(self).cursor() == (if old(self).cursor() + old(self).chunk() == old(
                self,
            ).source().len() {
                0
            } else {
                old(self).cursor() + old(self).chunk()
            }),
            final(self).source() == old(self).source(),
            final(self).chunk() == old(self).chunk(),
            final(self).interleaver() == old(self).interleaver(),
            final(self).start() == old(self).start(),
    {
        proof {
            lemma_frame_fits(self.cursor as int, self.chunk as int, self.source@.len() as int);
        }
        let len = self.source.len();
        let start = self.cursor;
        let mut payload: Vec<u8> = Vec::new();
        let mut k: usize = 0;
        while k < self.chunk
            invariant
                k <= self.chunk,
                start + self.chunk <= len,
                len == self.source@.len(),
                payload@ == self.source@.subrange(start as int, start + k),
            decreases self.chunk - k,
        {
            payload.push(self.source[start + k]);
            k = k + 1;
            assert(payload@ =~= self.source@.subrange(start as int, start + k));
        }
        let next = start + self.chunk;
        self.cursor = if next == len {
            0
        } else {
            next
        };
        proof {
            if next < len {
                assert((start as int + self.chunk as int) % (self.chunk as int) == 0) by (nonlinear_arith)
                    requires
                        (start as int) % (self.chunk as int) == 0,
                        self.chunk > 0,
                ;
            }
        }
        payload
    }

    /// Interleave the next frame's punctured bits into the bits to transmit
    /// in the sub-channel's CU field.
    pub fn interleave(&mut self, punctured: &[u8]) -> (out: Vec<u8>)
        requires
            old(self).wf(),
            punctured@.len() <= old(self).interleaver().cu_bits,
            old(self).interleaver().history.len() < u64::MAX,
        ensures
            final(self).wf(),
            final(self).interleaver() == (InterleaverView {
                history: old(self).interleaver().history.push(
                    padded(punctured@, old(self).interleaver().cu_bits),
                ),
                ..old(self).interleaver()
            }),
            out@.len() == old(self).interleaver().cu_bits,
            forall|i: int|
                0 <= i < out@.len() ==> #[trigger] out@[i] == sent_bit(
                    final(self).interleaver().history,
                    old(self).interleaver().delays,
                    old(self).interleaver().history.len() as int,
                    i,
                ),
            final(self).source() == old(self).source(),
            final(self).cursor() == old(self).cursor(),
            final(self).chunk() == old(self).chunk(),
            final(self).start() == old(self).start(),
    {
        self.interleaver.push(punctured)
    }
}

/// Whether re-playing a buffer of `buffer_frames` logical frames is a valid
/// continuation of a stream that cycles every `period` frames: only when
/// the cycle divides the buffer, or the receiver's de-interleaver mixes two
/// payload phases across the wrap.
pub fn cycle_divides(buffer_frames: usize, period: usize) -> (ok: bool)
    requires
        period > 0,
    ensures
        ok == (buffer_frames % period == 0),
{
    buffer_frames % period == 0
}

/// **The interleaver's law.** What the transmitter sends in frame `r` is,
/// bit by bit, the input `delay_of(i)` frames back: the ring holding the
/// last `depth` frames gives each bit its own delay and nothing else.
pub proof fn lemma_each_bit_keeps_its_own_delay(
    history: Seq<Seq<u8>>,
    delays: Seq<usize>,
    r: int,
    i: int,
)
    requires
        delays.len() >= 1,
        forall|j: int| 0 <= j < delays.len() ==> #[trigger] delays[j] < delays.len(),
        0 <= r < history.len(),
        0 <= i,
    ensures
        0 <= delay_of(delays, i) < delays.len(),
        r >= delay_of(delays, i) ==> sent_bit(history, delays, r, i) == history[r - delay_of(
            delays,
            i,
        )][i],
        r < delay_of(delays, i) ==> sent_bit(history, delays, r, i) == 0,
{
    let j = i % (delays.len() as int);
    assert(0 <= j < delays.len());
    assert(delays[j] < delays.len());
}

/// The receiver's delay map for an interleaver's: each branch waits out
/// the rest of the depth.
pub open spec fn complement(delays: Seq<usize>) -> Seq<usize> {
    delays.map_values(|d: usize| (delays.len() - 1 - d) as usize)
}

/// The first `n` frames an interleaver with this history and delay map
/// sends, each `cu` bits.
pub open spec fn sent_frames(history: Seq<Seq<u8>>, delays: Seq<usize>, n: nat, cu: nat) -> Seq<
    Seq<u8>,
> {
    Seq::new(n, |r: int| Seq::new(cu, |i: int| sent_bit(history, delays, r, i)))
}

/// **What the receiver undoes.** Interleaving with the complementary delay
/// map after this one brings every bit back to its own frame, exactly
/// `depth - 1` frames late: the two delays of each branch add up to the
/// depth less one.
pub proof fn lemma_complementary_delays_undo(
    history: Seq<Seq<u8>>,
    delays: Seq<usize>,
    cu: nat,
    r: int,
    i: int,
)
    requires
        1 <= delays.len() <= usize::MAX,
        forall|j: int| 0 <= j < delays.len() ==> #[trigger] delays[j] < delays.len(),
        forall|k: int| 0 <= k < history.len() ==> #[trigger] history[k].len() == cu,
        0 <= i < cu,
        delays.len() - 1 <= r < history.len(),
    ensures
        sent_bit(
            sent_frames(history, delays, history.len(), cu),
            complement(delays),
            r,
            i,
        ) == history[r - (delays.len() - 1)][i],
{
    let depth = delays.len() as int;
    let j = i % depth;
    assert(0 <= j < depth);
    let d = delays[j] as int;
    assert(d < depth);
    let c = complement(delays);
    assert(c.len() == depth);
    assert(c[j] as int == depth - 1 - d);
    assert(delay_of(c, i) == depth - 1 - d);
    assert(delay_of(delays, i) == d);
    let k = r - (depth - 1 - d);
    assert(0 <= k < history.len());
    let sent = sent_frames(history, delays, history.len(), cu);
    assert(sent[k][i] == sent_bit(history, delays, k, i));
    assert(k >= d);
}

} // verus!
