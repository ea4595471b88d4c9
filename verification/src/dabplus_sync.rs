//! DAB+ super-frame synchronisation (TS 102 563 annex C) at the only
//! granularity the MSC hands over: whole logical frames. A super-frame
//! boundary is 0, 1, 2, 3 or 4 logical frames into the pending bytes; each
//! phase is trial-decoded until the header Fire code passes.
//!
//! The super-frame decoder itself is the codec's; this type owns the
//! decisions around it. A caller drives it window by window:
//! [`DabPlusSync::window`] names the bytes to trial-decode next, and
//! [`DabPlusSync::on_window`] takes the decoder's Fire-code verdict on them.
//!
//! Two consecutive clean windows are needed before the phase is trusted, so
//! a single chance Fire-code hit on garbage cannot lock it. Once aligned, a
//! bad window is a channel error consumed in place; `RESYNC_AFTER_BAD`
//! consecutive failures restart the search from the next logical frame.
//!
//! **The search is not evidence about the stream.** Its failed windows and
//! consumed bytes are counted apart from the aligned failures, and the
//! "not the signalled shape" verdict rests on them alone: a stream that has
//! ever aligned is a DAB+ stream, whatever happens later.

use vstd::prelude::*;

verus! {

/// Consecutive bad windows while aligned before the search restarts from
/// the next logical frame.
pub const RESYNC_AFTER_BAD: u32 = 5;

/// Consecutive clean windows an alignment needs before it is trusted.
pub const CONFIRM_WINDOWS: u32 = 2;

/// Super-frame lengths of bytes a search may consume without one
/// Fire-clean window before the stream is declared not to be the signalled
/// DAB+ shape (2.4 s of stream at every sub-channel index).
pub const SHAPE_VERDICT_SUPERFRAMES: u64 = 20;

/// Why a sync cannot be built.
#[derive(Debug, Clone, Copy, PartialEq, Eq, Structural)]
pub enum SyncError {
    /// `subchannel_index` outside 1..=24 (TS 102 563 clause 5.1).
    InvalidSubchannelIndex(u8),
}

/// The synchroniser's state, as data.
pub struct SyncView {
    /// Bytes of one super frame and of one logical frame.
    pub superframe: nat,
    pub logical: nat,
    /// Bytes received and not yet consumed.
    pub pending: Seq<u8>,
    /// Logical-frame offset the search tries next.
    pub phase: nat,
    /// The alignment is trusted.
    pub aligned: bool,
    /// Clean windows since the search last restarted.
    pub confirming: nat,
    /// Consecutive bad windows while aligned.
    pub bad: nat,
    /// The stream has aligned at least once.
    pub ever_aligned: bool,
    /// Windows that failed while aligned: channel errors.
    pub bad_windows: nat,
    /// Windows the search tried without a clean one, and the bytes it
    /// consumed doing so.
    pub search_windows: nat,
    pub search_bytes: nat,
}

/// `n + 1`, held at `u64::MAX`.
pub open spec fn bump(n: nat, by: nat) -> nat {
    if n + by <= u64::MAX {
        n + by
    } else {
        u64::MAX as nat
    }
}

/// No candidate alignment is held: the window is taken at the search phase.
pub open spec fn searching(s: SyncView) -> bool {
    !s.aligned && s.confirming == 0
}

/// Where the next window starts in the pending bytes.
pub open spec fn window_start(s: SyncView) -> nat {
    if searching(s) {
        s.phase
    } else {
        0
    }
}

/// Whether a whole window is pending.
pub open spec fn has_window(s: SyncView) -> bool {
    s.pending.len() >= window_start(s) + s.superframe
}

/// The state after the decoder's verdict `clean` on the current window.
pub open spec fn step(s: SyncView, clean: bool) -> SyncView {
    let w = window_start(s);
    if clean {
        let pending = s.pending.skip((w + s.superframe) as int);
        if s.aligned {
            SyncView { pending, bad: 0, ..s }
        } else if s.confirming + 1 >= CONFIRM_WINDOWS {
            SyncView { pending, aligned: true, confirming: 0, ever_aligned: true, phase: 0, ..s }
        } else {
            SyncView { pending, confirming: s.confirming + 1, phase: 0, ..s }
        }
    } else if s.aligned || s.confirming > 0 {
        let pending = s.pending.skip(s.superframe as int);
        if s.aligned {
            if s.bad + 1 >= RESYNC_AFTER_BAD {
                SyncView {
                    pending,
                    aligned: false,
                    bad: 0,
                    phase: s.logical,
                    bad_windows: bump(s.bad_windows, 1),
                    ..s
                }
            } else {
                SyncView { pending, bad: s.bad + 1, bad_windows: bump(s.bad_windows, 1), ..s }
            }
        } else {
            SyncView { pending, confirming: 0, phase: s.logical, ..s }
        }
    } else if s.phase + s.logical < s.superframe {
        SyncView {
            search_windows: bump(s.search_windows, 1),
            phase: s.phase + s.logical,
            ..s
        }
    } else {
        SyncView {
            search_windows: bump(s.search_windows, 1),
            search_bytes: bump(s.search_bytes, s.logical),
            pending: s.pending.skip(s.logical as int),
            phase: 0,
            ..s
        }
    }
}

/// The search has consumed the verdict budget without one clean window,
/// and the stream never aligned.
pub open spec fn spec_shape_mismatch(s: SyncView) -> bool {
    !s.ever_aligned && s.search_bytes >= SHAPE_VERDICT_SUPERFRAMES * s.superframe
}

/// The shape every reachable state has.
pub open spec fn well_formed(s: SyncView) -> bool {
    &&& s.logical >= 1
    &&& s.superframe == 5 * s.logical
    &&& s.phase < s.superframe
    &&& s.phase % s.logical == 0
    &&& s.confirming < CONFIRM_WINDOWS
    &&& s.bad < RESYNC_AFTER_BAD
    &&& s.aligned ==> s.ever_aligned && s.confirming == 0
    &&& !searching(s) ==> s.phase == 0
    &&& s.bad_windows <= u64::MAX
    &&& s.search_windows <= u64::MAX
    &&& s.search_bytes <= u64::MAX
}

/// A stream that has aligned once stays known as DAB+: no later window,
/// clean or not, clears the record or lets the shape verdict fire.
pub proof fn lemma_alignment_is_never_undone(s: SyncView, clean: bool)
    requires
        s.ever_aligned,
    ensures
        step(s, clean).ever_aligned,
        !spec_shape_mismatch(step(s, clean)),
{
}

/// One clean window found by the search is a candidate, not a lock: a
/// chance Fire-code hit on garbage cannot align the stream.
pub proof fn lemma_one_clean_window_does_not_align(s: SyncView)
    requires
        well_formed(s),
        searching(s),
    ensures
        !step(s, true).aligned,
        step(s, true).confirming == 1,
{
}

/// An alignment is only ever trusted on a clean window that follows a
/// clean window already being confirmed.
pub proof fn lemma_alignment_needs_confirmation(s: SyncView, clean: bool)
    requires
        well_formed(s),
        !s.aligned,
        step(s, clean).aligned,
    ensures
        clean,
        s.confirming == CONFIRM_WINDOWS - 1,
{
}

/// A bad window on a trusted alignment is a channel error: it is counted
/// as one, and never as search evidence against the stream.
pub proof fn lemma_aligned_failures_are_channel_errors(s: SyncView)
    requires
        s.aligned,
        s.bad_windows < u64::MAX,
    ensures
        step(s, false).bad_windows == s.bad_windows + 1,
        step(s, false).search_windows == s.search_windows,
        step(s, false).search_bytes == s.search_bytes,
{
}

/// The state after `n` consecutive failed windows.
pub open spec fn failed_run(s: SyncView, n: nat) -> SyncView
    decreases n,
{
    if n == 0 {
        s
    } else {
        failed_run(step(s, false), (n - 1) as nat)
    }
}

/// **Loss of alignment is detected.** From a trusted alignment, a run of
/// failed windows keeps it while the run is shorter than
/// `RESYNC_AFTER_BAD`; the failure that completes the run drops it, and the
/// search restarts one logical frame into the stream, with no candidate
/// held, so the window after it is taken at that phase.
pub proof fn lemma_a_run_of_failures_restarts_the_search(s: SyncView, n: nat)
    requires
        well_formed(s),
        s.aligned,
        s.bad + n <= RESYNC_AFTER_BAD,
    ensures
        s.bad + n < RESYNC_AFTER_BAD ==> failed_run(s, n).aligned && failed_run(s, n).bad == s.bad
            + n,
        s.bad + n == RESYNC_AFTER_BAD ==> {
            let t = failed_run(s, n);
            &&& !t.aligned
            &&& t.confirming == 0
            &&& t.bad == 0
            &&& t.phase == s.logical
            &&& window_start(t) == s.logical
        },
        failed_run(s, n).ever_aligned,
        failed_run(s, n).logical == s.logical,
    decreases n,
{
    if n > 0 {
        let t = step(s, false);
        if s.bad + 1 < RESYNC_AFTER_BAD {
            assert(t.aligned && t.bad == s.bad + 1);
            assert(well_formed(t)) by {
                assert(t.bad_windows <= u64::MAX);
            }
            lemma_a_run_of_failures_restarts_the_search(t, (n - 1) as nat);
        } else {
            assert(n == 1);
            assert(failed_run(t, 0) == t);
        }
    }
}

/// **Two clean windows in a row lock the phase, and clean windows keep
/// it.** From the search, a clean window at the search phase followed by a
/// clean window right after it aligns the stream on that boundary, having
/// consumed the two super frames; on an alignment, a clean window keeps it,
/// forgives the earlier failures and consumes exactly one super frame.
pub proof fn lemma_clean_windows_lock_and_keep_the_phase(s: SyncView)
    requires
        well_formed(s),
    ensures
        searching(s) ==> {
            let t = step(step(s, true), true);
            &&& t.aligned
            &&& t.ever_aligned
            &&& window_start(t) == 0
            &&& t.pending =~= s.pending.skip((s.phase + s.superframe) as int).skip(
                s.superframe as int,
            )
        },
        s.aligned ==> {
            let t = step(s, true);
            &&& t.aligned
            &&& t.bad == 0
            &&& t.pending =~= s.pending.skip(s.superframe as int)
        },
{
}

/// Bytes leave only from the front of the pending stream, and never more
/// than a window's worth at a time.
pub proof fn lemma_consumes_only_the_front(s: SyncView, clean: bool)
    requires
        well_formed(s),
        has_window(s),
    ensures
        step(s, clean).pending.len() <= s.pending.len(),
        s.pending.len() - step(s, clean).pending.len() <= window_start(s) + s.superframe,
        step(s, clean).pending =~= s.pending.skip(s.pending.len() - step(s, clean).pending.len()),
{
}

/// A window is always consumed or the search moves on: every verdict
/// either drains pending bytes or advances the phase.
pub proof fn lemma_every_verdict_makes_progress(s: SyncView, clean: bool)
    requires
        well_formed(s),
        has_window(s),
    ensures
        step(s, clean).pending.len() < s.pending.len() || step(s, clean).phase > s.phase,
{
}

pub struct DabPlusSync {
    superframe_bytes: usize,
    logical_bytes: usize,
    pending: Vec<u8>,
    phase: usize,
    aligned: bool,
    confirming: u32,
    bad: u32,
    ever_aligned: bool,
    bad_windows: u64,
    search_windows: u64,
    search_bytes: u64,
}

impl View for DabPlusSync {
    type V = SyncView;

    closed spec fn view(&self) -> SyncView {
        SyncView {
            superframe: self.superframe_bytes as nat,
            logical: self.logical_bytes as nat,
            pending: self.pending@,
            phase: self.phase as nat,
            aligned: self.aligned,
            confirming: self.confirming as nat,
            bad: self.bad as nat,
            ever_aligned: self.ever_aligned,
            bad_windows: self.bad_windows as nat,
            search_windows: self.search_windows as nat,
            search_bytes: self.search_bytes as nat,
        }
    }
}

/// `v` without its first `n` bytes.
fn without_front(v: &Vec<u8>, n: usize) -> (out: Vec<u8>)
    requires
        n <= v@.len(),
    ensures
        out@ == v@.skip(n as int),
{
    let mut out: Vec<u8> = Vec::with_capacity(v.len() - n);
    let mut i = n;
    while i < v.len()
        invariant
            n <= i <= v@.len(),
            out@ == v@.subrange(n as int, i as int),
        decreases v@.len() - i,
    {
        out.push(v[i]);
        i = i + 1;
        assert(v@.subrange(n as int, i as int) =~= v@.subrange(n as int, (i - 1) as int).push(
            v@[i - 1],
        ));
    }
    assert(v@.subrange(n as int, i as int) =~= v@.skip(n as int));
    out
}

impl DabPlusSync {
    #[verifier::type_invariant]
    closed spec fn inv(self) -> bool {
        &&& well_formed(self@)
        &&& self.superframe_bytes <= 2880
    }

    /// A sync for a sub-channel of `index` × 8 kbit/s: super frames of
    /// `120 × index` bytes, logical frames of `24 × index`.
    pub fn new(index: u8) -> (r: Result<Self, SyncError>)
        ensures
            (1 <= index <= 24) <==> r is Ok,
            r matches Err(e) ==> e == SyncError::InvalidSubchannelIndex(index),
            r matches Ok(s) ==> {
                &&& s@.superframe == 120 * index
                &&& s@.logical == 24 * index
                &&& s@.pending.len() == 0
                &&& s@.phase == 0
                &&& !s@.aligned && s@.confirming == 0 && s@.bad == 0 && !s@.ever_aligned
                &&& s@.bad_windows == 0 && s@.search_windows == 0 && s@.search_bytes == 0
            },
    {
        if index < 1 || index > 24 {
            return Err(SyncError::InvalidSubchannelIndex(index));
        }
        let logical = 24 * index as usize;
        Ok(DabPlusSync {
            superframe_bytes: 5 * logical,
            logical_bytes: logical,
            pending: Vec::new(),
            phase: 0,
            aligned: false,
            confirming: 0,
            bad: 0,
            ever_aligned: false,
            bad_windows: 0,
            search_windows: 0,
            search_bytes: 0,
        })
    }

    pub fn superframe_bytes(&self) -> (n: usize)
        ensures
            n == self@.superframe,
    {
        self.superframe_bytes
    }

    pub fn logical_frame_bytes(&self) -> (n: usize)
        ensures
            n == self@.logical,
    {
        self.logical_bytes
    }

    /// The bytes received and not yet consumed.
    pub fn pending(&self) -> (p: &[u8])
        ensures
            p@ == self@.pending,
    {
        self.pending.as_slice()
    }

    /// Windows that failed the Fire code while aligned: channel errors.
    pub fn bad_windows(&self) -> (n: u64)
        ensures
            n == self@.bad_windows,
    {
        self.bad_windows
    }

    /// Windows the search has tried without a clean one.
    pub fn search_windows(&self) -> (n: u64)
        ensures
            n == self@.search_windows,
    {
        self.search_windows
    }

    /// The stream is not the signalled DAB+ shape: the search has consumed
    /// twenty super-frame lengths of bytes without ever seeing one
    /// Fire-clean window. A stream that has ever aligned can never be
    /// declared this way.
    pub fn shape_mismatch(&self) -> (m: bool)
        ensures
            m == spec_shape_mismatch(self@),
    {
        proof {
            use_type_invariant(self);
        }
        !self.ever_aligned && self.search_bytes >= SHAPE_VERDICT_SUPERFRAMES * (
        self.superframe_bytes as u64)
    }

    /// Take more of the stream.
    pub fn append(&mut self, bytes: &[u8])
        ensures
            final(self)@ == (SyncView { pending: old(self)@.pending + bytes@, ..old(self)@ }),
    {
        proof {
            use_type_invariant(&*self);
        }
        let mut pending = Vec::new();
        std::mem::swap(&mut pending, &mut self.pending);
        let ghost start = pending@;
        let mut i: usize = 0;
        while i < bytes.len()
            invariant
                i <= bytes@.len(),
                pending@ == start + bytes@.take(i as int),
            decreases bytes@.len() - i,
        {
            pending.push(bytes[i]);
            i = i + 1;
            assert(bytes@.take(i as int) =~= bytes@.take((i - 1) as int).push(bytes@[i - 1]));
        }
        assert(bytes@.take(i as int) =~= bytes@);
        self.pending = pending;
    }

    /// The next window to trial-decode, as a byte range of the pending
    /// bytes, or `None` while a whole window has not arrived.
    pub fn window(&self) -> (w: Option<(usize, usize)>)
        ensures
            w is Some <==> has_window(self@),
            w matches Some((a, b)) ==> a == window_start(self@) && b == a + self@.superframe,
    {
        proof {
            use_type_invariant(self);
        }
        let start = if !self.aligned && self.confirming == 0 {
            self.phase
        } else {
            0
        };
        if self.pending.len() >= start && self.pending.len() - start >= self.superframe_bytes {
            Some((start, start + self.superframe_bytes))
        } else {
            None
        }
    }

    /// Apply the decoder's verdict on the current window: `clean` when its
    /// header Fire code passed. Returns whether the decoded super frame is
    /// handed out (only Fire-clean ones are).
    pub fn on_window(&mut self, clean: bool) -> (handed_out: bool)
        requires
            has_window(old(self)@),
        ensures
            final(self)@ == step(old(self)@, clean),
            handed_out == clean,
    {
        proof {
            use_type_invariant(&*self);
        }
        let start = if !self.aligned && self.confirming == 0 {
            self.phase
        } else {
            0
        };
        let sf = self.superframe_bytes;
        let lf = self.logical_bytes;
        let mut pending = Vec::new();
        std::mem::swap(&mut pending, &mut self.pending);
        let mut phase = self.phase;
        let mut aligned = self.aligned;
        let mut confirming = self.confirming;
        let mut bad = self.bad;
        let mut ever_aligned = self.ever_aligned;
        let mut bad_windows = self.bad_windows;
        let mut search_windows = self.search_windows;
        let mut search_bytes = self.search_bytes;
        if clean {
            pending = without_front(&pending, start + sf);
            if aligned {
                bad = 0;
            } else {
                confirming = confirming + 1;
                if confirming >= CONFIRM_WINDOWS {
                    aligned = true;
                    confirming = 0;
                    ever_aligned = true;
                }
                phase = 0;
            }
        } else if aligned || confirming > 0 {
            // A bad window on a trusted alignment is a channel error and is
            // consumed in place; a run of them means the alignment is gone.
            // A failed confirmation is not shape evidence either.
            pending = without_front(&pending, sf);
            if aligned {
                bad = bad + 1;
                bad_windows = bad_windows.saturating_add(1);
                if bad >= RESYNC_AFTER_BAD {
                    aligned = false;
                    bad = 0;
                    phase = lf;
                }
            } else {
                confirming = 0;
                phase = lf;
            }
        } else if phase + lf < sf {
            search_windows = search_windows.saturating_add(1);
            phase = phase + lf;
        } else {
            // No phase matched this window: it was garbage; step one
            // logical frame and search again.
            search_windows = search_windows.saturating_add(1);
            search_bytes = search_bytes.saturating_add(lf as u64);
            pending = without_front(&pending, lf);
            phase = 0;
        }
        proof {
            let s = self@;
            assert(s.phase % s.logical == 0);
            if !clean && !(s.aligned || s.confirming > 0) && s.phase + s.logical < s.superframe {
                assert((s.phase + s.logical) % s.logical == 0) by {
                    vstd::arithmetic::div_mod::lemma_mod_add_multiples_vanish(
                        s.phase as int,
                        s.logical as int,
                    );
                }
            }
            if !clean && (s.aligned || s.confirming > 0) {
                assert(s.logical % s.logical == 0) by {
                    vstd::arithmetic::div_mod::lemma_mod_self_0(s.logical as int);
                }
            }
        }
        *self = DabPlusSync {
            superframe_bytes: sf,
            logical_bytes: lf,
            pending,
            phase,
            aligned,
            confirming,
            bad,
            ever_aligned,
            bad_windows,
            search_windows,
            search_bytes,
        };
        clean
    }
}

} // verus!
