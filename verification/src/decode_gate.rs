//! When a playback stream is declared undecodable, and the reason the
//! operator reads. A stream is never refused on a transient bad stretch:
//! only one that has decoded nothing after a meaningful amount of input is
//! declared not to be what the FIC signalled.

use vstd::prelude::*;
use crate::text::{decimal, push_decimal, push_str};

verus! {

/// MP2 bytes without a syncword before the stream is declared not to be
/// MP2. The decoder resynchronises silently, so a stall is the only signal
/// there is.
pub const MAX_MP2_BYTES_WITHOUT_SYNC: u64 = 65536;

/// What an MP2 stream has delivered so far: bytes pushed and frames
/// decoded. Both counters stop at `u64::MAX` rather than wrap.
#[derive(Debug, Clone, Copy, PartialEq, Eq, Structural)]
pub struct Mp2Progress {
    pub bytes: u64,
    pub frames: u64,
}

impl Mp2Progress {
    /// Nothing pushed yet.
    pub fn new() -> (p: Self)
        ensures
            p.bytes == 0 && p.frames == 0,
    {
        Mp2Progress { bytes: 0, frames: 0 }
    }

    /// `n` more bytes were pushed to the decoder.
    pub fn note_bytes(&mut self, n: u64)
        ensures
            final(self).bytes == (if old(self).bytes + n > u64::MAX {
                u64::MAX as int
            } else {
                old(self).bytes + n
            }),
            final(self).frames == old(self).frames,
    {
        self.bytes = self.bytes.saturating_add(n);
    }

    /// The decoder returned one more frame.
    pub fn note_frame(&mut self)
        ensures
            final(self).frames == (if old(self).frames == u64::MAX {
                u64::MAX as int
            } else {
                old(self).frames + 1
            }),
            final(self).bytes == old(self).bytes,
    {
        self.frames = self.frames.saturating_add(1);
    }

    /// Whether the stream is declared not to be MP2: nothing decoded, not
    /// one frame found, and at least the sync budget of bytes pushed.
    pub fn stalled(&self, decoded: u64) -> (s: bool)
        ensures
            s == (decoded == 0 && self.frames == 0 && self.bytes >= MAX_MP2_BYTES_WITHOUT_SYNC),
    {
        decoded == 0 && self.frames == 0 && self.bytes >= MAX_MP2_BYTES_WITHOUT_SYNC
    }
}

/// The reason an MP2 stream with no sync is refused.
pub fn mp2_stall_reason(bytes: u64) -> (m: String)
    ensures
        m@ == "no MPEG-1 Layer II sync in "@ + decimal(bytes as nat)
            + " bytes; the sub-channel is not an MP2 stream"@,
{
    let mut m = String::new();
    push_str(&mut m, "no MPEG-1 Layer II sync in ");
    push_decimal(&mut m, bytes);
    push_str(&mut m, " bytes; the sub-channel is not an MP2 stream");
    m
}

/// Whether a DAB+ stream is declared not to be the signalled shape: it has
/// never decoded, and its sync search has run out of budget without one
/// clean window.
pub fn dabplus_refused(decoded: u64, shape_mismatch: bool) -> (r: bool)
    ensures
        r == (decoded == 0 && shape_mismatch),
{
    decoded == 0 && shape_mismatch
}

/// The reason a DAB+ stream of `subchannel_index` whose search found no
/// Fire-clean window in `windows` tries is refused.
pub fn dabplus_shape_reason(windows: u64, subchannel_index: u8) -> (m: String)
    ensures
        m@ == "no valid DAB+ super frame in "@ + decimal(windows as nat)
            + " windows (Fire code); the stream is not the signalled "@ + decimal(
            subchannel_index as nat,
        ) + " \u{d7} 8 kbit/s DAB+ shape"@,
{
    let mut m = String::new();
    push_str(&mut m, "no valid DAB+ super frame in ");
    push_decimal(&mut m, windows);
    push_str(&mut m, " windows (Fire code); the stream is not the signalled ");
    push_decimal(&mut m, subchannel_index as u64);
    push_str(&mut m, " \u{d7} 8 kbit/s DAB+ shape");
    m
}

} // verus!
