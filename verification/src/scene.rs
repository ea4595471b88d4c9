//! The `rf-dab` sim scene's identity: the ensemble the app composes, its
//! services and sub-channels, the DLS labels it carries, and the one
//! programme whose AudioSpecificConfig the scene supplies itself.

use vstd::prelude::*;

verus! {

pub const EID: u16 = 0x1046;

pub const ENSEMBLE_LABEL: &'static str = "NEOWON SIM";

/// The labels the DLS stream cycles, in order. The first is long enough that
/// its first segment's data group spans two logical frames (clause 7.4.5.2).
pub const DLS_TEXTS: [&'static str; 3] = [
    "Now playing: Caf\u{e9} - Perfect Day",
    "Neowon Radio - rf-dab test",
    "DLS from the virtual ensemble",
];

/// The sub-channel that carries the DLS PAD stream (service 0x1001).
pub const DLS_SUB_CHANNEL: u8 = 0;

/// The DAB+ audio programme (service 0x1004, sub-channel 3).
pub const DABPLUS_SID: u16 = 0x1004;

pub const DABPLUS_SUB_CHANNEL: u8 = 3;

/// The DAB classic programme's sub-channel 4 (service 0x1005).
pub const MP2_SUB_CHANNEL: u8 = 4;

/// The scene's own AudioSpecificConfig `asc` for its DAB+ programme, or
/// `None` for any other ensemble/service. The app's playback resolves this
/// as its per-programme ASC override: the fixture is a 1024-line stream,
/// while the standard-derived config would ask for the 960-line transform
/// the fixture does not have.
pub fn asc_override<'a>(eid: Option<u16>, sid: u16, asc: &'a [u8]) -> (out: Option<&'a [u8]>)
    ensures
        out == (if eid == Some(EID) && sid == DABPLUS_SID {
            Some(asc)
        } else {
            None
        }),
{
    if eid == Some(EID) && sid == DABPLUS_SID {
        Some(asc)
    } else {
        None
    }
}

} // verus!
