//! Resolving a service of a locked ensemble table into a stream this build
//! can decode, or a reason the operator can read. Every fact comes from the
//! FIC as the receiver reports it; nothing is assumed about the service.
//!
//! The table is held as plain values: each service's `SId`, its audio
//! sub-channel and its `ASCTy`, and each sub-channel's id, protection label
//! and the information bits its protection profile resolves to (the
//! profile tables are the MSC decoder's; the table carries their answer).

use vstd::prelude::*;
use crate::actions::DabService;
use crate::scene::{asc_override, DABPLUS_SID, EID};
use crate::text::{decimal, hex4, push_decimal, push_hex4, push_str};

verus! {

/// The audio coding of a service, from its `ASCTy` (EN 300 401 clause
/// 8.1.14 / table 33).
#[derive(Debug, Clone, Copy, PartialEq, Eq, Structural)]
pub enum Coding {
    /// `ASCTy` 63: DAB+ (HE-AAC v2), TS 102 563.
    DabPlus,
    /// `ASCTy` 0: MPEG-1 Layer II (DAB classic).
    Mp2,
}

/// The coding an `ASCTy` names, when this build decodes it.
pub open spec fn coding_of(ascty: Option<u8>) -> Option<Coding> {
    match ascty {
        Some(0) => Some(Coding::Mp2),
        Some(63) => Some(Coding::DabPlus),
        _ => None,
    }
}

impl Coding {
    /// The coding this build decodes, or `None` for one it does not:
    /// refused, never guessed.
    pub fn from_ascty(ascty: Option<u8>) -> (c: Option<Self>)
        ensures
            c == coding_of(ascty),
    {
        match ascty {
            Some(0) => Some(Coding::Mp2),
            Some(63) => Some(Coding::DabPlus),
            _ => None,
        }
    }
}

/// What a sub-channel's protection resolves to.
#[derive(Debug, Clone, Copy, PartialEq, Eq, Structural)]
pub enum InfoBits {
    /// Information bits per logical frame.
    Known(usize),
    /// An EEP sub-channel whose size the FIC has not signalled.
    SizeUnknown,
    /// A protection plan the profile tables do not define.
    Unresolved,
}

/// One service of the table.
#[derive(Debug, Clone, Copy, PartialEq, Eq, Structural)]
pub struct ServiceEntry {
    pub sid: u16,
    /// The MSC sub-channel carrying its audio, when signalled.
    pub sub_channel: Option<u8>,
    /// Its audio service component type, when signalled.
    pub ascty: Option<u8>,
}

/// One sub-channel of the table.
#[derive(Debug, Clone)]
pub struct SubChannelEntry {
    pub id: u8,
    pub info_bits: InfoBits,
    /// The protection plan's label (`EEP 3-A`, `UEP 42`, …).
    pub protection: String,
}

/// The locked table, services in `SId` order as the receiver keeps them.
#[derive(Debug, Clone)]
pub struct EnsembleTable {
    pub eid: Option<u16>,
    pub services: Vec<ServiceEntry>,
    pub sub_channels: Vec<SubChannelEntry>,
}

/// `SId`s strictly ascending: the order a map keyed by `SId` walks, each
/// key once.
pub open spec fn sids_ascending(s: Seq<ServiceEntry>) -> bool {
    forall|i: int, j: int| 0 <= i < j < s.len() ==> s[i].sid < s[j].sid
}

/// Sub-channel ids strictly ascending, each id once.
pub open spec fn ids_ascending(s: Seq<SubChannelEntry>) -> bool {
    forall|i: int, j: int| 0 <= i < j < s.len() ==> s[i].id < s[j].id
}

impl EnsembleTable {
    /// The receiver keeps both lists as maps: services by `SId`, sub-channels
    /// by id, so each list is strictly ascending in its key.
    pub open spec fn well_ordered(&self) -> bool {
        sids_ascending(self.services@) && ids_ascending(self.sub_channels@)
    }

    /// Whether both lists are strictly ascending in their keys.
    pub fn is_well_ordered(&self) -> (b: bool)
        ensures
            b == self.well_ordered(),
    {
        let mut i: usize = 1;
        while i < self.services.len()
            invariant
                1 <= i,
                self.services.len() == 0 || i <= self.services.len(),
                forall|a: int, b: int|
                    0 <= a < b < i && b < self.services@.len() ==> self.services@[a].sid
                        < self.services@[b].sid,
            decreases self.services.len() - i,
        {
            if self.services[i - 1].sid >= self.services[i].sid {
                return false;
            }
            i = i + 1;
        }
        let mut k: usize = 1;
        while k < self.sub_channels.len()
            invariant
                1 <= k,
                self.sub_channels.len() == 0 || k <= self.sub_channels.len(),
                sids_ascending(self.services@),
                forall|a: int, b: int|
                    0 <= a < b < k && b < self.sub_channels@.len() ==> self.sub_channels@[a].id
                        < self.sub_channels@[b].id,
            decreases self.sub_channels.len() - k,
        {
            if self.sub_channels[k - 1].id >= self.sub_channels[k].id {
                return false;
            }
            k = k + 1;
        }
        true
    }
}

/// What the worker needs to decode one service's stream.
#[derive(Debug, Clone, Copy, PartialEq)]
pub struct StreamPlan<'a> {
    pub coding: Coding,
    /// The MSC sub-channel the bytes arrive from.
    pub sub_channel: u8,
    /// DAB+: `subchannel_index` in 8 kbit/s units, 1..=24; 0 for MP2.
    pub subchannel_index: u8,
    /// DAB+ only: the AudioSpecificConfig to use instead of the one the
    /// stream's header derives (the sim scene's own programme).
    pub asc_override: Option<&'a [u8]>,
}

/// The first service of `s` with this `SId`.
pub open spec fn find_service(s: Seq<ServiceEntry>, sid: u16) -> Option<ServiceEntry>
    decreases s.len(),
{
    if s.len() == 0 {
        None
    } else if s[0].sid == sid {
        Some(s[0])
    } else {
        find_service(s.drop_first(), sid)
    }
}

/// The first sub-channel of `s` with this id.
pub open spec fn find_sub(s: Seq<SubChannelEntry>, id: u8) -> Option<SubChannelEntry>
    decreases s.len(),
{
    if s.len() == 0 {
        None
    } else if s[0].id == id {
        Some(s[0])
    } else {
        find_sub(s.drop_first(), id)
    }
}

/// The DAB+ `subchannel_index` a sub-channel resolves to: a super frame is
/// `subchannel_index × 110` bytes in five 24 ms logical frames, so one
/// logical frame carries `24 × index` bytes of information (TS 102 563
/// clause 5.1). Outside 1..=24 the standard defines no index.
pub open spec fn index_of(id: u8, info: InfoBits, protection: Seq<char>) -> Result<u8, Seq<char>> {
    match info {
        InfoBits::SizeUnknown => Err("sub-channel size unknown"@),
        InfoBits::Unresolved => Err(
            "sub-channel "@ + decimal(id as nat) + " has an unresolved protection plan ("@
                + protection + ")"@,
        ),
        InfoBits::Known(bits) => {
            let index = bits as nat / 8 / 24;
            if 1 <= index <= 24 {
                Ok(index as u8)
            } else {
                Err(
                    "sub-channel "@ + decimal(id as nat) + " carries "@ + decimal(index * 8)
                        + " kbit/s, outside DAB+'s 8..=192 kbit/s (subchannel_index "@ + decimal(
                        index,
                    ) + ", 1..=24)"@,
                )
            }
        },
    }
}

/// Why a service of the table cannot play, or its coding, sub-channel and
/// `subchannel_index`.
pub open spec fn service_plan(
    services: Seq<ServiceEntry>,
    subs: Seq<SubChannelEntry>,
    sid: u16,
) -> Result<(Coding, u8, u8), Seq<char>> {
    match find_service(services, sid) {
        None => Err("SId "@ + decimal(sid as nat) + " not in the locked table"@),
        Some(s) => match s.sub_channel {
            None => Err("service "@ + hex4(sid) + " has no audio sub-channel"@),
            Some(sc) => match find_sub(subs, sc) {
                None => Err("sub-channel "@ + decimal(sc as nat) + " is not in the table"@),
                Some(sub) => match coding_of(s.ascty) {
                    None => Err(
                        "service "@ + hex4(sid) + " is ASCTy "@ + (match s.ascty {
                            Some(a) => decimal(a as nat),
                            None => "unknown"@,
                        }) + ", which this build does not decode"@,
                    ),
                    Some(Coding::Mp2) => Ok((Coding::Mp2, sc, 0u8)),
                    Some(Coding::DabPlus) => match index_of(sub.id, sub.info_bits, sub.protection@) {
                        Ok(i) => Ok((Coding::DabPlus, sc, i)),
                        Err(e) => Err(e),
                    },
                },
            },
        },
    }
}

/// Whether `r` is the plan `planned` with the scene's ASC override `asc`
/// attached for the table's ensemble `eid` and service `sid`.
pub open spec fn plan_matches<'a>(
    r: Result<StreamPlan<'a>, String>,
    planned: Result<(Coding, u8, u8), Seq<char>>,
    eid: Option<u16>,
    sid: u16,
    asc: &'a [u8],
    prefix: Seq<char>,
) -> bool {
    match planned {
        Ok((coding, sc, index)) => r matches Ok(p) && p.coding == coding && p.sub_channel == sc
            && p.subchannel_index == index && p.asc_override == (if coding == Coding::DabPlus
            && eid == Some(EID) && sid == DABPLUS_SID {
            Some(asc)
        } else {
            None
        }),
        Err(e) => r matches Err(m) && m@ == prefix + e,
    }
}

/// The first service of the list with this `SId`.
pub(crate) fn find_service_in(services: &Vec<ServiceEntry>, sid: u16) -> (r: Option<ServiceEntry>)
    ensures
        r == find_service(services@, sid),
{
    let mut i: usize = 0;
    assert(services@.skip(0) =~= services@);
    while i < services.len()
        invariant
            i <= services.len(),
            find_service(services@, sid) == find_service(services@.skip(i as int), sid),
        decreases services.len() - i,
    {
        assert(services@.skip(i as int).drop_first() =~= services@.skip(i + 1));
        if services[i].sid == sid {
            return Some(services[i]);
        }
        i = i + 1;
    }
    None
}

fn find_sub_at(subs: &Vec<SubChannelEntry>, id: u8) -> (r: Option<usize>)
    ensures
        match r {
            Some(i) => i < subs.len() && find_sub(subs@, id) == Some(subs@[i as int]),
            None => find_sub(subs@, id) is None,
        },
{
    let mut i: usize = 0;
    assert(subs@.skip(0) =~= subs@);
    while i < subs.len()
        invariant
            i <= subs.len(),
            find_sub(subs@, id) == find_sub(subs@.skip(i as int), id),
        decreases subs.len() - i,
    {
        assert(subs@.skip(i as int).drop_first() =~= subs@.skip(i + 1));
        if subs[i].id == id {
            return Some(i);
        }
        i = i + 1;
    }
    None
}

/// The DAB+ `subchannel_index` the sub-channel resolves to, refusing what
/// the standard does not define.
pub fn dabplus_index(sub: &SubChannelEntry) -> (r: Result<u8, String>)
    ensures
        match index_of(sub.id, sub.info_bits, sub.protection@) {
            Ok(i) => r == Ok::<u8, String>(i),
            Err(e) => r matches Err(m) && m@ == e,
        },
{
    match sub.info_bits {
        InfoBits::SizeUnknown => {
            let mut m = String::new();
            push_str(&mut m, "sub-channel size unknown");
            Err(m)
        },
        InfoBits::Unresolved => {
            let mut m = String::new();
            push_str(&mut m, "sub-channel ");
            push_decimal(&mut m, sub.id as u64);
            push_str(&mut m, " has an unresolved protection plan (");
            push_str(&mut m, sub.protection.as_str());
            push_str(&mut m, ")");
            Err(m)
        },
        InfoBits::Known(bits) => {
            let index = bits / 8 / 24;
            if 1 <= index && index <= 24 {
                Ok(index as u8)
            } else {
                let mut m = String::new();
                push_str(&mut m, "sub-channel ");
                push_decimal(&mut m, sub.id as u64);
                push_str(&mut m, " carries ");
                push_decimal(&mut m, (index * 8) as u64);
                push_str(&mut m, " kbit/s, outside DAB+'s 8..=192 kbit/s (subchannel_index ");
                push_decimal(&mut m, index as u64);
                push_str(&mut m, ", 1..=24)");
                Err(m)
            }
        },
    }
}

/// Whether one service of a locked table can play in this build, and if
/// not why: asked of any service, so the dock and `get dab` can say it
/// before Play is pressed. `asc` is the scene's own AudioSpecificConfig,
/// attached to the scene's DAB+ programme.
pub fn service_spec<'a>(table: &EnsembleTable, sid: u16, asc: &'a [u8]) -> (r: Result<
    StreamPlan<'a>,
    String,
>)
    ensures
        plan_matches(
            r,
            service_plan(table.services@, table.sub_channels@, sid),
            table.eid,
            sid,
            asc,
            Seq::empty(),
        ),
{
    let service = match find_service_in(&table.services, sid) {
        Some(s) => s,
        None => {
            let mut m = String::new();
            push_str(&mut m, "SId ");
            push_decimal(&mut m, sid as u64);
            push_str(&mut m, " not in the locked table");
            assert(Seq::<char>::empty() + m@ == m@);
            return Err(m);
        },
    };
    let sub_channel = match service.sub_channel {
        Some(sc) => sc,
        None => {
            let mut m = String::new();
            push_str(&mut m, "service ");
            push_hex4(&mut m, sid);
            push_str(&mut m, " has no audio sub-channel");
            assert(Seq::<char>::empty() + m@ == m@);
            return Err(m);
        },
    };
    let at = match find_sub_at(&table.sub_channels, sub_channel) {
        Some(i) => i,
        None => {
            let mut m = String::new();
            push_str(&mut m, "sub-channel ");
            push_decimal(&mut m, sub_channel as u64);
            push_str(&mut m, " is not in the table");
            assert(Seq::<char>::empty() + m@ == m@);
            return Err(m);
        },
    };
    let coding = match Coding::from_ascty(service.ascty) {
        Some(c) => c,
        None => {
            let mut m = String::new();
            push_str(&mut m, "service ");
            push_hex4(&mut m, sid);
            push_str(&mut m, " is ASCTy ");
            match service.ascty {
                Some(a) => push_decimal(&mut m, a as u64),
                None => push_str(&mut m, "unknown"),
            }
            push_str(&mut m, ", which this build does not decode");
            assert(Seq::<char>::empty() + m@ == m@);
            return Err(m);
        },
    };
    match coding {
        Coding::DabPlus => match dabplus_index(&table.sub_channels[at]) {
            Ok(index) => Ok(
                StreamPlan {
                    coding,
                    sub_channel,
                    subchannel_index: index,
                    asc_override: asc_override(table.eid, sid, asc),
                },
            ),
            Err(e) => {
                assert(Seq::<char>::empty() + e@ == e@);
                Err(e)
            },
        },
        Coding::Mp2 => Ok(
            StreamPlan { coding, sub_channel, subchannel_index: 0, asc_override: None },
        ),
    }
}

/// The plan for a service of the table, the scene's ASC override attached
/// to the scene's DAB+ programme.
pub open spec fn plan_of<'a>(t: EnsembleTable, sid: u16, asc: &'a [u8]) -> Result<
    StreamPlan<'a>,
    Seq<char>,
> {
    match service_plan(t.services@, t.sub_channels@, sid) {
        Ok((coding, sub_channel, subchannel_index)) => Ok(
            StreamPlan {
                coding,
                sub_channel,
                subchannel_index,
                asc_override: if coding == Coding::DabPlus && t.eid == Some(EID) && sid
                    == DABPLUS_SID {
                    Some(asc)
                } else {
                    None
                },
            },
        ),
        Err(e) => Err(e),
    }
}

/// What `sdr dab play` resolves to: the selected service and its plan, or
/// why it cannot start.
pub open spec fn play_attempt<'a>(
    service: Option<u16>,
    table: Option<EnsembleTable>,
    locked: bool,
    asc: &'a [u8],
) -> Result<(u16, StreamPlan<'a>), Seq<char>> {
    match service {
        None => Err("dab play: no service selected (sdr dab service ...)"@),
        Some(sid) => match table {
            None => Err("dab play: receiver is off (sdr dab on)"@),
            Some(t) => if !locked {
                Err("dab play: no ensemble table yet"@)
            } else {
                match plan_of(t, sid, asc) {
                    Ok(p) => Ok((sid, p)),
                    Err(e) => Err("dab play: "@ + e),
                }
            },
        },
    }
}

/// A table reference as a value.
pub open spec fn table_value(table: Option<&EnsembleTable>) -> Option<EnsembleTable> {
    match table {
        Some(t) => Some(*t),
        None => None,
    }
}

/// What `sdr dab play` resolves: the selected service and its plan, or why
/// it cannot start. `table` is the receiver's table while a receiver runs,
/// `locked` whether it holds one.
pub fn spec_for<'a>(
    service: Option<u16>,
    table: Option<&EnsembleTable>,
    locked: bool,
    asc: &'a [u8],
) -> (r: Result<(u16, StreamPlan<'a>), String>)
    ensures
        match play_attempt(service, table_value(table), locked, asc) {
            Ok(x) => r == Ok::<(u16, StreamPlan<'a>), String>(x),
            Err(e) => r is Err && r->Err_0@ == e,
        },
{
    let sid = match service {
        Some(sid) => sid,
        None => {
            let mut m = String::new();
            push_str(&mut m, "dab play: no service selected (sdr dab service ...)");
            return Err(m);
        },
    };
    let t = match table {
        Some(t) => t,
        None => {
            let mut m = String::new();
            push_str(&mut m, "dab play: receiver is off (sdr dab on)");
            return Err(m);
        },
    };
    if !locked {
        let mut m = String::new();
        push_str(&mut m, "dab play: no ensemble table yet");
        return Err(m);
    }
    match service_spec(t, sid, asc) {
        Ok(p) => Ok((sid, p)),
        Err(e) => {
            let mut m = String::new();
            push_str(&mut m, "dab play: ");
            push_str(&mut m, e.as_str());
            Err(m)
        },
    }
}

/// Which service a `sdr dab service` choice names in the table: an `SId`
/// the table holds, or the `n`th service (1-based) in the table's order.
pub open spec fn selection(choice: DabService, services: Seq<ServiceEntry>) -> Result<
    u16,
    Seq<char>,
> {
    match choice {
        DabService::Sid(sid) => if find_service(services, sid) is Some {
            Ok(sid)
        } else {
            Err("dab service: SId "@ + decimal(sid as nat) + " not in the ensemble"@)
        },
        DabService::Index(n) => if 1 <= n <= services.len() {
            Ok(services[n - 1].sid)
        } else {
            Err(
                "dab service: index #"@ + decimal(n as nat) + " outside 1..="@ + decimal(
                    services.len(),
                ),
            )
        },
    }
}

/// Resolve a `sdr dab service` choice against the receiver's table
/// (`table` while a receiver runs, `locked` whether it holds one).
pub fn select_service(choice: DabService, table: Option<&EnsembleTable>, locked: bool) -> (r:
    Result<u16, String>)
    requires
        table matches Some(t) ==> t.well_ordered(),
    ensures
        table is None ==> (r matches Err(m) && m@ == "dab service: receiver is off (sdr dab on)"@),
        table is Some && !locked ==> (r matches Err(m) && m@
            == "dab service: no ensemble table yet"@),
        table is Some && locked ==> match selection(choice, table->0.services@) {
            Ok(sid) => r == Ok::<u16, String>(sid),
            Err(e) => r matches Err(m) && m@ == e,
        },
{
    let t = match table {
        Some(t) => t,
        None => {
            let mut m = String::new();
            push_str(&mut m, "dab service: receiver is off (sdr dab on)");
            return Err(m);
        },
    };
    if !locked {
        let mut m = String::new();
        push_str(&mut m, "dab service: no ensemble table yet");
        return Err(m);
    }
    match choice {
        DabService::Sid(sid) => {
            if find_service_in(&t.services, sid).is_some() {
                Ok(sid)
            } else {
                let mut m = String::new();
                push_str(&mut m, "dab service: SId ");
                push_decimal(&mut m, sid as u64);
                push_str(&mut m, " not in the ensemble");
                Err(m)
            }
        },
        DabService::Index(n) => {
            if 1 <= n && (n as usize) <= t.services.len() {
                Ok(t.services[(n - 1) as usize].sid)
            } else {
                let mut m = String::new();
                push_str(&mut m, "dab service: index #");
                push_decimal(&mut m, n as u64);
                push_str(&mut m, " outside 1..=");
                push_decimal(&mut m, t.services.len() as u64);
                Err(m)
            }
        },
    }
}

/// **Services are numbered in `SId` order.** In a well-ordered table the
/// `n`th service that `sdr dab service #n` picks is the one with exactly
/// `n - 1` smaller `SId`s in the table: every service before it has a
/// smaller `SId`, every one after it a larger. An `SId` choice names the one
/// service with that `SId`.
pub proof fn lemma_index_counts_smaller_sids(s: Seq<ServiceEntry>, choice: DabService)
    requires
        sids_ascending(s),
    ensures
        choice matches DabService::Index(n) ==> (selection(choice, s) matches Ok(sid) ==> (
        forall|i: int| 0 <= i < s.len() ==> (#[trigger] s[i].sid < sid <==> i < n - 1))),
        choice matches DabService::Index(n) ==> (selection(choice, s) matches Ok(sid) ==> (
        forall|i: int| 0 <= i < s.len() ==> (#[trigger] s[i].sid == sid <==> i == n - 1))),
        choice matches DabService::Sid(sid) ==> (selection(choice, s) is Ok ==> (exists|k: int|
            0 <= k < s.len() && #[trigger] s[k].sid == sid && forall|i: int|
                0 <= i < s.len() && i != k ==> s[i].sid != sid)),
{
    if let DabService::Sid(sid) = choice {
        if selection(choice, s) is Ok {
            lemma_found_service_is_in(s, sid);
        }
    }
}

/// A service `find_service` returns sits at some index of the list.
proof fn lemma_found_service_is_in(s: Seq<ServiceEntry>, sid: u16)
    requires
        find_service(s, sid) is Some,
    ensures
        exists|k: int| 0 <= k < s.len() && #[trigger] s[k].sid == sid,
    decreases s.len(),
{
    if s[0].sid != sid {
        lemma_found_service_is_in(s.drop_first(), sid);
        let k = choose|k: int| 0 <= k < s.drop_first().len() && #[trigger] s.drop_first()[k].sid
            == sid;
        assert(s[k + 1].sid == sid);
    } else {
        assert(s[0].sid == sid);
    }
}

/// The sub-channel the running playback is fed from, so the feed can route
/// those logical frames to the worker instead of the raw PAD path: the
/// selected service's, while a transport runs and the receiver's table
/// names one.
pub fn playing_sub_channel(playing: bool, service: Option<u16>, table: Option<&EnsembleTable>) -> (r:
    Option<u8>)
    ensures
        r == (if playing && service is Some && table is Some {
            match find_service(table->0.services@, service->0) {
                Some(s) => s.sub_channel,
                None => None,
            }
        } else {
            None
        }),
{
    if !playing {
        return None;
    }
    let sid = match service {
        Some(sid) => sid,
        None => return None,
    };
    let t = match table {
        Some(t) => t,
        None => return None,
    };
    match find_service_in(&t.services, sid) {
        Some(s) => s.sub_channel,
        None => None,
    }
}

} // verus!
