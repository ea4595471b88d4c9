//! The integer and text parts of the `get dab` readout: each table entry
//! as the JSON object the script reads, with `null` where the FIC has not
//! signalled a value, so a missing fact is never a guess.

use vstd::prelude::*;
use crate::text::{decimal, hex4, json_str, json_text, push_decimal, push_hex4, push_str};

verus! {

/// `true` or `false`.
pub open spec fn bool_text(b: bool) -> Seq<char> {
    if b {
        "true"@
    } else {
        "false"@
    }
}

/// A number in decimal, or `null`.
pub open spec fn opt_decimal(v: Option<nat>) -> Seq<char> {
    match v {
        Some(n) => decimal(n),
        None => "null"@,
    }
}

/// A JSON string, or `null`.
pub open spec fn opt_json_text(s: Option<Seq<char>>) -> Seq<char> {
    match s {
        Some(t) => json_text(t),
        None => "null"@,
    }
}

/// The characters of an optional string.
pub open spec fn opt_chars(s: Option<&str>) -> Option<Seq<char>> {
    match s {
        Some(t) => Some(t@),
        None => None,
    }
}

/// An optional byte as a number.
pub open spec fn opt_nat(v: Option<u8>) -> Option<nat> {
    match v {
        Some(b) => Some(b as nat),
        None => None,
    }
}

fn push_bool(s: &mut String, b: bool)
    ensures
        final(s)@ == old(s)@ + bool_text(b),
{
    if b {
        push_str(s, "true");
    } else {
        push_str(s, "false");
    }
}

fn push_opt_u8(s: &mut String, v: Option<u8>)
    ensures
        final(s)@ == old(s)@ + opt_decimal(opt_nat(v)),
{
    match v {
        Some(b) => push_decimal(s, b as u64),
        None => push_str(s, "null"),
    }
}

fn push_opt_json(s: &mut String, t: Option<&str>)
    ensures
        final(s)@ == old(s)@ + opt_json_text(opt_chars(t)),
{
    match t {
        Some(t) => {
            let j = json_str(t);
            push_str(s, j.as_str());
        },
        None => push_str(s, "null"),
    }
}

/// One service of the table:
/// `{"sid":…,"sid_hex":"…","label":…,"sub_channel":…,"coding":…,"ascty":…,"has_audio":…}`.
pub open spec fn service_text(
    sid: u16,
    label: Option<Seq<char>>,
    sub_channel: Option<u8>,
    coding: Seq<char>,
    ascty: Option<u8>,
    has_audio: bool,
) -> Seq<char> {
    "{\"sid\":"@ + decimal(sid as nat) + ",\"sid_hex\":\""@ + hex4(sid) + "\",\"label\":"@
        + opt_json_text(label) + ",\"sub_channel\":"@ + opt_decimal(opt_nat(sub_channel))
        + ",\"coding\":"@ + json_text(coding) + ",\"ascty\":"@ + opt_decimal(opt_nat(ascty))
        + ",\"has_audio\":"@ + bool_text(has_audio) + "}"@
}

/// One service of the table as the readout's JSON object.
pub fn service_json(
    sid: u16,
    label: Option<&str>,
    sub_channel: Option<u8>,
    coding: &str,
    ascty: Option<u8>,
    has_audio: bool,
) -> (out: String)
    ensures
        out@ == service_text(sid, opt_chars(label), sub_channel, coding@, ascty, has_audio),
{
    let mut s = String::new();
    push_str(&mut s, "{\"sid\":");
    push_decimal(&mut s, sid as u64);
    push_str(&mut s, ",\"sid_hex\":\"");
    push_hex4(&mut s, sid);
    push_str(&mut s, "\",\"label\":");
    push_opt_json(&mut s, label);
    push_str(&mut s, ",\"sub_channel\":");
    push_opt_u8(&mut s, sub_channel);
    push_str(&mut s, ",\"coding\":");
    let c = json_str(coding);
    push_str(&mut s, c.as_str());
    push_str(&mut s, ",\"ascty\":");
    push_opt_u8(&mut s, ascty);
    push_str(&mut s, ",\"has_audio\":");
    push_bool(&mut s, has_audio);
    push_str(&mut s, "}");
    s
}

/// One sub-channel's MSC counters:
/// `{"sub_channel":…,"frames":…,"bytes":…,"crc_checks":…,"crc_failures":…}`.
pub open spec fn msc_text(
    sub_channel: u8,
    frames: u64,
    bytes: u64,
    crc_checks: u64,
    crc_failures: u64,
) -> Seq<char> {
    "{\"sub_channel\":"@ + decimal(sub_channel as nat) + ",\"frames\":"@ + decimal(frames as nat)
        + ",\"bytes\":"@ + decimal(bytes as nat) + ",\"crc_checks\":"@ + decimal(
        crc_checks as nat,
    ) + ",\"crc_failures\":"@ + decimal(crc_failures as nat) + "}"@
}

/// One sub-channel's MSC counters as the readout's JSON object.
pub fn msc_json(sub_channel: u8, frames: u64, bytes: u64, crc_checks: u64, crc_failures: u64) -> (out:
    String)
    ensures
        out@ == msc_text(sub_channel, frames, bytes, crc_checks, crc_failures),
{
    let mut s = String::new();
    push_str(&mut s, "{\"sub_channel\":");
    push_decimal(&mut s, sub_channel as u64);
    push_str(&mut s, ",\"frames\":");
    push_decimal(&mut s, frames);
    push_str(&mut s, ",\"bytes\":");
    push_decimal(&mut s, bytes);
    push_str(&mut s, ",\"crc_checks\":");
    push_decimal(&mut s, crc_checks);
    push_str(&mut s, ",\"crc_failures\":");
    push_decimal(&mut s, crc_failures);
    push_str(&mut s, "}");
    s
}

/// The ensemble's identity fields: the EId in decimal, in quoted hex, and
/// the label; all three `null` when no EId has been decoded.
pub open spec fn ensemble_id_text(eid: Option<u16>, label: Option<Seq<char>>) -> (
    Seq<char>,
    Seq<char>,
    Seq<char>,
) {
    match eid {
        Some(e) => (decimal(e as nat), seq!['"'] + hex4(e) + seq!['"'], opt_json_text(label)),
        None => ("null"@, "null"@, "null"@),
    }
}

/// The ensemble's `eid`, `eid_hex` and `label` fields.
pub fn ensemble_id_json(eid: Option<u16>, label: Option<&str>) -> (out: (String, String, String))
    ensures
        (out.0@, out.1@, out.2@) == ensemble_id_text(eid, opt_chars(label)),
{
    match eid {
        Some(e) => {
            let mut id = String::new();
            push_decimal(&mut id, e as u64);
            let mut hex = String::new();
            push_str(&mut hex, "\"");
            push_hex4(&mut hex, e);
            push_str(&mut hex, "\"");
            let mut l = String::new();
            push_opt_json(&mut l, label);
            proof {
                reveal_strlit("\"");
                assert(hex@ =~= seq!['"'] + hex4(e) + seq!['"']);
            }
            (id, hex, l)
        },
        None => {
            let mut a = String::new();
            push_str(&mut a, "null");
            let mut b = String::new();
            push_str(&mut b, "null");
            let mut c = String::new();
            push_str(&mut c, "null");
            (a, b, c)
        },
    }
}

/// The readout while the receiver is off: only the Band III block under
/// the hardware centre (`channel`, already JSON) is known.
pub fn dab_off_json(channel: &str) -> (out: String)
    ensures
        out@ == "{\"ok\":true,\"on\":false,\"channel\":"@ + channel@ + "}"@,
{
    let mut s = String::new();
    push_str(&mut s, "{\"ok\":true,\"on\":false,\"channel\":");
    push_str(&mut s, channel);
    push_str(&mut s, "}");
    s
}

/// Items separated by commas.
pub open spec fn comma_joined(items: Seq<Seq<char>>) -> Seq<char>
    decreases items.len(),
{
    if items.len() == 0 {
        Seq::empty()
    } else if items.len() == 1 {
        items[0]
    } else {
        comma_joined(items.drop_last()) + seq![','] + items.last()
    }
}

/// JSON objects joined into the body of an array.
pub fn join_json(items: &Vec<String>) -> (out: String)
    ensures
        out@ == comma_joined(items@.map_values(|s: String| s@)),
{
    let ghost views = items@.map_values(|s: String| s@);
    let mut out = String::new();
    let mut i: usize = 0;
    while i < items.len()
        invariant
            i <= items@.len(),
            views == items@.map_values(|s: String| s@),
            out@ == comma_joined(views.take(i as int)),
        decreases items.len() - i,
    {
        let ghost before = out@;
        if i > 0 {
            crate::text::push_char(&mut out, ',');
        }
        push_str(&mut out, items[i].as_str());
        proof {
            let t = views.take(i + 1);
            assert(t.drop_last() =~= views.take(i as int));
            assert(t.last() == items@[i as int]@);
            if i == 0 {
                assert(out@ =~= comma_joined(t));
            } else {
                assert(out@ =~= comma_joined(t));
            }
        }
        i = i + 1;
    }
    assert(views.take(items@.len() as int) =~= views);
    out
}

} // verus!
