//! The script verbs whose words carry no measurement: `sdr dab …`, the
//! sim seed and the instrument switch. What each names, how its words
//! parse, the script line each prints as, and where a raster step lands;
//! and which FFT sizes `sdr fft` accepts.

use vstd::prelude::*;
use vstd::string::*;
use crate::text::{
    debug_str, decimal, lemma_decimal_reads_back, lemma_decimal_u16_reads_back,
    lemma_decimal_u64_reads_back, parse_u16, parse_u64, push_char, push_decimal, push_str,
    same_text, str_debug, u16_in_radix, u64_in_radix,
};

verus! {

/// What `sdr dab` does. The receiver is a wideband consumer of raw IQ, so
/// it is switched on and off rather than set to a frequency: it decodes
/// whatever ensemble the hardware window covers.
#[derive(Debug, Clone, PartialEq)]
pub enum DabVerb {
    On,
    Off,
    Reset,
    /// Select a service (`sdr dab service …`).
    Service(DabService),
    /// Start audio transport (`sdr dab play`).
    Play,
    /// Stop audio transport (`sdr dab stop`).
    Stop,
    /// Land the hardware window on a Band III block (`sdr dab channel …`).
    Channel(DabChannel),
}

/// How `sdr dab channel` names its target: the raster step verbs, or a
/// block label (`11C`).
#[derive(Debug, Clone, PartialEq)]
pub enum DabChannel {
    Next,
    Prev,
    Label(String),
}

/// How `sdr dab service` names a service: by `SId`, or by 1-based position
/// in the locked table (written `#n`, since service numbers are 16-bit and
/// a bare number would be ambiguous).
#[derive(Debug, Clone, Copy, PartialEq, Eq, Structural)]
pub enum DabService {
    Sid(u16),
    Index(u16),
}

/// What `on`/`off` words mean: `on` or `1`, `off` or `0`.
pub open spec fn on_off_word(s: Seq<char>) -> Result<bool, Seq<char>> {
    if s == "on"@ || s == "1"@ {
        Ok(true)
    } else if s == "off"@ || s == "0"@ {
        Ok(false)
    } else {
        Err("expected on/off, got "@ + str_debug(s))
    }
}

/// Read an on/off switch word.
pub fn on_off(s: &str) -> (r: Result<bool, String>)
    ensures
        match on_off_word(s@) {
            Ok(b) => r == Ok::<bool, String>(b),
            Err(e) => r matches Err(m) && m@ == e,
        },
{
    if same_text(s, "on") || same_text(s, "1") {
        Ok(true)
    } else if same_text(s, "off") || same_text(s, "0") {
        Ok(false)
    } else {
        let mut m = String::new();
        push_str(&mut m, "expected on/off, got ");
        let q = debug_str(s);
        push_str(&mut m, q.as_str());
        Err(m)
    }
}

/// Whether `s` starts with `0x` or `0X`.
pub open spec fn hex_prefixed(s: Seq<char>) -> bool {
    s.len() >= 2 && s[0] == '0' && (s[1] == 'x' || s[1] == 'X')
}

/// What a `sdr dab service` argument names: `#n` is the 1-based position
/// in the locked table, a bare number is a `SId` (decimal, or hex after
/// `0x`/`0X`).
pub open spec fn service_choice(s: Seq<char>) -> Result<DabService, Seq<char>> {
    if s.len() > 0 && s[0] == '#' {
        match u16_in_radix(s.drop_first(), 10) {
            Some(n) => Ok(DabService::Index(n)),
            None => Err("bad service index "@ + str_debug(s.drop_first())),
        }
    } else {
        match (if hex_prefixed(s) {
            u16_in_radix(s.skip(2), 16)
        } else {
            u16_in_radix(s, 10)
        }) {
            Some(v) => Ok(DabService::Sid(v)),
            None => Err("bad service id "@ + str_debug(s)),
        }
    }
}

/// `sdr dab service`: `#n` is the 1-based position in the locked table, a
/// bare number is a `SId` (decimal, or `0x` hex). The `#` keeps a service
/// number and a table position from being confused.
pub fn parse_dab_service(s: &str) -> (r: Result<DabService, String>)
    ensures
        match service_choice(s@) {
            Ok(c) => r == Ok::<DabService, String>(c),
            Err(e) => r matches Err(m) && m@ == e,
        },
{
    let n = s.unicode_len();
    if n > 0 && s.get_char(0) == '#' {
        assert(s@.skip(1) =~= s@.drop_first());
        return match parse_u16(s, 1, 10) {
            Some(v) => Ok(DabService::Index(v)),
            None => {
                let index = s.substring_char(1, n);
                assert(index@ =~= s@.drop_first());
                let mut m = String::new();
                push_str(&mut m, "bad service index ");
                let q = debug_str(index);
                push_str(&mut m, q.as_str());
                Err(m)
            },
        };
    }
    let hex = n >= 2 && s.get_char(0) == '0' && (s.get_char(1) == 'x' || s.get_char(1) == 'X');
    let parsed = if hex {
        parse_u16(s, 2, 16)
    } else {
        assert(s@.skip(0) =~= s@);
        parse_u16(s, 0, 10)
    };
    match parsed {
        Some(v) => Ok(DabService::Sid(v)),
        None => {
            let mut m = String::new();
            push_str(&mut m, "bad service id ");
            let q = debug_str(s);
            push_str(&mut m, q.as_str());
            Err(m)
        },
    }
}

/// A `sdr dab` verb as the contracts see it: a channel label by its
/// characters.
pub enum VerbView {
    On,
    Off,
    Reset,
    Service(DabService),
    Play,
    Stop,
    Next,
    Prev,
    Label(Seq<char>),
}

/// The view of a verb.
pub open spec fn verb_view(v: DabVerb) -> VerbView {
    match v {
        DabVerb::On => VerbView::On,
        DabVerb::Off => VerbView::Off,
        DabVerb::Reset => VerbView::Reset,
        DabVerb::Service(c) => VerbView::Service(c),
        DabVerb::Play => VerbView::Play,
        DabVerb::Stop => VerbView::Stop,
        DabVerb::Channel(DabChannel::Next) => VerbView::Next,
        DabVerb::Channel(DabChannel::Prev) => VerbView::Prev,
        DabVerb::Channel(DabChannel::Label(l)) => VerbView::Label(l@),
    }
}

/// The error for a verb whose argument word is absent.
pub open spec fn missing_argument() -> Seq<char> {
    "missing argument"@
}

/// What the words after `sdr dab` say. A word the verb needs and does not
/// get is a `missing argument`; words after the verb's own are not read. A
/// channel label is resolved when the verb is applied, so a typo there is
/// a refused command rather than a parse failure.
pub open spec fn dab_parse(ws: Seq<Seq<char>>) -> Result<VerbView, Seq<char>> {
    if ws.len() == 0 {
        Err(missing_argument())
    } else {
        let w = ws[0];
        if w == "on"@ {
            Ok(VerbView::On)
        } else if w == "off"@ {
            Ok(VerbView::Off)
        } else if w == "reset"@ {
            Ok(VerbView::Reset)
        } else if w == "play"@ {
            Ok(VerbView::Play)
        } else if w == "stop"@ {
            Ok(VerbView::Stop)
        } else if w == "service"@ {
            if ws.len() < 2 {
                Err(missing_argument())
            } else {
                match service_choice(ws[1]) {
                    Ok(c) => Ok(VerbView::Service(c)),
                    Err(e) => Err(e),
                }
            }
        } else if w == "channel"@ {
            if ws.len() < 2 {
                Err(missing_argument())
            } else if ws[1] == "next"@ {
                Ok(VerbView::Next)
            } else if ws[1] == "prev"@ {
                Ok(VerbView::Prev)
            } else {
                Ok(VerbView::Label(ws[1]))
            }
        } else {
            Err("dab: expected on|off|reset|play|stop|service|channel, got "@ + str_debug(w))
        }
    }
}

/// The characters of each word.
pub open spec fn words_view(ws: Seq<&str>) -> Seq<Seq<char>> {
    ws.map_values(|w: &str| w@)
}

fn missing() -> (m: String)
    ensures
        m@ == missing_argument(),
{
    let mut m = String::new();
    push_str(&mut m, "missing argument");
    m
}

/// `sdr dab …`: parse the words after `dab`.
pub fn parse_dab(words: &[&str]) -> (r: Result<DabVerb, String>)
    ensures
        match dab_parse(words_view(words@)) {
            Ok(v) => r is Ok && verb_view(r->Ok_0) == v,
            Err(e) => r is Err && r->Err_0@ == e,
        },
{
    let ghost ws = words_view(words@);
    if words.len() == 0 {
        return Err(missing());
    }
    let w = words[0];
    assert(ws[0] == w@);
    if same_text(w, "on") {
        Ok(DabVerb::On)
    } else if same_text(w, "off") {
        Ok(DabVerb::Off)
    } else if same_text(w, "reset") {
        Ok(DabVerb::Reset)
    } else if same_text(w, "play") {
        Ok(DabVerb::Play)
    } else if same_text(w, "stop") {
        Ok(DabVerb::Stop)
    } else if same_text(w, "service") {
        if words.len() < 2 {
            return Err(missing());
        }
        assert(ws[1] == words[1]@);
        match parse_dab_service(words[1]) {
            Ok(c) => Ok(DabVerb::Service(c)),
            Err(e) => Err(e),
        }
    } else if same_text(w, "channel") {
        if words.len() < 2 {
            return Err(missing());
        }
        let a = words[1];
        assert(ws[1] == a@);
        if same_text(a, "next") {
            Ok(DabVerb::Channel(DabChannel::Next))
        } else if same_text(a, "prev") {
            Ok(DabVerb::Channel(DabChannel::Prev))
        } else {
            Ok(DabVerb::Channel(DabChannel::Label(a.to_owned())))
        }
    } else {
        let mut m = String::new();
        push_str(&mut m, "dab: expected on|off|reset|play|stop|service|channel, got ");
        let q = debug_str(w);
        push_str(&mut m, q.as_str());
        Err(m)
    }
}

/// The words a verb prints after `sdr dab`.
pub open spec fn verb_words(v: DabVerb) -> Seq<Seq<char>> {
    match v {
        DabVerb::On => seq!["on"@],
        DabVerb::Off => seq!["off"@],
        DabVerb::Reset => seq!["reset"@],
        DabVerb::Play => seq!["play"@],
        DabVerb::Stop => seq!["stop"@],
        DabVerb::Service(DabService::Sid(sid)) => seq!["service"@, decimal(sid as nat)],
        DabVerb::Service(DabService::Index(n)) => seq!["service"@, seq!['#'] + decimal(n as nat)],
        DabVerb::Channel(DabChannel::Next) => seq!["channel"@, "next"@],
        DabVerb::Channel(DabChannel::Prev) => seq!["channel"@, "prev"@],
        DabVerb::Channel(DabChannel::Label(l)) => seq!["channel"@, l@],
    }
}

/// Words separated by single spaces.
pub open spec fn joined(ws: Seq<Seq<char>>) -> Seq<char>
    decreases ws.len(),
{
    if ws.len() == 0 {
        Seq::empty()
    } else if ws.len() == 1 {
        ws[0]
    } else {
        joined(ws.drop_last()) + seq![' '] + ws.last()
    }
}

impl DabVerb {
    /// The script line for the verb, `sdr dab` and its words: what a
    /// script writes to do the same thing.
    pub fn script_line(&self) -> (line: String)
        ensures
            line@ == "sdr dab "@ + joined(verb_words(*self)),
    {
        let mut s = String::new();
        push_str(&mut s, "sdr dab ");
        let ghost head = s@;
        match self {
            DabVerb::On => push_str(&mut s, "on"),
            DabVerb::Off => push_str(&mut s, "off"),
            DabVerb::Reset => push_str(&mut s, "reset"),
            DabVerb::Play => push_str(&mut s, "play"),
            DabVerb::Stop => push_str(&mut s, "stop"),
            DabVerb::Service(c) => {
                push_str(&mut s, "service");
                push_char(&mut s, ' ');
                match c {
                    DabService::Sid(sid) => push_decimal(&mut s, *sid as u64),
                    DabService::Index(n) => {
                        push_char(&mut s, '#');
                        push_decimal(&mut s, *n as u64);
                    },
                }
            },
            DabVerb::Channel(ch) => {
                push_str(&mut s, "channel");
                push_char(&mut s, ' ');
                match ch {
                    DabChannel::Next => push_str(&mut s, "next"),
                    DabChannel::Prev => push_str(&mut s, "prev"),
                    DabChannel::Label(l) => push_str(&mut s, l.as_str()),
                }
            },
        }
        proof {
            let ws = verb_words(*self);
            if ws.len() == 2 {
                assert(ws.drop_last() =~= seq![ws[0]]);
                assert(joined(ws.drop_last()) == ws[0]);
            }
            assert(s@ =~= head + joined(ws));
        }
        s
    }
}

/// The verb words are told apart.
proof fn lemma_verb_words_differ()
    ensures
        "off"@ != "on"@,
        "reset"@ != "on"@ && "reset"@ != "off"@,
        "play"@ != "on"@ && "play"@ != "off"@ && "play"@ != "reset"@,
        "stop"@ != "on"@ && "stop"@ != "off"@ && "stop"@ != "reset"@ && "stop"@ != "play"@,
        "service"@ != "on"@ && "service"@ != "off"@ && "service"@ != "reset"@ && "service"@
            != "play"@ && "service"@ != "stop"@,
        "channel"@ != "on"@ && "channel"@ != "off"@ && "channel"@ != "reset"@ && "channel"@
            != "play"@ && "channel"@ != "stop"@ && "channel"@ != "service"@,
        "prev"@ != "next"@,
{
    reveal_strlit("on");
    reveal_strlit("off");
    reveal_strlit("reset");
    reveal_strlit("play");
    reveal_strlit("stop");
    reveal_strlit("service");
    reveal_strlit("channel");
    reveal_strlit("next");
    reveal_strlit("prev");
    assert("on"@.len() == 2);
    assert("off"@.len() == 3);
    assert("reset"@.len() == 5);
    assert("play"@.len() == 4);
    assert("stop"@.len() == 4);
    assert("service"@.len() == 7);
    assert("channel"@.len() == 7);
    assert("stop"@[0] != "play"@[0]);
    assert("channel"@[0] != "service"@[0]);
    assert("prev"@[0] != "next"@[0]);
}

/// **Script parity.** Every `sdr dab` verb prints as words that parse back
/// to the same verb. The one exception a label cannot escape is being read
/// as a raster step: a block label `next` or `prev` is not a label.
pub proof fn lemma_dab_verbs_round_trip(v: DabVerb)
    requires
        v matches DabVerb::Channel(DabChannel::Label(l)) ==> l@ != "next"@ && l@ != "prev"@,
    ensures
        dab_parse(verb_words(v)) == Ok::<VerbView, Seq<char>>(verb_view(v)),
{
    lemma_verb_words_differ();
    match v {
        DabVerb::Service(DabService::Sid(sid)) => {
            lemma_decimal_u16_reads_back(sid);
            lemma_decimal_reads_back(sid as nat);
            let s = decimal(sid as nat);
            assert(s[0] as int >= 48);
            assert(s[0] != '#');
            if s.len() >= 2 {
                assert(s[1] as int <= 57);
                assert(s[1] != 'x' && s[1] != 'X');
            }
            assert(!hex_prefixed(s));
            assert(service_choice(s) == Ok::<DabService, Seq<char>>(DabService::Sid(sid)));
        },
        DabVerb::Service(DabService::Index(n)) => {
            lemma_decimal_u16_reads_back(n);
            let s = seq!['#'] + decimal(n as nat);
            assert(s.drop_first() =~= decimal(n as nat));
        },
        _ => {},
    }
}

/// **Each verb word names its own verb.** Whatever follows it, the word
/// `on` switches the receiver on, `off` off, `reset` resets it, `play` and
/// `stop` start and stop the transport, and `channel next|prev` step the
/// raster that way; and each of those verbs prints as its own word, so a
/// script line reads as the verb it names, not merely as some verb that
/// prints the same.
pub proof fn lemma_each_verb_word_names_its_verb(ws: Seq<Seq<char>>)
    requires
        ws.len() >= 1,
    ensures
        ws[0] == "on"@ ==> dab_parse(ws) == Ok::<VerbView, Seq<char>>(VerbView::On),
        ws[0] == "off"@ ==> dab_parse(ws) == Ok::<VerbView, Seq<char>>(VerbView::Off),
        ws[0] == "reset"@ ==> dab_parse(ws) == Ok::<VerbView, Seq<char>>(VerbView::Reset),
        ws[0] == "play"@ ==> dab_parse(ws) == Ok::<VerbView, Seq<char>>(VerbView::Play),
        ws[0] == "stop"@ ==> dab_parse(ws) == Ok::<VerbView, Seq<char>>(VerbView::Stop),
        ws.len() >= 2 && ws[0] == "channel"@ && ws[1] == "next"@ ==> dab_parse(ws) == Ok::<
            VerbView,
            Seq<char>,
        >(VerbView::Next),
        ws.len() >= 2 && ws[0] == "channel"@ && ws[1] == "prev"@ ==> dab_parse(ws) == Ok::<
            VerbView,
            Seq<char>,
        >(VerbView::Prev),
        joined(verb_words(DabVerb::On)) == "on"@,
        joined(verb_words(DabVerb::Off)) == "off"@,
        joined(verb_words(DabVerb::Reset)) == "reset"@,
        joined(verb_words(DabVerb::Play)) == "play"@,
        joined(verb_words(DabVerb::Stop)) == "stop"@,
        joined(verb_words(DabVerb::Channel(DabChannel::Next))) == "channel next"@,
        joined(verb_words(DabVerb::Channel(DabChannel::Prev))) == "channel prev"@,
{
    lemma_verb_words_differ();
    reveal_strlit("channel next");
    reveal_strlit("channel prev");
    reveal_strlit("channel");
    reveal_strlit("next");
    reveal_strlit("prev");
    let n = seq!["channel"@, "next"@];
    assert(n.drop_last() =~= seq!["channel"@]);
    assert(joined(seq!["channel"@]) == "channel"@);
    assert(joined(n) == "channel"@ + seq![' '] + "next"@);
    assert("channel"@ + seq![' '] + "next"@ =~= "channel next"@);
    let p = seq!["channel"@, "prev"@];
    assert(p.drop_last() =~= seq!["channel"@]);
    assert(joined(seq!["channel"@]) == "channel"@);
    assert(joined(p) == "channel"@ + seq![' '] + "prev"@);
    assert("channel"@ + seq![' '] + "prev"@ =~= "channel prev"@);
}

/// `sim iq --seed <n>`, read from the words after `sim`: the seed, `bad
/// seed` when it is not a 64-bit number, or the usage when the first two
/// words are not `iq --seed`.
pub open spec fn sim_parse(ws: Seq<Seq<char>>) -> Result<u64, Seq<char>> {
    if ws.len() < 2 {
        Err(missing_argument())
    } else if !(ws[0] == "iq"@ && ws[1] == "--seed"@) {
        Err("expected: sim iq --seed <n>"@)
    } else if ws.len() < 3 {
        Err(missing_argument())
    } else {
        match u64_in_radix(ws[2], 10) {
            Some(n) => Ok(n),
            None => Err("bad seed"@),
        }
    }
}

/// `sim iq --seed <n>`: the seed the generating backend is sent.
pub fn parse_sim(words: &[&str]) -> (r: Result<u64, String>)
    ensures
        match sim_parse(words_view(words@)) {
            Ok(n) => r == Ok::<u64, String>(n),
            Err(e) => r is Err && r->Err_0@ == e,
        },
{
    let ghost ws = words_view(words@);
    if words.len() < 2 {
        return Err(missing());
    }
    assert(ws[0] == words[0]@ && ws[1] == words[1]@);
    if !(same_text(words[0], "iq") && same_text(words[1], "--seed")) {
        let mut m = String::new();
        push_str(&mut m, "expected: sim iq --seed <n>");
        return Err(m);
    }
    if words.len() < 3 {
        return Err(missing());
    }
    let w = words[2];
    assert(ws[2] == w@);
    assert(w@.skip(0) =~= w@);
    match parse_u64(w, 0, 10) {
        Some(n) => Ok(n),
        None => {
            let mut m = String::new();
            push_str(&mut m, "bad seed");
            Err(m)
        },
    }
}

/// `instrument scope|sdr`, read from the word after `instrument`: whether
/// the SDR is wanted.
pub open spec fn instrument_parse(ws: Seq<Seq<char>>) -> Result<bool, Seq<char>> {
    if ws.len() == 0 {
        Err(missing_argument())
    } else if ws[0] == "sdr"@ {
        Ok(true)
    } else if ws[0] == "scope"@ {
        Ok(false)
    } else {
        Err("unknown instrument "@ + str_debug(ws[0]) + "; use scope|sdr"@)
    }
}

/// `instrument scope|sdr`: `true` switches to the SDR.
pub fn parse_instrument(words: &[&str]) -> (r: Result<bool, String>)
    ensures
        match instrument_parse(words_view(words@)) {
            Ok(b) => r == Ok::<bool, String>(b),
            Err(e) => r is Err && r->Err_0@ == e,
        },
{
    let ghost ws = words_view(words@);
    if words.len() == 0 {
        return Err(missing());
    }
    let w = words[0];
    assert(ws[0] == w@);
    if same_text(w, "sdr") {
        Ok(true)
    } else if same_text(w, "scope") {
        Ok(false)
    } else {
        let mut m = String::new();
        push_str(&mut m, "unknown instrument ");
        let q = debug_str(w);
        push_str(&mut m, q.as_str());
        push_str(&mut m, "; use scope|sdr");
        Err(m)
    }
}

/// The script line that sets the generating backend's seed.
pub fn seed_script_line(seed: u64) -> (line: String)
    ensures
        line@ == "sim iq --seed "@ + decimal(seed as nat),
{
    let mut s = String::new();
    push_str(&mut s, "sim iq --seed ");
    push_decimal(&mut s, seed);
    s
}

/// The script line that switches instrument.
pub fn instrument_script_line(sdr: bool) -> (line: String)
    ensures
        line@ == "instrument "@ + (if sdr {
            "sdr"@
        } else {
            "scope"@
        }),
{
    let mut s = String::new();
    push_str(&mut s, "instrument ");
    if sdr {
        push_str(&mut s, "sdr");
    } else {
        push_str(&mut s, "scope");
    }
    s
}

/// **Script parity** for the seed and the instrument switch: the words
/// their script lines print parse back to the same seed and instrument.
pub proof fn lemma_seed_and_instrument_round_trip(seed: u64, sdr: bool)
    ensures
        sim_parse(seq!["iq"@, "--seed"@, decimal(seed as nat)]) == Ok::<u64, Seq<char>>(seed),
        instrument_parse(
            seq![
                if sdr {
                    "sdr"@
                } else {
                    "scope"@
                },
            ],
        ) == Ok::<bool, Seq<char>>(sdr),
{
    lemma_decimal_u64_reads_back(seed);
    reveal_strlit("sdr");
    reveal_strlit("scope");
    assert("sdr"@.len() == 3);
    assert("scope"@.len() == 5);
}

/// The block a raster step lands on, by position in the Band III raster of
/// `count` blocks: from block `i`, `next` is the following block and
/// `prev` the one before, wrapping at either end; off the raster, `next`
/// starts at the first block and `prev` at the last. `None` when the raster
/// is empty.
pub open spec fn raster_target(current: Option<usize>, count: nat, next: bool) -> Option<nat> {
    if count == 0 {
        None
    } else {
        match current {
            Some(i) => if next {
                if i + 1 < count {
                    Some((i + 1) as nat)
                } else {
                    Some(0)
                }
            } else {
                if i == 0 {
                    Some((count - 1) as nat)
                } else {
                    Some((i - 1) as nat)
                }
            },
            None => if next {
                Some(0)
            } else {
                Some((count - 1) as nat)
            },
        }
    }
}

/// `sdr dab channel next|prev`: the raster position to land on, given the
/// position of the block the hardware sits on (`None` off the raster).
pub fn raster_step(current: Option<usize>, count: usize, next: bool) -> (r: Option<usize>)
    requires
        current matches Some(i) ==> i < count,
    ensures
        match raster_target(current, count as nat, next) {
            Some(t) => r == Some(t as usize),
            None => r is None,
        },
{
    if count == 0 {
        return None;
    }
    match current {
        Some(i) => if next {
            if i + 1 < count {
                Some(i + 1)
            } else {
                Some(0)
            }
        } else {
            if i == 0 {
                Some(count - 1)
            } else {
                Some(i - 1)
            }
        },
        None => if next {
            Some(0)
        } else {
            Some(count - 1)
        },
    }
}

/// A step forward and a step back land on the block the hardware sat on,
/// and every step stays on the raster.
pub proof fn lemma_raster_steps_undo(i: usize, count: usize, next: bool)
    requires
        i < count,
    ensures
        raster_target(Some(i), count as nat, next) matches Some(t) && t < count,
        raster_target(Some(i), count as nat, true) matches Some(t) && raster_target(
            Some(t as usize),
            count as nat,
            false,
        ) == Some(i as nat),
        raster_target(Some(i), count as nat, false) matches Some(t) && raster_target(
            Some(t as usize),
            count as nat,
            true,
        ) == Some(i as nat),
{
}

/// The FFT sizes the spectrum offers, in the order the dock lists them.
pub open spec fn fft_sizes() -> Seq<usize> {
    seq![1024, 2048, 4096, 8192, 16384]
}

/// What `sdr fft n` answers: the size, when it is one the spectrum offers,
/// or a refusal that names the list.
pub open spec fn fft_choice(n: usize) -> Result<usize, Seq<char>> {
    if fft_sizes().contains(n) {
        Ok(n)
    } else {
        Err("FFT size "@ + decimal(n as nat) + " not in [1024, 2048, 4096, 8192, 16384]"@)
    }
}

/// Check a `sdr fft` size against the sizes the spectrum offers.
pub fn fft_size(n: usize) -> (r: Result<usize, String>)
    ensures
        match fft_choice(n) {
            Ok(size) => r == Ok::<usize, String>(size),
            Err(e) => r matches Err(m) && m@ == e,
        },
{
    if n == 1024 || n == 2048 || n == 4096 || n == 8192 || n == 16384 {
        assert(fft_sizes().contains(n)) by {
            if n == 1024 {
                assert(fft_sizes()[0] == n);
            } else if n == 2048 {
                assert(fft_sizes()[1] == n);
            } else if n == 4096 {
                assert(fft_sizes()[2] == n);
            } else if n == 8192 {
                assert(fft_sizes()[3] == n);
            } else {
                assert(fft_sizes()[4] == n);
            }
        }
        Ok(n)
    } else {
        let mut m = String::new();
        push_str(&mut m, "FFT size ");
        push_decimal(&mut m, n as u64);
        push_str(&mut m, " not in [1024, 2048, 4096, 8192, 16384]");
        Err(m)
    }
}

/// **The other script words mean what they say.** `instrument sdr` asks for
/// the SDR and `instrument scope` for the scope, whatever follows; `#n`
/// after `service` is the `n`th service and a bare decimal number an `SId`;
/// `sdr fft` takes exactly the sizes 1024, 2048, 4096, 8192 and 16384 and
/// keeps the size it was given.
pub proof fn lemma_script_words_mean_what_they_say(ws: Seq<Seq<char>>, n: u16, size: usize)
    ensures
        ws.len() >= 1 && ws[0] == "sdr"@ ==> instrument_parse(ws) == Ok::<bool, Seq<char>>(true),
        ws.len() >= 1 && ws[0] == "scope"@ ==> instrument_parse(ws) == Ok::<bool, Seq<char>>(
            false,
        ),
        dab_parse(seq!["service"@, seq!['#'] + decimal(n as nat)]) == Ok::<VerbView, Seq<char>>(
            VerbView::Service(DabService::Index(n)),
        ),
        dab_parse(seq!["service"@, decimal(n as nat)]) == Ok::<VerbView, Seq<char>>(
            VerbView::Service(DabService::Sid(n)),
        ),
        (fft_choice(size) is Ok) <==> (size == 1024 || size == 2048 || size == 4096 || size
            == 8192 || size == 16384),
        fft_choice(size) matches Ok(m) ==> m == size,
{
    reveal_strlit("sdr");
    reveal_strlit("scope");
    assert("sdr"@[1] != "scope"@[1]);
    lemma_dab_verbs_round_trip(DabVerb::Service(DabService::Index(n)));
    lemma_dab_verbs_round_trip(DabVerb::Service(DabService::Sid(n)));
    if fft_sizes().contains(size) {
        let k = choose|k: int| 0 <= k < fft_sizes().len() && fft_sizes()[k] == size;
        assert(0 <= k < 5);
    }
    if size == 1024 {
        assert(fft_sizes()[0] == size);
    } else if size == 2048 {
        assert(fft_sizes()[1] == size);
    } else if size == 4096 {
        assert(fft_sizes()[2] == size);
    } else if size == 8192 {
        assert(fft_sizes()[3] == size);
    } else if size == 16384 {
        assert(fft_sizes()[4] == size);
    }
}

/// **A raster step moves one block.** On the raster, `next` lands on the
/// following block and `prev` on the one before, wrapping at either end;
/// off it, `next` starts at the first block and `prev` at the last.
pub proof fn lemma_a_raster_step_moves_one_block(current: Option<usize>, count: nat)
    requires
        count > 0,
        current matches Some(i) ==> i < count,
    ensures
        current matches Some(i) ==> raster_target(current, count, true) == Some(
            ((i + 1) % (count as int)) as nat,
        ),
        current matches Some(i) ==> raster_target(current, count, false) == Some(
            ((i + count - 1) % (count as int)) as nat,
        ),
        current is None ==> raster_target(current, count, true) == Some(0nat),
        current is None ==> raster_target(current, count, false) == Some((count - 1) as nat),
{
    if let Some(i) = current {
        if i + 1 < count {
            assert((i + 1) % (count as int) == i + 1) by (nonlinear_arith)
                requires
                    0 <= i + 1 < count,
            ;
        } else {
            assert((i + 1) % (count as int) == 0) by (nonlinear_arith)
                requires
                    i + 1 == count,
                    count > 0,
            ;
        }
        if i == 0 {
            assert((i + count - 1) % (count as int) == count - 1) by (nonlinear_arith)
                requires
                    i == 0,
                    count > 0,
            ;
        } else {
            assert((i + count - 1) % (count as int) == i - 1) by (nonlinear_arith)
                requires
                    1 <= i < count,
            ;
        }
    }
}

} // verus!
