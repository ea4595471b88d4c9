//! The `rf-dab` scene's DLS programme: song/artist labels carried as X-PAD
//! data groups, one PAD region per logical frame, at the end of each
//! frame's payload (EN 300 401 clause 7.4).

use vstd::prelude::*;

use crate::scene::DLS_TEXTS;

verus! {

// ---------------------------------------------------------------------------
// The annex-E CRC: generator x^16 + x^12 + x^5 + 1, register preset to all
// ones, bits taken most significant first, the result inverted.
// ---------------------------------------------------------------------------

/// One bit through the CRC register.
pub open spec fn crc_bit(reg: u16, bit: u16) -> u16 {
    if ((reg >> 15u16) ^ bit) == 1u16 {
        (reg << 1u16) ^ 0x1021u16
    } else {
        reg << 1u16
    }
}

/// The register after the first `n` bits of `b`, most significant first.
pub open spec fn crc_bits(reg: u16, b: u8, n: nat) -> u16
    decreases n,
{
    if n == 0 {
        reg
    } else {
        crc_bit(crc_bits(reg, b, (n - 1) as nat), ((b >> ((8 - n) as u8)) & 1u8) as u16)
    }
}

/// The register after the bytes of `data`, in order.
pub open spec fn crc_register(reg: u16, data: Seq<u8>) -> u16
    decreases data.len(),
{
    if data.len() == 0 {
        reg
    } else {
        crc_register(crc_bits(reg, data[0], 8), data.drop_first())
    }
}

/// The annex-E CRC word of `data`, as transmitted.
pub open spec fn spec_crc16(data: Seq<u8>) -> u16 {
    crc_register(0xFFFFu16, data) ^ 0xFFFFu16
}

fn crc_byte(reg: u16, b: u8) -> (out: u16)
    ensures
        out == crc_bits(reg, b, 8),
{
    let mut r = reg;
    let mut i: u8 = 0;
    while i < 8
        invariant
            i <= 8,
            r == crc_bits(reg, b, i as nat),
        decreases 8 - i,
    {
        let bit = ((b >> (7 - i)) & 1u8) as u16;
        assert(((b >> ((8 - (i + 1) as nat) as u8)) & 1u8) as u16 == bit);
        r = if ((r >> 15u16) ^ bit) == 1u16 {
            (r << 1u16) ^ 0x1021u16
        } else {
            r << 1u16
        };
        i = i + 1;
    }
    r
}

/// The annex-E CRC of `data`.
pub fn crc16(data: &[u8]) -> (crc: u16)
    ensures
        crc == spec_crc16(data@),
{
    let mut reg: u16 = 0xFFFF;
    let mut i: usize = 0;
    assert(data@.skip(0) =~= data@);
    while i < data.len()
        invariant
            i <= data@.len(),
            crc_register(0xFFFFu16, data@) == crc_register(reg, data@.skip(i as int)),
        decreases data@.len() - i,
    {
        assert(data@.skip(i as int).drop_first() =~= data@.skip(i + 1));
        reg = crc_byte(reg, data[i]);
        i = i + 1;
    }
    assert(data@.skip(i as int).len() == 0);
    reg ^ 0xFFFF
}

// ---------------------------------------------------------------------------
// Logical frames and DLS data groups
// ---------------------------------------------------------------------------

/// `n` zero bytes.
pub open spec fn zeros(n: nat) -> Seq<u8> {
    Seq::new(n, |i: int| 0u8)
}

/// A logical frame's payload: zero fill, then the PAD region at the end.
pub open spec fn spec_frame_payload(region: Seq<u8>, size: nat) -> Seq<u8> {
    zeros((size - region.len()) as nat) + region
}

/// A logical frame's payload: the PAD region sits at the **end**, the way
/// DAB MPEG-1 Layer II carries ancillary data (clause 7.4.0); the zero fill
/// before it is never reached by the parser.
pub fn frame_payload(region: &[u8], size: usize) -> (payload: Vec<u8>)
    requires
        region@.len() <= size,
    ensures
        payload@ == spec_frame_payload(region@, size as nat),
        payload@.len() == size,
{
    let fill = size - region.len();
    let mut payload: Vec<u8> = Vec::with_capacity(size);
    let mut i: usize = 0;
    while i < fill
        invariant
            i <= fill,
            payload@ == zeros(i as nat),
        decreases fill - i,
    {
        payload.push(0u8);
        i = i + 1;
    }
    let mut j: usize = 0;
    while j < region.len()
        invariant
            j <= region@.len(),
            payload@ == zeros(fill as nat) + region@.take(j as int),
        decreases region@.len() - j,
    {
        payload.push(region[j]);
        j = j + 1;
        assert(region@.take(j as int) =~= region@.take((j - 1) as int).push(region@[j - 1]));
    }
    assert(region@.take(j as int) =~= region@);
    payload
}

/// The two-byte DLS segment header (clause 7.4.5.2): toggle, first and
/// last flags and the character count less one; then the segment number,
/// which a first segment does not carry.
pub open spec fn dls_header(toggle: bool, first: bool, last: bool, number: u8, len: nat) -> Seq<u8> {
    seq![
        ((if toggle { 128int } else { 0int }) + (if first { 64int } else { 0int }) + (if last {
            32int
        } else {
            0int
        }) + (len - 1)) as u8,
        if first {
            0u8
        } else {
            ((number % 8) * 16) as u8
        },
    ]
}

/// One DLS data group: the segment header, the characters, and the CRC
/// over both, high byte first.
pub open spec fn spec_dls_group(toggle: bool, first: bool, last: bool, number: u8, text: Seq<u8>) -> Seq<u8> {
    let body = dls_header(toggle, first, last, number, text.len()) + text;
    let crc = spec_crc16(body);
    body + seq![(crc >> 8u16) as u8, (crc % 256) as u8]
}

/// One DLS data group: the segment header, characters and annex-E CRC.
pub fn dls_group(toggle: bool, first: bool, last: bool, number: u8, text: &[u8]) -> (group: Vec<u8>)
    requires
        1 <= text@.len() <= 16,
    ensures
        group@ == spec_dls_group(toggle, first, last, number, text@),
        group@.len() == text@.len() + 4,
{
    let count = (text.len() - 1) as u8;
    // The flags occupy bits 7..5 and the count bits 3..0, so the sum is the
    // bitwise union the header is defined as.
    let b0: u8 = (if toggle { 0x80u8 } else { 0u8 }) + (if first { 0x40u8 } else { 0u8 }) + (
    if last {
        0x20u8
    } else {
        0u8
    }) + count;
    let b1 = if first { 0u8 } else { (number & 0x07) << 4 };
    proof {
        assert(((number & 0x07u8) << 4u8) == (number % 8) * 16) by (bit_vector);
    }
    let mut group: Vec<u8> = Vec::with_capacity(text.len() + 4);
    group.push(b0);
    group.push(b1);
    let mut j: usize = 0;
    while j < text.len()
        invariant
            j <= text@.len(),
            group@ == seq![b0, b1] + text@.take(j as int),
        decreases text@.len() - j,
    {
        group.push(text[j]);
        j = j + 1;
        assert(text@.take(j as int) =~= text@.take((j - 1) as int).push(text@[j - 1]));
    }
    assert(text@.take(j as int) =~= text@);
    assert(group@ =~= dls_header(toggle, first, last, number, text@.len()) + text@);
    let crc = crc16(group.as_slice());
    proof {
        assert((crc >> 8u16) < 256u16) by (bit_vector);
        assert((crc & 0xFFu16) == crc % 256) by (bit_vector);
    }
    group.push((crc >> 8) as u8);
    group.push((crc & 0xFF) as u8);
    group
}

// ---------------------------------------------------------------------------
// PAD regions (clause 7.4.2 / 7.4.4)
// ---------------------------------------------------------------------------

/// DLS application type 2: start of a data group (clause 7.4.3).
pub const APP_DLS_START: u8 = 2;

/// DLS application type 3: continuation of a data group.
pub const APP_DLS_CONT: u8 = 3;

/// The X-PAD sub-field length a CI length code stands for (clause 7.4.4.2).
pub open spec fn xpad_length(code: int) -> int {
    if code == 0 {
        4
    } else if code == 1 {
        6
    } else if code == 2 {
        8
    } else if code == 3 {
        12
    } else if code == 4 {
        16
    } else if code == 5 {
        24
    } else if code == 6 {
        32
    } else {
        48
    }
}

/// The smallest length code whose sub-field holds `len` bytes.
pub open spec fn xpad_code(len: int) -> int {
    if len <= 4 {
        0
    } else if len <= 6 {
        1
    } else if len <= 8 {
        2
    } else if len <= 12 {
        3
    } else if len <= 16 {
        4
    } else if len <= 24 {
        5
    } else if len <= 32 {
        6
    } else {
        7
    }
}

/// A sub-field as data: its application type and its bytes.
pub open spec fn field_view(f: (u8, &[u8])) -> (u8, Seq<u8>) {
    (f.0, f.1@)
}

/// The contents indicator of one sub-field: length code, application type.
pub open spec fn ci_byte(app: u8, len: int) -> u8 {
    ((xpad_code(len) as u8) << 5u8) | app
}

/// A sub-field's bytes, zero-padded to its length code's size.
pub open spec fn padded_field(data: Seq<u8>) -> Seq<u8> {
    data + zeros((xpad_length(xpad_code(data.len() as int)) - data.len()) as nat)
}

/// The contents indicators of all sub-fields, in order.
pub open spec fn ci_list(fields: Seq<(u8, Seq<u8>)>) -> Seq<u8> {
    Seq::new(fields.len(), |i: int| ci_byte(fields[i].0, fields[i].1.len() as int))
}

/// The padded sub-fields, in order.
pub open spec fn field_bodies(fields: Seq<(u8, Seq<u8>)>) -> Seq<u8>
    decreases fields.len(),
{
    if fields.len() == 0 {
        Seq::empty()
    } else {
        field_bodies(fields.drop_last()) + padded_field(fields.last().1)
    }
}

/// The X-PAD field in logical order: contents indicators, the end marker,
/// then the padded sub-fields.
pub open spec fn xpad_field(fields: Seq<(u8, Seq<u8>)>) -> Seq<u8> {
    ci_list(fields) + seq![0u8] + field_bodies(fields)
}

/// One transmission-order PAD region: the X-PAD bytes reversed (clause
/// 7.4.2), then the two F-PAD bytes (type 0, variable size, CI flag set).
pub open spec fn spec_region(fields: Seq<(u8, Seq<u8>)>) -> Seq<u8> {
    xpad_field(fields).reverse() + seq![0x20u8, 0x02u8]
}

fn length_code(len: usize) -> (code: u8)
    requires
        len <= 48,
    ensures
        code as int == xpad_code(len as int),
        code < 8,
{
    if len <= 4 {
        0
    } else if len <= 6 {
        1
    } else if len <= 8 {
        2
    } else if len <= 12 {
        3
    } else if len <= 16 {
        4
    } else if len <= 24 {
        5
    } else if len <= 32 {
        6
    } else {
        7
    }
}

fn code_length(code: u8) -> (len: usize)
    requires
        code < 8,
    ensures
        len as int == xpad_length(code as int),
{
    if code == 0 {
        4
    } else if code == 1 {
        6
    } else if code == 2 {
        8
    } else if code == 3 {
        12
    } else if code == 4 {
        16
    } else if code == 5 {
        24
    } else if code == 6 {
        32
    } else {
        48
    }
}

/// One transmission-order PAD region for `subfields` (application type,
/// bytes), each at most 48 bytes long.
pub fn region(subfields: &[(u8, &[u8])]) -> (out: Vec<u8>)
    requires
        forall|i: int| 0 <= i < subfields@.len() ==> (#[trigger] subfields@[i]).1@.len() <= 48,
    ensures
        out@ == spec_region(subfields@.map_values(|f: (u8, &[u8])| field_view(f))),
{
    let ghost fields = subfields@.map_values(|f: (u8, &[u8])| field_view(f));
    let mut xpad: Vec<u8> = Vec::new();
    let mut i: usize = 0;
    while i < subfields.len()
        invariant
            i <= subfields@.len(),
            fields == subfields@.map_values(|f: (u8, &[u8])| field_view(f)),
            forall|k: int| 0 <= k < subfields@.len() ==> (#[trigger] subfields@[k]).1@.len() <= 48,
            xpad@ == ci_list(fields.take(i as int)),
        decreases subfields@.len() - i,
    {
        let (app, data) = subfields[i];
        let code = length_code(data.len());
        xpad.push((code << 5) | app);
        i = i + 1;
        assert(ci_list(fields.take(i as int)) =~= ci_list(fields.take((i - 1) as int)).push(
            ci_byte(app, data@.len() as int),
        ));
    }
    assert(fields.take(i as int) =~= fields);
    xpad.push(0u8);
    let mut j: usize = 0;
    while j < subfields.len()
        invariant
            j <= subfields@.len(),
            fields == subfields@.map_values(|f: (u8, &[u8])| field_view(f)),
            forall|k: int| 0 <= k < subfields@.len() ==> (#[trigger] subfields@[k]).1@.len() <= 48,
            xpad@ == ci_list(fields) + seq![0u8] + field_bodies(fields.take(j as int)),
        decreases subfields@.len() - j,
    {
        let (_, data) = subfields[j];
        let size = code_length(length_code(data.len()));
        let ghost before = xpad@;
        let mut k: usize = 0;
        while k < data.len()
            invariant
                k <= data@.len(),
                xpad@ == before + data@.take(k as int),
            decreases data@.len() - k,
        {
            xpad.push(data[k]);
            k = k + 1;
            assert(data@.take(k as int) =~= data@.take((k - 1) as int).push(data@[k - 1]));
        }
        assert(data@.take(k as int) =~= data@);
        let mut z: usize = data.len();
        while z < size
            invariant
                data@.len() <= z <= size,
                xpad@ == before + data@ + zeros((z - data@.len()) as nat),
            decreases size - z,
        {
            xpad.push(0u8);
            z = z + 1;
            assert(zeros((z - data@.len()) as nat) =~= zeros((z - 1 - data@.len()) as nat).push(0u8));
        }
        j = j + 1;
        assert(fields.take(j as int).drop_last() =~= fields.take((j - 1) as int));
        assert(xpad@ =~= ci_list(fields) + seq![0u8] + field_bodies(fields.take(j as int)));
    }
    assert(fields.take(j as int) =~= fields);
    let n = xpad.len();
    let mut out: Vec<u8> = Vec::new();
    let mut r: usize = 0;
    while r < n
        invariant
            r <= n,
            n == xpad@.len(),
            out@ =~= Seq::new(r as nat, |q: int| xpad@[n - 1 - q]),
        decreases n - r,
    {
        out.push(xpad[n - 1 - r]);
        r = r + 1;
    }
    assert(out@ =~= xpad@.reverse());
    out.push(0x20u8);
    out.push(0x02u8);
    out
}

// ---------------------------------------------------------------------------
// DLS messages
// ---------------------------------------------------------------------------

/// The byte a label character is sent as: the é is EBU Latin 0x82
/// (charset 0, table 47); every other character is its code point's low
/// byte.
pub open spec fn dls_byte(c: char) -> u8 {
    if c == '\u{e9}' {
        0x82u8
    } else {
        (c as u32 % 256) as u8
    }
}

/// A label's bytes, character by character.
pub open spec fn dls_bytes(text: Seq<char>) -> Seq<u8> {
    text.map_values(|c: char| dls_byte(c))
}

/// `s` cut into runs of 16 bytes, the last one shorter.
pub open spec fn chunks16(s: Seq<u8>) -> Seq<Seq<u8>>
    decreases s.len(),
{
    if s.len() == 0 {
        Seq::empty()
    } else if s.len() <= 16 {
        seq![s]
    } else {
        seq![s.take(16)] + chunks16(s.skip(16))
    }
}

/// A label's DLS segments.
pub open spec fn spec_dls_segments(text: Seq<char>) -> Seq<Seq<u8>> {
    chunks16(dls_bytes(text))
}

proof fn lemma_chunks16_shape(s: Seq<u8>)
    ensures
        s.len() > 0 ==> chunks16(s).len() > 0,
        forall|i: int| 0 <= i < chunks16(s).len() ==> 1 <= #[trigger] chunks16(s)[i].len() <= 16,
    decreases s.len(),
{
    if s.len() > 16 {
        lemma_chunks16_shape(s.skip(16));
        assert forall|i: int| 0 <= i < chunks16(s).len() implies 1 <= #[trigger] chunks16(s)[i].len()
            <= 16 by {
            if i > 0 {
                assert(chunks16(s)[i] == chunks16(s.skip(16))[i - 1]);
            }
        }
    }
}

/// Runs of bytes laid end to end.
pub open spec fn concat_runs(runs: Seq<Seq<u8>>) -> Seq<u8>
    decreases runs.len(),
{
    if runs.len() == 0 {
        Seq::empty()
    } else {
        runs[0] + concat_runs(runs.drop_first())
    }
}

/// A label's segments, laid end to end, are its bytes: nothing is lost,
/// repeated or reordered by the split, and every segment but the last is
/// a full 16 bytes.
pub proof fn lemma_segments_cover_the_label(text: Seq<char>)
    ensures
        concat_runs(spec_dls_segments(text)) == dls_bytes(text),
        forall|i: int|
            0 <= i < spec_dls_segments(text).len() - 1 ==> (#[trigger] spec_dls_segments(
                text,
            )[i]).len() == 16,
{
    lemma_chunks16_concat(dls_bytes(text));
}

proof fn lemma_chunks16_concat(s: Seq<u8>)
    ensures
        concat_runs(chunks16(s)) == s,
        forall|i: int| 0 <= i < chunks16(s).len() - 1 ==> (#[trigger] chunks16(s)[i]).len() == 16,
    decreases s.len(),
{
    if s.len() == 0 {
    } else if s.len() <= 16 {
        let c = chunks16(s);
        assert(c.drop_first() =~= Seq::<Seq<u8>>::empty());
        assert(concat_runs(Seq::<Seq<u8>>::empty()) == Seq::<u8>::empty());
        assert(concat_runs(c) =~= s);
    } else {
        lemma_chunks16_concat(s.skip(16));
        let c = chunks16(s);
        assert(c.drop_first() =~= chunks16(s.skip(16)));
        assert(s.take(16) + s.skip(16) =~= s);
        assert forall|i: int| 0 <= i < c.len() - 1 implies (#[trigger] c[i]).len() == 16 by {
            if i > 0 {
                assert(c[i] == chunks16(s.skip(16))[i - 1]);
            }
        }
    }
}

/// Split a message into at most 16-byte segments. The é is EBU Latin 0x82
/// (charset 0, table 47); the parser's charset decoder returns it as UTF-8.
pub fn dls_segments(text: &str) -> (segments: Vec<Vec<u8>>)
    ensures
        segments@.map_values(|v: Vec<u8>| v@) == spec_dls_segments(text@),
{
    let n = text.unicode_len();
    let mut bytes: Vec<u8> = Vec::with_capacity(n);
    let mut i: usize = 0;
    while i < n
        invariant
            i <= n,
            n == text@.len(),
            bytes@ == dls_bytes(text@.take(i as int)),
        decreases n - i,
    {
        let c = text.get_char(i);
        let b: u8 = if c == '\u{e9}' {
            0x82
        } else {
            ((c as u32) % 256) as u8
        };
        bytes.push(b);
        i = i + 1;
        assert(dls_bytes(text@.take(i as int)) =~= dls_bytes(text@.take((i - 1) as int)).push(b));
    }
    assert(text@.take(i as int) =~= text@);
    let len = bytes.len();
    let mut segments: Vec<Vec<u8>> = Vec::new();
    let mut at: usize = 0;
    assert(bytes@.skip(0) =~= bytes@);
    while at < len
        invariant
            at <= len,
            len == bytes@.len(),
            chunks16(bytes@) == segments@.map_values(|v: Vec<u8>| v@) + chunks16(bytes@.skip(at as int)),
        decreases len - at,
    {
        let end = if len - at <= 16 { len } else { at + 16 };
        let mut chunk: Vec<u8> = Vec::with_capacity(end - at);
        let mut k = at;
        while k < end
            invariant
                at <= k <= end,
                end <= len == bytes@.len(),
                chunk@ == bytes@.subrange(at as int, k as int),
            decreases end - k,
        {
            chunk.push(bytes[k]);
            k = k + 1;
            assert(bytes@.subrange(at as int, k as int) =~= bytes@.subrange(at as int, (k - 1) as int).push(
                bytes@[k - 1],
            ));
        }
        let ghost rest = bytes@.skip(at as int);
        let ghost before = segments@.map_values(|v: Vec<u8>| v@);
        segments.push(chunk);
        assert(segments@.map_values(|v: Vec<u8>| v@) =~= before.push(bytes@.subrange(at as int, end as int)));
        if len - at <= 16 {
            assert(rest =~= bytes@.subrange(at as int, end as int));
            assert(bytes@.skip(end as int).len() == 0);
            assert(chunks16(bytes@.skip(end as int)) =~= Seq::<Seq<u8>>::empty());
        } else {
            assert(rest.take(16) =~= bytes@.subrange(at as int, end as int));
            assert(rest.skip(16) =~= bytes@.skip(end as int));
        }
        at = end;
    }
    assert(bytes@.skip(at as int).len() == 0);
    assert(segments@.map_values(|v: Vec<u8>| v@) + chunks16(bytes@.skip(at as int)) =~= segments@.map_values(
        |v: Vec<u8>| v@,
    ));
    assert(bytes@ == dls_bytes(text@));
    segments
}

/// A message's data groups: one per segment, numbered in order, the first
/// and last flagged.
pub open spec fn message_groups(text: Seq<char>, toggle: bool) -> Seq<Seq<u8>> {
    let segments = spec_dls_segments(text);
    Seq::new(
        segments.len(),
        |i: int|
            spec_dls_group(toggle, i == 0, i == segments.len() - 1, (i % 256) as u8, segments[i]),
    )
}

/// A region holding one whole data group, as a start sub-field.
pub open spec fn start_region(group: Seq<u8>) -> Seq<u8> {
    spec_region(seq![(APP_DLS_START, group)])
}

/// One DLS message as a run of PAD regions. The first data group is split
/// after 12 bytes: its head opens the first region, its tail continues in
/// the second, which also starts the second group; every later group has a
/// region of its own.
pub open spec fn spec_message_frames(text: Seq<char>, toggle: bool) -> Seq<Seq<u8>> {
    let groups = message_groups(text, toggle);
    let first = groups[0];
    let split: int = if first.len() < 12 {
        first.len() as int
    } else {
        12
    };
    let rest = first.skip(split);
    let head = seq![start_region(first.take(split))];
    let second: Seq<Seq<u8>> = if rest.len() > 0 {
        if groups.len() > 1 {
            seq![spec_region(seq![(APP_DLS_CONT, rest), (APP_DLS_START, groups[1])])]
        } else {
            seq![spec_region(seq![(APP_DLS_CONT, rest)])]
        }
    } else if groups.len() > 1 {
        seq![start_region(groups[1])]
    } else {
        Seq::empty()
    };
    let later: nat = if groups.len() > 2 {
        (groups.len() - 2) as nat
    } else {
        0
    };
    head + second + Seq::new(later, |k: int| start_region(groups[k + 2]))
}

/// One DLS message as a run of frames. Data groups are at most 16 characters
/// (8 segments per label); the first group is split across two frames so a
/// data group genuinely spans audio frames.
pub fn message_frames(text: &str, toggle: bool) -> (frames: Vec<Vec<u8>>)
    requires
        text@.len() > 0,
    ensures
        frames@.map_values(|v: Vec<u8>| v@) == spec_message_frames(text@, toggle),
{
    let segments = dls_segments(text);
    let ghost segs = spec_dls_segments(text@);
    proof {
        lemma_chunks16_shape(dls_bytes(text@));
        assert(segs.len() == segments@.len());
    }
    let n = segments.len();
    let mut groups: Vec<Vec<u8>> = Vec::with_capacity(n);
    let mut i: usize = 0;
    while i < n
        invariant
            i <= n,
            n == segments@.len() == segs.len(),
            segs == spec_dls_segments(text@),
            segments@.map_values(|v: Vec<u8>| v@) == segs,
            forall|k: int| 0 <= k < segs.len() ==> 1 <= #[trigger] segs[k].len() <= 16,
            groups@.map_values(|v: Vec<u8>| v@) =~= message_groups(text@, toggle).take(i as int),
        decreases n - i,
    {
        assert(segments@[i as int]@ == segs[i as int]);
        let g = dls_group(toggle, i == 0, i == n - 1, (i % 256) as u8, segments[i].as_slice());
        let ghost before = groups@.map_values(|v: Vec<u8>| v@);
        assert(g@ == message_groups(text@, toggle)[i as int]);
        groups.push(g);
        assert(groups@.map_values(|v: Vec<u8>| v@) =~= before.push(g@));
        assert(message_groups(text@, toggle).take(i + 1) =~= message_groups(text@, toggle).take(
            i as int,
        ).push(g@));
        i = i + 1;
    }
    assert(message_groups(text@, toggle).take(i as int) =~= message_groups(text@, toggle));
    let ghost gs = message_groups(text@, toggle);
    assert(groups@.map_values(|v: Vec<u8>| v@) == gs);
    assert(dls_bytes(text@).len() > 0);
    assert(n >= 1);
    assert(groups@[0]@ == gs[0]);
    let first = groups[0].as_slice();
    let split: usize = if first.len() < 12 { first.len() } else { 12 };
    let mut regions: Vec<Vec<u8>> = Vec::new();
    let head: Vec<(u8, &[u8])> = vec![(APP_DLS_START, &first[0..split])];
    assert(head@.map_values(|f: (u8, &[u8])| field_view(f)) =~= seq![(APP_DLS_START, gs[0].take(split as int))]);
    regions.push(region(head.as_slice()));
    let rest = &first[split..first.len()];
    assert(rest@ =~= gs[0].skip(split as int));
    if rest.len() > 0 {
        let mut second: Vec<(u8, &[u8])> = vec![(APP_DLS_CONT, rest)];
        if n > 1 {
            assert(groups@[1]@ == gs[1]);
            second.push((APP_DLS_START, groups[1].as_slice()));
            assert(second@.map_values(|f: (u8, &[u8])| field_view(f)) =~= seq![
                (APP_DLS_CONT, gs[0].skip(split as int)),
                (APP_DLS_START, gs[1]),
            ]);
        } else {
            assert(second@.map_values(|f: (u8, &[u8])| field_view(f)) =~= seq![
                (APP_DLS_CONT, gs[0].skip(split as int)),
            ]);
        }
        regions.push(region(second.as_slice()));
    } else if n > 1 {
        assert(groups@[1]@ == gs[1]);
        let second: Vec<(u8, &[u8])> = vec![(APP_DLS_START, groups[1].as_slice())];
        assert(second@.map_values(|f: (u8, &[u8])| field_view(f)) =~= seq![(APP_DLS_START, gs[1])]);
        regions.push(region(second.as_slice()));
    }
    let ghost lead = regions@.map_values(|v: Vec<u8>| v@);
    let mut g: usize = 2;
    while g < n
        invariant
            2 <= g,
            g <= n || (n < 2 && g == 2),
            n == groups@.len(),
            groups@.map_values(|v: Vec<u8>| v@) == gs,
            gs.len() == n,
            regions@.map_values(|v: Vec<u8>| v@) =~= lead + Seq::new(
                (g - 2) as nat,
                |k: int| start_region(gs[k + 2]),
            ),
            forall|k: int| 0 <= k < n ==> (#[trigger] gs[k]).len() <= 20,
        decreases n - g,
    {
        assert(groups@[g as int]@ == gs[g as int]);
        let fields: Vec<(u8, &[u8])> = vec![(APP_DLS_START, groups[g].as_slice())];
        assert(fields@.map_values(|f: (u8, &[u8])| field_view(f)) =~= seq![(APP_DLS_START, gs[g as int])]);
        let r = region(fields.as_slice());
        let ghost before = regions@.map_values(|v: Vec<u8>| v@);
        regions.push(r);
        assert(regions@.map_values(|v: Vec<u8>| v@) =~= before.push(r@));
        assert(r@ == start_region(gs[g as int]));
        g = g + 1;
    }
    regions
}

// ---------------------------------------------------------------------------
// Region sizes
// ---------------------------------------------------------------------------

/// No PAD region of a DLS message is longer than this: a 12-byte head, or
/// an 8-byte tail beside a whole 20-byte group (2 + 1 + 8 + 24 + 2 bytes).
pub const REGION_MAX: usize = 37;

proof fn lemma_reverse_len(s: Seq<u8>)
    ensures
        s.reverse().len() == s.len(),
{
}

proof fn lemma_region_one(app: u8, d: Seq<u8>)
    requires
        d.len() <= 48,
    ensures
        spec_region(seq![(app, d)]).len() == 4 + xpad_length(xpad_code(d.len() as int)),
{
    let f = seq![(app, d)];
    assert(f.drop_last() =~= Seq::<(u8, Seq<u8>)>::empty());
    assert(field_bodies(f.drop_last()) =~= Seq::<u8>::empty());
    assert(field_bodies(f) =~= padded_field(d));
    lemma_reverse_len(xpad_field(f));
}

proof fn lemma_region_two(a1: u8, d1: Seq<u8>, a2: u8, d2: Seq<u8>)
    requires
        d1.len() <= 48,
        d2.len() <= 48,
    ensures
        spec_region(seq![(a1, d1), (a2, d2)]).len() == 5 + xpad_length(xpad_code(d1.len() as int))
            + xpad_length(xpad_code(d2.len() as int)),
{
    let f = seq![(a1, d1), (a2, d2)];
    assert(f.drop_last() =~= seq![(a1, d1)]);
    assert(f.drop_last().drop_last() =~= Seq::<(u8, Seq<u8>)>::empty());
    assert(field_bodies(f.drop_last().drop_last()) =~= Seq::<u8>::empty());
    assert(field_bodies(f.drop_last()) =~= padded_field(d1));
    assert(field_bodies(f) =~= padded_field(d1) + padded_field(d2));
    lemma_reverse_len(xpad_field(f));
}

/// The tail every region of a DLS message ends in: the F-PAD bytes.
proof fn lemma_region_tail(f: Seq<(u8, Seq<u8>)>)
    ensures
        spec_region(f).len() >= 2,
        spec_region(f)[spec_region(f).len() - 2] == 0x20u8,
        spec_region(f)[spec_region(f).len() - 1] == 0x02u8,
{
}

/// Every region of a DLS message fits `REGION_MAX` bytes.
pub proof fn lemma_message_regions_fit(text: Seq<char>, toggle: bool)
    requires
        text.len() > 0,
    ensures
        spec_message_frames(text, toggle).len() >= 1,
        forall|i: int|
            0 <= i < spec_message_frames(text, toggle).len() ==> (#[trigger] spec_message_frames(
                text,
                toggle,
            )[i]).len() <= REGION_MAX,
        forall|i: int|
            0 <= i < spec_message_frames(text, toggle).len() ==> {
                let r = #[trigger] spec_message_frames(text, toggle)[i];
                &&& r.len() >= 2
                &&& r[r.len() - 2] == 0x20u8
                &&& r[r.len() - 1] == 0x02u8
            },
{
    lemma_chunks16_shape(dls_bytes(text));
    let groups = message_groups(text, toggle);
    let segs = spec_dls_segments(text);
    assert(groups.len() >= 1);
    assert forall|k: int| 0 <= k < groups.len() implies 5 <= (#[trigger] groups[k]).len() <= 20 by {
        assert(1 <= segs[k].len() <= 16);
    }
    let first = groups[0];
    let split: int = if first.len() < 12 {
        first.len() as int
    } else {
        12
    };
    let rest = first.skip(split);
    lemma_region_one(APP_DLS_START, first.take(split));
    if rest.len() > 0 {
        if groups.len() > 1 {
            lemma_region_two(APP_DLS_CONT, rest, APP_DLS_START, groups[1]);
        } else {
            lemma_region_one(APP_DLS_CONT, rest);
        }
    } else if groups.len() > 1 {
        lemma_region_one(APP_DLS_START, groups[1]);
    }
    let frames = spec_message_frames(text, toggle);
    assert forall|i: int| 0 <= i < frames.len() implies (#[trigger] frames[i]).len() <= REGION_MAX by {
        let second_len: int = if rest.len() > 0 || groups.len() > 1 {
            1
        } else {
            0
        };
        if i >= 1 + second_len {
            let k = i - 1 - second_len;
            lemma_region_one(APP_DLS_START, groups[k + 2]);
        }
    }
    assert forall|i: int| 0 <= i < frames.len() implies {
        let r = #[trigger] frames[i];
        &&& r.len() >= 2
        &&& r[r.len() - 2] == 0x20u8
        &&& r[r.len() - 1] == 0x02u8
    } by {
        let second_len: int = if rest.len() > 0 || groups.len() > 1 {
            1
        } else {
            0
        };
        if i == 0 {
            lemma_region_tail(seq![(APP_DLS_START, first.take(split))]);
        } else if i < 1 + second_len {
            if rest.len() > 0 {
                if groups.len() > 1 {
                    lemma_region_tail(seq![(APP_DLS_CONT, rest), (APP_DLS_START, groups[1])]);
                } else {
                    lemma_region_tail(seq![(APP_DLS_CONT, rest)]);
                }
            } else {
                lemma_region_tail(seq![(APP_DLS_START, groups[1])]);
            }
        } else {
            lemma_region_tail(seq![(APP_DLS_START, groups[i - 1 - second_len + 2])]);
        }
    }
}

/// Data group `k` of a label: segment `k` with its header and CRC, the
/// first and the last flagged.
pub open spec fn label_group(text: Seq<char>, toggle: bool, k: int) -> Seq<u8> {
    let segs = spec_dls_segments(text);
    spec_dls_group(toggle, k == 0, k == segs.len() - 1, (k % 256) as u8, segs[k])
}

/// **Every data group of a message is sent.** A label of `n >= 2` DLS
/// segments goes out as exactly `n` PAD regions: the first group's first
/// 12 bytes, then the rest of it beside the second group whole, then each
/// later group whole in a region of its own, so the group flagged last
/// always reaches the receiver.
pub proof fn lemma_every_group_is_sent(text: Seq<char>, toggle: bool)
    requires
        spec_dls_segments(text).len() >= 2,
    ensures
        spec_message_frames(text, toggle).len() == spec_dls_segments(text).len(),
        spec_message_frames(text, toggle)[0] == spec_region(
            seq![(APP_DLS_START, label_group(text, toggle, 0).take(12))],
        ),
        spec_message_frames(text, toggle)[1] == spec_region(
            seq![
                (APP_DLS_CONT, label_group(text, toggle, 0).skip(12)),
                (APP_DLS_START, label_group(text, toggle, 1)),
            ],
        ),
        forall|k: int|
            2 <= k < spec_dls_segments(text).len() ==> #[trigger] spec_message_frames(
                text,
                toggle,
            )[k] == spec_region(seq![(APP_DLS_START, label_group(text, toggle, k))]),
{
    let segs = spec_dls_segments(text);
    let n = segs.len();
    lemma_segments_cover_the_label(text);
    assert(segs[0].len() == 16);
    let groups = message_groups(text, toggle);
    assert(groups[0] == label_group(text, toggle, 0));
    assert(groups[1] == label_group(text, toggle, 1));
    assert(dls_header(toggle, true, false, 0u8, 16).len() == 2);
    assert(groups[0].len() == 20);
    let frames = spec_message_frames(text, toggle);
    assert(frames.len() == n);
    assert forall|k: int| 2 <= k < n implies #[trigger] frames[k] == spec_region(
        seq![(APP_DLS_START, label_group(text, toggle, k))],
    ) by {
        assert(frames[k] == start_region(groups[k]));
        assert(groups[k] == label_group(text, toggle, k));
    }
}

// ---------------------------------------------------------------------------
// The programme
// ---------------------------------------------------------------------------

/// The label message `k` of the programme carries: the labels in turn.
pub open spec fn programme_label(k: nat) -> Seq<char> {
    DLS_TEXTS[(k % 3) as int]@
}

/// Message `k`'s logical frames: its regions, each at the end of a
/// `size`-byte payload, under the toggle of its parity (clause 7.4.5.2: a
/// change of message inverts it).
pub open spec fn message_payloads(k: nat, size: nat) -> Seq<Seq<u8>> {
    spec_message_frames(programme_label(k), k % 2 == 1).map_values(
        |r: Seq<u8>| spec_frame_payload(r, size),
    )
}

/// The logical frames of the programme's first `k` messages.
pub open spec fn programme(k: nat, size: nat) -> Seq<Seq<u8>>
    decreases k,
{
    if k == 0 {
        Seq::empty()
    } else {
        programme((k - 1) as nat, size) + message_payloads((k - 1) as nat, size)
    }
}

proof fn lemma_labels_nonempty(k: nat)
    ensures
        programme_label(k).len() > 0,
{
    reveal_strlit("Now playing: Caf\u{e9} - Perfect Day");
    reveal_strlit("Neowon Radio - rf-dab test");
    reveal_strlit("DLS from the virtual ensemble");
}

proof fn lemma_programme_grows(k: nat, size: nat)
    ensures
        programme(k, size).len() >= k,
    decreases k,
{
    if k > 0 {
        lemma_programme_grows((k - 1) as nat, size);
        lemma_labels_nonempty((k - 1) as nat);
        lemma_message_regions_fit(programme_label((k - 1) as nat), (k - 1) as nat % 2 == 1);
    }
}

proof fn lemma_programme_prefix(j: nat, k: nat, size: nat)
    requires
        j <= k,
    ensures
        programme(j, size).len() <= programme(k, size).len(),
        programme(k, size).take(programme(j, size).len() as int) =~= programme(j, size),
    decreases k,
{
    if j < k {
        lemma_programme_prefix(j, (k - 1) as nat, size);
        let p = programme((k - 1) as nat, size);
        let q = programme(j, size);
        assert(programme(k, size).take(q.len() as int) =~= p.take(q.len() as int));
    }
}

/// The DLS frame program: `count` logical frames of `size` bytes, each
/// carrying one PAD region. The toggle alternates per message, as clause
/// 7.4.5.2 defines (a change of message inverts it), so the parser can
/// tell messages apart.
pub fn dls_payloads(count: usize, size: usize) -> (payloads: Vec<Vec<u8>>)
    requires
        count == 0 || size >= REGION_MAX,
    ensures
        payloads@.len() == count,
        payloads@.map_values(|v: Vec<u8>| v@) == programme(count as nat, size as nat).take(
            count as int,
        ),
        forall|i: int|
            0 <= i < count ==> {
                let p = (#[trigger] payloads@[i])@;
                &&& p.len() == size
                &&& p[size - 2] == 0x20u8
                &&& p[size - 1] == 0x02u8
            },
{
    let mut payloads: Vec<Vec<u8>> = Vec::with_capacity(count);
    let mut toggle = false;
    let mut text: usize = 0;
    let ghost mut k: nat = 0;
    while payloads.len() < count
        invariant
            count == 0 || size >= REGION_MAX,
            payloads@.map_values(|v: Vec<u8>| v@) == programme(k, size as nat),
            toggle == (k % 2 == 1),
            text == k % 3,
            forall|i: int|
                0 <= i < payloads@.len() ==> {
                    let p = (#[trigger] payloads@[i])@;
                    &&& p.len() == size
                    &&& p[size - 2] == 0x20u8
                    &&& p[size - 1] == 0x02u8
                },
        decreases (if payloads@.len() < count {
            count - payloads@.len()
        } else {
            0
        }),
    {
        proof {
            lemma_labels_nonempty(k);
            lemma_message_regions_fit(programme_label(k), toggle);
        }
        let frames = message_frames(DLS_TEXTS[text], toggle);
        let ghost regions = spec_message_frames(programme_label(k), toggle);
        assert(frames@.map_values(|v: Vec<u8>| v@) == regions);
        let ghost start = payloads@.map_values(|v: Vec<u8>| v@);
        let mut f: usize = 0;
        while f < frames.len()
            invariant
                f <= frames@.len(),
                frames@.map_values(|v: Vec<u8>| v@) == regions,
                size >= REGION_MAX,
                forall|i: int| 0 <= i < regions.len() ==> (#[trigger] regions[i]).len() <= REGION_MAX,
                forall|i: int|
                    0 <= i < regions.len() ==> {
                        let r = #[trigger] regions[i];
                        &&& r.len() >= 2
                        &&& r[r.len() - 2] == 0x20u8
                        &&& r[r.len() - 1] == 0x02u8
                    },
                payloads@.map_values(|v: Vec<u8>| v@) =~= start + regions.take(f as int).map_values(
                    |r: Seq<u8>| spec_frame_payload(r, size as nat),
                ),
                forall|i: int|
                    0 <= i < payloads@.len() ==> {
                        let p = (#[trigger] payloads@[i])@;
                        &&& p.len() == size
                        &&& p[size - 2] == 0x20u8
                        &&& p[size - 1] == 0x02u8
                    },
            decreases frames@.len() - f,
        {
            assert(frames@[f as int]@ == regions[f as int]);
            let payload = frame_payload(frames[f].as_slice(), size);
            let ghost before = payloads@.map_values(|v: Vec<u8>| v@);
            payloads.push(payload);
            assert(payloads@.map_values(|v: Vec<u8>| v@) =~= before.push(payload@));
            assert(regions.take(f + 1) =~= regions.take(f as int).push(regions[f as int]));
            f = f + 1;
        }
        assert(regions.take(f as int) =~= regions);
        assert(payloads@.len() == start.len() + regions.len());
        proof {
            assert(message_payloads(k, size as nat) =~= regions.map_values(
                |r: Seq<u8>| spec_frame_payload(r, size as nat),
            ));
            k = k + 1;
        }
        toggle = !toggle;
        text = (text + 1) % 3;
    }
    let ghost full = programme(k, size as nat);
    payloads.truncate(count);
    proof {
        lemma_programme_grows(count as nat, size as nat);
        if k <= count as nat {
            lemma_programme_prefix(k, count as nat, size as nat);
        } else {
            lemma_programme_prefix(count as nat, k, size as nat);
        }
        assert(payloads@.map_values(|v: Vec<u8>| v@) =~= full.take(count as int));
    }
    payloads
}

} // verus!
