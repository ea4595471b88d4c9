use neowon_app::actions::{on_off, parse_dab, parse_dab_service, raster_step, DabChannel, DabService, DabVerb};

fn words(s: &str) -> Vec<&str> {
    s.split_whitespace().collect()
}

/// The `sdr` words after `dab`, as the script reader hands them over.
fn dab(line: &str) -> Result<DabVerb, String> {
    let w = words(line);
    assert_eq!(w[0], "dab");
    parse_dab(&w[1..])
}

#[test]
fn verbs_parse() {
    assert_eq!(on_off("on"), Ok(true));
    assert_eq!(on_off("off"), Ok(false));
    assert_eq!(dab("dab on").unwrap(), DabVerb::On);
    assert_eq!(
        dab("dab service #2").unwrap(),
        DabVerb::Service(DabService::Index(2))
    );
    assert_eq!(
        dab("dab service 0x1001").unwrap(),
        DabVerb::Service(DabService::Sid(0x1001))
    );
    assert_eq!(
        dab("dab service 4097").unwrap(),
        DabVerb::Service(DabService::Sid(4097))
    );
    assert_eq!(dab("dab play").unwrap(), DabVerb::Play);
    assert_eq!(dab("dab stop").unwrap(), DabVerb::Stop);
    assert_eq!(
        dab("dab channel next").unwrap(),
        DabVerb::Channel(DabChannel::Next)
    );
    assert_eq!(
        dab("dab channel prev").unwrap(),
        DabVerb::Channel(DabChannel::Prev)
    );
    assert_eq!(
        dab("dab channel 11C").unwrap(),
        DabVerb::Channel(DabChannel::Label("11C".into()))
    );
    assert!(dab("dab channel").is_err());
    assert!(dab("dab service #x").is_err());
    assert!(dab("dab service warp").is_err());
}

/// Script parity: every DAB verb the UI can inject prints as a script line
/// that parses back to the same verb.
#[test]
fn every_action_round_trips() {
    let all = [
        DabVerb::On,
        DabVerb::Off,
        DabVerb::Reset,
        DabVerb::Service(DabService::Sid(0x1001)),
        DabVerb::Service(DabService::Index(2)),
        DabVerb::Play,
        DabVerb::Stop,
        DabVerb::Channel(DabChannel::Next),
        DabVerb::Channel(DabChannel::Prev),
        DabVerb::Channel(DabChannel::Label("11C".into())),
    ];
    for a in all {
        let line = a.script_line();
        let (head, rest) = line.split_once(' ').unwrap();
        assert_eq!(head, "sdr", "{line}");
        assert_eq!(dab(rest).unwrap(), a, "{line}");
    }
    assert_eq!(
        DabVerb::Service(DabService::Sid(0x1001)).script_line(),
        "sdr dab service 4097"
    );
    assert_eq!(
        DabVerb::Service(DabService::Index(2)).script_line(),
        "sdr dab service #2"
    );
    assert_eq!(
        DabVerb::Channel(DabChannel::Label("11C".into())).script_line(),
        "sdr dab channel 11C"
    );
}

#[test]
fn on_off_takes_words_and_digits() {
    assert_eq!(on_off("1"), Ok(true));
    assert_eq!(on_off("0"), Ok(false));
    assert_eq!(on_off("yes"), Err("expected on/off, got \"yes\"".to_string()));
    assert_eq!(on_off(""), Err("expected on/off, got \"\"".to_string()));
}

#[test]
fn service_choices_name_an_index_or_an_sid() {
    assert_eq!(parse_dab_service("#1"), Ok(DabService::Index(1)));
    assert_eq!(parse_dab_service("0X1f"), Ok(DabService::Sid(0x1F)));
    assert_eq!(parse_dab_service("+7"), Ok(DabService::Sid(7)));
    assert_eq!(
        parse_dab_service("#x"),
        Err("bad service index \"x\"".to_string())
    );
    assert_eq!(
        parse_dab_service("warp"),
        Err("bad service id \"warp\"".to_string())
    );
    assert_eq!(
        parse_dab_service("70000"),
        Err("bad service id \"70000\"".to_string())
    );
    assert_eq!(
        parse_dab_service("0x"),
        Err("bad service id \"0x\"".to_string())
    );
}

#[test]
fn unknown_and_missing_words_are_refused() {
    assert_eq!(
        dab("dab warp"),
        Err("dab: expected on|off|reset|play|stop|service|channel, got \"warp\"".to_string())
    );
    assert_eq!(parse_dab(&[]), Err("missing argument".to_string()));
    assert_eq!(dab("dab service"), Err("missing argument".to_string()));
    // Words after the verb's own are not read.
    assert_eq!(dab("dab on now").unwrap(), DabVerb::On);
}

/// Band III blocks 5A..13F, in raster order.
fn raster() -> Vec<String> {
    let mut blocks = Vec::new();
    for n in 5..=13 {
        let last = if n == 13 { 'F' } else { 'D' };
        for c in 'A'..=last {
            blocks.push(format!("{n}{c}"));
        }
    }
    blocks
}

#[test]
fn next_and_prev_step_the_raster_and_wrap() {
    let blocks = raster();
    assert_eq!(blocks.len(), 38);
    let at = |label: &str| blocks.iter().position(|b| b == label);
    let step = |current: Option<usize>, next: bool| {
        blocks[raster_step(current, blocks.len(), next).unwrap()].clone()
    };
    // 11C
    let mut current = at("11C");
    let label = step(current, true);
    assert_eq!(label, "11D");
    current = at(&label);
    let label = step(current, false);
    assert_eq!(label, "11C");
    current = at(&label);
    assert_eq!(step(current, true), "11D");

    // Off the raster: next starts at 5A, prev at 13F.
    assert_eq!(step(None, true), "5A");
    assert_eq!(step(None, false), "13F");

    assert_eq!(step(at("13F"), true), "5A");
    assert_eq!(step(at("5A"), false), "13F");
    assert_eq!(raster_step(None, 0, true), None);
}
