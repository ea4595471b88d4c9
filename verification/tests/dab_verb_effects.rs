use neowon_app::actions::{DabChannel, DabService, DabVerb};
use neowon_app::dab_state::{DabState, Receiver, ReceiverOp, TransportOp};
use neowon_app::stream_spec::{Coding, EnsembleTable, InfoBits, ServiceEntry, SubChannelEntry};

/// A receiver stand-in that records what the clears asked of it.
#[derive(Debug, Clone, Copy, PartialEq, Default)]
struct Rx {
    locked: bool,
    resets: u32,
    inputs_lost: u32,
}

impl Receiver for Rx {
    fn reset(&mut self) {
        self.locked = false;
        self.resets += 1;
    }

    fn no_input(&mut self) {
        self.locked = false;
        self.inputs_lost += 1;
    }
}

/// A locked receiver that was never cleared.
fn locked_rx() -> Rx {
    Rx { locked: true, resets: 0, inputs_lost: 0 }
}

type State = DabState<Rx, (), u32, f64>;

const ASC: &[u8] = &[0x13, 0x10];

fn table() -> EnsembleTable {
    EnsembleTable {
        eid: Some(0x1046),
        services: vec![
            ServiceEntry { sid: 0x1004, sub_channel: Some(3), ascty: Some(63) },
            ServiceEntry { sid: 0x1005, sub_channel: Some(4), ascty: Some(0) },
            ServiceEntry { sid: 0x1006, sub_channel: None, ascty: None },
        ],
        sub_channels: vec![
            SubChannelEntry { id: 3, info_bits: InfoBits::Known(1920), protection: "EEP 3-A".into() },
            SubChannelEntry { id: 4, info_bits: InfoBits::Known(3072), protection: "UEP 35".into() },
        ],
    }
}

fn running() -> State {
    let mut dab: State = DabState::new();
    dab.rx = Some(locked_rx());
    dab.next_sample = Some(4096);
    dab.last_frame_at = Some(1.5);
    dab.pad.insert(3, ());
    dab
}

#[test]
fn on_off_and_reset_clear_the_derived_state() {
    let t = table();
    let mut dab = running();
    dab.service = Some(0x1004);
    dab.audio = Some(0x1004);
    let (fx, outcome) = dab.apply_verb(DabVerb::On, Some(&t), true, Some(0x1004), ASC);
    assert!(outcome.is_ok());
    assert_eq!(fx.receiver, ReceiverOp::Build);
    assert!(fx.flush_sink, "a running transport was stopped");
    assert!(!dab.holds_derived());

    let mut dab = running();
    let (fx, _) = dab.apply_verb(DabVerb::Reset, Some(&t), true, None, ASC);
    assert_eq!(fx.receiver, ReceiverOp::Keep);
    assert!(!fx.flush_sink);
    assert!(!dab.holds_derived());
    assert!(dab.on());
    assert_eq!(
        dab.rx,
        Some(Rx { locked: false, resets: 1, inputs_lost: 0 }),
        "the receiver was reset in place"
    );

    let mut dab = running();
    let (fx, _) = dab.apply_verb(DabVerb::Off, Some(&t), true, None, ASC);
    assert_eq!(fx.receiver, ReceiverOp::Keep);
    assert!(!dab.on());
    assert!(!dab.holds_derived());
}

/// A selection against a table that never locked is refused, and a refusal
/// changes nothing.
#[test]
fn a_refused_selection_changes_nothing() {
    let t = table();
    let mut dab = running();
    let (fx, outcome) = dab.apply_verb(
        DabVerb::Service(DabService::Sid(1)),
        Some(&t),
        false,
        None,
        ASC,
    );
    assert_eq!(outcome, Err("dab service: no ensemble table yet".to_string()));
    assert!(!fx.flush_sink);
    assert_eq!(dab.service, None);
    assert_eq!(dab.next_sample, Some(4096));
    let (_, outcome) = dab.apply_verb(
        DabVerb::Service(DabService::Sid(1)),
        Some(&t),
        true,
        None,
        ASC,
    );
    assert_eq!(outcome, Err("dab service: SId 1 not in the ensemble".to_string()));
    assert_eq!(dab.service, None);
    let mut off: State = DabState::new();
    let (_, outcome) = off.apply_verb(DabVerb::Service(DabService::Index(1)), None, false, None, ASC);
    assert_eq!(outcome, Err("dab service: receiver is off (sdr dab on)".to_string()));
}

#[test]
fn play_starts_the_selected_service_and_stop_ends_only_the_transport() {
    let t = table();
    let mut dab = running();
    // Nothing selected: the refusal is shown.
    let (fx, outcome) = dab.apply_verb(DabVerb::Play, Some(&t), true, None, ASC);
    let reason = "dab play: no service selected (sdr dab service ...)".to_string();
    assert_eq!(outcome, Err(reason.clone()));
    assert_eq!(dab.play_error, Some(reason));
    assert_eq!(fx.transport, TransportOp::Keep);

    let (_, outcome) = dab.apply_verb(DabVerb::Service(DabService::Index(1)), Some(&t), true, None, ASC);
    assert!(outcome.is_ok());
    assert_eq!(dab.service, Some(0x1004));
    assert_eq!(dab.play_error, None);

    let (fx, outcome) = dab.apply_verb(DabVerb::Play, Some(&t), true, None, ASC);
    assert!(outcome.is_ok());
    assert!(fx.flush_sink);
    match fx.transport {
        TransportOp::Start { sid, plan } => {
            assert_eq!(sid, 0x1004);
            assert_eq!(plan.coding, Coding::DabPlus);
            assert_eq!(plan.subchannel_index, 10);
            assert_eq!(plan.asc_override, Some(ASC));
        }
        TransportOp::Keep => panic!("play started nothing"),
    }
    // The owner starts the worker.
    dab.audio = Some(0x1004);

    // Play again for the service that plays: nothing to do.
    let (fx, outcome) = dab.apply_verb(DabVerb::Play, Some(&t), true, Some(0x1004), ASC);
    assert!(outcome.is_ok());
    assert_eq!(fx.transport, TransportOp::Keep);
    assert!(!fx.flush_sink);
    assert_eq!(dab.audio, Some(0x1004));

    // Stop ends the transport only: the table and the selection are still
    // true, so the dock keeps offering the service just stopped.
    let (fx, outcome) = dab.apply_verb(DabVerb::Stop, Some(&t), true, Some(0x1004), ASC);
    assert!(outcome.is_ok());
    assert!(fx.flush_sink);
    assert_eq!(dab.audio, None);
    assert_eq!(dab.service, Some(0x1004));
    assert_eq!(dab.next_sample, Some(4096));
    assert!(!dab.pad.is_empty());
}

/// Selecting a service while playing is the cue the audio follows: the old
/// worker stops and a fresh one starts on the new stream, or the reason it
/// cannot is shown.
#[test]
fn a_new_selection_while_playing_restarts_the_transport() {
    let t = table();
    let mut dab = running();
    dab.service = Some(0x1004);
    dab.audio = Some(0x1004);
    let (fx, outcome) = dab.apply_verb(
        DabVerb::Service(DabService::Sid(0x1005)),
        Some(&t),
        true,
        Some(0x1004),
        ASC,
    );
    assert!(outcome.is_ok());
    assert_eq!(dab.audio, None, "the old worker is stopped");
    match fx.transport {
        TransportOp::Start { sid, plan } => {
            assert_eq!(sid, 0x1005);
            assert_eq!(plan.coding, Coding::Mp2);
            assert_eq!(plan.sub_channel, 4);
        }
        TransportOp::Keep => panic!("the new stream was not started"),
    }
    dab.audio = Some(0x1005);
    let (fx, outcome) = dab.apply_verb(
        DabVerb::Service(DabService::Sid(0x1006)),
        Some(&t),
        true,
        Some(0x1005),
        ASC,
    );
    let reason = "dab play: service 1006 has no audio sub-channel".to_string();
    assert_eq!(outcome, Err(reason.clone()));
    assert_eq!(dab.play_error, Some(reason));
    assert_eq!(dab.audio, None);
    assert!(fx.flush_sink);
    assert_eq!(fx.transport, TransportOp::Keep);
}

#[test]
fn a_channel_verb_asks_for_the_window_to_move() {
    let t = table();
    let mut dab = running();
    let (fx, outcome) = dab.apply_verb(
        DabVerb::Channel(DabChannel::Label("11C".into())),
        Some(&t),
        true,
        None,
        ASC,
    );
    assert!(outcome.is_ok());
    assert_eq!(fx.retune, Some(DabChannel::Label("11C".into())));
    assert_eq!(dab.next_sample, Some(4096), "the window moves later, by its owner");
}

#[test]
fn the_dls_parser_is_the_selected_services_sub_channels() {
    let t = table();
    let mut dab: DabState<Rx, &'static str, u32, f64> = DabState::new();
    dab.rx = Some(locked_rx());
    dab.pad.insert(3, "parser on 3");
    dab.pad.insert(4, "parser on 4");
    assert_eq!(dab.dls_parser(Some(&t)), None, "nothing selected");
    dab.service = Some(0x1005);
    assert_eq!(dab.dls_parser(Some(&t)), Some(&"parser on 4"));
    assert_eq!(dab.dls_parser(None), None, "no table held");
    dab.service = Some(0x1006);
    assert_eq!(dab.dls_parser(Some(&t)), None, "no sub-channel signalled");
    dab.service = Some(0x1004);
    assert_eq!(dab.dls_parser(Some(&t)), Some(&"parser on 3"));
    dab.pad.remove(&3);
    assert_eq!(dab.dls_parser(Some(&t)), None, "nothing arrived on 3 yet");
}
