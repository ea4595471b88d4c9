use neowon_app::dab_gone::{Gone, GoneCause, LostEnsemble};
use neowon_app::dock::{lock_text, transport_row};
use neowon_app::ingest::DumpBudget;

#[test]
fn an_unlocked_receiver_says_what_happened() {
    let none: Option<Gone<f64>> = None;
    assert_eq!(
        lock_text(false, &none, "0"),
        "no input - the SDR is stopped (front panel Run)"
    );
    assert_eq!(
        lock_text(true, &none, "0"),
        "not locked - searching for an ensemble at this centre"
    );
    let expired = Some(Gone {
        cause: GoneCause::Expired,
        at: 3.0,
        ensemble: Some(LostEnsemble {
            label: Some("NEOWON SIM".into()),
            eid: Some(0x1046),
            services: 5,
        }),
    });
    assert_eq!(
        lock_text(true, &expired, "4"),
        "lock lost 4 s ago: NEOWON SIM (EId 1046, 5 services) - no clean FIC since, its table expired"
    );
    let stopped = Some(Gone {
        cause: GoneCause::NoInput,
        at: 3.0,
        ensemble: None,
    });
    assert_eq!(
        lock_text(true, &stopped, "12"),
        "no input for 12 s: the IQ stream stopped; the ensemble dropped"
    );
    // A stopped SDR is said first, whatever the record holds.
    assert_eq!(
        lock_text(false, &stopped, "12"),
        "no input - the SDR is stopped (front panel Run)"
    );
}

#[test]
fn play_is_offered_only_for_a_service_that_can_play() {
    let row = transport_row(None, false);
    assert!(!row.play_enabled);
    assert_eq!(row.play_hint, "click a service in the list below first");
    assert_eq!(row.idle_note, "audio off - select a service");
    let row = transport_row(Some(Some("service 1006 has no audio sub-channel")), false);
    assert!(!row.play_enabled);
    assert_eq!(row.play_hint, "cannot play: service 1006 has no audio sub-channel");
    assert_eq!(row.idle_note, "this service cannot play");
    let row = transport_row(Some(None), false);
    assert!(row.play_enabled);
    assert_eq!(row.idle_note, "audio off - press Play");
    let row = transport_row(Some(None), true);
    assert!(!row.play_enabled, "nothing to start while it plays");
    assert_eq!(row.play_hint, "playing");
}

#[test]
fn a_dump_writes_exactly_the_requested_pairs() {
    // Half a second at 8 pairs per second.
    let mut dump = DumpBudget::new(4);
    assert_eq!(dump.take(2), (2, false));
    assert_eq!(dump.take(2), (2, true));
    assert_eq!(dump.written_pairs, 4);
    let mut long = DumpBudget::new(4);
    assert_eq!(long.take(3), (3, false));
    assert_eq!(long.take(3), (1, true));
    assert_eq!((long.written_pairs, long.remaining_pairs), (4, 0));
    assert_eq!(long.take(5), (0, true));
}
