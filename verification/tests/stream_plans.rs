use neowon_app::actions::DabService;
use neowon_app::scene::{asc_override, DABPLUS_SID, DABPLUS_SUB_CHANNEL, EID, MP2_SUB_CHANNEL};
use neowon_app::stream_spec::{
    dabplus_index, playing_sub_channel, select_service, service_spec, spec_for, Coding,
    EnsembleTable, InfoBits, ServiceEntry, SubChannelEntry,
};

const ASC: &[u8] = &[0x13, 0x10, 0x56, 0xE5];

fn sub(id: u8, info_bits: InfoBits, protection: &str) -> SubChannelEntry {
    SubChannelEntry {
        id,
        info_bits,
        protection: protection.to_string(),
    }
}

/// The sim scene's table: the DLS carrier, two more services, the DAB+
/// programme (80 kbit/s, 1920 information bits per logical frame) and the
/// MP2 programme.
fn scene_table() -> EnsembleTable {
    EnsembleTable {
        eid: Some(EID),
        services: vec![
            ServiceEntry { sid: 0x1001, sub_channel: Some(0), ascty: Some(63) },
            ServiceEntry { sid: 0x1002, sub_channel: Some(1), ascty: Some(63) },
            ServiceEntry { sid: 0x1003, sub_channel: Some(2), ascty: Some(0) },
            ServiceEntry { sid: DABPLUS_SID, sub_channel: Some(DABPLUS_SUB_CHANNEL), ascty: Some(63) },
            ServiceEntry { sid: 0x1005, sub_channel: Some(MP2_SUB_CHANNEL), ascty: Some(0) },
            ServiceEntry { sid: 0x1006, sub_channel: None, ascty: None },
            ServiceEntry { sid: 0x1007, sub_channel: Some(9), ascty: Some(0) },
            ServiceEntry { sid: 0x1008, sub_channel: Some(1), ascty: Some(1) },
        ],
        sub_channels: vec![
            sub(0, InfoBits::Known(6144), "EEP 3-A"),
            sub(1, InfoBits::Unresolved, "UEP 99"),
            sub(2, InfoBits::SizeUnknown, "EEP 2-A"),
            sub(DABPLUS_SUB_CHANNEL, InfoBits::Known(1920), "EEP 3-A"),
            sub(MP2_SUB_CHANNEL, InfoBits::Known(3072), "UEP 35"),
        ],
    }
}

#[test]
fn codings_come_from_the_ascty() {
    assert_eq!(Coding::from_ascty(Some(0)), Some(Coding::Mp2));
    assert_eq!(Coding::from_ascty(Some(63)), Some(Coding::DabPlus));
    assert_eq!(Coding::from_ascty(Some(1)), None);
    assert_eq!(Coding::from_ascty(None), None);
}

#[test]
fn the_dabplus_index_is_the_information_rate_in_eight_kbit_units() {
    assert_eq!(dabplus_index(&sub(3, InfoBits::Known(1920), "EEP 3-A")), Ok(10));
    assert_eq!(dabplus_index(&sub(3, InfoBits::Known(192), "EEP 1-A")), Ok(1));
    assert_eq!(dabplus_index(&sub(3, InfoBits::Known(4608), "EEP 1-A")), Ok(24));
    assert_eq!(
        dabplus_index(&sub(0, InfoBits::Known(6144), "EEP 3-A")),
        Err("sub-channel 0 carries 256 kbit/s, outside DAB+'s 8..=192 kbit/s (subchannel_index 32, 1..=24)".to_string())
    );
    assert_eq!(
        dabplus_index(&sub(7, InfoBits::Known(100), "EEP 1-A")),
        Err("sub-channel 7 carries 0 kbit/s, outside DAB+'s 8..=192 kbit/s (subchannel_index 0, 1..=24)".to_string())
    );
    assert_eq!(
        dabplus_index(&sub(1, InfoBits::Unresolved, "UEP 99")),
        Err("sub-channel 1 has an unresolved protection plan (UEP 99)".to_string())
    );
    assert_eq!(
        dabplus_index(&sub(2, InfoBits::SizeUnknown, "EEP 2-A")),
        Err("sub-channel size unknown".to_string())
    );
}

#[test]
fn every_service_resolves_or_says_why() {
    let t = scene_table();
    let dabplus = service_spec(&t, DABPLUS_SID, ASC).unwrap();
    assert_eq!(dabplus.coding, Coding::DabPlus);
    assert_eq!(dabplus.sub_channel, DABPLUS_SUB_CHANNEL);
    assert_eq!(dabplus.subchannel_index, 10);
    assert_eq!(dabplus.asc_override, Some(ASC));
    let mp2 = service_spec(&t, 0x1005, ASC).unwrap();
    assert_eq!(mp2.coding, Coding::Mp2);
    assert_eq!(mp2.sub_channel, MP2_SUB_CHANNEL);
    assert_eq!(mp2.subchannel_index, 0);
    assert_eq!(mp2.asc_override, None);
    assert_eq!(
        service_spec(&t, 0x2000, ASC).unwrap_err(),
        "SId 8192 not in the locked table"
    );
    assert_eq!(
        service_spec(&t, 0x1006, ASC).unwrap_err(),
        "service 1006 has no audio sub-channel"
    );
    assert_eq!(
        service_spec(&t, 0x1007, ASC).unwrap_err(),
        "sub-channel 9 is not in the table"
    );
    assert_eq!(
        service_spec(&t, 0x1008, ASC).unwrap_err(),
        "service 1008 is ASCTy 1, which this build does not decode"
    );
    assert_eq!(
        service_spec(&t, 0x1001, ASC).unwrap_err(),
        "sub-channel 0 carries 256 kbit/s, outside DAB+'s 8..=192 kbit/s (subchannel_index 32, 1..=24)"
    );
    // MP2 needs no index, so an unsized sub-channel still plays.
    let classic = service_spec(&t, 0x1003, ASC).unwrap();
    assert_eq!((classic.coding, classic.sub_channel), (Coding::Mp2, 2));
    assert_eq!(
        service_spec(&t, 0x1002, ASC).unwrap_err(),
        "sub-channel 1 has an unresolved protection plan (UEP 99)"
    );
    // Another ensemble's DAB+ programme takes the standard-derived config.
    let mut other = scene_table();
    other.eid = Some(0x2000);
    assert_eq!(service_spec(&other, DABPLUS_SID, ASC).unwrap().asc_override, None);
    assert_eq!(asc_override(Some(EID), DABPLUS_SID, ASC), Some(ASC));
    assert_eq!(asc_override(None, DABPLUS_SID, ASC), None);
}

#[test]
fn play_needs_a_selection_a_receiver_and_a_table() {
    let t = scene_table();
    assert_eq!(
        spec_for(None, Some(&t), true, ASC).unwrap_err(),
        "dab play: no service selected (sdr dab service ...)"
    );
    assert_eq!(
        spec_for(Some(DABPLUS_SID), None, false, ASC).unwrap_err(),
        "dab play: receiver is off (sdr dab on)"
    );
    assert_eq!(
        spec_for(Some(DABPLUS_SID), Some(&t), false, ASC).unwrap_err(),
        "dab play: no ensemble table yet"
    );
    let (sid, plan) = spec_for(Some(DABPLUS_SID), Some(&t), true, ASC).unwrap();
    assert_eq!(sid, DABPLUS_SID);
    assert_eq!(plan.subchannel_index, 10);
    assert_eq!(
        spec_for(Some(0x1006), Some(&t), true, ASC).unwrap_err(),
        "dab play: service 1006 has no audio sub-channel"
    );
}

#[test]
fn a_service_choice_resolves_against_the_table() {
    let t = scene_table();
    assert_eq!(select_service(DabService::Sid(0x1005), Some(&t), true), Ok(0x1005));
    assert_eq!(select_service(DabService::Index(2), Some(&t), true), Ok(0x1002));
    assert_eq!(select_service(DabService::Index(8), Some(&t), true), Ok(0x1008));
    assert_eq!(
        select_service(DabService::Index(0), Some(&t), true),
        Err("dab service: index #0 outside 1..=8".to_string())
    );
    assert_eq!(
        select_service(DabService::Index(9), Some(&t), true),
        Err("dab service: index #9 outside 1..=8".to_string())
    );
    assert_eq!(
        select_service(DabService::Sid(1), Some(&t), true),
        Err("dab service: SId 1 not in the ensemble".to_string())
    );
    assert_eq!(
        select_service(DabService::Sid(0x1005), Some(&t), false),
        Err("dab service: no ensemble table yet".to_string())
    );
    assert_eq!(
        select_service(DabService::Sid(0x1005), None, false),
        Err("dab service: receiver is off (sdr dab on)".to_string())
    );
}

#[test]
fn only_a_running_transport_claims_its_sub_channel() {
    let t = scene_table();
    assert_eq!(playing_sub_channel(true, Some(DABPLUS_SID), Some(&t)), Some(DABPLUS_SUB_CHANNEL));
    assert_eq!(playing_sub_channel(false, Some(DABPLUS_SID), Some(&t)), None);
    assert_eq!(playing_sub_channel(true, None, Some(&t)), None);
    assert_eq!(playing_sub_channel(true, Some(DABPLUS_SID), None), None);
    assert_eq!(playing_sub_channel(true, Some(0x1006), Some(&t)), None);
}

#[test]
fn the_scene_table_is_keyed_in_order() {
    assert!(scene_table().is_well_ordered());
    let mut swapped = scene_table();
    swapped.services.swap(0, 1);
    assert!(!swapped.is_well_ordered(), "services out of SId order");
    let mut twice = scene_table();
    twice.sub_channels[1].id = 0;
    assert!(!twice.is_well_ordered(), "a sub-channel id held twice");
    let empty = EnsembleTable { eid: None, services: Vec::new(), sub_channels: Vec::new() };
    assert!(empty.is_well_ordered());
}

#[test]
fn a_numbered_choice_counts_services_in_sid_order() {
    let t = scene_table();
    // `#4` is the service with three smaller SIds before it.
    assert_eq!(select_service(DabService::Index(4), Some(&t), true), Ok(DABPLUS_SID));
    assert_eq!(select_service(DabService::Index(1), Some(&t), true), Ok(0x1001));
    assert_eq!(select_service(DabService::Index(8), Some(&t), true), Ok(0x1008));
}
