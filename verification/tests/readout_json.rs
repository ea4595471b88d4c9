use neowon_app::readout::{dab_off_json, ensemble_id_json, join_json, msc_json, service_json};

#[test]
fn a_service_entry_names_every_field() {
    assert_eq!(
        service_json(0x1001, Some("NEOWON ONE"), Some(0), "DAB+", Some(63), true),
        r#"{"sid":4097,"sid_hex":"1001","label":"NEOWON ONE","sub_channel":0,"coding":"DAB+","ascty":63,"has_audio":true}"#
    );
    assert_eq!(
        service_json(0xBEEF, None, None, "data", None, false),
        r#"{"sid":48879,"sid_hex":"BEEF","label":null,"sub_channel":null,"coding":"data","ascty":null,"has_audio":false}"#
    );
    assert_eq!(
        service_json(1, Some("a\"b"), None, "x", None, false),
        r#"{"sid":1,"sid_hex":"0001","label":"a\"b","sub_channel":null,"coding":"x","ascty":null,"has_audio":false}"#
    );
}

#[test]
fn msc_counters_and_the_ensemble_identity() {
    assert_eq!(
        msc_json(3, 120, 28800, 100, 2),
        r#"{"sub_channel":3,"frames":120,"bytes":28800,"crc_checks":100,"crc_failures":2}"#
    );
    let (eid, hex, label) = ensemble_id_json(Some(0x1046), Some("NEOWON SIM"));
    assert_eq!((eid.as_str(), hex.as_str(), label.as_str()), ("4166", "\"1046\"", "\"NEOWON SIM\""));
    let (eid, hex, label) = ensemble_id_json(Some(0x1046), None);
    assert_eq!((eid.as_str(), hex.as_str(), label.as_str()), ("4166", "\"1046\"", "null"));
    let (eid, hex, label) = ensemble_id_json(None, Some("ignored"));
    assert_eq!((eid.as_str(), hex.as_str(), label.as_str()), ("null", "null", "null"));
}

#[test]
fn an_off_receiver_reports_only_the_block() {
    assert_eq!(
        dab_off_json(r#"{"label":"11C"}"#),
        r#"{"ok":true,"on":false,"channel":{"label":"11C"}}"#
    );
    assert_eq!(join_json(&vec![]), "");
    assert_eq!(join_json(&vec!["{}".to_string()]), "{}");
    assert_eq!(
        join_json(&vec!["1".to_string(), "2".to_string(), "3".to_string()]),
        "1,2,3"
    );
}
