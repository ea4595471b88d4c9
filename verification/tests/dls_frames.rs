use neowon_app::dls::{
    crc16, dls_group, dls_payloads, dls_segments, frame_payload, message_frames, region,
    APP_DLS_CONT, APP_DLS_START, REGION_MAX,
};
use neowon_app::scene::DLS_TEXTS;

#[test]
fn crc16_matches_the_annex_e_check_value() {
    assert_eq!(crc16(b"123456789"), 0xD64E);
    assert_eq!(crc16(&[]), 0x0000);
}

#[test]
fn a_frame_payload_puts_the_region_at_the_end() {
    assert_eq!(frame_payload(&[1, 2, 3], 6), vec![0, 0, 0, 1, 2, 3]);
    assert_eq!(frame_payload(&[9], 1), vec![9]);
    assert_eq!(frame_payload(&[], 2), vec![0, 0]);
}

#[test]
fn a_data_group_carries_header_text_and_crc() {
    assert_eq!(
        dls_group(false, true, true, 0, b"Hi"),
        vec![0x61, 0x00, 0x48, 0x69, 0x2D, 0xB3]
    );
    // A later segment carries its number in the second header byte.
    assert_eq!(
        dls_group(true, false, false, 3, b"abc"),
        vec![0x82, 0x30, 0x61, 0x62, 0x63, 0x39, 0x9F]
    );
}

#[test]
fn a_region_is_the_reversed_xpad_then_the_fpad() {
    let data: &[u8] = b"abc";
    assert_eq!(
        region(&[(APP_DLS_START, data)]),
        vec![0x00, 0x63, 0x62, 0x61, 0x00, 0x02, 0x20, 0x02]
    );
    assert_eq!(APP_DLS_START, 2);
    assert_eq!(APP_DLS_CONT, 3);
}

#[test]
fn segments_are_sixteen_bytes_and_the_e_acute_is_ebu_latin() {
    let segments = dls_segments(DLS_TEXTS[0]);
    assert_eq!(segments.len(), 2);
    assert_eq!(segments[0], b"Now playing: Caf".to_vec());
    assert_eq!(
        segments[1],
        vec![0x82, 0x20, 0x2D, 0x20, 0x50, 0x65, 0x72, 0x66, 0x65, 0x63, 0x74, 0x20, 0x44, 0x61, 0x79]
    );
    assert_eq!(dls_segments("").len(), 0);
}

#[test]
fn a_short_message_is_one_region() {
    let frames = message_frames("Hello", false);
    assert_eq!(
        frames,
        vec![vec![
            0x00, 0x00, 0x00, 0x3B, 0xB7, 0x6F, 0x6C, 0x6C, 0x65, 0x48, 0x00, 0x64, 0x00, 0x62,
            0x20, 0x02
        ]]
    );
}

#[test]
fn the_first_data_group_spans_two_frames() {
    let frames = message_frames(DLS_TEXTS[0], false);
    assert_eq!(frames.len(), 2);
    assert_eq!(
        frames[0],
        vec![
            0x6E, 0x69, 0x79, 0x61, 0x6C, 0x70, 0x20, 0x77, 0x6F, 0x4E, 0x00, 0x4F, 0x00, 0x62,
            0x20, 0x02
        ]
    );
    assert_eq!(
        frames[1],
        vec![
            0x00, 0x00, 0x00, 0x00, 0x00, 0x1C, 0x58, 0x79, 0x61, 0x44, 0x20, 0x74, 0x63, 0x65,
            0x66, 0x72, 0x65, 0x50, 0x20, 0x2D, 0x20, 0x82, 0x10, 0x2E, 0x30, 0xC3, 0x66, 0x61,
            0x43, 0x20, 0x3A, 0x67, 0x00, 0xA2, 0x43, 0x20, 0x02
        ]
    );
    for text in DLS_TEXTS {
        for f in message_frames(text, true) {
            assert!(f.len() <= REGION_MAX);
            assert_eq!(&f[f.len() - 2..], &[0x20, 0x02]);
        }
    }
}

#[test]
fn the_programme_cycles_the_labels_with_a_toggling_message_bit() {
    let p = dls_payloads(5, 40);
    assert_eq!(p.len(), 5);
    assert!(p.iter().all(|f| f.len() == 40));
    let tails: Vec<Vec<u8>> = p.iter().map(|f| f[34..].to_vec()).collect();
    assert_eq!(tails[0], vec![0x00, 0x4F, 0x00, 0x62, 0x20, 0x02]);
    assert_eq!(tails[1], vec![0x67, 0x00, 0xA2, 0x43, 0x20, 0x02]);
    assert_eq!(tails[2], vec![0x00, 0xCF, 0x00, 0x62, 0x20, 0x02]);
    assert_eq!(tails[3], vec![0x69, 0x00, 0x82, 0x43, 0x20, 0x02]);
    assert_eq!(tails[4], vec![0x00, 0x4F, 0x00, 0x62, 0x20, 0x02]);
    assert_eq!(p[0][..24].to_vec(), vec![0u8; 24]);
    assert_eq!(dls_payloads(0, 0).len(), 0);
}
