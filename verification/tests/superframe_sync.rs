use neowon_app::dabplus_sync::{DabPlusSync, SyncError};

/// Stand-in for the super-frame decoder's header check: a window is
/// Fire-clean when it starts with the synthetic super frame's sync bytes.
fn fire_ok(window: &[u8]) -> bool {
    window[0] == 0xC3 && window[1] == 0x3C
}

/// Three synthetic super frames of `sf` bytes each.
fn fixture(sf: usize) -> Vec<u8> {
    let mut out = Vec::new();
    for n in 0..3u8 {
        out.extend_from_slice(&[0xC3, 0x3C, n]);
        out.extend((0..sf - 3).map(|i| ((n as usize * 7 + i) % 251) as u8));
    }
    out
}

/// What the playback worker does with a push: every whole window is
/// trial-decoded, and the clean ones are handed on.
fn push(sync: &mut DabPlusSync, bytes: &[u8]) -> Vec<Vec<u8>> {
    sync.append(bytes);
    let mut out = Vec::new();
    while let Some((a, b)) = sync.window() {
        let window = sync.pending()[a..b].to_vec();
        if sync.on_window(fire_ok(&window)) {
            out.push(window);
        }
    }
    out
}

#[test]
fn dabplus_sync_finds_the_phase_in_front_of_a_logical_frame_of_junk() {
    let mut sync = DabPlusSync::new(10).expect("index 10");
    let sf = sync.superframe_bytes();
    let fixture = fixture(sf);
    let mut bytes = vec![0xA5u8; 240];
    bytes.extend_from_slice(&fixture);
    let decoded = push(&mut sync, &bytes);
    assert!(decoded.len() >= 2, "sync should find the boundary: {}", decoded.len());
    assert!(decoded.iter().all(|w| fire_ok(w)));
    // The first clean super frame is the fixture's first: the junk was
    // discarded at the phase that matched.
    assert_eq!(decoded[0], fixture[..sf].to_vec());
    assert_eq!(decoded.len(), 3);
}

#[test]
fn dabplus_sync_rejects_a_bad_subchannel_index_typed() {
    let error = DabPlusSync::new(32).err().expect("32 is outside 1..=24");
    assert_eq!(error, SyncError::InvalidSubchannelIndex(32));
    assert!(DabPlusSync::new(0).is_err());
    assert_eq!(DabPlusSync::new(24).unwrap().superframe_bytes(), 2880);
    assert_eq!(DabPlusSync::new(1).unwrap().logical_frame_bytes(), 24);
}

#[test]
fn a_ragged_start_is_not_a_shape_verdict() {
    let index = 10u8;
    let sf = 120 * index as usize;
    let mut bytes = vec![0xA5u8; 6 * sf];
    bytes.extend_from_slice(&fixture(sf));
    let mut sync = DabPlusSync::new(index).expect("index 10");
    let decoded = push(&mut sync, &bytes);
    assert!(sync.search_windows() >= 12, "the old gate would have fired");
    assert!(!sync.shape_mismatch(), "a ragged start is not a verdict");
    assert_eq!(decoded.len(), 3, "the fixture holds three super frames");
    assert!(decoded.iter().all(|w| fire_ok(w)));
    assert_eq!(sync.search_windows(), 134);
}

#[test]
fn the_shape_verdict_needs_never_aligned_and_a_full_budget() {
    let index = 10u8;
    let sf = 120 * index as usize;
    let mut sync = DabPlusSync::new(index).expect("index 10");
    let junk = vec![0x5Au8; 8 * sf];
    assert!(push(&mut sync, &junk).is_empty());
    assert!(sync.search_windows() > 12);
    assert!(!sync.shape_mismatch(), "eight super frames is not a verdict");
    let _ = push(&mut sync, &vec![0x5Au8; 14 * sf]);
    assert!(sync.shape_mismatch(), "twenty-two super frames is");

    let mut aligned = DabPlusSync::new(index).expect("index 10");
    assert_eq!(push(&mut aligned, &fixture(sf)).len(), 3);
    push(&mut aligned, &vec![0x5Au8; 40 * sf]);
    assert!(!aligned.shape_mismatch(), "a stream that aligned is DAB+");
    assert!(aligned.bad_windows() > 0, "the bad stretch is a channel error");
}
