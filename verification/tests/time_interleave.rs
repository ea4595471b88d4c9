use neowon_app::interleave::{cycle_divides, ChosenChannel, TimeInterleaver};

/// A sixteen-branch delay map (the bit-reversed order of the branches).
fn delays() -> Vec<usize> {
    vec![0, 8, 4, 12, 2, 10, 6, 14, 1, 9, 5, 13, 3, 11, 7, 15]
}

#[test]
fn each_bit_leaves_its_own_number_of_frames_later() {
    let cu = 32;
    let map = delays();
    let mut t = TimeInterleaver::new(cu, map.clone());
    for r in 0..40usize {
        // Frame r carries the value r + 1 in every bit position.
        let input = vec![(r + 1) as u8; cu];
        let out = t.push(&input);
        assert_eq!(out.len(), cu);
        for (i, &bit) in out.iter().enumerate() {
            let d = map[i % 16];
            let expected = if r >= d { (r - d + 1) as u8 } else { 0 };
            assert_eq!(bit, expected, "frame {r} bit {i}");
        }
    }
    assert_eq!(t.frames(), 40);
}

#[test]
fn a_short_codeword_is_zero_filled() {
    let mut t = TimeInterleaver::new(8, vec![0, 1]);
    assert_eq!(t.push(&[7, 7, 7]), vec![7, 0, 7, 0, 0, 0, 0, 0]);
    assert_eq!(t.push(&[5; 8]), vec![5, 7, 5, 0, 5, 0, 5, 0]);
}

#[test]
fn the_source_cycles_on_whole_frames() {
    let source: Vec<u8> = (0..12).collect();
    let mut ch = ChosenChannel::new(1536, 16, 4, source, vec![0, 1]);
    assert_eq!(ch.start_bit(), 1536);
    assert_eq!(ch.cu_bits(), 16, "a punctured codeword may carry up to 16 bits");
    assert_eq!(ch.period_frames(), 3);
    assert_eq!(ch.next_payload(), vec![0, 1, 2, 3]);
    assert_eq!(ch.next_payload(), vec![4, 5, 6, 7]);
    assert_eq!(ch.next_payload(), vec![8, 9, 10, 11]);
    // The seam is a frame boundary: the cycle starts over whole.
    assert_eq!(ch.next_payload(), vec![0, 1, 2, 3]);
    let out = ch.interleave(&[1; 16]);
    assert_eq!(out, vec![1, 0, 1, 0, 1, 0, 1, 0, 1, 0, 1, 0, 1, 0, 1, 0]);
    assert!(cycle_divides(60, 3));
    assert!(cycle_divides(60, 15));
    assert!(!cycle_divides(60, 17));
}

#[test]
fn the_complementary_delays_undo_the_interleaver() {
    let cu = 32;
    let map = delays();
    let complement: Vec<usize> = map.iter().map(|d| 15 - d).collect();
    let mut tx = TimeInterleaver::new(cu, map);
    let mut rx = TimeInterleaver::new(cu, complement);
    for r in 0..48usize {
        let input: Vec<u8> = (0..cu).map(|i| (r * 7 + i) as u8).collect();
        let out = rx.push(&tx.push(&input));
        if r >= 15 {
            let sent = r - 15;
            let expected: Vec<u8> = (0..cu).map(|i| (sent * 7 + i) as u8).collect();
            assert_eq!(out, expected, "frame {r}");
        }
    }
}
