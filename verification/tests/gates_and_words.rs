use neowon_app::decode_gate::{
    dabplus_refused, dabplus_shape_reason, mp2_stall_reason, Mp2Progress, MAX_MP2_BYTES_WITHOUT_SYNC,
};
use neowon_app::session_words::{
    acquisition_name, condition_words, coupling_name, slope_name, sweep_name, trace_mode_name,
    PulseCondition,
};
use neowon_app::shortcuts::{Acquisition, Coupling, Slope, Sweep, TraceMode};

#[test]
fn an_mp2_stream_is_refused_only_after_the_sync_budget() {
    let mut p = Mp2Progress::new();
    p.note_bytes(384 * 170);
    assert!(!p.stalled(0), "65280 bytes is inside the budget");
    p.note_bytes(384);
    assert!(p.stalled(0));
    assert!(!p.stalled(1), "a stream that decoded is MP2");
    p.note_frame();
    assert!(!p.stalled(0), "a frame found is sync");
    assert_eq!(MAX_MP2_BYTES_WITHOUT_SYNC, 65536);
    assert_eq!(
        mp2_stall_reason(65664),
        "no MPEG-1 Layer II sync in 65664 bytes; the sub-channel is not an MP2 stream"
    );
    let mut full = Mp2Progress { bytes: u64::MAX - 1, frames: 0 };
    full.note_bytes(10);
    assert_eq!(full.bytes, u64::MAX);
}

#[test]
fn a_dabplus_stream_is_refused_only_before_it_decodes() {
    assert!(dabplus_refused(0, true));
    assert!(!dabplus_refused(1, true));
    assert!(!dabplus_refused(0, false));
    assert_eq!(
        dabplus_shape_reason(514, 10),
        "no valid DAB+ super frame in 514 windows (Fire code); the stream is not the signalled 10 \u{d7} 8 kbit/s DAB+ shape"
    );
}

#[test]
fn a_session_writes_the_script_words() {
    assert_eq!(sweep_name(Sweep::Auto), "auto");
    assert_eq!(sweep_name(Sweep::Single), "single");
    assert_eq!(condition_words(PulseCondition::PositiveGreater), ("pos", "gt"));
    assert_eq!(condition_words(PulseCondition::NegativeEqual), ("neg", "eq"));
    assert_eq!(condition_words(PulseCondition::NegativeLess), ("neg", "lt"));
    assert_eq!(acquisition_name(Acquisition::Sample), "sample");
    assert_eq!(acquisition_name(Acquisition::Average(4)), "avg4");
    assert_eq!(acquisition_name(Acquisition::Average(64)), "avg64");
    assert_eq!(acquisition_name(Acquisition::Average(16)), "avg16");
    assert_eq!(acquisition_name(Acquisition::Average(8)), "avg16");
    assert_eq!(coupling_name(Coupling::Gnd), "gnd");
    assert_eq!(slope_name(Slope::Falling), "falling");
    assert_eq!(trace_mode_name(TraceMode::Xy), "xy");
}
