use neowon_app::actions::{
    fft_size, instrument_script_line, parse_instrument, parse_sim, seed_script_line,
};
use neowon_app::text::parse_u64;

fn words(s: &str) -> Vec<&str> {
    s.split_whitespace().collect()
}

#[test]
fn the_seed_and_instrument_verbs_parse() {
    assert_eq!(parse_sim(&words("iq --seed 7")), Ok(7));
    assert!(parse_sim(&words("iq 7")).is_err());
    assert_eq!(
        parse_sim(&words("iq 7")),
        Err("expected: sim iq --seed <n>".to_string())
    );
    assert_eq!(parse_sim(&words("iq --seed x")), Err("bad seed".to_string()));
    assert_eq!(parse_sim(&words("iq --seed")), Err("missing argument".to_string()));
    assert_eq!(parse_sim(&words("iq")), Err("missing argument".to_string()));
    assert_eq!(parse_instrument(&words("sdr")), Ok(true));
    assert_eq!(parse_instrument(&words("scope")), Ok(false));
    assert!(parse_instrument(&words("audio")).is_err());
    assert_eq!(
        parse_instrument(&words("audio")),
        Err("unknown instrument \"audio\"; use scope|sdr".to_string())
    );
}

#[test]
fn the_seed_and_instrument_lines_read_back() {
    for seed in [0u64, 7, 1 << 40, u64::MAX] {
        let line = seed_script_line(seed);
        let w = words(&line);
        assert_eq!(w[0], "sim");
        assert_eq!(parse_sim(&w[1..]), Ok(seed), "{line}");
    }
    assert_eq!(seed_script_line(7), "sim iq --seed 7");
    for sdr in [true, false] {
        let line = instrument_script_line(sdr);
        let w = words(&line);
        assert_eq!(w[0], "instrument");
        assert_eq!(parse_instrument(&w[1..]), Ok(sdr), "{line}");
    }
    assert_eq!(instrument_script_line(false), "instrument scope");
    assert_eq!(parse_u64("18446744073709551615", 0, 10), Some(u64::MAX));
    assert_eq!(parse_u64("18446744073709551616", 0, 10), None);
}

#[test]
fn the_fft_size_must_be_one_the_spectrum_offers() {
    for n in [1024, 2048, 4096, 8192, 16384] {
        assert_eq!(fft_size(n), Ok(n));
    }
    assert_eq!(
        fft_size(1000),
        Err("FFT size 1000 not in [1024, 2048, 4096, 8192, 16384]".to_string())
    );
    assert_eq!(
        fft_size(0),
        Err("FFT size 0 not in [1024, 2048, 4096, 8192, 16384]".to_string())
    );
}
