# neowon_app

The verified core of the neowon scope/SDR application: the decisions, tables
and byte formats its UI and DAB radio path rest on, each stated as a contract
and proved with Verus.

## Layout

- `src/` — the library, all of it verified.
  - `dls`, `scene`, `interleave` — the `rf-dab` sim scene's DLS programme
    (data groups, annex-E CRC, X-PAD regions) and the clause-12 time
    interleaver for the sub-channels whose bytes the scene chooses.
  - `dabplus_sync`, `decode_gate`, `stream_spec` — DAB+ super-frame
    synchronisation, when a playback stream is declared undecodable, and how
    a service of the locked table resolves to a stream plan.
  - `dab_state`, `dab_gone`, `ingest` — the DAB-derived state and the one
    way it is cleared, the record of what a receiver lost, and the frame and
    gap counters.
  - `actions`, `readout`, `dock`, `text` — the `sdr dab` script verbs (parse,
    print, round trip) and the FFT sizes `sdr fft` accepts, the `get dab`
    JSON fragments, the dock's status words,
    and the number/JSON text they are built from.
  - `audio` — the output device's single owner and the name of its state.
  - `menu`, `shortcuts`, `session_words`, `layout` — the settings dock's
    sections, the keyboard bindings and their workspace rule, the scope mode
    cycles and their script words, the UI regions.
- `tests/` — executable tests against the compiled library.
- `app/` — the script front end and the loops that alternate the library's
  decisions with the radio and codec work (super-frame trial decoding,
  feeding IQ, coding a chosen sub-channel, firing shortcuts).
