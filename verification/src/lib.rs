//! The verified core of the neowon SDR/scope application: the decisions,
//! tables and byte formats its UI and radio paths rest on.

pub mod actions;
pub mod audio;
pub mod dab_gone;
pub mod decode_gate;
pub mod dock;
pub mod dab_state;
pub mod dabplus_sync;
pub mod dls;
pub mod ingest;
pub mod interleave;
pub mod layout;
pub mod menu;
pub mod readout;
pub mod scene;
pub mod session_words;
pub mod shortcuts;
pub mod stream_spec;
pub mod text;
