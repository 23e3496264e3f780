//! Framing, pacing and progress logic for sending System-Exclusive dumps to
//! a MIDI output device.
//!
//! - `framing`: splitting a raw SysEx dump into packets.
//! - `smf`: one packet per SysEx event of a Standard MIDI File.
//! - `source`: file formats, validation and the packets of a file.
//! - `engine`: the paced, cancellable send loop as a state machine.
//! - `status`: the observer's events and transfer state.
//! - `roster`: decisions on the list of output devices.

mod engine;
mod framing;
mod midly_calls;
mod roster;
mod smf;
mod source;
mod status;

pub use engine::{
    lemma_cancel_after_first_packet, lemma_finished_stays_finished, lemma_progress_in_order,
    run_trace, step, Outcome, RunStep, TransferRun,
};
pub use framing::{
    lemma_raw_round_trip, lemma_rejects_empty_dump, lemma_rejects_missing_end,
    lemma_rejects_missing_start, packet_seqs, packets_view, prepend, raw_segments, sysex_framing,
    sysex_packets, well_formed_message, Error, SYSEX_END_BYTE, SYSEX_START_BYTE,
};
pub use midly_calls::smf_tracks;
pub use roster::{
    device_to_reselect, find_device, names, port_for, position_of, roster_changed, selected_index, ConnectError,
};
pub use smf::{
    event_packets, find_negated_fps_header, has_negated_fps_header, lemma_rejects_empty_smf,
    lemma_rejects_no_sysex,
    negated_fps_header_at, payload_packets, smf_framing, smf_packets,
    track_packets, tracks_framing, tracks_packets, tracks_to_packets,
};
pub use source::{
    ascii_lower, file_name, file_type_of, framing_of, has_mid_extension, lemma_framing_round_trip,
    name_start, produce_packets, trim_separators, validate_and_count, validation, FileManifest,
    is_separator, FileType, BACKSLASH, DOT, PATH_SEPARATOR,
};
pub use status::{apply_spec, Message, StartRefusal, TransferState, TransferStatus};
