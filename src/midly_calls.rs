//! The calls into midly.

use vstd::prelude::*;

use crate::smf::has_negated_fps_header;

verus! {

/// The tracks that midly reads from a Standard MIDI File, each event given as
/// its SysEx payload (without the leading start byte) or as `None` for any
/// other kind of event; `None` when midly rejects the file.
pub uninterp spec fn smf_tracks(data: Seq<u8>) -> Option<Seq<Seq<Option<Seq<u8>>>>>;

/// Relies on midly::Smf::parse: the tracks and events of the file, in file
/// order, with the payload of each `TrackEventKind::SysEx` event; its
/// error becomes `None`. midly negates the high timing byte of a header as
/// an `i8`, which overflows on 0x80; such inputs are kept out.
#[verifier::external_body]
pub(crate) fn parse_tracks(data: &[u8]) -> (r: Option<Vec<Vec<Option<Vec<u8>>>>>)
    requires
        !has_negated_fps_header(data@),
    ensures
        match r {
            Some(tracks) => smf_tracks(data@) == Some(tracks.deep_view()),
            None => smf_tracks(data@) is None,
        },
{
    let smf = midly::Smf::parse(data).ok()?;
    Some(smf.tracks.iter().map(|track| track.iter().map(|event| match event.kind {
        midly::TrackEventKind::SysEx(payload) => Some(payload.to_vec()),
        midly::TrackEventKind::Midi { .. } => None,
        midly::TrackEventKind::Escape(_) => None,
        midly::TrackEventKind::Meta(_) => None,
    }).collect()).collect())
}

} // verus!
