//! Extracting SysEx packets from a Standard MIDI File.

use vstd::prelude::*;

use crate::framing::{packet_seqs, packets_view, Error, SYSEX_START_BYTE};
use crate::midly_calls::{parse_tracks, smf_tracks};

verus! {

/// The packet sent for one event: the start byte followed by the payload of
/// a SysEx event, nothing for any other event.
pub open spec fn event_packets(event: Option<Seq<u8>>) -> Seq<Seq<u8>> {
    match event {
        Some(payload) => seq![seq![SYSEX_START_BYTE] + payload],
        None => Seq::empty(),
    }
}

/// The packets of one track, in event order.
pub open spec fn track_packets(events: Seq<Option<Seq<u8>>>) -> Seq<Seq<u8>>
    decreases events.len(),
{
    if events.len() == 0 {
        Seq::empty()
    } else {
        track_packets(events.drop_last()) + event_packets(events.last())
    }
}

/// The packets of all tracks: tracks in file order, events within a track in
/// file order.
pub open spec fn tracks_packets(tracks: Seq<Seq<Option<Seq<u8>>>>) -> Seq<Seq<u8>>
    decreases tracks.len(),
{
    if tracks.len() == 0 {
        Seq::empty()
    } else {
        tracks_packets(tracks.drop_last()) + track_packets(tracks.last())
    }
}

/// The packets of a file whose tracks are `tracks`; a file without any SysEx
/// event is rejected.
pub open spec fn tracks_framing(tracks: Seq<Seq<Option<Seq<u8>>>>) -> Result<Seq<Seq<u8>>, Error> {
    let ps = tracks_packets(tracks);
    if ps.len() == 0 {
        Err(Error::NoPackets)
    } else {
        Ok(ps)
    }
}

/// The packets of a Standard MIDI File.
/// Whether a header chunk could start at `p`: the id `MThd`, a format of 0,
/// 1 or 2, and a timing field whose high byte is 0x80 (an SMPTE rate of
/// -128 frames per second, which no file uses).
pub open spec fn negated_fps_header_at(data: Seq<u8>, p: int) -> bool {
    &&& 0 <= p
    &&& p + 13 <= data.len()
    &&& data[p] == 0x4D
    &&& data[p + 1] == 0x54
    &&& data[p + 2] == 0x68
    &&& data[p + 3] == 0x64
    &&& data[p + 8] == 0
    &&& data[p + 9] <= 2
    &&& data[p + 12] == 0x80
}

/// Whether such a header could start anywhere in `data`.
pub open spec fn has_negated_fps_header(data: Seq<u8>) -> bool {
    exists|p: int| negated_fps_header_at(data, p)
}

/// The packets of a Standard MIDI File. An empty file holds no packets; a
/// file with a header of SMPTE rate -128 is not a valid container.
pub open spec fn smf_framing(data: Seq<u8>) -> Result<Seq<Seq<u8>>, Error> {
    if data.len() == 0 {
        Err(Error::NoPackets)
    } else if has_negated_fps_header(data) {
        Err(Error::InvalidContainer)
    } else {
        match smf_tracks(data) {
            Some(tracks) => tracks_framing(tracks),
            None => Err(Error::InvalidContainer),
        }
    }
}

/// An empty file read as a Standard MIDI File is rejected with `NoPackets`.
pub proof fn lemma_rejects_empty_smf()
    ensures
        smf_framing(Seq::<u8>::empty()) == Err::<Seq<Seq<u8>>, Error>(Error::NoPackets),
{
}

/// Looks for a header of SMPTE rate -128 anywhere in `data`.
pub fn find_negated_fps_header(data: &[u8]) -> (r: bool)
    ensures
        r == has_negated_fps_header(data@),
{
    let mut p: usize = 0;
    while p < data.len() && data.len() - p >= 13
        invariant
            p <= data@.len(),
            forall|q: int| 0 <= q < p ==> !negated_fps_header_at(data@, q),
        decreases data@.len() - p,
    {
        if data[p] == 0x4D && data[p + 1] == 0x54 && data[p + 2] == 0x68 && data[p + 3] == 0x64
            && data[p + 8] == 0 && data[p + 9] <= 2 && data[p + 12] == 0x80 {
            assert(negated_fps_header_at(data@, p as int));
            return true;
        }
        p = p + 1;
    }
    assert forall|q: int| !negated_fps_header_at(data@, q) by {
        if 0 <= q && q >= p {
            assert(q + 13 > data@.len());
        }
    }
    false
}

proof fn lemma_no_sysex_track(events: Seq<Option<Seq<u8>>>)
    requires
        forall|e: int| 0 <= e < events.len() ==> (#[trigger] events[e]) is None,
    ensures
        track_packets(events) =~= Seq::<Seq<u8>>::empty(),
    decreases events.len(),
{
    if events.len() > 0 {
        lemma_no_sysex_track(events.drop_last());
    }
}

/// A file whose tracks hold no SysEx event is rejected with `NoPackets`.
pub proof fn lemma_rejects_no_sysex(tracks: Seq<Seq<Option<Seq<u8>>>>)
    requires
        forall|t: int, e: int|
            0 <= t < tracks.len() && 0 <= e < tracks[t].len() ==> (#[trigger] tracks[t][e]) is None,
    ensures
        tracks_framing(tracks) == Err::<Seq<Seq<u8>>, Error>(Error::NoPackets),
    decreases tracks.len(),
{
    if tracks.len() > 0 {
        let last = tracks.last();
        assert forall|e: int| 0 <= e < last.len() implies (#[trigger] last[e]) is None by {
            assert(tracks[tracks.len() - 1][e] is None);
        }
        lemma_no_sysex_track(last);
        let front = tracks.drop_last();
        assert forall|t: int, e: int| 0 <= t < front.len() && 0 <= e < front[t].len() implies (
        #[trigger] front[t][e]) is None by {
            assert(tracks[t][e] is None);
        }
        lemma_rejects_no_sysex(front);
    }
}

/// Builds one packet per SysEx event of the given tracks, prefixing each
/// payload with the start byte.
pub fn payload_packets(tracks: &Vec<Vec<Option<Vec<u8>>>>) -> (r: Vec<Vec<u8>>)
    ensures
        packet_seqs(r@) == tracks_packets(tracks.deep_view()),
{
    let ghost tv = tracks.deep_view();
    let mut packets: Vec<Vec<u8>> = Vec::new();
    let mut t: usize = 0;
    while t < tracks.len()
        invariant
            t <= tracks@.len(),
            tv == tracks.deep_view(),
            packet_seqs(packets@) == tracks_packets(tv.take(t as int)),
        decreases tracks@.len() - t,
    {
        let track = &tracks[t];
        let ghost ev = tv[t as int];
        assert(ev == track.deep_view());
        let ghost start = packet_seqs(packets@);
        let mut e: usize = 0;
        assert(ev.take(0) =~= Seq::<Option<Seq<u8>>>::empty());
        assert(start + Seq::<Seq<u8>>::empty() =~= start);
        while e < track.len()
            invariant
                e <= track@.len(),
                ev == track.deep_view(),
                packet_seqs(packets@) == start + track_packets(ev.take(e as int)),
            decreases track@.len() - e,
        {
            let ghost before = packets@;
            assert(ev.take(e as int + 1).drop_last() =~= ev.take(e as int));
            match &track[e] {
                Some(payload) => {
                    let mut packet: Vec<u8> = Vec::new();
                    packet.push(SYSEX_START_BYTE);
                    let mut k: usize = 0;
                    while k < payload.len()
                        invariant
                            k <= payload@.len(),
                            packet@ == seq![SYSEX_START_BYTE] + payload@.take(k as int),
                        decreases payload@.len() - k,
                    {
                        packet.push(payload[k]);
                        k = k + 1;
                        assert(packet@ =~= seq![SYSEX_START_BYTE] + payload@.take(k as int));
                    }
                    assert(payload@.take(k as int) =~= payload@);
                    assert(payload.deep_view() =~= payload@);
                    packets.push(packet);
                    assert(packet_seqs(packets@) =~= packet_seqs(before) + seq![packet@]);
                },
                None => {},
            }
            e = e + 1;
            assert(packet_seqs(packets@) =~= start + track_packets(ev.take(e as int)));
        }
        assert(ev.take(e as int) =~= ev);
        assert(tv.take(t as int + 1).drop_last() =~= tv.take(t as int));
        t = t + 1;
    }
    assert(tv.take(t as int) =~= tv);
    packets
}

/// The packets of a file whose tracks are `tracks`, or `NoPackets` when no
/// event is a SysEx event.
pub fn tracks_to_packets(tracks: &Vec<Vec<Option<Vec<u8>>>>) -> (r: Result<Vec<Vec<u8>>, Error>)
    ensures
        packets_view(r) == tracks_framing(tracks.deep_view()),
{
    let packets = payload_packets(tracks);
    if packets.len() == 0 {
        Err(Error::NoPackets)
    } else {
        Ok(packets)
    }
}

/// Reads a Standard MIDI File and builds one packet per SysEx event.
pub fn smf_packets(data: &[u8]) -> (r: Result<Vec<Vec<u8>>, Error>)
    ensures
        packets_view(r) == smf_framing(data@),
{
    if data.len() == 0 {
        return Err(Error::NoPackets);
    }
    if find_negated_fps_header(data) {
        return Err(Error::InvalidContainer);
    }
    match parse_tracks(data) {
        Some(tracks) => tracks_to_packets(&tracks),
        None => Err(Error::InvalidContainer),
    }
}

} // verus!
