//! Splitting a raw SysEx dump into packets.

use vstd::prelude::*;
use vstd::string::StringExecFns;

verus! {

/// Status byte that opens a System-Exclusive message.
pub const SYSEX_START_BYTE: u8 = 0xF0;

/// Status byte that closes a System-Exclusive message.
pub const SYSEX_END_BYTE: u8 = 0xF7;

/// Why a file was rejected.
#[derive(Debug, Clone, Copy, PartialEq, Eq, Structural)]
pub enum Error {
    /// A segment of a raw dump does not begin with the start byte.
    NoStartByte,
    /// The last segment of a raw dump is not closed by the end byte.
    NoEndByte,
    /// The file holds no SysEx packet at all.
    NoPackets,
    /// The Standard MIDI File container could not be parsed.
    InvalidContainer,
}

impl Error {
    /// Text shown to the user.
    pub fn message(&self) -> (r: String)
        ensures
            r@ == match *self {
                Error::NoStartByte => "Start byte 0xF0 not found."@,
                Error::NoEndByte => "End byte 0xF7 not found."@,
                Error::NoPackets => "No sysex packets found."@,
                Error::InvalidContainer => "Invalid Standard MIDI File."@,
            },
    {
        match self {
            Error::NoStartByte => String::from_str("Start byte 0xF0 not found."),
            Error::NoEndByte => String::from_str("End byte 0xF7 not found."),
            Error::NoPackets => String::from_str("No sysex packets found."),
            Error::InvalidContainer => String::from_str("Invalid Standard MIDI File."),
        }
    }
}

/// The byte sequences held by a list of packets.
pub open spec fn packet_seqs(ps: Seq<Vec<u8>>) -> Seq<Seq<u8>> {
    ps.map_values(|p: Vec<u8>| p@)
}

/// A framing result as mathematical sequences.
pub open spec fn packets_view(r: Result<Vec<Vec<u8>>, Error>) -> Result<Seq<Seq<u8>>, Error> {
    match r {
        Ok(ps) => Ok(packet_seqs(ps@)),
        Err(e) => Err(e),
    }
}

/// `front` followed by the packets of `rest`; an error in `rest` wins.
pub open spec fn prepend(front: Seq<Seq<u8>>, rest: Result<Seq<Seq<u8>>, Error>) -> Result<
    Seq<Seq<u8>>,
    Error,
> {
    match rest {
        Ok(ps) => Ok(front + ps),
        Err(e) => Err(e),
    }
}

/// Length of the first segment of `data`: up to and including its first end
/// byte, or all of `data` when no end byte occurs.
pub open spec fn first_segment_len(data: Seq<u8>) -> nat
    decreases data.len(),
{
    if data.len() == 0 {
        0
    } else if data[0] == SYSEX_END_BYTE {
        1
    } else {
        1 + first_segment_len(data.drop_first())
    }
}

/// The segments of a raw dump, split after each end byte, each checked to
/// open with the start byte and to close with the end byte. The first
/// malformed segment decides the error.
pub open spec fn raw_segments(data: Seq<u8>) -> Result<Seq<Seq<u8>>, Error>
    decreases data.len(),
    via raw_segments_decreases
{
    if data.len() == 0 {
        Ok(Seq::empty())
    } else {
        let n = first_segment_len(data) as int;
        let segment = data.subrange(0, n);
        if segment[0] != SYSEX_START_BYTE {
            Err(Error::NoStartByte)
        } else if segment.last() != SYSEX_END_BYTE {
            Err(Error::NoEndByte)
        } else {
            prepend(seq![segment], raw_segments(data.subrange(n, data.len() as int)))
        }
    }
}

/// The packets of a raw dump; a dump without any packet is rejected.
pub open spec fn sysex_framing(data: Seq<u8>) -> Result<Seq<Seq<u8>>, Error> {
    match raw_segments(data) {
        Ok(ps) => if ps.len() == 0 {
            Err(Error::NoPackets)
        } else {
            Ok(ps)
        },
        Err(e) => Err(e),
    }
}

proof fn lemma_first_segment_len_bounds(data: Seq<u8>)
    ensures
        data.len() > 0 ==> 1 <= first_segment_len(data) <= data.len(),
        data.len() == 0 ==> first_segment_len(data) == 0,
    decreases data.len(),
{
    if data.len() > 0 && data[0] != SYSEX_END_BYTE {
        lemma_first_segment_len_bounds(data.drop_first());
    }
}

#[via_fn]
proof fn raw_segments_decreases(data: Seq<u8>) {
    lemma_first_segment_len_bounds(data);
}

proof fn lemma_first_segment_len_closed(data: Seq<u8>, i: int, j: int)
    requires
        0 <= i <= j < data.len(),
        data[j] == SYSEX_END_BYTE,
        forall|k: int| i <= k < j ==> data[k] != SYSEX_END_BYTE,
    ensures
        first_segment_len(data.subrange(i, data.len() as int)) == j - i + 1,
    decreases j - i,
{
    let s = data.subrange(i, data.len() as int);
    if i < j {
        assert(s.drop_first() =~= data.subrange(i + 1, data.len() as int));
        lemma_first_segment_len_closed(data, i + 1, j);
    }
}

proof fn lemma_first_segment_len_open(data: Seq<u8>, i: int)
    requires
        0 <= i <= data.len(),
        forall|k: int| i <= k < data.len() ==> data[k] != SYSEX_END_BYTE,
    ensures
        first_segment_len(data.subrange(i, data.len() as int)) == data.len() - i,
    decreases data.len() - i,
{
    let s = data.subrange(i, data.len() as int);
    if i < data.len() {
        assert(s.drop_first() =~= data.subrange(i + 1, data.len() as int));
        lemma_first_segment_len_open(data, i + 1);
    }
}

proof fn lemma_prepend_assoc(a: Seq<Seq<u8>>, b: Seq<Seq<u8>>, r: Result<Seq<Seq<u8>>, Error>)
    ensures
        prepend(a, prepend(b, r)) == prepend(a + b, r),
{
    if let Ok(ps) = r {
        assert(a + (b + ps) =~= (a + b) + ps);
    }
}

/// A complete System-Exclusive message: at least the two status bytes, opened
/// by the start byte and closed by the only end byte it holds.
pub open spec fn well_formed_message(m: Seq<u8>) -> bool {
    &&& m.len() >= 2
    &&& m[0] == SYSEX_START_BYTE
    &&& m.last() == SYSEX_END_BYTE
    &&& forall|k: int| 0 <= k < m.len() - 1 ==> m[k] != SYSEX_END_BYTE
}

/// A dump made by concatenating well-formed messages splits back into
/// exactly those messages, in order.
pub proof fn lemma_raw_round_trip(messages: Seq<Seq<u8>>)
    requires
        forall|i: int| 0 <= i < messages.len() ==> well_formed_message(#[trigger] messages[i]),
    ensures
        raw_segments(messages.flatten()) == Ok::<Seq<Seq<u8>>, Error>(messages),
    decreases messages.len(),
{
    if messages.len() > 0 {
        let m = messages[0];
        let rest = messages.drop_first();
        let flat = messages.flatten();
        assert(flat == m + rest.flatten());
        assert(well_formed_message(m));
        assert forall|i: int| 0 <= i < rest.len() implies well_formed_message(#[trigger] rest[i]) by {
            assert(rest[i] == messages[i + 1]);
        }
        lemma_raw_round_trip(rest);
        assert forall|k: int| 0 <= k < m.len() - 1 implies flat[k] != SYSEX_END_BYTE by {
            assert(flat[k] == m[k]);
        }
        lemma_first_segment_len_closed(flat, 0, m.len() - 1);
        assert(flat.subrange(0, flat.len() as int) =~= flat);
        assert(flat.subrange(0, m.len() as int) =~= m);
        assert(flat.subrange(m.len() as int, flat.len() as int) =~= rest.flatten());
        assert(seq![m] + rest =~= messages);
    } else {
        assert(messages.flatten() =~= Seq::<u8>::empty());
        assert(messages =~= Seq::<Seq<u8>>::empty());
    }
}

/// A raw dump whose first byte is not the start byte is rejected with
/// `NoStartByte`.
pub proof fn lemma_rejects_missing_start(data: Seq<u8>)
    requires
        data.len() > 0,
        data[0] != SYSEX_START_BYTE,
    ensures
        sysex_framing(data) == Err::<Seq<Seq<u8>>, Error>(Error::NoStartByte),
{
    lemma_first_segment_len_bounds(data);
}

/// A raw dump of well-formed messages followed by a message that is opened
/// but never closed is rejected with `NoEndByte`.
pub proof fn lemma_rejects_missing_end(messages: Seq<Seq<u8>>, tail: Seq<u8>)
    requires
        forall|i: int| 0 <= i < messages.len() ==> well_formed_message(#[trigger] messages[i]),
        tail.len() > 0,
        tail[0] == SYSEX_START_BYTE,
        forall|k: int| 0 <= k < tail.len() ==> tail[k] != SYSEX_END_BYTE,
    ensures
        sysex_framing(messages.flatten() + tail) == Err::<Seq<Seq<u8>>, Error>(Error::NoEndByte),
{
    lemma_unterminated_tail(messages, tail);
}

proof fn lemma_unterminated_tail(messages: Seq<Seq<u8>>, tail: Seq<u8>)
    requires
        forall|i: int| 0 <= i < messages.len() ==> well_formed_message(#[trigger] messages[i]),
        tail.len() > 0,
        tail[0] == SYSEX_START_BYTE,
        forall|k: int| 0 <= k < tail.len() ==> tail[k] != SYSEX_END_BYTE,
    ensures
        raw_segments(messages.flatten() + tail) == Err::<Seq<Seq<u8>>, Error>(Error::NoEndByte),
    decreases messages.len(),
{
    let data = messages.flatten() + tail;
    if messages.len() > 0 {
        let m = messages[0];
        let rest = messages.drop_first();
        assert(messages.flatten() == m + rest.flatten());
        assert(data =~= m + (rest.flatten() + tail));
        assert(well_formed_message(m));
        assert forall|i: int| 0 <= i < rest.len() implies well_formed_message(#[trigger] rest[i]) by {
            assert(rest[i] == messages[i + 1]);
        }
        lemma_unterminated_tail(rest, tail);
        assert forall|k: int| 0 <= k < m.len() - 1 implies data[k] != SYSEX_END_BYTE by {
            assert(data[k] == m[k]);
        }
        assert(data[m.len() - 1] == m[m.len() - 1]);
        lemma_first_segment_len_closed(data, 0, m.len() - 1);
        assert(data.subrange(0, data.len() as int) =~= data);
        assert(data.subrange(0, m.len() as int) =~= m);
        assert(data.subrange(m.len() as int, data.len() as int) =~= rest.flatten() + tail);
    } else {
        assert(messages.flatten() =~= Seq::<u8>::empty());
        assert(data =~= tail);
        lemma_first_segment_len_open(tail, 0);
        assert(tail.subrange(0, tail.len() as int) =~= tail);
    }
}

/// An empty raw dump is rejected with `NoPackets`.
pub proof fn lemma_rejects_empty_dump()
    ensures
        sysex_framing(Seq::<u8>::empty()) == Err::<Seq<Seq<u8>>, Error>(Error::NoPackets),
{
}

/// Splits a raw SysEx dump into its packets.
pub fn sysex_packets(data: &[u8]) -> (r: Result<Vec<Vec<u8>>, Error>)
    ensures
        packets_view(r) == sysex_framing(data@),
{
    let mut packets: Vec<Vec<u8>> = Vec::new();
    let mut i: usize = 0;
    proof {
        assert(data@.subrange(0, data@.len() as int) =~= data@);
        if let Ok(ps) = raw_segments(data@) {
            assert(packet_seqs(packets@) + ps =~= ps);
        }
    }
    while i < data.len()
        invariant
            i <= data@.len(),
            raw_segments(data@) == prepend(
                packet_seqs(packets@),
                raw_segments(data@.subrange(i as int, data@.len() as int)),
            ),
        decreases data@.len() - i,
    {
        let mut segment: Vec<u8> = Vec::new();
        let mut j: usize = i;
        while j < data.len() && data[j] != SYSEX_END_BYTE
            invariant
                i <= j <= data@.len(),
                segment@ == data@.subrange(i as int, j as int),
                forall|k: int| i <= k < j ==> data@[k] != SYSEX_END_BYTE,
            decreases data@.len() - j,
        {
            segment.push(data[j]);
            j = j + 1;
        }
        let ghost rest = data@.subrange(i as int, data@.len() as int);
        if j < data.len() {
            proof {
                lemma_first_segment_len_closed(data@, i as int, j as int);
            }
            segment.push(data[j]);
            j = j + 1;
        } else {
            proof {
                lemma_first_segment_len_open(data@, i as int);
            }
        }
        assert(segment@ =~= rest.subrange(0, first_segment_len(rest) as int));
        assert(rest.subrange(first_segment_len(rest) as int, rest.len() as int) =~= data@.subrange(
            j as int,
            data@.len() as int,
        ));
        if segment[0] != SYSEX_START_BYTE {
            return Err(Error::NoStartByte);
        }
        if segment[segment.len() - 1] != SYSEX_END_BYTE {
            return Err(Error::NoEndByte);
        }
        proof {
            lemma_prepend_assoc(
                packet_seqs(packets@),
                seq![segment@],
                raw_segments(data@.subrange(j as int, data@.len() as int)),
            );
        }
        let ghost before = packets@;
        packets.push(segment);
        assert(packet_seqs(packets@) =~= packet_seqs(before) + seq![segment@]);
        i = j;
    }
    assert(data@.subrange(i as int, data@.len() as int) =~= Seq::<u8>::empty());
    assert(packet_seqs(packets@) + Seq::<Seq<u8>>::empty() =~= packet_seqs(packets@));
    if packets.len() == 0 {
        Err(Error::NoPackets)
    } else {
        Ok(packets)
    }
}

} // verus!
