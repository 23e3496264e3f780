//! Source formats, validation of a file's contents, and its packets.

use vstd::prelude::*;
use vstd::string::StringSliceAdditionalSpecFns;

use crate::framing::{
    lemma_raw_round_trip, packet_seqs, packets_view, sysex_framing, sysex_packets,
    well_formed_message, Error,
};
use crate::smf::{smf_framing, smf_packets};

verus! {

/// How a file's contents are read.
#[derive(Debug, Clone, Copy, PartialEq, Eq, Structural)]
pub enum FileType {
    /// Raw SysEx dump: concatenated messages.
    SysEx,
    /// Standard MIDI File.
    SMF,
}

/// Summary of a file that passed validation.
#[derive(Debug, Clone, Copy, PartialEq, Eq, Structural)]
pub struct FileManifest {
    /// How the contents are read.
    pub format: FileType,
    /// Size of the contents in bytes.
    pub size_bytes: u64,
    /// Number of SysEx packets in the contents; never zero.
    pub packet_count: usize,
}

/// The path separator.
pub const PATH_SEPARATOR: u8 = 0x2F;

/// The separator that Windows paths use besides `/`.
pub const BACKSLASH: u8 = 0x5C;

/// Whether `c` separates path components: a slash, or a backslash as on
/// Windows.
pub open spec fn is_separator(c: u8) -> bool {
    c == PATH_SEPARATOR || c == BACKSLASH
}

fn separator(c: u8) -> (r: bool)
    ensures
        r == is_separator(c),
{
    c == PATH_SEPARATOR || c == BACKSLASH
}

/// The byte of a dot.
pub const DOT: u8 = 0x2E;

/// `p` without its trailing separators and trailing `.` components, which
/// name no file of their own.
pub open spec fn trim_separators(p: Seq<u8>) -> Seq<u8>
    decreases p.len(),
{
    if p.len() > 0 && is_separator(p.last()) {
        trim_separators(p.drop_last())
    } else if p.len() >= 2 && p.last() == DOT && is_separator(p[p.len() - 2]) {
        trim_separators(p.drop_last())
    } else {
        p
    }
}

/// Index just after the last separator of `p`, or 0 when it holds none.
pub open spec fn name_start(p: Seq<u8>) -> int
    decreases p.len(),
{
    if p.len() == 0 {
        0
    } else if is_separator(p.last()) {
        p.len() as int
    } else {
        name_start(p.drop_last())
    }
}

/// The last component of a path, given as its UTF-8 bytes; empty when that
/// component is `..`, which names the parent directory and no file.
pub open spec fn file_name(p: Seq<u8>) -> Seq<u8> {
    let t = trim_separators(p);
    let name = t.subrange(name_start(t), t.len() as int);
    if name == seq![DOT, DOT] {
        Seq::empty()
    } else {
        name
    }
}

/// ASCII lower case of a byte.
pub open spec fn ascii_lower(c: u8) -> u8 {
    if 0x41 <= c <= 0x5A {
        (c + 0x20) as u8
    } else {
        c
    }
}

/// A file name whose extension (the text after its last dot, where that dot
/// is not the first character) is `mid` in any letter case.
pub open spec fn has_mid_extension(name: Seq<u8>) -> bool {
    let n = name.len() as int;
    &&& n >= 5
    &&& name[n - 4] == 0x2E
    &&& ascii_lower(name[n - 3]) == 0x6D
    &&& ascii_lower(name[n - 2]) == 0x69
    &&& ascii_lower(name[n - 1]) == 0x64
}

/// The format of a file, from the UTF-8 bytes of its path.
pub open spec fn file_type_of(p: Seq<u8>) -> FileType {
    if has_mid_extension(file_name(p)) {
        FileType::SMF
    } else {
        FileType::SysEx
    }
}

fn lower_byte(c: u8) -> (r: u8)
    ensures
        r == ascii_lower(c),
{
    if 0x41 <= c && c <= 0x5A {
        c + 0x20
    } else {
        c
    }
}

impl FileType {
    /// Format of the file at `path`: a `.mid` extension, in any letter case,
    /// means a Standard MIDI File, anything else a raw SysEx dump.
    ///
    /// Trailing separators and `.` components are passed over, as std's
    /// `Path::extension` does.
    pub fn from_path(path: &str) -> (r: FileType)
        ensures
            r == file_type_of(path.spec_bytes()),
    {
        let bytes = path.as_bytes();
        let ghost p = bytes@;
        let mut end: usize = bytes.len();
        assert(p.take(end as int) =~= p);
        while end > 0 && (separator(bytes[end - 1]) || (end >= 2 && bytes[end - 1] == DOT
            && separator(bytes[end - 2])))
            invariant
                end <= p.len(),
                p == bytes@,
                trim_separators(p) == trim_separators(p.take(end as int)),
            decreases end,
        {
            assert(p.take(end as int).drop_last() =~= p.take(end - 1));
            end = end - 1;
        }
        let ghost t = p.take(end as int);
        assert(trim_separators(t) == t);
        let mut start: usize = end;
        assert(t.take(start as int) =~= t);
        while start > 0 && !separator(bytes[start - 1])
            invariant
                start <= end,
                end <= p.len(),
                p == bytes@,
                t == p.take(end as int),
                name_start(t) == name_start(t.take(start as int)),
            decreases start,
        {
            assert(t.take(start as int).drop_last() =~= t.take(start - 1));
            start = start - 1;
        }
        assert(name_start(t.take(start as int)) == start);
        let ghost name = t.subrange(start as int, end as int);
        assert(name.len() >= 5 ==> name != seq![DOT, DOT]);
        assert(name.len() >= 5 ==> file_name(p) == name);
        if end - start >= 5 && bytes[end - 4] == DOT && lower_byte(bytes[end - 3]) == 0x6D
            && lower_byte(bytes[end - 2]) == 0x69 && lower_byte(bytes[end - 1]) == 0x64 {
            assert(has_mid_extension(name));
            FileType::SMF
        } else {
            FileType::SysEx
        }
    }
}

/// The packets of `data` read as `format`.
pub open spec fn framing_of(data: Seq<u8>, format: FileType) -> Result<Seq<Seq<u8>>, Error> {
    match format {
        FileType::SysEx => sysex_framing(data),
        FileType::SMF => smf_framing(data),
    }
}

/// What validating `data` read as `format` gives.
pub open spec fn validation(data: Seq<u8>, format: FileType) -> Result<FileManifest, Error> {
    match framing_of(data, format) {
        Ok(ps) => Ok(
            FileManifest {
                format,
                size_bytes: data.len() as u64,
                packet_count: ps.len() as usize,
            },
        ),
        Err(e) => Err(e),
    }
}

/// Splits `data`, read as `format`, into the packets to send.
pub fn produce_packets(data: &[u8], format: FileType) -> (r: Result<Vec<Vec<u8>>, Error>)
    ensures
        packets_view(r) == framing_of(data@, format),
{
    match format {
        FileType::SysEx => sysex_packets(data),
        FileType::SMF => smf_packets(data),
    }
}

/// Checks that `data`, read as `format`, holds at least one well-framed
/// packet, and counts them.
pub fn validate_and_count(data: &[u8], format: FileType) -> (r: Result<FileManifest, Error>)
    ensures
        r == validation(data@, format),
        r matches Ok(m) ==> m.packet_count >= 1,
        r matches Ok(m) ==> m.packet_count == framing_of(data@, format)->Ok_0.len(),
{
    match produce_packets(data, format) {
        Ok(packets) => Ok(
            FileManifest { format, size_bytes: data.len() as u64, packet_count: packets.len() },
        ),
        Err(e) => Err(e),
    }
}

/// A raw dump made by concatenating `N` well-formed messages validates with
/// `N` packets, and splits into exactly those messages, each opened by the
/// start byte and closed by the end byte.
pub proof fn lemma_framing_round_trip(messages: Seq<Seq<u8>>)
    requires
        messages.len() > 0,
        messages.flatten().len() <= usize::MAX,
        forall|i: int| 0 <= i < messages.len() ==> well_formed_message(#[trigger] messages[i]),
    ensures
        framing_of(messages.flatten(), FileType::SysEx) == Ok::<Seq<Seq<u8>>, Error>(messages),
        validation(messages.flatten(), FileType::SysEx) == Ok::<FileManifest, Error>(
            FileManifest {
                format: FileType::SysEx,
                size_bytes: messages.flatten().len() as u64,
                packet_count: messages.len() as usize,
            },
        ),
{
    lemma_raw_round_trip(messages);
}

} // verus!
