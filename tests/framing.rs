use sysex_drop::{
    produce_packets, sysex_packets, validate_and_count, Error, FileManifest, FileType,
};

#[test]
fn raw_dump_round_trip() {
    let data: Vec<u8> = vec![0xF0, 0x41, 0x10, 0xF7, 0xF0, 0xF7, 0xF0, 0x7E, 0x00, 0x01, 0xF7];
    let packets = sysex_packets(&data).unwrap();
    assert_eq!(
        packets,
        vec![vec![0xF0, 0x41, 0x10, 0xF7], vec![0xF0, 0xF7], vec![0xF0, 0x7E, 0x00, 0x01, 0xF7]]
    );
    for p in &packets {
        assert_eq!(p[0], 0xF0);
        assert_eq!(*p.last().unwrap(), 0xF7);
    }
    let manifest = validate_and_count(&data, FileType::SysEx).unwrap();
    assert_eq!(
        manifest,
        FileManifest { format: FileType::SysEx, size_bytes: 11, packet_count: 3 }
    );
}

#[test]
fn single_message_dump() {
    let data: Vec<u8> = vec![0xF0, 0x01, 0x02, 0xF7];
    assert_eq!(produce_packets(&data, FileType::SysEx), Ok(vec![data.clone()]));
}

#[test]
fn rejects_missing_start_byte() {
    let data: Vec<u8> = vec![0x41, 0x10, 0xF7];
    assert_eq!(sysex_packets(&data), Err(Error::NoStartByte));
    assert_eq!(validate_and_count(&data, FileType::SysEx), Err(Error::NoStartByte));
}

#[test]
fn rejects_bad_start_after_good_message() {
    let data: Vec<u8> = vec![0xF0, 0x01, 0xF7, 0x00, 0xF7];
    assert_eq!(sysex_packets(&data), Err(Error::NoStartByte));
}

#[test]
fn rejects_missing_end_byte() {
    let data: Vec<u8> = vec![0xF0, 0x01, 0xF7, 0xF0, 0x02, 0x03];
    assert_eq!(sysex_packets(&data), Err(Error::NoEndByte));
    assert_eq!(validate_and_count(&data, FileType::SysEx), Err(Error::NoEndByte));
}

#[test]
fn rejects_trailing_garbage() {
    let data: Vec<u8> = vec![0xF0, 0x01, 0xF7, 0x00, 0x00];
    assert_eq!(sysex_packets(&data), Err(Error::NoStartByte));
}

#[test]
fn rejects_empty_dump() {
    let data: Vec<u8> = Vec::new();
    assert_eq!(sysex_packets(&data), Err(Error::NoPackets));
    assert_eq!(validate_and_count(&data, FileType::SysEx), Err(Error::NoPackets));
}

#[test]
fn lone_end_byte_has_no_start() {
    let data: Vec<u8> = vec![0xF7];
    assert_eq!(sysex_packets(&data), Err(Error::NoStartByte));
}

#[test]
fn error_messages() {
    assert_eq!(Error::NoStartByte.message(), "Start byte 0xF0 not found.");
    assert_eq!(Error::NoEndByte.message(), "End byte 0xF7 not found.");
    assert_eq!(Error::NoPackets.message(), "No sysex packets found.");
    assert_eq!(Error::InvalidContainer.message(), "Invalid Standard MIDI File.");
}

#[test]
fn file_type_from_extension() {
    assert_eq!(FileType::from_path("song.mid"), FileType::SMF);
    assert_eq!(FileType::from_path("/home/user/Song.MID"), FileType::SMF);
    assert_eq!(FileType::from_path("dir/take.MiD/"), FileType::SMF);
    assert_eq!(FileType::from_path("patch.syx"), FileType::SysEx);
    assert_eq!(FileType::from_path("bank.midi"), FileType::SysEx);
    assert_eq!(FileType::from_path("dir/.mid"), FileType::SysEx);
    assert_eq!(FileType::from_path("mid"), FileType::SysEx);
    assert_eq!(FileType::from_path("a.mid/b"), FileType::SysEx);
}

#[test]
fn file_type_passes_over_dot_components() {
    assert_eq!(FileType::from_path("song.mid/."), FileType::SMF);
    assert_eq!(FileType::from_path("dir/song.MID/./"), FileType::SMF);
    assert_eq!(FileType::from_path("dir/song.mid/./."), FileType::SMF);
    assert_eq!(FileType::from_path("song.mid/.."), FileType::SysEx);
    assert_eq!(FileType::from_path("song.mid/../"), FileType::SysEx);
    assert_eq!(FileType::from_path("/."), FileType::SysEx);
}

#[test]
fn file_type_of_windows_paths() {
    assert_eq!(FileType::from_path("C:\\dir\\Song.mid"), FileType::SMF);
    assert_eq!(FileType::from_path("C:\\dir\\.mid"), FileType::SysEx);
    assert_eq!(FileType::from_path("C:\\dir\\song.mid\\."), FileType::SMF);
    assert_eq!(FileType::from_path("C:\\song.mid\\dump.syx"), FileType::SysEx);
}
