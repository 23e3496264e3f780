use sysex_drop::{
    FileManifest, FileType, Message, StartRefusal, TransferState, TransferStatus,
};

fn manifest(count: usize) -> FileManifest {
    FileManifest { format: FileType::SysEx, size_bytes: 100, packet_count: count }
}

#[test]
fn start_refused_while_running() {
    let mut status = TransferStatus::new();
    assert!(status.load(&manifest(5)));
    assert_eq!(status.start(), Ok(()));
    status.apply(&Message::PacketTransferred(2));
    let before = status;
    assert_eq!(status.start(), Err(StartRefusal::AlreadyRunning));
    assert_eq!(status, before);
    assert_eq!(status.state, TransferState::Running);
    assert_eq!(status.packets_sent, 2);
}

#[test]
fn start_refused_without_file() {
    let mut status = TransferStatus::new();
    assert_eq!(status.start(), Err(StartRefusal::NoFile));
    assert_eq!(status.state, TransferState::Idle);
}

#[test]
fn progress_and_outcomes() {
    let mut status = TransferStatus::new();
    status.load(&manifest(3));
    status.start().unwrap();
    for i in 1..=3 {
        status.apply(&Message::PacketTransferred(i));
        assert_eq!(status.packets_sent, i);
    }
    status.apply(&Message::TransferFinished);
    assert_eq!(
        status,
        TransferStatus { state: TransferState::Finished, packets_sent: 3, packets_total: 3 }
    );
    status.apply(&Message::TransferCancelled);
    assert_eq!(status.state, TransferState::Finished);

    status.start().unwrap();
    assert_eq!(status.packets_sent, 0);
    status.apply(&Message::TransferCancelled);
    assert_eq!(status.state, TransferState::Cancelled);

    status.start().unwrap();
    status.apply(&Message::Error("read failed".to_string()));
    assert_eq!(status.state, TransferState::Failed);
}

#[test]
fn other_messages_leave_status_alone() {
    let mut status = TransferStatus::new();
    status.load(&manifest(2));
    status.start().unwrap();
    let before = status;
    status.apply(&Message::RescanDevices);
    status.apply(&Message::SelectDevice("Synth".to_string()));
    status.apply(&Message::Init);
    assert_eq!(status, before);
}

#[test]
fn load_resets_progress_unless_running() {
    let mut status = TransferStatus::new();
    status.load(&manifest(4));
    status.start().unwrap();
    status.apply(&Message::PacketTransferred(4));
    assert!(!status.load(&manifest(9)));
    assert_eq!(status.packets_total, 4);
    status.apply(&Message::TransferFinished);
    assert!(status.load(&manifest(9)));
    assert_eq!(
        status,
        TransferStatus { state: TransferState::Idle, packets_sent: 0, packets_total: 9 }
    );
}

#[test]
fn progress_counts_outside_a_run() {
    let mut status = TransferStatus::new();
    status.load(&manifest(5));
    status.apply(&Message::PacketTransferred(3));
    assert_eq!(
        status,
        TransferStatus { state: TransferState::Idle, packets_sent: 3, packets_total: 5 }
    );
    status.apply(&Message::Error("device lost".to_string()));
    assert_eq!(status.state, TransferState::Idle);
}
