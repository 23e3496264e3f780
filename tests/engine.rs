use sysex_drop::{Outcome, RunStep, TransferRun};

fn packets(n: usize) -> Vec<Vec<u8>> {
    (0..n).map(|i| vec![0xF0, i as u8, 0xF7]).collect()
}

#[test]
fn completed_run_reports_each_packet_in_order() {
    let mut run = TransferRun::new(packets(4));
    assert_eq!(run.packets_total(), 4);
    let mut steps = Vec::new();
    loop {
        let step = run.next_step(false);
        steps.push(step);
        if let RunStep::Finish(_) = step {
            break;
        }
    }
    assert_eq!(
        steps,
        vec![
            RunStep::Send(1),
            RunStep::Send(2),
            RunStep::Send(3),
            RunStep::Send(4),
            RunStep::Finish(Outcome::Completed)
        ]
    );
    assert_eq!(run.next_step(true), RunStep::Finish(Outcome::Completed));
}

#[test]
fn cancel_after_first_packet() {
    let mut run = TransferRun::new(packets(5));
    assert_eq!(run.next_step(false), RunStep::Send(1));
    assert_eq!(run.packet(1), &vec![0xF0, 0x00, 0xF7]);
    assert_eq!(run.next_step(true), RunStep::Finish(Outcome::Cancelled));
    assert_eq!(run.next_step(false), RunStep::Finish(Outcome::Cancelled));
    assert_eq!(run.sent, 1);
}

#[test]
fn cancel_seen_one_packet_late() {
    let mut run = TransferRun::new(packets(5));
    assert_eq!(run.next_step(false), RunStep::Send(1));
    assert_eq!(run.next_step(false), RunStep::Send(2));
    assert_eq!(run.packet(2), &vec![0xF0, 0x01, 0xF7]);
    assert_eq!(run.next_step(true), RunStep::Finish(Outcome::Cancelled));
}

#[test]
fn cancel_before_first_packet_is_not_looked_at() {
    let mut run = TransferRun::new(packets(2));
    assert_eq!(run.next_step(true), RunStep::Send(1));
}

#[test]
fn cancel_after_last_packet_still_cancels() {
    let mut run = TransferRun::new(packets(1));
    assert_eq!(run.next_step(false), RunStep::Send(1));
    assert_eq!(run.next_step(true), RunStep::Finish(Outcome::Cancelled));
}

#[test]
fn empty_run_completes_at_once() {
    let mut run = TransferRun::new(Vec::new());
    assert_eq!(run.next_step(false), RunStep::Finish(Outcome::Completed));
}
