//! The paced send loop, as a state machine: the caller performs each step
//! (report, send, wait, look for a cancellation) and feeds back whether a
//! cancellation was requested.

use vstd::prelude::*;

verus! {

/// How a run that did not fail ended.
#[derive(Debug, Clone, Copy, PartialEq, Eq, Structural)]
pub enum Outcome {
    /// Every packet was sent.
    Completed,
    /// A cancellation stopped the run; the packets already sent stay sent.
    Cancelled,
}

/// What the caller does next.
#[derive(Debug, Clone, Copy, PartialEq, Eq, Structural)]
pub enum RunStep {
    /// Report packet number `n` (counting from 1) as sent, send it, then wait
    /// for the pace interval.
    Send(usize),
    /// The run is over.
    Finish(Outcome),
}

/// One transfer: the packets, how many have been handed out, and the outcome
/// once the run is over.
pub struct TransferRun {
    /// The packets to send, in order.
    pub packets: Vec<Vec<u8>>,
    /// How many packets have been handed out for sending.
    pub sent: usize,
    /// How the run ended, once it has.
    pub outcome: Option<Outcome>,
}

/// One step of a run that has handed out `sent` of `total` packets, given
/// whether a cancellation was seen after the last wait. Cancellation is only
/// looked for once a packet has been sent; a finished run stays finished.
pub open spec fn step(sent: usize, total: nat, outcome: Option<Outcome>, cancel: bool) -> (
    usize,
    Option<Outcome>,
    RunStep,
) {
    match outcome {
        Some(o) => (sent, Some(o), RunStep::Finish(o)),
        None => if sent > 0 && cancel {
            (sent, Some(Outcome::Cancelled), RunStep::Finish(Outcome::Cancelled))
        } else if sent < total {
            ((sent + 1) as usize, None, RunStep::Send((sent + 1) as usize))
        } else {
            (sent, Some(Outcome::Completed), RunStep::Finish(Outcome::Completed))
        },
    }
}

/// The steps a run takes when the cancellation flags fed to it are `cancels`.
pub open spec fn run_trace(
    sent: usize,
    total: nat,
    outcome: Option<Outcome>,
    cancels: Seq<bool>,
) -> Seq<RunStep>
    decreases cancels.len(),
{
    if cancels.len() == 0 {
        Seq::empty()
    } else {
        let (s, o, st) = step(sent, total, outcome, cancels[0]);
        seq![st] + run_trace(s, total, o, cancels.drop_first())
    }
}

impl TransferRun {
    /// At most every packet has been handed out.
    pub open spec fn wf(&self) -> bool {
        self.sent <= self.packets.len()
    }

    /// A run over `packets` that has sent nothing yet.
    pub fn new(packets: Vec<Vec<u8>>) -> (r: TransferRun)
        ensures
            r.wf(),
            r.packets == packets,
            r.sent == 0,
            r.outcome is None,
    {
        TransferRun { packets, sent: 0, outcome: None }
    }

    /// Number of packets in the run.
    pub fn packets_total(&self) -> (r: usize)
        ensures
            r == self.packets.len(),
    {
        self.packets.len()
    }

    /// The next step, given whether a cancellation was requested since the
    /// previous one.
    pub fn next_step(&mut self, cancel_requested: bool) -> (r: RunStep)
        requires
            old(self).wf(),
        ensures
            final(self).wf(),
            final(self).packets == old(self).packets,
            (final(self).sent, final(self).outcome, r) == step(
                old(self).sent,
                old(self).packets.len() as nat,
                old(self).outcome,
                cancel_requested,
            ),
    {
        match self.outcome {
            Some(o) => RunStep::Finish(o),
            None => {
                if self.sent > 0 && cancel_requested {
                    self.outcome = Some(Outcome::Cancelled);
                    RunStep::Finish(Outcome::Cancelled)
                } else if self.sent < self.packets.len() {
                    self.sent = self.sent + 1;
                    RunStep::Send(self.sent)
                } else {
                    self.outcome = Some(Outcome::Completed);
                    RunStep::Finish(Outcome::Completed)
                }
            },
        }
    }

    /// The bytes of packet number `number`, counting from 1.
    pub fn packet(&self, number: usize) -> (r: &Vec<u8>)
        requires
            1 <= number <= self.packets.len(),
        ensures
            *r == self.packets[number - 1],
    {
        &self.packets[number - 1]
    }
}

/// Once a run is over, every further step reports the same outcome.
pub proof fn lemma_finished_stays_finished(
    sent: usize,
    total: nat,
    o: Outcome,
    cancels: Seq<bool>,
)
    ensures
        run_trace(sent, total, Some(o), cancels) == Seq::new(
            cancels.len(),
            |i: int| RunStep::Finish(o),
        ),
    decreases cancels.len(),
{
    if cancels.len() > 0 {
        lemma_finished_stays_finished(sent, total, o, cancels.drop_first());
    }
    assert(run_trace(sent, total, Some(o), cancels) =~= Seq::new(
        cancels.len(),
        |i: int| RunStep::Finish(o),
    ));
}

proof fn lemma_uncancelled_from(sent: usize, total: usize)
    requires
        sent <= total,
    ensures
        run_trace(sent, total as nat, None, Seq::new((total - sent + 1) as nat, |i: int| false))
            == Seq::new((total - sent) as nat, |i: int| RunStep::Send((sent + i + 1) as usize)).push(
            RunStep::Finish(Outcome::Completed),
        ),
    decreases total - sent,
{
    let cancels = Seq::new((total - sent + 1) as nat, |i: int| false);
    let expected = Seq::new((total - sent) as nat, |i: int| RunStep::Send((sent + i + 1) as usize)).push(
        RunStep::Finish(Outcome::Completed),
    );
    if sent < total {
        lemma_uncancelled_from((sent + 1) as usize, total);
        let next = (sent + 1) as usize;
        assert(cancels.drop_first() =~= Seq::new((total - next + 1) as nat, |i: int| false));
        let tail = Seq::new((total - next) as nat, |i: int| RunStep::Send((next + i + 1) as usize)).push(
            RunStep::Finish(Outcome::Completed),
        );
        assert(run_trace(next, total as nat, None, cancels.drop_first()) == tail);
        assert(run_trace(sent, total as nat, None, cancels) == seq![RunStep::Send(next)] + tail);
        assert(seq![RunStep::Send(next)] + tail =~= expected);
    } else {
        assert(cancels.drop_first() =~= Seq::<bool>::empty());
        assert(run_trace(sent, total as nat, Some(Outcome::Completed), cancels.drop_first())
            == Seq::<RunStep>::empty());
        assert(run_trace(sent, total as nat, None, cancels) =~= expected);
    }
}

/// A run over `total` packets that is never cancelled reports the packet
/// numbers 1, 2, ..., `total`, each once and in increasing order, and then
/// completes.
pub proof fn lemma_progress_in_order(total: usize)
    ensures
        run_trace(0, total as nat, None, Seq::new(total as nat + 1, |i: int| false)) == Seq::new(
            total as nat,
            |i: int| RunStep::Send((i + 1) as usize),
        ).push(RunStep::Finish(Outcome::Completed)),
{
    lemma_uncancelled_from(0, total);
    assert(Seq::new(total as nat + 1, |i: int| false) =~= Seq::new((total - 0 + 1) as nat, |i: int| false));
    assert(Seq::new((total - 0) as nat, |i: int| RunStep::Send((0 + i + 1) as usize)) =~= Seq::new(
        total as nat,
        |i: int| RunStep::Send((i + 1) as usize),
    ));
}

/// A cancellation requested right after the first packet is reported is seen
/// before any other packet goes out: the run reports packet 1 alone and then
/// ends cancelled, whatever flags follow.
pub proof fn lemma_cancel_after_first_packet(total: usize, cancels: Seq<bool>)
    requires
        total >= 1,
        cancels.len() >= 2,
        cancels[1],
    ensures
        run_trace(0, total as nat, None, cancels) == seq![RunStep::Send(1)] + Seq::new(
            (cancels.len() - 1) as nat,
            |i: int| RunStep::Finish(Outcome::Cancelled),
        ),
{
    let rest = cancels.drop_first();
    let later = rest.drop_first();
    lemma_finished_stays_finished(1, total as nat, Outcome::Cancelled, later);
    assert(run_trace(1, total as nat, None, rest) == seq![RunStep::Finish(Outcome::Cancelled)]
        + run_trace(1, total as nat, Some(Outcome::Cancelled), later));
    assert(seq![RunStep::Finish(Outcome::Cancelled)] + Seq::new(
        later.len(),
        |i: int| RunStep::Finish(Outcome::Cancelled),
    ) =~= Seq::new((cancels.len() - 1) as nat, |i: int| RunStep::Finish(Outcome::Cancelled)));
}

} // verus!
