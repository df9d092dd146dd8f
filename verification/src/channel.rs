use vstd::prelude::*;
use crossbeam_channel::Receiver;
use crossbeam_channel::Sender;
use crossbeam_channel::TrySendError;
use crate::error::HarnessError;
use crate::sample::TimingSample;

verus! {

/// The sending end of a `crossbeam_channel` channel.
#[verifier::external_type_specification]
#[verifier::external_body]
#[verifier::reject_recursive_types(T)]
pub struct ExSender<T>(Sender<T>);

/// The receiving end of a `crossbeam_channel` channel.
#[verifier::external_type_specification]
#[verifier::external_body]
#[verifier::reject_recursive_types(T)]
pub struct ExReceiver<T>(Receiver<T>);

/// The messages that wait in the channel behind `rx`, oldest first.
pub uninterp spec fn queued(rx: Receiver<u128>) -> Seq<u128>;

/// The number of slots that the channel behind `rx` was made with.
pub uninterp spec fn slots(rx: Receiver<u128>) -> nat;

/// Whether `tx` and `rx` are the two ends that one call of
/// `crossbeam_channel::bounded` returned.
pub uninterp spec fn joined(tx: Sender<u128>, rx: Receiver<u128>) -> bool;

/// Whether the channel behind `rx` has a free slot.
pub open spec fn has_room(rx: Receiver<u128>) -> bool {
    queued(rx).len() < slots(rx)
}

/// The largest number of slots that a timing channel is made with. The slots
/// are allocated when the channel is made.
pub const MAX_CAPACITY: usize = 1_048_576;

/// Why a sample did not enter the channel.
#[derive(Clone, Copy, Debug, PartialEq, Eq, Structural)]
pub enum SendFailure {
    Full,
    Disconnected,
}

/// A bounded first-in, first-out handoff of timing samples. It owns both ends
/// of its channel and hands out neither, so nothing else sends or receives on
/// it.
pub struct TimingChannel {
    tx: Sender<u128>,
    rx: Receiver<u128>,
}

impl View for TimingChannel {
    type V = Seq<TimingSample>;

    closed spec fn view(&self) -> Seq<TimingSample> {
        Seq::new(queued(self.rx).len(), |i: int| TimingSample { nanos: queued(self.rx)[i] })
    }
}

/// `crossbeam_channel::bounded`, for at most `MAX_CAPACITY` slots: the two
/// ends of a new channel with `capacity` slots and nothing in it. A channel
/// made with no slots never holds a message.
#[verifier::external_body]
fn open_bounded(capacity: usize) -> (channel: TimingChannel)
    requires
        capacity <= MAX_CAPACITY,
    ensures
        joined(channel.tx, channel.rx),
        queued(channel.rx) == Seq::<u128>::empty(),
        slots(channel.rx) == capacity,
{
    let (tx, rx) = crossbeam_channel::bounded::<u128>(capacity);
    TimingChannel { tx, rx }
}

/// `Sender::try_send` on a channel whose two ends `channel` alone holds.
/// Such a channel is never disconnected, since that takes the drop of its
/// last sender or last receiver. So the call succeeds exactly when there is
/// a free slot, and the message is then the newest in the channel; otherwise
/// it reports `Full`, never `Disconnected`, and the channel is as it was. It
/// returns in every case and does not panic.
#[verifier::external_body]
fn try_push(channel: &mut TimingChannel, nanos: u128) -> (sent: Result<(), SendFailure>)
    requires
        joined(old(channel).tx, old(channel).rx),
    ensures
        joined(final(channel).tx, final(channel).rx),
        slots(final(channel).rx) == slots(old(channel).rx),
        has_room(old(channel).rx) ==> sent is Ok,
        sent is Ok ==> has_room(old(channel).rx) && queued(final(channel).rx) == queued(
            old(channel).rx,
        ).push(nanos),
        sent matches Err(failure) ==> failure == SendFailure::Full && queued(final(channel).rx)
            == queued(old(channel).rx),
    no_unwind
{
    match channel.tx.try_send(nanos) {
        Ok(()) => Ok(()),
        Err(TrySendError::Full(_)) => Err(SendFailure::Full),
        Err(TrySendError::Disconnected(_)) => Err(SendFailure::Disconnected),
    }
}

/// `Receiver::try_recv` on a channel whose two ends `channel` alone holds,
/// with both of its errors turned into `None`. A message that comes out was
/// the oldest in the channel, and the others stay in their order. `None`
/// comes only from a channel that holds nothing.
#[verifier::external_body]
fn try_pop(channel: &mut TimingChannel) -> (received: Option<u128>)
    requires
        joined(old(channel).tx, old(channel).rx),
    ensures
        joined(final(channel).tx, final(channel).rx),
        slots(final(channel).rx) == slots(old(channel).rx),
        received matches Some(nanos) ==> queued(old(channel).rx).len() > 0 && nanos == queued(
            old(channel).rx,
        )[0] && queued(final(channel).rx) == queued(old(channel).rx).drop_first(),
        received is None ==> queued(old(channel).rx).len() == 0 && queued(final(channel).rx)
            == queued(old(channel).rx),
{
    channel.rx.try_recv().ok()
}

/// What the harness reports for each way a send can end.
pub open spec fn send_verdict(outcome: Result<(), SendFailure>) -> Result<(), HarnessError> {
    match outcome {
        Ok(()) => Ok(()),
        Err(SendFailure::Full) => Err(HarnessError::ChannelFull),
        Err(SendFailure::Disconnected) => Err(HarnessError::ChannelClosed),
    }
}

/// Turns the outcome of a send into the harness's own result.
pub fn classify_send(outcome: Result<(), SendFailure>) -> (verdict: Result<(), HarnessError>)
    ensures
        verdict == send_verdict(outcome),
    no_unwind
{
    match outcome {
        Ok(()) => Ok(()),
        Err(SendFailure::Full) => Err(HarnessError::ChannelFull),
        Err(SendFailure::Disconnected) => Err(HarnessError::ChannelClosed),
    }
}

impl TimingChannel {
    /// The number of samples that the channel has room for.
    pub closed spec fn capacity(&self) -> nat {
        slots(self.rx)
    }

    /// Holds of every channel that executable code can get hold of: the two
    /// ends belong together, and no more samples wait than there are slots.
    #[verifier::type_invariant]
    pub closed spec fn wf(self) -> bool {
        &&& joined(self.tx, self.rx)
        &&& queued(self.rx).len() <= slots(self.rx)
    }

    /// A well-formed channel holds no more samples than its capacity.
    pub proof fn lemma_within_capacity(self)
        requires
            self.wf(),
        ensures
            self@.len() <= self.capacity(),
    {
    }

    /// An empty channel with room for `capacity` samples, or `None` when
    /// `capacity` is above `MAX_CAPACITY`.
    pub fn with_capacity(capacity: usize) -> (made: Option<TimingChannel>)
        ensures
            made is Some <==> capacity <= MAX_CAPACITY,
            made matches Some(channel) ==> channel.capacity() == capacity && channel@
                == Seq::<TimingSample>::empty(),
    {
        if capacity > MAX_CAPACITY {
            return None;
        }
        let channel = open_bounded(capacity);
        assert(channel@ =~= Seq::<TimingSample>::empty());
        Some(channel)
    }

    /// Puts `sample` behind the samples that wait, if there is room for it.
    /// A full channel refuses it with `ChannelFull` and stays as it was.
    pub fn send(&mut self, sample: TimingSample) -> (verdict: Result<(), HarnessError>)
        ensures
            final(self).capacity() == old(self).capacity(),
            old(self)@.len() <= old(self).capacity(),
            old(self)@.len() < old(self).capacity() ==> verdict == Ok::<(), HarnessError>(())
                && final(self)@ == old(self)@.push(sample),
            old(self)@.len() == old(self).capacity() ==> verdict == Err::<(), HarnessError>(
                HarnessError::ChannelFull,
            ) && final(self)@ == old(self)@,
        no_unwind
    {
        proof {
            use_type_invariant(&*self);
        }
        let outcome = try_push(self, sample.nanos);
        proof {
            if outcome is Ok {
                assert(self@ =~= old(self)@.push(sample));
            } else {
                assert(self@ =~= old(self)@);
            }
        }
        classify_send(outcome)
    }

    /// Takes every waiting sample out, oldest first.
    pub fn drain(&mut self) -> (samples: Vec<TimingSample>)
        ensures
            final(self).capacity() == old(self).capacity(),
            samples@ == old(self)@,
            final(self)@ == Seq::<TimingSample>::empty(),
    {
        proof {
            use_type_invariant(&*self);
        }
        let ghost before = self@;
        let ghost capacity = self.capacity();
        let mut samples: Vec<TimingSample> = Vec::new();
        assert(samples@ + self@ =~= before);
        loop
            invariant
                self.wf(),
                self.capacity() == capacity,
                samples@ + self@ == before,
            ensures
                self.capacity() == capacity,
                samples@ + self@ == before,
                self@.len() == 0,
            decreases self@.len(),
        {
            let ghost waiting = self@;
            match try_pop(self) {
                Some(nanos) => {
                    samples.push(TimingSample { nanos });
                    assert(self@ =~= waiting.drop_first());
                    assert(samples@ + self@ =~= before);
                },
                None => {
                    assert(self@ =~= waiting);
                    break ;
                },
            }
        }
        assert(samples@ =~= before);
        assert(self@ =~= Seq::<TimingSample>::empty());
        samples
    }
}

} // verus!
