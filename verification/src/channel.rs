use vstd::prelude::*;

verus! {

/// The samples the channel currently holds, oldest first.
pub uninterp spec fn channel_queue(ch: TransferChannel) -> Seq<u32>;

/// The fixed number of slots the channel was created with.
pub uninterp spec fn channel_capacity(ch: TransferChannel) -> nat;

/// A bounded first-in-first-out queue of raw 32-bit samples, carrying one
/// capture stream to one output route. Writing to a full channel drops the
/// sample; reading from an empty one fails, and the caller substitutes
/// silence. Both disciplines keep the audio path free of blocking.
///
/// Relies on rtrb::RingBuffer: a bounded single-producer single-consumer
/// ring; this struct keeps the producer and consumer ends together, so the
/// queue read through one end is exactly the queue written through the other.
#[verifier::external_body]
pub struct TransferChannel {
    producer: rtrb::Producer<u32>,
    consumer: rtrb::Consumer<u32>,
}

impl TransferChannel {
    /// Relies on rtrb::RingBuffer::new: the ring is created with the given
    /// capacity and holds nothing yet.
    #[verifier::external_body]
    pub fn new(capacity: usize) -> (ch: TransferChannel)
        requires
            1 <= capacity <= 0x0100_0000,
        ensures
            channel_queue(ch) == Seq::<u32>::empty(),
            channel_capacity(ch) == capacity,
    {
        let (producer, consumer) = rtrb::RingBuffer::new(capacity);
        TransferChannel { producer, consumer }
    }

    /// Relies on rtrb::Producer::push: the value is appended when a slot is
    /// free, and otherwise handed back in an error with the ring untouched.
    #[verifier::external_body]
    pub fn try_push(&mut self, sample: u32) -> (pushed: bool)
        ensures
            channel_capacity(*final(self)) == channel_capacity(*old(self)),
            channel_queue(*old(self)).len() < channel_capacity(*old(self)) ==> pushed
                && channel_queue(*final(self)) == channel_queue(*old(self)).push(sample),
            channel_queue(*old(self)).len() >= channel_capacity(*old(self)) ==> !pushed
                && channel_queue(*final(self)) == channel_queue(*old(self)),
    {
        self.producer.push(sample).is_ok()
    }

    /// Relies on rtrb::Consumer::pop: the oldest value is removed and
    /// returned, or an error is returned when the ring is empty.
    #[verifier::external_body]
    pub fn pop(&mut self) -> (r: Option<u32>)
        ensures
            channel_capacity(*final(self)) == channel_capacity(*old(self)),
            channel_queue(*old(self)).len() == 0 ==> r is None
                && channel_queue(*final(self)) == channel_queue(*old(self)),
            channel_queue(*old(self)).len() > 0 ==> r == Some(channel_queue(*old(self))[0])
                && channel_queue(*final(self)) == channel_queue(*old(self)).drop_first(),
    {
        self.consumer.pop().ok()
    }

    /// Relies on rtrb::Consumer::slots: the number of values waiting to be
    /// read, exact here because both ends live in this struct.
    #[verifier::external_body]
    pub fn len(&self) -> (n: usize)
        ensures
            n == channel_queue(*self).len(),
    {
        self.consumer.slots()
    }
}

} // verus!
