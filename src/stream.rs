//! The streaming connector: the two ends of an in-memory byte channel that joins
//! the output of one running stage to the input of the next.
use vstd::prelude::*;
use std::sync::mpsc::{Receiver, Sender, TryRecvError};
use crate::error::ShellError;

verus! {

#[verifier::external_type_specification]
#[verifier::external_body]
#[verifier::reject_recursive_types(T)]
pub struct ExSender<T>(Sender<T>);

#[verifier::external_type_specification]
#[verifier::external_body]
#[verifier::reject_recursive_types(T)]
pub struct ExReceiver<T>(Receiver<T>);

/// What polling the channel without waiting found.
pub enum Polled {
    /// The next byte in send order.
    Byte(u8),
    /// No byte is waiting, and the sending end is still there.
    Empty,
    /// No byte is waiting, and the sending end is gone.
    Disconnected,
}

/// The writing end of a connector: what a stage writes goes to the next stage.
pub struct SenderWriter {
    sender: Sender<u8>,
    sent: Ghost<Seq<u8>>,
}

impl SenderWriter {
    /// The bytes handed to the channel so far, in order.
    pub closed spec fn sent(&self) -> Seq<u8> {
        self.sent@
    }

    pub fn new(sender: Sender<u8>) -> (r: SenderWriter)
        ensures
            r.sent() == Seq::<u8>::empty(),
    {
        SenderWriter { sender, sent: Ghost(Seq::empty()) }
    }

    /// Sends the bytes of `buf` in order. Fails with `BrokenPipe` as soon as a byte
    /// cannot be sent because the reading end is gone; the bytes before it were sent.
    pub fn write(&mut self, buf: &[u8]) -> (r: Result<usize, ShellError>)
        ensures
            r matches Ok(n) ==> n == buf@.len() && final(self).sent() == old(self).sent() + buf@,
            r matches Err(e) ==> e is BrokenPipe && exists|k: int|
                0 <= k < buf@.len() && final(self).sent() == old(self).sent() + buf@.subrange(
                    0,
                    k,
                ),
    {
        let mut i: usize = 0;
        proof {
            assert(self.sent() + buf@.subrange(0, 0) =~= old(self).sent());
        }
        while i < buf.len()
            invariant
                i <= buf@.len(),
                self.sent() == old(self).sent() + buf@.subrange(0, i as int),
            decreases buf@.len() - i,
        {
            if !self.send_byte(buf[i]) {
                return Err(ShellError::BrokenPipe);
            }
            proof {
                assert(buf@.subrange(0, i + 1) =~= buf@.subrange(0, i as int).push(buf@[i as int]));
            }
            i = i + 1;
        }
        proof {
            assert(buf@.subrange(0, buf@.len() as int) =~= buf@);
        }
        Ok(buf.len())
    }

    /// Relies on `Sender::send`: it enqueues the byte and fails only when the receiving
    /// end has been dropped; it never blocks on an unbounded channel. A byte that was
    /// enqueued is recorded as sent.
    #[verifier::external_body]
    fn send_byte(&mut self, byte: u8) -> (sent: bool)
        ensures
            sent ==> final(self).sent() == old(self).sent().push(byte),
            !sent ==> final(self).sent() == old(self).sent(),
    {
        self.sender.send(byte).is_ok()
    }

    /// Nothing is buffered, so there is nothing to flush.
    pub fn flush(&mut self) -> (r: Result<(), ShellError>)
        ensures
            r is Ok,
    {
        Ok(())
    }
}

/// The reading end of a connector.
pub struct ReceiverReader {
    receiver: Receiver<u8>,
    received: Ghost<Seq<u8>>,
}

impl ReceiverReader {
    /// The bytes taken from the channel so far, in order.
    pub closed spec fn received(&self) -> Seq<u8> {
        self.received@
    }

    pub fn new(receiver: Receiver<u8>) -> (r: ReceiverReader)
        ensures
            r.received() == Seq::<u8>::empty(),
    {
        ReceiverReader { receiver, received: Ghost(Seq::empty()) }
    }

    /// Reads into `buf`: waits for a first byte, then takes the bytes already waiting,
    /// up to the size of `buf`, without waiting again. Returns how many bytes were
    /// stored at the front of `buf`. Fails with `BrokenPipe` when the writing end is
    /// gone before a byte came; a writing end found gone after that is reported by the
    /// next read. An empty `buf` reads nothing.
    pub fn read(&mut self, buf: &mut [u8]) -> (r: Result<usize, ShellError>)
        ensures
            final(buf)@.len() == old(buf)@.len(),
            old(buf)@.len() == 0 ==> r == Ok::<usize, ShellError>(0),
            r matches Ok(n) ==> old(buf)@.len() > 0 ==> 1 <= n <= old(buf)@.len(),
            r matches Ok(n) ==> final(buf)@.subrange(n as int, final(buf)@.len() as int)
                == old(buf)@.subrange(n as int, old(buf)@.len() as int),
            r matches Ok(n) ==> final(self).received() == old(self).received() + final(buf)@.subrange(
                0,
                n as int,
            ),
            r matches Err(e) ==> e is BrokenPipe && final(buf)@ == old(buf)@ && final(self).received()
                == old(self).received(),
    {
        let n = buf.len();
        let mut filled: usize = 0;
        proof {
            assert(self.received() + buf@.subrange(0, 0) =~= old(self).received());
        }
        while filled < n
            invariant
                n == buf@.len(),
                n == old(buf)@.len(),
                filled <= n,
                buf@.subrange(filled as int, n as int) == old(buf)@.subrange(filled as int, n as int),
                filled == 0 ==> buf@ == old(buf)@,
                self.received() == old(self).received() + buf@.subrange(0, filled as int),
            decreases n - filled,
        {
            let ghost prev = buf@;
            let polled = self.poll_byte();
            let byte = match after_poll(polled, filled) {
                ReadStep::Store(byte) => byte,
                ReadStep::Done => {
                    return Ok(filled);
                },
                ReadStep::Wait => {
                    let waited = self.wait_byte();
                    match after_wait(waited) {
                        ReadStep::Store(byte) => byte,
                        _ => {
                            return Err(ShellError::BrokenPipe);
                        },
                    }
                },
                ReadStep::Fail => {
                    return Err(ShellError::BrokenPipe);
                },
            };
            buf[filled] = byte;
            proof {
                assert(buf@ == prev.update(filled as int, byte));
                assert forall|k: int| filled + 1 <= k < n implies buf@[k] == old(buf)@[k] by {
                    assert(prev.subrange(filled as int, n as int)[k - filled] == old(buf)@.subrange(
                        filled as int,
                        n as int,
                    )[k - filled]);
                }
                assert(buf@.subrange(filled + 1, n as int) =~= old(buf)@.subrange(
                    filled + 1,
                    n as int,
                ));
                assert(buf@.subrange(0, filled + 1) =~= prev.subrange(0, filled as int).push(byte));
            }
            filled = filled + 1;
        }
        Ok(n)
    }

    /// Relies on `Receiver::try_recv`: the next byte if one is waiting, without
    /// blocking, or whether the sending end is gone. A byte taken is recorded.
    #[verifier::external_body]
    fn poll_byte(&mut self) -> (r: Polled)
        ensures
            r matches Polled::Byte(b) ==> final(self).received() == old(self).received().push(b),
            !(r is Byte) ==> final(self).received() == old(self).received(),
    {
        match self.receiver.try_recv() {
            Ok(byte) => Polled::Byte(byte),
            Err(TryRecvError::Empty) => Polled::Empty,
            Err(TryRecvError::Disconnected) => Polled::Disconnected,
        }
    }

    /// Relies on `Receiver::recv`: blocks until a byte arrives, or returns `None` once
    /// the sending end is gone and no byte is left. A byte taken is recorded.
    #[verifier::external_body]
    fn wait_byte(&mut self) -> (r: Option<u8>)
        ensures
            r matches Some(b) ==> final(self).received() == old(self).received().push(b),
            r is None ==> final(self).received() == old(self).received(),
    {
        self.receiver.recv().ok()
    }
}

/// What a read does next.
pub enum ReadStep {
    /// Store this byte and go on.
    Store(u8),
    /// Block until a byte arrives or the writing end is gone.
    Wait,
    /// Return the bytes stored so far.
    Done,
    /// Fail with `BrokenPipe`.
    Fail,
}

/// What a read that has stored `filled` bytes does after polling the channel: store a
/// waiting byte; with nothing waiting, wait for a first byte but return a short count
/// once one is stored; with the writing end gone, fail unless a byte is stored, in
/// which case the next read reports it.
pub fn after_poll(polled: Polled, filled: usize) -> (s: ReadStep)
    ensures
        s == (match polled {
            Polled::Byte(b) => ReadStep::Store(b),
            Polled::Empty => if filled == 0 {
                ReadStep::Wait
            } else {
                ReadStep::Done
            },
            Polled::Disconnected => if filled == 0 {
                ReadStep::Fail
            } else {
                ReadStep::Done
            },
        }),
{
    match polled {
        Polled::Byte(b) => ReadStep::Store(b),
        Polled::Empty => if filled == 0 {
            ReadStep::Wait
        } else {
            ReadStep::Done
        },
        Polled::Disconnected => if filled == 0 {
            ReadStep::Fail
        } else {
            ReadStep::Done
        },
    }
}

/// What a read does after waiting: store the byte that came, or fail when the writing
/// end went away instead.
pub fn after_wait(waited: Option<u8>) -> (s: ReadStep)
    ensures
        s == (match waited {
            Some(b) => ReadStep::Store(b),
            None => ReadStep::Fail,
        }),
{
    match waited {
        Some(b) => ReadStep::Store(b),
        None => ReadStep::Fail,
    }
}

} // verus!
