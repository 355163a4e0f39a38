//! The write-through buffered writer used by the byte-file sink: writes
//! fill a fixed-capacity buffer, and each full buffer becomes one command
//! for the worker that performs the blocking writes. The worker loop lives
//! outside the library; the buffering and its guarantee — nothing accepted
//! is ever dropped, and a flush hands everything over — are here.

use vstd::prelude::*;

verus! {

/// A seek target, as the worker performs it.
#[derive(Debug, PartialEq, Eq, Structural)]
pub enum SeekPos {
    Start(u64),
    End(i64),
    Current(i64),
}

/// One command for the worker thread.
#[derive(Debug)]
pub enum WriterCommand {
    /// Write these bytes through.
    Write(Vec<u8>),
    /// Seek the underlying file.
    SeekTo(SeekPos),
    /// Flush the underlying file.
    Flush,
    /// Stop the worker.
    Finish,
}

/// The bytes a command carries.
pub open spec fn command_bytes(c: WriterCommand) -> Seq<u8> {
    match c {
        WriterCommand::Write(v) => v@,
        _ => Seq::empty(),
    }
}

/// All bytes carried by a command sequence, in order.
pub open spec fn commands_bytes(cs: Seq<WriterCommand>) -> Seq<u8>
    decreases cs.len(),
{
    if cs.len() == 0 {
        Seq::empty()
    } else {
        commands_bytes(cs.drop_last()) + command_bytes(cs.last())
    }
}

/// The double-buffered writer: `pending` holds the commands produced and
/// not yet taken by the worker, and `inner_buffer` the bytes accepted but
/// not yet handed over. The buffer never exceeds its capacity.
#[derive(Debug)]
pub struct DoubleBufWriter {
    inner_buffer: Vec<u8>,
    capacity: usize,
    pending: Vec<WriterCommand>,
}

impl DoubleBufWriter {
    /// The fixed buffer capacity.
    pub closed spec fn spec_capacity(&self) -> int {
        self.capacity as int
    }

    /// The bytes accepted and still buffered.
    pub closed spec fn buffered(&self) -> Seq<u8> {
        self.inner_buffer@
    }

    /// The commands produced and not yet taken by the worker.
    pub closed spec fn commands(&self) -> Seq<WriterCommand> {
        self.pending@
    }

    /// The writer invariant: the buffer respects the capacity, which is
    /// positive.
    pub open spec fn wf(&self) -> bool {
        &&& self.buffered().len() <= self.spec_capacity()
        &&& self.spec_capacity() >= 1
    }

    /// A writer with the default buffer capacity.
    pub fn new() -> (r: Self)
        ensures
            r.wf(),
            r.spec_capacity() == 4096,
            r.buffered().len() == 0,
            r.commands().len() == 0,
    {
        DoubleBufWriter::with_capacity(4096)
    }

    /// A writer with the given buffer capacity; a zero capacity is raised
    /// to one.
    pub fn with_capacity(capacity: usize) -> (r: Self)
        ensures
            r.wf(),
            capacity >= 1 ==> r.spec_capacity() == capacity,
            r.buffered().len() == 0,
            r.commands().len() == 0,
    {
        let cap = if capacity >= 1 {
            capacity
        } else {
            1
        };
        DoubleBufWriter { inner_buffer: Vec::new(), capacity: cap, pending: Vec::new() }
    }

    /// Queues a seek for the worker.
    pub fn seek(&mut self, pos: SeekPos)
        requires
            old(self).wf(),
        ensures
            final(self).wf(),
            final(self).spec_capacity() == old(self).spec_capacity(),
            final(self).buffered() == old(self).buffered(),
            final(self).commands() == old(self).commands().push(WriterCommand::SeekTo(pos)),
    {
        self.pending.push(WriterCommand::SeekTo(pos));
    }

    /// Accepts as much of `buf` as fits the buffer's free space; a buffer
    /// filled to its capacity becomes one write command. Returns how many
    /// bytes were accepted; nothing accepted is ever dropped.
    pub fn write(&mut self, buf: &[u8]) -> (r: usize)
        requires
            old(self).wf(),
        ensures
            final(self).wf(),
            final(self).spec_capacity() == old(self).spec_capacity(),
            r == (if buf@.len() <= old(self).spec_capacity() - old(self).buffered().len() {
                buf@.len() as int
            } else {
                old(self).spec_capacity() - old(self).buffered().len()
            }),
            ({
                let taken = old(self).buffered() + buf@.subrange(0, r as int);
                if taken.len() == old(self).spec_capacity() {
                    &&& final(self).buffered().len() == 0
                    &&& final(self).commands().len() == old(self).commands().len() + 1
                    &&& final(self).commands().drop_last() == old(self).commands()
                    &&& (final(self).commands().last() matches WriterCommand::Write(v) && v@
                        == taken)
                    &&& commands_bytes(final(self).commands()) + final(self).buffered()
                        == commands_bytes(old(self).commands()) + taken
                } else {
                    &&& final(self).buffered() == taken
                    &&& final(self).commands() == old(self).commands()
                }
            }),
    {
        let space_left = self.capacity - self.inner_buffer.len();
        let write_amt = if space_left < buf.len() {
            space_left
        } else {
            buf.len()
        };
        let ghost pre_buf = self.inner_buffer@;
        let mut t: usize = 0;
        while t < write_amt
            invariant
                t <= write_amt,
                write_amt <= buf@.len(),
                self.inner_buffer@ =~= pre_buf + buf@.subrange(0, t as int),
                self.capacity == old(self).spec_capacity(),
                self.pending@ == old(self).commands(),
                pre_buf.len() + write_amt <= self.capacity,
            decreases write_amt - t,
        {
            let b = buf[t];
            self.inner_buffer.push(b);
            t = t + 1;
            proof {
                assert(self.inner_buffer@ =~= pre_buf + buf@.subrange(0, t as int));
            }
        }
        if self.inner_buffer.len() == self.capacity {
            // hand the full buffer to the worker and start a fresh one
            let mut full: Vec<u8> = Vec::new();
            core::mem::swap(&mut self.inner_buffer, &mut full);
            let ghost full_view = full@;
            self.pending.push(WriterCommand::Write(full));
            proof {
                lemma_commands_bytes_push(old(self).commands(), self.pending@.last());
                assert(self.pending@.drop_last() =~= old(self).commands());
                assert(self.inner_buffer@ =~= Seq::<u8>::empty());
            }
        }
        write_amt
    }

    /// Hands everything buffered to the worker and queues a flush: after
    /// it, no byte is left behind in the buffer.
    pub fn flush(&mut self)
        requires
            old(self).wf(),
        ensures
            final(self).wf(),
            final(self).spec_capacity() == old(self).spec_capacity(),
            final(self).buffered().len() == 0,
            commands_bytes(final(self).commands()) == commands_bytes(old(self).commands()) + old(
                self,
            ).buffered(),
            final(self).commands().len() == old(self).commands().len() + 2,
            final(self).commands().last() matches WriterCommand::Flush,
    {
        let mut full: Vec<u8> = Vec::new();
        core::mem::swap(&mut self.inner_buffer, &mut full);
        let ghost full_view = full@;
        self.pending.push(WriterCommand::Write(full));
        proof {
            lemma_commands_bytes_push(old(self).commands(), self.pending@.last());
        }
        let ghost mid = self.pending@;
        self.pending.push(WriterCommand::Flush);
        proof {
            lemma_commands_bytes_push(mid, WriterCommand::Flush);
            assert(self.pending@.drop_last() =~= mid);
            assert(self.inner_buffer@ =~= Seq::<u8>::empty());
        }
    }

    /// Ends the worker: a final flush of everything buffered, then the stop
    /// command. Models the drop path, after which every accepted byte has
    /// been handed over.
    pub fn finish(&mut self)
        requires
            old(self).wf(),
        ensures
            final(self).wf(),
            final(self).buffered().len() == 0,
            commands_bytes(final(self).commands()) == commands_bytes(old(self).commands()) + old(
                self,
            ).buffered(),
            final(self).commands().last() matches WriterCommand::Finish,
    {
        self.flush();
        let ghost mid = self.pending@;
        self.pending.push(WriterCommand::Finish);
        proof {
            lemma_commands_bytes_push(mid, WriterCommand::Finish);
            assert(self.pending@.drop_last() =~= mid);
        }
    }

    /// The worker takes every queued command, in order.
    pub fn take_commands(&mut self) -> (r: Vec<WriterCommand>)
        requires
            old(self).wf(),
        ensures
            final(self).wf(),
            final(self).spec_capacity() == old(self).spec_capacity(),
            final(self).buffered() == old(self).buffered(),
            final(self).commands().len() == 0,
            r@ == old(self).commands(),
    {
        let mut taken: Vec<WriterCommand> = Vec::new();
        core::mem::swap(&mut self.pending, &mut taken);
        taken
    }
}

/// Appending a command adds exactly its bytes.
proof fn lemma_commands_bytes_push(cs: Seq<WriterCommand>, c: WriterCommand)
    ensures
        commands_bytes(cs.push(c)) == commands_bytes(cs) + command_bytes(c),
{
    assert(cs.push(c).drop_last() =~= cs);
    assert(cs.push(c).last() == c);
}

} // verus!
