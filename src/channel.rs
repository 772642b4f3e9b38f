use vstd::prelude::*;

verus! {

/// A duplex byte channel: an owned read half and an owned write half.
pub struct Channel<R, W> {
    reader: R,
    writer: W,
}

impl<R, W> Channel<R, W> {
    /// The read half.
    pub closed spec fn reader_half(&self) -> R {
        self.reader
    }

    /// The write half.
    pub closed spec fn writer_half(&self) -> W {
        self.writer
    }

    pub fn new(reader: R, writer: W) -> (r: Self)
        ensures
            r.reader_half() == reader,
            r.writer_half() == writer,
    {
        Self { reader, writer }
    }

    /// Gives up the channel and returns its read half.
    pub fn reader(self) -> (r: R)
        ensures
            r == self.reader_half(),
    {
        self.reader
    }

    /// Gives up the channel and returns its write half.
    pub fn writer(self) -> (r: W)
        ensures
            r == self.writer_half(),
    {
        self.writer
    }

    /// Both halves, borrowed for reading and writing.
    pub fn halves_mut(&mut self) -> (r: (&mut R, &mut W))
        ensures
            *r.0 == old(self).reader_half(),
            *r.1 == old(self).writer_half(),
            final(self).reader_half() == *final(r.0),
            final(self).writer_half() == *final(r.1),
    {
        (&mut self.reader, &mut self.writer)
    }
}

} // verus!
