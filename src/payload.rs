//! The per-stream payload channel: buffered request body chunks with
//! flow-control credit, ending once in completion or failure.
use vstd::prelude::*;

verus! {

/// Why a stream's payload failed, as the HTTP/2 reason code.
#[derive(Debug, Clone, Copy, PartialEq, Eq, Structural)]
pub struct PayloadError {
    pub reason: u32,
}

/// Where a channel stands.
#[derive(Debug, Clone, Copy, PartialEq, Eq, Structural)]
pub enum ChannelState {
    Open,
    Eof,
    Failed(PayloadError),
}

/// What a channel holds: the unread chunks, each with the credit that reading
/// it hands back to the transport, and its state.
pub struct PayloadView {
    pub chunks: Seq<(Seq<u8>, u32)>,
    pub state: ChannelState,
}

/// A fresh channel: nothing buffered, still open.
pub open spec fn empty_channel() -> PayloadView {
    PayloadView { chunks: seq![], state: ChannelState::Open }
}

/// The channel after a data chunk; a channel that has ended ignores it.
pub open spec fn fed_data(c: PayloadView, data: Seq<u8>, credit: u32) -> PayloadView {
    if c.state is Open {
        PayloadView { chunks: c.chunks.push((data, credit)), ..c }
    } else {
        c
    }
}

/// The channel after its last chunk, which may be empty; a channel that has
/// ended ignores it.
pub open spec fn fed_eof(c: PayloadView, data: Seq<u8>) -> PayloadView {
    if c.state is Open {
        PayloadView {
            chunks: if data.len() == 0 {
                c.chunks
            } else {
                c.chunks.push((data, 0))
            },
            state: ChannelState::Eof,
        }
    } else {
        c
    }
}

/// The channel after a failure; a channel that has ended ignores it.
pub open spec fn failed(c: PayloadView, err: PayloadError) -> PayloadView {
    if c.state is Open {
        PayloadView { state: ChannelState::Failed(err), ..c }
    } else {
        c
    }
}

/// What one read of a channel gives.
#[derive(Debug)]
pub enum PayloadRead {
    /// The oldest unread chunk, with the credit to hand back.
    Chunk(Vec<u8>, u32),
    /// Every chunk was read and the body ended.
    Done,
    /// The body failed.
    Failed(PayloadError),
    /// Nothing to read yet.
    Pending,
}

/// One read: from `before`, the read gives `r` and leaves `after`. A failed
/// channel reports its error, buffered chunks or not; otherwise the oldest
/// chunk comes out; a drained channel reports completion once ended, and
/// that nothing is there yet while open.
pub open spec fn read_step(before: PayloadView, r: PayloadRead, after: PayloadView) -> bool {
    match before.state {
        ChannelState::Failed(e) => r == PayloadRead::Failed(e) && after == before,
        _ => if before.chunks.len() > 0 {
            &&& r matches PayloadRead::Chunk(d, c)
            &&& (d@, c) == before.chunks[0]
            &&& after == (PayloadView { chunks: before.chunks.drop_first(), ..before })
        } else {
            &&& after == before
            &&& if before.state is Eof {
                r is Done
            } else {
                r is Pending
            }
        },
    }
}

/// The body chunks of one stream.
#[derive(Debug)]
pub struct PayloadChannel {
    chunks: Vec<(Vec<u8>, u32)>,
    state: ChannelState,
}

impl View for PayloadChannel {
    type V = PayloadView;

    closed spec fn view(&self) -> PayloadView {
        PayloadView {
            chunks: self.chunks@.map_values(|e: (Vec<u8>, u32)| (e.0@, e.1)),
            state: self.state,
        }
    }
}

impl PayloadChannel {
    pub fn new() -> (r: PayloadChannel)
        ensures
            r@ == empty_channel(),
    {
        let r = PayloadChannel { chunks: Vec::new(), state: ChannelState::Open };
        proof {
            assert(r@.chunks =~= empty_channel().chunks);
        }
        r
    }

    /// Whether the channel has ended, normally or not.
    pub fn is_terminated(&self) -> (r: bool)
        ensures
            r == !(self@.state is Open),
    {
        match self.state {
            ChannelState::Open => false,
            _ => true,
        }
    }

    /// Buffers `data`, whose reading hands `credit` back to the transport.
    pub fn feed_data(&mut self, data: Vec<u8>, credit: u32)
        ensures
            final(self)@ == fed_data(old(self)@, data@, credit),
    {
        if let ChannelState::Open = self.state {
            self.chunks.push((data, credit));
            proof {
                assert(self@.chunks =~= old(self)@.chunks.push((data@, credit)));
            }
        }
    }

    /// Buffers the last chunk and ends the channel.
    pub fn feed_eof(&mut self, data: Vec<u8>)
        ensures
            final(self)@ == fed_eof(old(self)@, data@),
    {
        if let ChannelState::Open = self.state {
            if data.len() > 0 {
                self.chunks.push((data, 0));
                proof {
                    assert(self@.chunks =~= old(self)@.chunks.push((data@, 0u32)));
                }
            }
            self.state = ChannelState::Eof;
        }
    }

    /// Ends the channel in failure.
    pub fn set_error(&mut self, err: PayloadError)
        ensures
            final(self)@ == failed(old(self)@, err),
    {
        if let ChannelState::Open = self.state {
            self.state = ChannelState::Failed(err);
        }
    }

    /// Takes the next chunk. A failed channel reports its error, buffered
    /// chunks or not; a completed one reports completion once drained.
    pub fn read(&mut self) -> (r: PayloadRead)
        ensures
            read_step(old(self)@, r, final(self)@),
    {
        if let ChannelState::Failed(e) = self.state {
            return PayloadRead::Failed(e);
        }
        if self.chunks.len() > 0 {
            let (d, c) = self.chunks.remove(0);
            proof {
                assert(self@.chunks =~= old(self)@.chunks.drop_first());
            }
            PayloadRead::Chunk(d, c)
        } else if let ChannelState::Eof = self.state {
            PayloadRead::Done
        } else {
            PayloadRead::Pending
        }
    }
}

} // verus!
