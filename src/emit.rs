//! The frames that carry a response back on its stream, and the handler of
//! connection control events.
use vstd::prelude::*;

use crate::headers::{Entries, HeaderMap};
use crate::response::{prepare_response, prepared_headers, prepared_size, BodySize, ResponseHead};

verus! {

/// A frame to send on the stream.
#[derive(Debug)]
pub enum Frame {
    Headers { status: u16, headers: HeaderMap, end_stream: bool },
    Payload { data: Vec<u8>, end_stream: bool },
}

/// A frame as values.
pub enum FrameView {
    Headers(u16, Entries, bool),
    Payload(Seq<u8>, bool),
}

impl Frame {
    pub open spec fn view(&self) -> FrameView {
        match self {
            Frame::Headers { status, headers, end_stream } => FrameView::Headers(
                *status,
                headers@,
                *end_stream,
            ),
            Frame::Payload { data, end_stream } => FrameView::Payload(data@, *end_stream),
        }
    }
}

/// The frames as values.
pub open spec fn frames_view(s: Seq<Frame>) -> Seq<FrameView> {
    s.map_values(|f: Frame| f.view())
}

/// Whether the headers frame ends the stream: no body follows, or the request was `HEAD`.
pub open spec fn head_ends_stream(status: u16, size: BodySize, is_head_req: bool) -> bool {
    prepared_size(status, size).spec_is_eof() || is_head_req
}

/// Opens a response: prepares its head and gives the headers frame, and
/// whether body frames follow it.
pub fn response_start(
    date_value: &String,
    head: ResponseHead,
    size: BodySize,
    is_head_req: bool,
) -> (r: (Frame, bool))
    ensures
        r.0.view() == FrameView::Headers(
            head.status,
            prepared_headers(head.headers@, head.status, size, date_value@),
            head_ends_stream(head.status, size, is_head_req),
        ),
        r.1 == !head_ends_stream(head.status, size, is_head_req),
{
    let mut head = head;
    let mut size = size;
    prepare_response(date_value, &mut head, &mut size);
    let end = size.is_eof() || is_head_req;
    (Frame::Headers { status: head.status, headers: head.headers, end_stream: end }, !end)
}

/// What the response body producer gave.
#[derive(Debug)]
pub enum BodyEvent {
    Chunk(Vec<u8>),
    End,
    Failed,
}

/// What to do with it.
#[derive(Debug)]
pub enum BodyAction {
    /// Send this frame.
    Send(Frame),
    /// Send nothing and ask for the next chunk.
    Skip,
    /// Stop the stream and report the failure.
    Abort,
}

/// Turns one event of the body producer into the next action: a non-empty
/// chunk is sent without ending the stream, an empty one is skipped, the end
/// sends an empty frame that ends the stream, a failure aborts.
pub fn body_step(ev: BodyEvent) -> (r: BodyAction)
    ensures
        match ev {
            BodyEvent::Chunk(d) => if d@.len() > 0 {
                r matches BodyAction::Send(f) && f.view() == FrameView::Payload(d@, false)
            } else {
                r is Skip
            },
            BodyEvent::End => r matches BodyAction::Send(f) && f.view() == FrameView::Payload(
                seq![],
                true,
            ),
            BodyEvent::Failed => r is Abort,
        },
{
    match ev {
        BodyEvent::Chunk(d) => {
            if d.len() > 0 {
                BodyAction::Send(Frame::Payload { data: d, end_stream: false })
            } else {
                BodyAction::Skip
            }
        },
        BodyEvent::End => {
            let v: Vec<u8> = Vec::new();
            assert(v@ =~= seq![]);
            BodyAction::Send(Frame::Payload { data: v, end_stream: true })
        },
        BodyEvent::Failed => BodyAction::Abort,
    }
}

/// The payload frames for the body chunks: one per non-empty chunk, in order.
pub open spec fn payload_frames(body: Seq<Seq<u8>>) -> Seq<FrameView>
    decreases body.len(),
{
    if body.len() == 0 {
        seq![]
    } else {
        let prev = payload_frames(body.drop_last());
        if body.last().len() > 0 {
            prev.push(FrameView::Payload(body.last(), false))
        } else {
            prev
        }
    }
}

/// Every frame of a response whose body is `body`, in the order sent.
pub open spec fn response_frames(
    status: u16,
    h: Entries,
    size: BodySize,
    is_head_req: bool,
    date_value: Seq<char>,
    body: Seq<Seq<u8>>,
) -> Seq<FrameView> {
    let end = head_ends_stream(status, size, is_head_req);
    let first = FrameView::Headers(status, prepared_headers(h, status, size, date_value), end);
    if end {
        seq![first]
    } else {
        seq![first] + payload_frames(body) + seq![FrameView::Payload(seq![], true)]
    }
}

/// The chunks as values.
pub open spec fn chunks_view(body: Seq<Vec<u8>>) -> Seq<Seq<u8>> {
    body.map_values(|c: Vec<u8>| c@)
}

/// All frames of a response whose body chunks are known: the headers frame,
/// then, unless it ends the stream, one frame per non-empty chunk and an
/// empty frame that ends the stream.
pub fn respond(
    date_value: &String,
    head: ResponseHead,
    size: BodySize,
    is_head_req: bool,
    body: Vec<Vec<u8>>,
) -> (r: Vec<Frame>)
    ensures
        frames_view(r@) == response_frames(
            head.status,
            head.headers@,
            size,
            is_head_req,
            date_value@,
            chunks_view(body@),
        ),
{
    let ghost h = head.headers@;
    let ghost status = head.status;
    let (first, more) = response_start(date_value, head, size, is_head_req);
    let mut out: Vec<Frame> = Vec::new();
    out.push(first);
    if !more {
        proof {
            assert(frames_view(out@) =~= response_frames(status, h, size, is_head_req, date_value@, chunks_view(body@)));
        }
        return out;
    }
    let ghost start = frames_view(out@);
    let ghost all = chunks_view(body@);
    let mut i: usize = 0;
    let n = body.len();
    while i < n
        invariant
            n == body@.len(),
            i <= n,
            all == chunks_view(body@),
            frames_view(out@) == start + payload_frames(all.take(i as int)),
        decreases n - i,
    {
        let chunk = body[i].clone();
        let ghost c = all[i as int];
        let ghost before = out@;
        proof {
            assert(chunk@ == c);
            assert(all.take(i + 1).drop_last() =~= all.take(i as int));
            assert(all.take(i + 1).last() == c);
        }
        match body_step(BodyEvent::Chunk(chunk)) {
            BodyAction::Send(f) => {
                out.push(f);
                proof {
                    assert(frames_view(out@) =~= frames_view(before).push(f.view()));
                }
            },
            _ => {},
        }
        proof {
            assert(frames_view(out@) =~= start + payload_frames(all.take(i + 1)));
        }
        i = i + 1;
    }
    let ghost before = out@;
    match body_step(BodyEvent::End) {
        BodyAction::Send(f) => {
            out.push(f);
            proof {
                assert(frames_view(out@) =~= frames_view(before).push(f.view()));
            }
        },
        _ => {},
    }
    proof {
        assert(all.take(n as int) =~= all);
        assert(frames_view(out@) =~= response_frames(
            status,
            h,
            size,
            is_head_req,
            date_value@,
            chunks_view(body@),
        ));
    }
    out
}

/// A connection control event.
#[derive(Debug, Clone, Copy, PartialEq, Eq, Structural)]
pub enum ControlKind {
    AppError,
    ConnectionError,
    GoAway,
    PeerGone,
    Terminated,
}

/// The answer to a control event.
#[derive(Debug, Clone, Copy, PartialEq, Eq, Structural)]
pub enum ControlAction {
    /// Acknowledge the event in the transport's default way.
    Ack,
}

/// The handler of control events: stateless, always ready, and it
/// acknowledges every event at once.
#[derive(Debug, Clone, Copy)]
pub struct ControlService {}

impl ControlService {
    pub fn new() -> (r: ControlService) {
        ControlService {  }
    }

    /// Always ready.
    pub fn poll_ready(&self) -> (r: bool)
        ensures
            r,
    {
        true
    }

    /// Acknowledges the event.
    pub fn call(&self, msg: ControlKind) -> (r: ControlAction)
        ensures
            r == ControlAction::Ack,
    {
        ControlAction::Ack
    }
}

} // verus!
