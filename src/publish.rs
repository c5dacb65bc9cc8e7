//! The stream publish handler: the connection's table of payload channels,
//! requests rebuilt from pseudo-headers, and the frames that carry a response.
use vstd::prelude::*;

use std::collections::HashMap;

use crate::headers::HeaderMap;
use crate::payload::{
    empty_channel, failed, fed_data, fed_eof, read_step, PayloadChannel, PayloadError, PayloadRead,
    PayloadView,
};

verus! {

broadcast use vstd::std_specs::hash::group_hash_axioms;

/// Whether the `http` crate's URI parser accepts the text.
pub uninterp spec fn uri_parses(s: Seq<char>) -> bool;

/// Relies on `http::Uri`'s `TryFrom<&str>`: whether the text parses as a URI,
/// which depends on the text alone.
#[verifier::external_body]
fn uri_is_valid(s: &str) -> (r: bool)
    ensures
        r == uri_parses(s@),
{
    <http::Uri as std::convert::TryFrom<&str>>::try_from(s).is_ok()
}

/// The pseudo-headers of a request.
#[derive(Debug, Clone)]
pub struct PseudoHeaders {
    pub method: Option<String>,
    pub path: Option<String>,
    pub scheme: Option<String>,
    pub authority: Option<String>,
}

/// A pseudo-header that a request needs.
#[derive(Debug, Clone, Copy, PartialEq, Eq, Structural)]
pub enum PseudoField {
    Path,
    Method,
    Scheme,
}

/// Why a stream's request could not be rebuilt.
#[derive(Debug, Clone, Copy, PartialEq, Eq, Structural)]
pub enum H2Error {
    MissingPseudoHeader(PseudoField),
    MalformedUri,
}

/// A request rebuilt from a headers event.
#[derive(Debug)]
pub struct Request {
    pub method: String,
    pub uri: String,
    pub headers: HeaderMap,
    /// Whether a body follows on the stream's payload channel.
    pub has_payload: bool,
    /// Whether only the head of the response is to be sent.
    pub is_head: bool,
}

/// The URI text: `scheme://authority path` with an authority, else the path.
pub open spec fn uri_text(p: PseudoHeaders) -> Seq<char> {
    if p.authority is Some {
        p.scheme->0@ + "://"@ + p.authority->0@ + p.path->0@
    } else {
        p.path->0@
    }
}

/// The request's URI, or why there is none. Path is checked before method,
/// and scheme only where an authority is given.
pub open spec fn request_uri(p: PseudoHeaders) -> Result<Seq<char>, H2Error> {
    if p.path is None {
        Err(H2Error::MissingPseudoHeader(PseudoField::Path))
    } else if p.method is None {
        Err(H2Error::MissingPseudoHeader(PseudoField::Method))
    } else if p.authority is Some && p.scheme is None {
        Err(H2Error::MissingPseudoHeader(PseudoField::Scheme))
    } else if uri_parses(uri_text(p)) {
        Ok(uri_text(p))
    } else {
        Err(H2Error::MalformedUri)
    }
}

/// Rebuilds a request from its pseudo-headers and headers.
pub fn build_request(pseudo: PseudoHeaders, headers: HeaderMap, has_payload: bool) -> (r: Result<
    Request,
    H2Error,
>)
    ensures
        match request_uri(pseudo) {
            Ok(u) => r matches Ok(req) && req.uri@ == u && req.method@ == pseudo.method->0@
                && req.headers@ == headers@ && req.has_payload == has_payload && req.is_head
                == is_head_method(req.method@),
            Err(e) => r == Err::<Request, H2Error>(e),
        },
{
    let ghost p = pseudo;
    let path = match pseudo.path {
        Some(p) => p,
        None => return Err(H2Error::MissingPseudoHeader(PseudoField::Path)),
    };
    let method = match pseudo.method {
        Some(m) => m,
        None => return Err(H2Error::MissingPseudoHeader(PseudoField::Method)),
    };
    let uri = match pseudo.authority {
        Some(authority) => {
            let scheme = match pseudo.scheme {
                Some(s) => s,
                None => return Err(H2Error::MissingPseudoHeader(PseudoField::Scheme)),
            };
            let mut u = scheme;
            u.append("://");
            u.append(authority.as_str());
            u.append(path.as_str());
            u
        },
        None => path,
    };
    assert(uri@ == uri_text(p));
    if !uri_is_valid(uri.as_str()) {
        return Err(H2Error::MalformedUri);
    }
    let is_head = is_head_request(&method);
    Ok(Request { method, uri, headers, has_payload, is_head })
}

/// Whether a request method asks for the head of a response only.
pub open spec fn is_head_method(m: Seq<char>) -> bool {
    m == "HEAD"@
}

/// Whether `method` is `HEAD`.
pub fn is_head_request(method: &String) -> (r: bool)
    ensures
        r == is_head_method(method@),
{
    let head = String::from_str("HEAD");
    *method == head
}

/// How a stream ended.
#[derive(Debug)]
pub enum StreamEof {
    /// With a last data chunk.
    Data(Vec<u8>),
    /// With a trailers block and no more data.
    Trailers(HeaderMap),
    /// In error.
    Error(PayloadError),
}

/// One event of one stream.
#[derive(Debug)]
pub enum MessageKind {
    Headers { pseudo: PseudoHeaders, headers: HeaderMap, eof: bool },
    Data(Vec<u8>, u32),
    Eof(StreamEof),
    Other,
}

/// What the handler made of an event.
#[derive(Debug)]
pub enum Dispatch {
    /// A request to hand to the service, or why none could be rebuilt.
    Request(Result<Request, H2Error>),
    /// Nothing more to do.
    Handled,
}

/// The channel after the stream ends as `eof` says.
pub open spec fn ended(c: PayloadView, eof: StreamEof) -> PayloadView {
    match eof {
        StreamEof::Data(d) => fed_eof(c, d@),
        StreamEof::Trailers(_) => fed_eof(c, seq![]),
        StreamEof::Error(e) => failed(c, e),
    }
}

/// The channel table after one event of stream `id`.
pub open spec fn after_event(m: Map<u32, PayloadView>, id: u32, kind: MessageKind) -> Map<
    u32,
    PayloadView,
> {
    match kind {
        MessageKind::Headers { eof, .. } => if eof {
            m
        } else {
            m.insert(id, empty_channel())
        },
        MessageKind::Data(d, c) => if m.contains_key(id) {
            m.insert(id, fed_data(m[id], d@, c))
        } else {
            m
        },
        MessageKind::Eof(_) => m.remove(id),
        MessageKind::Other => m,
    }
}

/// The per-connection handler of stream events. It holds one payload channel
/// for each stream whose request body is still arriving, and, apart from
/// those, the ended channels whose body is not yet read to its end.
pub struct PublishService {
    streams: HashMap<u32, PayloadChannel>,
    ended: HashMap<u32, PayloadChannel>,
}

impl View for PublishService {
    type V = Map<u32, PayloadView>;

    /// The open channels.
    closed spec fn view(&self) -> Map<u32, PayloadView> {
        self.streams@.map_values(|c: PayloadChannel| c@)
    }
}

impl PublishService {
    /// The ended channels that still have something to report.
    pub closed spec fn ended_channels(&self) -> Map<u32, PayloadView> {
        self.ended@.map_values(|c: PayloadChannel| c@)
    }

    /// A handler with no stream.
    pub fn new() -> (r: PublishService)
        ensures
            r@ == Map::<u32, PayloadView>::empty(),
            r.ended_channels() == Map::<u32, PayloadView>::empty(),
    {
        let r = PublishService { streams: HashMap::new(), ended: HashMap::new() };
        proof {
            assert(r@ =~= Map::<u32, PayloadView>::empty());
            assert(r.ended_channels() =~= Map::<u32, PayloadView>::empty());
        }
        r
    }

    /// Whether stream `id` has an open payload channel.
    pub fn has_stream(&self, id: u32) -> (r: bool)
        ensures
            r == self@.contains_key(id),
    {
        self.streams.contains_key(&id)
    }

    /// Reads the request body of stream `id`: one read of its open channel,
    /// else of its ended channel, which is let go once it has reported the
    /// end or a failure; none where the stream has neither.
    pub fn read(&mut self, id: u32) -> (r: Option<PayloadRead>)
        ensures
            if old(self)@.contains_key(id) {
                &&& r matches Some(pr)
                &&& final(self)@.contains_key(id)
                &&& read_step(old(self)@[id], pr, final(self)@[id])
                &&& final(self)@ == old(self)@.insert(id, final(self)@[id])
                &&& final(self).ended_channels() == old(self).ended_channels()
            } else if old(self).ended_channels().contains_key(id) {
                &&& r matches Some(pr)
                &&& final(self)@ == old(self)@
                &&& exists|after: PayloadView|
                    #![auto]
                    read_step(old(self).ended_channels()[id], pr, after)
                        && final(self).ended_channels() == (if pr is Chunk {
                        old(self).ended_channels().insert(id, after)
                    } else {
                        old(self).ended_channels().remove(id)
                    })
            } else {
                &&& r is None
                &&& final(self)@ == old(self)@
                &&& final(self).ended_channels() == old(self).ended_channels()
            },
    {
        match self.streams.remove(&id) {
            Some(mut c) => {
                let r = c.read();
                let ghost after = c@;
                self.streams.insert(id, c);
                proof {
                    assert(self@ =~= old(self)@.insert(id, after));
                    assert(self.ended_channels() == old(self).ended_channels());
                }
                return Some(r);
            },
            None => {
                proof {
                    assert(self@ =~= old(self)@);
                }
            },
        }
        match self.ended.remove(&id) {
            Some(mut c) => {
                let ghost before = c@;
                assert(before == old(self).ended_channels()[id]);
                let r = c.read();
                let ghost after = c@;
                let more = match r {
                    PayloadRead::Chunk(..) => true,
                    _ => false,
                };
                if more {
                    self.ended.insert(id, c);
                    proof {
                        assert(self.ended_channels() =~= old(self).ended_channels().insert(id, after));
                    }
                } else {
                    proof {
                        assert(self.ended_channels() =~= old(self).ended_channels().remove(id));
                    }
                }
                assert(read_step(old(self).ended_channels()[id], r, after));
                Some(r)
            },
            None => {
                proof {
                    assert(self.ended_channels() =~= old(self).ended_channels());
                }
                None
            },
        }
    }

    /// Handles one event of stream `id`. A headers event opens a channel
    /// unless the stream ends with it, and yields the rebuilt request; data
    /// goes to the stream's channel; an end takes the channel out of the open
    /// ones and keeps it, ended, for the rest of the body to be read. Events
    /// for a stream without a channel change nothing.
    pub fn call(&mut self, id: u32, kind: MessageKind) -> (r: Dispatch)
        ensures
            final(self)@ == after_event(old(self)@, id, kind),
            final(self).ended_channels() == match kind {
                MessageKind::Eof(t) => if old(self)@.contains_key(id) {
                    old(self).ended_channels().insert(id, ended(old(self)@[id], t))
                } else {
                    old(self).ended_channels()
                },
                _ => old(self).ended_channels(),
            },
            match kind {
                MessageKind::Headers { pseudo, headers, eof } => match request_uri(pseudo) {
                    Ok(u) => r matches Dispatch::Request(Ok(req)) && req.uri@ == u
                        && req.method@ == pseudo.method->0@ && req.headers@ == headers@
                        && req.has_payload == !eof && req.is_head == is_head_method(req.method@),
                    Err(e) => r matches Dispatch::Request(Err(e2)) && e2 == e,
                },
                _ => r is Handled,
            },
    {
        match kind {
            MessageKind::Headers { pseudo, headers, eof } => {
                if !eof {
                    self.streams.insert(id, PayloadChannel::new());
                    proof {
                        assert(self@ =~= old(self)@.insert(id, empty_channel()));
                    }
                }
                Dispatch::Request(build_request(pseudo, headers, !eof))
            },
            MessageKind::Data(data, credit) => {
                if let Some(mut c) = self.streams.remove(&id) {
                    c.feed_data(data, credit);
                    self.streams.insert(id, c);
                    proof {
                        assert(self@ =~= old(self)@.insert(id, fed_data(old(self)@[id], data@, credit)));
                    }
                } else {
                    proof {
                        assert(self@ =~= old(self)@);
                    }
                }
                Dispatch::Handled
            },
            MessageKind::Eof(t) => {
                match self.streams.remove(&id) {
                    Some(mut c) => {
                        proof {
                            assert(self@ =~= old(self)@.remove(id));
                        }
                        match t {
                            StreamEof::Data(d) => c.feed_eof(d),
                            StreamEof::Trailers(_) => c.feed_eof(Vec::new()),
                            StreamEof::Error(e) => c.set_error(e),
                        }
                        let ghost done = c@;
                        self.ended.insert(id, c);
                        proof {
                            assert(self.ended_channels() =~= old(self).ended_channels().insert(id, done));
                        }
                    },
                    None => {
                        proof {
                            assert(self@ =~= old(self)@.remove(id));
                        }
                    },
                }
                Dispatch::Handled
            },
            MessageKind::Other => Dispatch::Handled,
        }
    }
}

/// Two data events for one open stream are buffered in the order they came,
/// after what was already there.
pub proof fn lemma_data_in_order(
    m: Map<u32, PayloadView>,
    id: u32,
    a: Vec<u8>,
    ca: u32,
    b: Vec<u8>,
    cb: u32,
)
    requires
        m.contains_key(id),
        m[id].state is Open,
    ensures
        after_event(after_event(m, id, MessageKind::Data(a, ca)), id, MessageKind::Data(b, cb))[id].chunks
            == m[id].chunks.push((a@, ca)).push((b@, cb)),
{
}

/// An end event for a stream with no channel leaves every channel as it was.
pub proof fn lemma_eof_without_channel(m: Map<u32, PayloadView>, id: u32, eof: StreamEof)
    requires
        !m.contains_key(id),
    ensures
        after_event(m, id, MessageKind::Eof(eof)) == m,
{
    assert(m.remove(id) =~= m);
}

} // verus!
