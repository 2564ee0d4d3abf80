//! The dispatcher: one payload in, one payload out.
//!
//! An exchange runs through the phases of [`Phase`]. It starts when the
//! bytes of a message arrive, and it ends with exactly one reply, whether
//! the message was served or turned down.

use vstd::prelude::*;
use vstd::slice::slice_to_vec;
use vstd::string::StrSliceExecFns;
use vstd::utf8::encode_utf8;
use crate::codec::{decode, decoded, encode, response_text};
use crate::text::lemma_single_line_encoded;
use crate::frame::{delimiter_free, frame_end, is_frame_end, seal, DELIMITER};
use crate::registry::{shown_in, RegistryView, Server, Visibility};
use crate::request::{
    DecodeError, GetResponse, Request, RequestView, Response, ResponseView, ServerError,
};

verus! {

/// The registry once `request` is served.
pub open spec fn registry_after(registry: RegistryView, request: RequestView) -> RegistryView {
    match request {
        RequestView::Connect { info, visibility } => registry.insert(info, visibility),
        RequestView::Disconnect { info } => registry.remove(info),
        _ => registry,
    }
}

/// The response that `request` gets from `registry`. A get reports a
/// target that is not registered as it reports one that hides.
pub open spec fn response_to(registry: RegistryView, request: RequestView) -> ResponseView {
    match request {
        RequestView::Ping => ResponseView::Pong,
        RequestView::Connect { .. } => ResponseView::Accepted,
        RequestView::Disconnect { .. } => ResponseView::Accepted,
        RequestView::Get { requester, target } => ResponseView::Found {
            target,
            visible: shown_in(registry, requester, target),
        },
    }
}

/// The response to what was decoded: that of the request, or the report of
/// the decoding error.
pub open spec fn outcome_of(
    registry: RegistryView,
    decoding: Result<RequestView, DecodeError>,
) -> ResponseView {
    match decoding {
        Ok(request) => response_to(registry, request),
        Err(error) => ResponseView::Failed(ServerError::Decode(error)),
    }
}

/// The registry after what was decoded: a payload that is no request
/// leaves it as it was.
pub open spec fn registry_past(
    registry: RegistryView,
    decoding: Result<RequestView, DecodeError>,
) -> RegistryView {
    match decoding {
        Ok(request) => registry_after(registry, request),
        Err(_) => registry,
    }
}

/// Whether serving `request` may change the registry.
pub open spec fn mutates(request: RequestView) -> bool {
    request is Connect || request is Disconnect
}

/// Whether what was decoded is a request that may change the registry.
pub open spec fn needs_writer(decoding: Result<RequestView, DecodeError>) -> bool {
    match decoding {
        Ok(request) => mutates(request),
        Err(_) => false,
    }
}

/// The bytes that are sent for `response`.
pub open spec fn reply_bytes(response: ResponseView) -> Seq<u8> {
    encode_utf8(response_text(response))
}

/// Where an exchange stands.
#[derive(Debug)]
pub enum Phase {
    /// Nothing has arrived.
    Idle,
    /// The bytes of a message have arrived.
    Decoding(Vec<u8>),
    /// The message was a request.
    Dispatching(Request),
    /// The registry has served the request.
    Encoding(Response),
    /// The reply is ready to be sent.
    Done(Vec<u8>),
}

/// The mathematical value of a [`Phase`].
pub enum PhaseView {
    Idle,
    Decoding(Seq<u8>),
    Dispatching(RequestView),
    Encoding(ResponseView),
    Done(Seq<u8>),
}

impl View for Phase {
    type V = PhaseView;

    open spec fn view(&self) -> PhaseView {
        match self {
            Phase::Idle => PhaseView::Idle,
            Phase::Decoding(message) => PhaseView::Decoding(message@),
            Phase::Dispatching(request) => PhaseView::Dispatching(request@),
            Phase::Encoding(response) => PhaseView::Encoding(response@),
            Phase::Done(reply) => PhaseView::Done(reply@),
        }
    }
}

/// The phase once the bytes of a message have arrived: an idle exchange
/// starts on them, and one that is under way is not disturbed.
pub open spec fn phase_on_receipt(phase: PhaseView, message: Seq<u8>) -> PhaseView {
    match phase {
        PhaseView::Idle => PhaseView::Decoding(message),
        _ => phase,
    }
}

impl Phase {
    /// Takes in the bytes of a message.
    pub fn receive(self, message: Vec<u8>) -> (next: Phase)
        ensures
            next@ == phase_on_receipt(self@, message@),
    {
        match self {
            Phase::Idle => Phase::Decoding(message),
            other => other,
        }
    }

    /// The reply, once the exchange has ended.
    pub fn reply(&self) -> (reply: Option<&Vec<u8>>)
        ensures
            match reply {
                Some(bytes) => self@ == PhaseView::Done(bytes@),
                None => !(self@ is Done),
            },
    {
        match self {
            Phase::Done(bytes) => Some(bytes),
            _ => None,
        }
    }
}

/// The phase that follows `phase`. A message that is no request goes
/// straight to the end, with the report of the error as its reply. `Idle`
/// waits, and `Done` stays.
pub open spec fn next_phase(registry: RegistryView, phase: PhaseView) -> PhaseView {
    match phase {
        PhaseView::Idle => PhaseView::Idle,
        PhaseView::Decoding(message) => match decoded(message) {
            Ok(request) => PhaseView::Dispatching(request),
            Err(error) => PhaseView::Done(
                reply_bytes(ResponseView::Failed(ServerError::Decode(error))),
            ),
        },
        PhaseView::Dispatching(request) => PhaseView::Encoding(response_to(registry, request)),
        PhaseView::Encoding(response) => PhaseView::Done(reply_bytes(response)),
        PhaseView::Done(reply) => PhaseView::Done(reply),
    }
}

/// The registry after the step that leaves `phase`: only dispatching
/// touches it.
pub open spec fn registry_next(registry: RegistryView, phase: PhaseView) -> RegistryView {
    match phase {
        PhaseView::Dispatching(request) => registry_after(registry, request),
        _ => registry,
    }
}

/// What one call of [`Server::process_frame`] did with a buffer.
#[derive(Debug)]
pub struct Exchange {
    /// The reply, ended by the delimiter.
    pub reply: Vec<u8>,
    /// How many bytes of the buffer the message took, its delimiter
    /// included.
    pub consumed: usize,
}

/// What one call of [`Server::process_frame_shared`] did with a buffer.
#[derive(Debug)]
pub enum SharedOutcome {
    /// The buffer holds no whole message.
    Incomplete,
    /// The first message was served.
    Served(Exchange),
    /// The first message is a connect or a disconnect: it has to be served
    /// by [`Server::process_frame`], with the registry held exclusively.
    NeedsWriter,
}

/// Whether `request` may change the registry.
pub fn is_mutation(request: &Request) -> (answer: bool)
    ensures
        answer == mutates(request@),
{
    match request {
        Request::Connect(_) => true,
        Request::Disconnect(_) => true,
        _ => false,
    }
}

/// The bytes of `response`, as they are sent.
pub fn reply_of(response: &Response) -> (reply: Vec<u8>)
    ensures
        reply@ == reply_bytes(response@),
        delimiter_free(reply@),
{
    let text = encode(response);
    proof {
        lemma_single_line_encoded(text@);
    }
    text.as_str().as_bytes_vec()
}

impl Server {
    /// Serves a ping: the fixed acknowledgement, without a look at the
    /// registry.
    pub fn process_ping(&self, request: Request) -> (served: Result<&'static str, ServerError>)
        ensures
            match served {
                Ok(token) => request@ == RequestView::Ping && token@ == "PONG"@,
                Err(error) => request@ != RequestView::Ping && error
                    == ServerError::ProtocolMismatch,
            },
    {
        match request {
            Request::Ping => Ok("PONG"),
            _ => Err(ServerError::ProtocolMismatch),
        }
    }

    /// Serves a connect: registers the identity under its policy.
    pub fn process_connect(&mut self, request: Request) -> (served: Result<
        &'static str,
        ServerError,
    >)
        ensures
            match served {
                Ok(token) => request@ is Connect && token@ == "OK"@ && final(self)@
                    == registry_after(old(self)@, request@),
                Err(error) => !(request@ is Connect) && error == ServerError::ProtocolMismatch
                    && final(self)@ == old(self)@,
            },
    {
        match request {
            Request::Connect(connect) => {
                self.connect(connect.info, connect.visibility);
                Ok("OK")
            },
            _ => Err(ServerError::ProtocolMismatch),
        }
    }

    /// Serves a disconnect: removes the identity, registered or not.
    pub fn process_disconnect(&mut self, request: Request) -> (served: Result<
        &'static str,
        ServerError,
    >)
        ensures
            match served {
                Ok(token) => request@ is Disconnect && token@ == "OK"@ && final(self)@
                    == registry_after(old(self)@, request@),
                Err(error) => !(request@ is Disconnect) && error == ServerError::ProtocolMismatch
                    && final(self)@ == old(self)@,
            },
    {
        match request {
            Request::Disconnect(disconnect) => {
                self.disconnect(&disconnect.info);
                Ok("OK")
            },
            _ => Err(ServerError::ProtocolMismatch),
        }
    }

    /// Serves a get: says whether the target is visible to the requester.
    /// The answer for a target that is not registered is the answer for one
    /// that hides.
    pub fn process_get(&self, request: Request) -> (served: Result<GetResponse, ServerError>)
        ensures
            match served {
                Ok(found) => request@ is Get && Response::Found(found)@ == response_to(
                    self@,
                    request@,
                ),
                Err(error) => !(request@ is Get) && error == ServerError::ProtocolMismatch,
            },
    {
        match request {
            Request::Get(get) => {
                let visible = match self.lookup(&get.requester, &get.target) {
                    Visibility::Visible => true,
                    Visibility::NotVisible => false,
                    Visibility::Unknown => false,
                };
                Ok(GetResponse { target: get.target, visible })
            },
            _ => Err(ServerError::ProtocolMismatch),
        }
    }

    /// Routes `request` to the operation that serves it.
    pub fn dispatch(&mut self, request: Request) -> (response: Response)
        ensures
            response@ == response_to(old(self)@, request@),
            final(self)@ == registry_after(old(self)@, request@),
    {
        match &request {
            Request::Ping => match self.process_ping(request) {
                Ok(_) => Response::Pong,
                Err(error) => Response::Failed(error),
            },
            Request::Connect(_) => match self.process_connect(request) {
                Ok(_) => Response::Accepted,
                Err(error) => Response::Failed(error),
            },
            Request::Disconnect(_) => match self.process_disconnect(request) {
                Ok(_) => Response::Accepted,
                Err(error) => Response::Failed(error),
            },
            Request::Get(_) => match self.process_get(request) {
                Ok(found) => Response::Found(found),
                Err(error) => Response::Failed(error),
            },
        }
    }

    /// Serves `request` if that leaves the registry as it is, and hands it
    /// back if it is a connect or a disconnect.
    pub fn observe(&self, request: Request) -> (served: Result<Response, Request>)
        ensures
            match served {
                Ok(response) => !mutates(request@) && response@ == response_to(self@, request@),
                Err(unserved) => mutates(request@) && unserved@ == request@,
            },
    {
        match &request {
            Request::Ping => match self.process_ping(request) {
                Ok(_) => Ok(Response::Pong),
                Err(error) => Ok(Response::Failed(error)),
            },
            Request::Get(_) => match self.process_get(request) {
                Ok(found) => Ok(Response::Found(found)),
                Err(error) => Ok(Response::Failed(error)),
            },
            _ => Err(request),
        }
    }

    /// Takes an exchange one phase further.
    pub fn advance(&mut self, phase: Phase) -> (next: Phase)
        ensures
            next@ == next_phase(old(self)@, phase@),
            final(self)@ == registry_next(old(self)@, phase@),
            !(phase@ is Done) ==> (next@ matches PhaseView::Done(reply) ==> delimiter_free(reply)),
    {
        match phase {
            Phase::Idle => Phase::Idle,
            Phase::Decoding(message) => match decode(message.as_slice()) {
                Ok(request) => Phase::Dispatching(request),
                Err(error) => Phase::Done(reply_of(&Response::Failed(ServerError::from(error)))),
            },
            Phase::Dispatching(request) => Phase::Encoding(self.dispatch(request)),
            Phase::Encoding(response) => Phase::Done(reply_of(&response)),
            Phase::Done(reply) => Phase::Done(reply),
        }
    }

    /// Serves the message `message`: decodes it, routes it to the registry
    /// and encodes the response. Every message gets exactly one reply.
    pub fn process(&mut self, message: &[u8]) -> (reply: Vec<u8>)
        ensures
            reply@ == reply_bytes(outcome_of(old(self)@, decoded(message@))),
            delimiter_free(reply@),
            final(self)@ == registry_past(old(self)@, decoded(message@)),
    {
        let arrived = Phase::Idle.receive(slice_to_vec(message));
        let second = self.advance(arrived);
        let third = self.advance(second);
        let last = self.advance(third);
        match last {
            Phase::Done(reply) => reply,
            _ => Vec::new(),
        }
    }

    /// Serves the message `message` without a change to the registry, if
    /// it can be served so: a ping, a get, and a payload that is no request
    /// get the reply that [`Server::process`] gives them. A connect or a
    /// disconnect gets none here.
    pub fn process_shared(&self, message: &[u8]) -> (reply: Option<Vec<u8>>)
        ensures
            match reply {
                Some(bytes) => {
                    &&& !needs_writer(decoded(message@))
                    &&& bytes@ == reply_bytes(outcome_of(self@, decoded(message@)))
                    &&& delimiter_free(bytes@)
                },
                None => needs_writer(decoded(message@)),
            },
    {
        match decode(message) {
            Ok(request) => match self.observe(request) {
                Ok(response) => Some(reply_of(&response)),
                Err(_) => None,
            },
            Err(error) => Some(reply_of(&Response::Failed(ServerError::from(error)))),
        }
    }

    /// Serves the first message of `buffer` as [`Server::process_frame`]
    /// does, if that takes no change to the registry. Lookups can so be
    /// served side by side, and only a connect or a disconnect has to wait
    /// for the registry to be held exclusively.
    pub fn process_frame_shared(&self, buffer: &[u8]) -> (outcome: SharedOutcome)
        ensures
            match outcome {
                SharedOutcome::Incomplete => delimiter_free(buffer@),
                SharedOutcome::Served(exchange) => {
                    let end = exchange.consumed - 1;
                    let message = buffer@.take(end);
                    &&& is_frame_end(buffer@, end)
                    &&& !needs_writer(decoded(message))
                    &&& exchange.reply@ == reply_bytes(
                        outcome_of(self@, decoded(message)),
                    ).push(DELIMITER)
                    &&& is_frame_end(exchange.reply@, exchange.reply@.len() - 1)
                },
                SharedOutcome::NeedsWriter => exists|end: int|
                    is_frame_end(buffer@, end) && needs_writer(decoded(buffer@.take(end))),
            },
    {
        let length = buffer.len();
        match frame_end(buffer) {
            Some(end) => {
                assert(end < length);
                let message = vstd::slice::slice_subrange(buffer, 0, end);
                assert(message@ =~= buffer@.take(end as int));
                match self.process_shared(message) {
                    Some(reply) => SharedOutcome::Served(
                        Exchange { reply: seal(reply), consumed: end + 1 },
                    ),
                    None => SharedOutcome::NeedsWriter,
                }
            },
            None => SharedOutcome::Incomplete,
        }
    }

    /// Serves the first message of `buffer`, if the buffer holds a whole
    /// one. What stands behind its delimiter is left for later, and a buffer
    /// without a delimiter changes nothing.
    pub fn process_frame(&mut self, buffer: &[u8]) -> (outcome: Option<Exchange>)
        ensures
            match outcome {
                Some(exchange) => {
                    let end = exchange.consumed - 1;
                    let message = buffer@.take(end);
                    &&& is_frame_end(buffer@, end)
                    &&& exchange.reply@ == reply_bytes(
                        outcome_of(old(self)@, decoded(message)),
                    ).push(DELIMITER)
                    &&& is_frame_end(exchange.reply@, exchange.reply@.len() - 1)
                    &&& final(self)@ == registry_past(old(self)@, decoded(message))
                },
                None => delimiter_free(buffer@) && final(self)@ == old(self)@,
            },
    {
        let length = buffer.len();
        match frame_end(buffer) {
            Some(end) => {
                assert(end < length);
                let message = vstd::slice::slice_subrange(buffer, 0, end);
                assert(message@ =~= buffer@.take(end as int));
                let reply = self.process(message);
                Some(Exchange { reply: seal(reply), consumed: end + 1 })
            },
            None => None,
        }
    }
}

} // verus!
