//! Serving one request: what the daemon answers, how the store changes, and
//! whether the copy is passed on to the compositor.
//!
//! A copy needs a nonce from the random source. What a request comes to is
//! therefore stated as a function of the state, the request and what was
//! drawn; the functions that draw for themselves say that their outcome is
//! the one for some draw.

use crate::cipher::{bytes_view, fresh_nonce, sealable, NONCE_LEN};
use crate::codec::{decode_request, decode_request_spec, encode_response, encode_response_spec};
use crate::frame::{frame, write_frame, ProtocolError, MAX_FRAME_LEN};
use crate::message::{CopySource, Request, RequestView, Response, ResponseView};
use crate::store::{State, StateView, StoreError};
use vstd::prelude::*;

verus! {

/// What the daemon does with one request.
pub struct Reply {
    /// The answer for the client.
    pub response: Response,
    /// The plaintext to hand to the compositor bridge, if any. Passing it on
    /// is best effort: its failure never changes the response.
    pub forward: Option<Vec<u8>>,
}

/// One served connection: the response frame to write back, and the
/// plaintext to hand to the compositor bridge, if any.
pub struct Served {
    /// The response, framed.
    pub frame: Vec<u8>,
    /// The plaintext to hand to the compositor bridge, if any.
    pub forward: Option<Vec<u8>>,
}

/// The view of a nonce that may have been drawn.
pub open spec fn drawn_view(drawn: Option<[u8; 12]>) -> Option<Seq<u8>> {
    match drawn {
        Some(nonce) => Some(nonce@),
        None => None,
    }
}

/// The view of what `serve` returns: the frame and what is passed on.
pub open spec fn served_view(r: Result<Served, ProtocolError>) -> Result<
    (Seq<u8>, Option<Seq<u8>>),
    ProtocolError,
> {
    match r {
        Ok(served) => Ok((served.frame@, bytes_view(served.forward))),
        Err(e) => Err(e),
    }
}

/// Whether `request` is a copy that gets stored: it needs a nonce, and a
/// payload of a length that can be encrypted.
pub open spec fn accepted(request: RequestView, drawn: Option<Seq<u8>>) -> bool {
    request matches RequestView::Copy { payload, .. } && drawn is Some && sealable(payload.len())
}

/// The answer to a paste, given what the store recovers.
pub open spec fn paste_response(recovered: Result<Seq<u8>, StoreError>) -> ResponseView {
    match recovered {
        Ok(data) => ResponseView::Payload { data },
        Err(e) => ResponseView::Error { message: e.message_spec() },
    }
}

/// The answer to `request` in the state `before`, given what was drawn.
pub open spec fn response_for(
    before: StateView,
    request: RequestView,
    drawn: Option<Seq<u8>>,
) -> ResponseView {
    match request {
        RequestView::Paste => paste_response(before.recover()),
        RequestView::Copy { payload, source } => if accepted(request, drawn) {
            ResponseView::Stored
        } else {
            ResponseView::Error { message: StoreError::Encryption.message_spec() }
        },
    }
}

/// What is passed on to the compositor: the payload of a copy that was
/// stored, came from the user, and found the compositor active. A copy that
/// came from the compositor is never passed back to it.
pub open spec fn forward_for(
    request: RequestView,
    compositor_active: bool,
    drawn: Option<Seq<u8>>,
) -> Option<Seq<u8>> {
    match request {
        RequestView::Copy { payload, source } => if accepted(request, drawn) && source
            == CopySource::User && compositor_active {
            Some(payload)
        } else {
            None
        },
        RequestView::Paste => None,
    }
}

/// The state after `request`: a copy that is stored replaces the entry
/// under the nonce that was drawn; anything else changes nothing.
pub open spec fn state_after(
    before: StateView,
    request: RequestView,
    drawn: Option<Seq<u8>>,
) -> StateView {
    match request {
        RequestView::Copy { payload, source } => if accepted(request, drawn) {
            before.stored(drawn->0, payload)
        } else {
            before
        },
        RequestView::Paste => before,
    }
}

/// `after` follows `before` by `request` with the draw `drawn`: the state is
/// `state_after`, and a copy that was stored decrypts to its payload.
pub open spec fn state_follows(
    before: StateView,
    after: StateView,
    request: RequestView,
    drawn: Option<Seq<u8>>,
) -> bool {
    &&& drawn matches Some(nonce) ==> nonce.len() == NONCE_LEN
    &&& after == state_after(before, request, drawn)
    &&& request matches RequestView::Copy { payload, .. } ==> (accepted(request, drawn)
        ==> after.recover() == Ok::<Seq<u8>, StoreError>(payload))
}

/// All that serving `request` comes to, for the draw `drawn`.
pub open spec fn handled(
    before: StateView,
    after: StateView,
    request: RequestView,
    compositor_active: bool,
    drawn: Option<Seq<u8>>,
    response: ResponseView,
    forward: Option<Seq<u8>>,
) -> bool {
    &&& state_follows(before, after, request, drawn)
    &&& response == response_for(before, request, drawn)
    &&& forward == forward_for(request, compositor_active, drawn)
}

/// All that serving the request in a frame's body comes to, for the draw
/// `drawn`: the store changes as for the request, and the response is framed
/// if it fits a frame.
pub open spec fn served_as(
    before: StateView,
    after: StateView,
    request: RequestView,
    compositor_active: bool,
    drawn: Option<Seq<u8>>,
    result: Result<(Seq<u8>, Option<Seq<u8>>), ProtocolError>,
) -> bool {
    let answer = encode_response_spec(response_for(before, request, drawn));
    &&& state_follows(before, after, request, drawn)
    &&& result == if answer.len() <= MAX_FRAME_LEN {
        Ok::<(Seq<u8>, Option<Seq<u8>>), ProtocolError>(
            (frame(answer), forward_for(request, compositor_active, drawn)),
        )
    } else {
        Err::<(Seq<u8>, Option<Seq<u8>>), ProtocolError>(ProtocolError::Oversized)
    }
}

/// Serves one request against the store, with the nonce that was drawn for
/// it (a paste needs none).
///
/// The caller holds the store exclusively for the length of the call, so
/// no other request sees the store between its old and its new state.
pub fn handle_request_drawn(
    state: &mut State,
    request: Request,
    compositor_active: bool,
    drawn: Option<[u8; 12]>,
) -> (reply: Reply)
    ensures
        handled(
            old(state)@,
            final(state)@,
            request@,
            compositor_active,
            drawn_view(drawn),
            reply.response@,
            bytes_view(reply.forward),
        ),
        final(state)@.key == old(state)@.key,
{
    match request {
        Request::Copy { payload, source } => {
            match state.store_drawn(drawn, payload.as_slice()) {
                Ok(()) => {
                    let wanted = match source {
                        CopySource::User => compositor_active,
                        CopySource::Wayland => false,
                    };
                    let forward = if wanted {
                        Some(payload)
                    } else {
                        None
                    };
                    Reply { response: Response::Stored, forward }
                },
                Err(e) => Reply { response: Response::Error { message: e.message() }, forward: None },
            }
        },
        Request::Paste => {
            match state.load() {
                Ok(data) => Reply { response: Response::Payload { data }, forward: None },
                Err(e) => Reply { response: Response::Error { message: e.message() }, forward: None },
            }
        },
    }
}

/// Serves one request against the store, drawing a nonce if the request is
/// a copy.
///
/// Whether a nonce can be drawn is for the random source to decide; the
/// outcome is the one `handled` gives for what was drawn. A paste draws
/// nothing, so its outcome is fixed.
pub fn handle_request(state: &mut State, request: Request, compositor_active: bool) -> (reply:
    Reply)
    ensures
        exists|drawn: Option<Seq<u8>>| #[trigger]
            handled(
                old(state)@,
                final(state)@,
                request@,
                compositor_active,
                drawn,
                reply.response@,
                bytes_view(reply.forward),
            ),
        request@ is Paste ==> handled(
            old(state)@,
            final(state)@,
            request@,
            compositor_active,
            None,
            reply.response@,
            bytes_view(reply.forward),
        ),
        final(state)@.key == old(state)@.key,
{
    let drawn = match &request {
        Request::Copy { .. } => fresh_nonce(),
        Request::Paste => None,
    };
    let reply = handle_request_drawn(state, request, compositor_active, drawn);
    assert(handled(
        old(state)@,
        final(state)@,
        request@,
        compositor_active,
        drawn_view(drawn),
        reply.response@,
        bytes_view(reply.forward),
    ));
    reply
}

/// Serves one connection: decodes the request in `body` (a frame's body),
/// serves it, and frames the response.
///
/// A body that is no request is a protocol error and leaves the store as it
/// was. Otherwise the outcome is the one `served_as` gives for what was
/// drawn: a response too long for a frame, which only a paste can bring
/// about, is a protocol error too.
pub fn serve(state: &mut State, body: &[u8], compositor_active: bool) -> (r: Result<
    Served,
    ProtocolError,
>)
    ensures
        final(state)@.key == old(state)@.key,
        match decode_request_spec(body@) {
            Err(e) => r matches Err(f) && f == e && final(state)@ == old(state)@,
            Ok(request) => exists|drawn: Option<Seq<u8>>| #[trigger]
                served_as(
                    old(state)@,
                    final(state)@,
                    request,
                    compositor_active,
                    drawn,
                    served_view(r),
                ),
        },
{
    let request = match decode_request(body) {
        Ok(request) => request,
        Err(e) => {
            return Err(e);
        },
    };
    let ghost asked = request@;
    let reply = handle_request(state, request, compositor_active);
    let ghost drawn = choose|drawn: Option<Seq<u8>>| #[trigger]
        handled(
            old(state)@,
            final(state)@,
            asked,
            compositor_active,
            drawn,
            reply.response@,
            bytes_view(reply.forward),
        );
    let answer = encode_response(&reply.response);
    let mut out: Vec<u8> = Vec::new();
    match write_frame(&mut out, answer.as_slice()) {
        Ok(()) => {
            assert(out@ == frame(answer@)) by {
                assert(Seq::<u8>::empty() + frame(answer@) == frame(answer@));
            }
            let served = Ok(Served { frame: out, forward: reply.forward });
            assert(served_as(
                old(state)@,
                final(state)@,
                asked,
                compositor_active,
                drawn,
                served_view(served),
            ));
            served
        },
        Err(e) => {
            let refused = Err(e);
            assert(served_as(
                old(state)@,
                final(state)@,
                asked,
                compositor_active,
                drawn,
                served_view(refused),
            ));
            refused
        },
    }
}

/// Feedback suppression: a copy that came from the compositor is never
/// passed on, whatever the state of the compositor and whatever was drawn.
pub proof fn compositor_copy_is_never_forwarded(
    payload: Seq<u8>,
    compositor_active: bool,
    drawn: Option<Seq<u8>>,
)
    ensures
        forward_for(
            RequestView::Copy { payload, source: CopySource::Wayland },
            compositor_active,
            drawn,
        ) is None,
{
}

/// A copy from the user that is stored is passed on exactly when the
/// compositor is active, and what is passed on is the payload itself. The
/// response is the same either way. A copy that is not stored is never
/// passed on.
pub proof fn user_copy_is_forwarded_when_active(
    before: StateView,
    payload: Seq<u8>,
    compositor_active: bool,
    drawn: Option<Seq<u8>>,
)
    ensures
        ({
            let request = RequestView::Copy { payload, source: CopySource::User };
            &&& accepted(request, drawn) ==> {
                &&& response_for(before, request, drawn) == ResponseView::Stored
                &&& compositor_active ==> forward_for(request, compositor_active, drawn) == Some(
                    payload,
                )
                &&& !compositor_active ==> forward_for(request, compositor_active, drawn) is None
            }
            &&& !accepted(request, drawn) ==> forward_for(request, compositor_active, drawn) is None
        }),
{
}

/// A paste never changes the store and is never passed on.
pub proof fn paste_changes_nothing(
    before: StateView,
    after: StateView,
    compositor_active: bool,
    drawn: Option<Seq<u8>>,
)
    requires
        state_follows(before, after, RequestView::Paste, drawn),
    ensures
        after == before,
        forward_for(RequestView::Paste, compositor_active, drawn) is None,
{
}

/// The payload of the last copy that was stored among `requests`, served
/// with the draws `draws`, if there is one.
pub open spec fn last_copy(requests: Seq<RequestView>, draws: Seq<Option<Seq<u8>>>) -> Option<
    Seq<u8>,
>
    decreases requests.len(),
{
    if requests.len() == 0 || draws.len() != requests.len() {
        None
    } else {
        match requests.last() {
            RequestView::Copy { payload, source } => if accepted(requests.last(), draws.last()) {
                Some(payload)
            } else {
                last_copy(requests.drop_last(), draws.drop_last())
            },
            RequestView::Paste => last_copy(requests.drop_last(), draws.drop_last()),
        }
    }
}

/// `states` is a history of the store under `requests`: the requests were
/// served one at a time, each with its draw, each leading from one state to
/// the next.
pub open spec fn is_history(
    states: Seq<StateView>,
    requests: Seq<RequestView>,
    draws: Seq<Option<Seq<u8>>>,
) -> bool {
    &&& states.len() == requests.len() + 1
    &&& draws.len() == requests.len()
    &&& forall|i: int|
        0 <= i < requests.len() ==> state_follows(
            states[i],
            states[i + 1],
            #[trigger] requests[i],
            draws[i],
        )
}

/// Last writer wins, and nothing is ever read half-written: at any point of
/// any history, a paste answers with the whole payload of the latest copy
/// that was stored before it, and with what the first state held if there
/// was none. No earlier copy shows through.
pub proof fn paste_sees_the_latest_copy(
    states: Seq<StateView>,
    requests: Seq<RequestView>,
    draws: Seq<Option<Seq<u8>>>,
    at: int,
)
    requires
        is_history(states, requests, draws),
        0 <= at <= requests.len(),
    ensures
        response_for(states[at], RequestView::Paste, None) == match last_copy(
            requests.take(at),
            draws.take(at),
        ) {
            Some(payload) => ResponseView::Payload { data: payload },
            None => response_for(states[0], RequestView::Paste, None),
        },
    decreases at,
{
    if at > 0 {
        let served = requests.take(at);
        let drawn = draws.take(at);
        assert(served.last() == requests[at - 1]);
        assert(drawn.last() == draws[at - 1]);
        assert(served.drop_last() == requests.take(at - 1));
        assert(drawn.drop_last() == draws.take(at - 1));
        assert(state_follows(states[at - 1], states[at - 1 + 1], requests[at - 1], draws[at - 1]));
        paste_sees_the_latest_copy(states, requests, draws, at - 1);
    }
}

/// The session key is the same in every state of a history.
pub proof fn key_never_changes(
    states: Seq<StateView>,
    requests: Seq<RequestView>,
    draws: Seq<Option<Seq<u8>>>,
    at: int,
)
    requires
        is_history(states, requests, draws),
        0 <= at <= requests.len(),
    ensures
        states[at].key == states[0].key,
    decreases at,
{
    if at > 0 {
        assert(state_follows(states[at - 1], states[at - 1 + 1], requests[at - 1], draws[at - 1]));
        key_never_changes(states, requests, draws, at - 1);
    }
}

/// A copy that was stored, followed by a paste, gives the payload back,
/// whatever was stored before.
pub proof fn copy_then_paste_returns_the_payload(
    before: StateView,
    after: StateView,
    payload: Seq<u8>,
    source: CopySource,
    drawn: Option<Seq<u8>>,
)
    requires
        state_follows(before, after, RequestView::Copy { payload, source }, drawn),
        response_for(before, RequestView::Copy { payload, source }, drawn) == ResponseView::Stored,
    ensures
        response_for(after, RequestView::Paste, None) == (ResponseView::Payload { data: payload }),
{
}

/// A store that holds no entry answers a paste with the empty-clipboard
/// error. So does every store right after startup.
pub proof fn paste_on_empty_store_is_an_error(key: Seq<u8>)
    ensures
        response_for(StateView { key, entry: None }, RequestView::Paste, None) == (
        ResponseView::Error { message: StoreError::Empty.message_spec() }),
{
}

} // verus!
