//! The connection router: takes requests from a frontend and hands them to the
//! sessions they are meant for.

use crate::policy;
use crate::protocol;
use crate::protocol::{KernelEvent, KernelRequest, RequestId, SessionCreateConfig};
use crate::session_events;
use crate::session_events::HttpSink;
use crate::types;
use crate::types::{Decision, SessionId};
use vstd::prelude::*;
use vstd::string::*;

verus! {

/// Something that the router has done.
#[derive(Debug)]
pub enum RouterSend {
    /// Start a session, with a fresh provider and the tools of the pool.
    Start { session_id: SessionId, config: SessionCreateConfig },
    /// Send an event to the frontend.
    Event(KernelEvent),
    /// Send a request to a session.
    Request { session_id: SessionId, request: KernelRequest },
    /// Send the response to a permission request to a session.
    Permission { session_id: SessionId, request_id: RequestId, decision: Decision },
}

#[verifier::ext_equal]
pub ghost enum SendView {
    Start { session_id: SessionId, config: protocol::SessionCreateView },
    Event(protocol::KernelEventView),
    Request { session_id: SessionId, request: protocol::KernelRequestView },
    Permission { session_id: SessionId, request_id: RequestId, decision: types::DecisionView },
}

impl DeepView for RouterSend {
    type V = SendView;

    open spec fn deep_view(&self) -> SendView {
        match self {
            RouterSend::Start { session_id, config } => SendView::Start {
                session_id: *session_id,
                config: config.deep_view(),
            },
            RouterSend::Event(event) => SendView::Event(event.deep_view()),
            RouterSend::Request { session_id, request } => SendView::Request {
                session_id: *session_id,
                request: request.deep_view(),
            },
            RouterSend::Permission { session_id, request_id, decision } => SendView::Permission {
                session_id: *session_id,
                request_id: *request_id,
                decision: decision.deep_view(),
            },
        }
    }
}

/// Where a request goes, if it names a session.
pub open spec fn addressee(request: protocol::KernelRequestView) -> Option<SessionId> {
    match request {
        protocol::KernelRequestView::AddInput { session_id, .. } => Some(session_id),
        protocol::KernelRequestView::DeliverEvent { session_id, .. } => Some(session_id),
        protocol::KernelRequestView::CancelTurn { session_id } => Some(session_id),
        protocol::KernelRequestView::RequestCompaction { session_id } => Some(session_id),
        protocol::KernelRequestView::SetPolicy { session_id, .. } => Some(session_id),
        protocol::KernelRequestView::QuerySession { session_id } => Some(session_id),
        _ => None,
    }
}

/// What is done with a request where the sessions `ids` were started so far. A
/// request for a session goes to that session, if it was started; the response
/// to a permission request goes to all, since it does not name its session;
/// a shutdown goes to all, and nothing is handled after it.
pub open spec fn routed(ids: Seq<SessionId>, request: protocol::KernelRequestView) -> Seq<
    SendView,
> {
    match request {
        protocol::KernelRequestView::CreateSession { config } => {
            let session_id = SessionId(ids.len() as u64);
            seq![
                SendView::Start { session_id, config },
                SendView::Event(protocol::KernelEventView::SessionCreated { session_id }),
            ]
        },
        protocol::KernelRequestView::PermissionResponse { request_id, decision } => Seq::new(
            ids.len(),
            |i: int| SendView::Permission { session_id: ids[i], request_id, decision },
        ),
        protocol::KernelRequestView::Shutdown => Seq::new(
            ids.len(),
            |i: int|
                SendView::Request {
                    session_id: ids[i],
                    request: protocol::KernelRequestView::Shutdown,
                },
        ),
        _ => match addressee(request) {
            Some(session_id) => if ids.contains(session_id) {
                seq![SendView::Request { session_id, request }]
            } else {
                Seq::empty()
            },
            None => Seq::empty(),
        },
    }
}

/// The sessions that were started once a request is handled.
pub open spec fn ids_after(ids: Seq<SessionId>, request: protocol::KernelRequestView) -> Seq<
    SessionId,
> {
    if request is CreateSession {
        ids.push(SessionId(ids.len() as u64))
    } else {
        ids
    }
}

/// Whether sessions are numbered from zero on.
pub open spec fn numbered(ids: Seq<SessionId>) -> bool {
    forall|i: int| 0 <= i < ids.len() ==> #[trigger] ids[i] == SessionId(i as u64)
}

/// The router. The sessions that it started are numbered from zero on.
#[derive(Debug)]
pub struct ConnectionRouter {
    sessions: Vec<SessionId>,
}

fn to_session(known: bool, session_id: SessionId, request: KernelRequest) -> (r: Vec<RouterSend>)
    ensures
        r.deep_view() == (if known {
            seq![SendView::Request { session_id, request: request.deep_view() }]
        } else {
            Seq::empty()
        }),
{
    let ghost said = request.deep_view();
    let mut sends: Vec<RouterSend> = Vec::new();
    if known {
        sends.push(RouterSend::Request { session_id, request });
        assert(sends.deep_view() =~= seq![SendView::Request { session_id, request: said }]);
    } else {
        assert(sends.deep_view() =~= Seq::empty());
    }
    sends
}

impl ConnectionRouter {
    /// The sessions that were started, in order.
    pub closed spec fn ids(&self) -> Seq<SessionId> {
        self.sessions@
    }

    pub fn new() -> (r: Self)
        ensures
            r.ids() == Seq::<SessionId>::empty(),
    {
        ConnectionRouter { sessions: Vec::new() }
    }

    fn knows(&self, id: SessionId) -> (r: bool)
        ensures
            r == self.ids().contains(id),
    {
        let mut i: usize = 0;
        while i < self.sessions.len()
            invariant
                i <= self.sessions@.len(),
                forall|k: int| 0 <= k < i ==> #[trigger] self.sessions@[k] != id,
            decreases self.sessions@.len() - i,
        {
            if self.sessions[i] == id {
                assert(self.ids()[i as int] == id);
                return true;
            }
            i += 1;
        }
        false
    }

    /// Handles a request. Returns what is to be sent, and whether to go on.
    pub fn handle_request(&mut self, request: KernelRequest) -> (r: (Vec<RouterSend>, bool))
        ensures
            r.0.deep_view() == routed(old(self).ids(), request.deep_view()),
            r.1 == !(request is Shutdown),
            final(self).ids() == ids_after(old(self).ids(), request.deep_view()),
    {
        let ghost ids = self.ids();
        match request {
            KernelRequest::CreateSession { config } => {
                let session_id = SessionId(self.sessions.len() as u64);
                let ghost view = config.deep_view();
                let mut sends: Vec<RouterSend> = Vec::new();
                sends.push(RouterSend::Start { session_id, config });
                sends.push(RouterSend::Event(KernelEvent::SessionCreated { session_id }));
                assert(sends.deep_view() =~= seq![
                    SendView::Start { session_id, config: view },
                    SendView::Event(protocol::KernelEventView::SessionCreated { session_id }),
                ]);
                self.sessions.push(session_id);
                (sends, true)
            },
            KernelRequest::AddInput { session_id, text } => {
                let known = self.knows(session_id);
                (to_session(known, session_id, KernelRequest::AddInput { session_id, text }), true)
            },
            KernelRequest::DeliverEvent { session_id, event } => {
                let known = self.knows(session_id);
                (
                    to_session(
                        known,
                        session_id,
                        KernelRequest::DeliverEvent { session_id, event },
                    ),
                    true,
                )
            },
            KernelRequest::PermissionResponse { request_id, decision } => {
                let ghost all = routed(
                    ids,
                    protocol::KernelRequestView::PermissionResponse {
                        request_id,
                        decision: decision.deep_view(),
                    },
                );
                let mut sends: Vec<RouterSend> = Vec::new();
                let mut i: usize = 0;
                assert(sends.deep_view() =~= all.take(0));
                while i < self.sessions.len()
                    invariant
                        ids == self.sessions@,
                        i <= ids.len() == all.len(),
                        all == routed(
                            ids,
                            protocol::KernelRequestView::PermissionResponse {
                                request_id,
                                decision: decision.deep_view(),
                            },
                        ),
                        sends.deep_view() == all.take(i as int),
                    decreases ids.len() - i,
                {
                    let ghost before = sends.deep_view();
                    sends.push(
                        RouterSend::Permission {
                            session_id: self.sessions[i],
                            request_id,
                            decision: decision.clone(),
                        },
                    );
                    assert(sends.deep_view() =~= before.push(all[i as int]));
                    assert(all.take(i + 1) =~= before.push(all[i as int]));
                    i += 1;
                }
                assert(all.take(i as int) =~= all);
                (sends, true)
            },
            KernelRequest::CancelTurn { session_id } => {
                let known = self.knows(session_id);
                (to_session(known, session_id, KernelRequest::CancelTurn { session_id }), true)
            },
            KernelRequest::RequestCompaction { session_id } => {
                let known = self.knows(session_id);
                (
                    to_session(known, session_id, KernelRequest::RequestCompaction { session_id }),
                    true,
                )
            },
            KernelRequest::SetPolicy { session_id, policy } => {
                let known = self.knows(session_id);
                (
                    to_session(known, session_id, KernelRequest::SetPolicy { session_id, policy }),
                    true,
                )
            },
            KernelRequest::QuerySession { session_id } => {
                let known = self.knows(session_id);
                (to_session(known, session_id, KernelRequest::QuerySession { session_id }), true)
            },
            KernelRequest::Shutdown => {
                let ghost all = routed(ids, protocol::KernelRequestView::Shutdown);
                let mut sends: Vec<RouterSend> = Vec::new();
                let mut i: usize = 0;
                assert(sends.deep_view() =~= all.take(0));
                while i < self.sessions.len()
                    invariant
                        ids == self.sessions@,
                        i <= ids.len() == all.len(),
                        all == routed(ids, protocol::KernelRequestView::Shutdown),
                        sends.deep_view() == all.take(i as int),
                    decreases ids.len() - i,
                {
                    let ghost before = sends.deep_view();
                    sends.push(
                        RouterSend::Request {
                            session_id: self.sessions[i],
                            request: KernelRequest::Shutdown,
                        },
                    );
                    assert(sends.deep_view() =~= before.push(all[i as int]));
                    assert(all.take(i + 1) =~= before.push(all[i as int]));
                    i += 1;
                }
                assert(all.take(i as int) =~= all);
                (sends, false)
            },
        }
    }
}

/// The sink that a session's events are posted to besides being kept, where an
/// address is given and it is not empty; or why there is none.
pub fn remote_sink(session_id: SessionId, url: Option<String>, token: Option<String>) -> (r: Result<
    Option<HttpSink>,
    String,
>)
    ensures
        match url {
            None => r matches Ok(None),
            Some(url) => if url@.len() == 0 {
                r matches Ok(None)
            } else {
                match r {
                    Ok(Some(sink)) => session_events::parse_endpoint(url@) == Ok::<
                        session_events::Endpoint,
                        Seq<char>,
                    >(sink.target()) && sink.session() == session_id && sink.token()
                        == token.deep_view() && sink.failures() == 0,
                    Ok(None) => false,
                    Err(e) => session_events::parse_endpoint(url@) == Err::<
                        session_events::Endpoint,
                        Seq<char>,
                    >(e@),
                }
            },
        },
{
    match url {
        None => Ok(None),
        Some(url) => {
            if url.as_str().unicode_len() == 0 {
                return Ok(None);
            }
            match HttpSink::new(session_id, url.as_str(), token) {
                Ok(sink) => Ok(Some(sink)),
                Err(e) => Err(e),
            }
        },
    }
}

// ---------------------------------------------------------------------------
// Laws
// ---------------------------------------------------------------------------

/// A request that names a session reaches that session alone, and none where
/// no such session was started.
pub proof fn law_requests_reach_their_session(
    ids: Seq<SessionId>,
    request: protocol::KernelRequestView,
    session_id: SessionId,
)
    requires
        addressee(request) == Some(session_id),
    ensures
        ids.contains(session_id) ==> routed(ids, request) == seq![
            SendView::Request { session_id, request },
        ],
        !ids.contains(session_id) ==> routed(ids, request).len() == 0,
{
}

/// Sessions stay numbered from zero on, and the id of a new one is one that no
/// earlier session has.
pub proof fn law_new_sessions_get_new_ids(
    ids: Seq<SessionId>,
    request: protocol::KernelRequestView,
)
    requires
        numbered(ids),
        ids.len() < u64::MAX,
    ensures
        numbered(ids_after(ids, request)),
        request is CreateSession ==> !ids.contains(ids_after(ids, request).last()),
{
}

/// A shutdown reaches every session.
pub proof fn law_shutdown_reaches_all(ids: Seq<SessionId>, session_id: SessionId)
    requires
        ids.contains(session_id),
    ensures
        routed(ids, protocol::KernelRequestView::Shutdown).contains(
            SendView::Request { session_id, request: protocol::KernelRequestView::Shutdown },
        ),
{
    let i = ids.index_of(session_id);
    assert(routed(ids, protocol::KernelRequestView::Shutdown)[i] == (SendView::Request {
        session_id,
        request: protocol::KernelRequestView::Shutdown,
    }));
}

/// Every request that is for one session names it.
pub proof fn law_requests_name_their_session(
    session_id: SessionId,
    text: Seq<char>,
    event: protocol::ExternalEventView,
    policy: policy::PolicyView,
)
    ensures
        addressee(protocol::KernelRequestView::AddInput { session_id, text }) == Some(session_id),
        addressee(protocol::KernelRequestView::DeliverEvent { session_id, event }) == Some(
            session_id,
        ),
        addressee(protocol::KernelRequestView::CancelTurn { session_id }) == Some(session_id),
        addressee(protocol::KernelRequestView::RequestCompaction { session_id }) == Some(
            session_id,
        ),
        addressee(protocol::KernelRequestView::SetPolicy { session_id, policy }) == Some(
            session_id,
        ),
        addressee(protocol::KernelRequestView::QuerySession { session_id }) == Some(session_id),
        addressee(protocol::KernelRequestView::Shutdown) is None,
{
}

/// A new session is started with the configuration that was asked for, under an id
/// that the frontend is then told, and is known from then on.
pub proof fn law_a_new_session_is_started(
    ids: Seq<SessionId>,
    config: protocol::SessionCreateView,
)
    ensures
        ({
            let request = protocol::KernelRequestView::CreateSession { config };
            let sent = routed(ids, request);
            let known = ids_after(ids, request);
            &&& known.len() == ids.len() + 1
            &&& known.drop_last() == ids
            &&& sent.len() == 2
            &&& sent[0] == (SendView::Start { session_id: known.last(), config })
            &&& sent[1] == SendView::Event(
                protocol::KernelEventView::SessionCreated { session_id: known.last() },
            )
        }),
        forall|request: protocol::KernelRequestView|
            !(request is CreateSession) ==> #[trigger] ids_after(ids, request) == ids,
{
    let request = protocol::KernelRequestView::CreateSession { config };
    assert(ids_after(ids, request).drop_last() =~= ids);
}

/// The answer to a permission request reaches every session, with its id and its
/// decision, and nothing else does.
pub proof fn law_answers_reach_the_sessions(
    ids: Seq<SessionId>,
    request_id: RequestId,
    decision: types::DecisionView,
    i: int,
)
    requires
        0 <= i < ids.len(),
    ensures
        ({
            let sent = routed(
                ids,
                protocol::KernelRequestView::PermissionResponse { request_id, decision },
            );
            &&& sent.len() == ids.len()
            &&& sent[i] == (SendView::Permission { session_id: ids[i], request_id, decision })
        }),
{
}

} // verus!
