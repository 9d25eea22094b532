//! What the answers of the daemon, and of the document while it syncs for the
//! first time, mean.
use vstd::prelude::*;

use crate::capability_log::{MessageBody, SessionEvent, SessionMessage, TICKET_ACTION};
use crate::error::{concat, WorkspaceError, WorkspaceFault};
use crate::ids::{Key, PeerId, SessionId};
use crate::rules::{rules_fault, PathRules};
use crate::text::text_eq;
use crate::ticket::{
    decode, decode_result, encode, envelope_parts, law_decode_undoes_encode, mode_choice, rules_on_wire, EnvelopeFault,
    WorkspaceTicketEnvelope, ENVELOPE_VERSION,
};
use crate::wire::{envelope_bytes, envelope_of, EnvelopeParts};

verus! {

/// A request to the daemon.
#[derive(Clone, Copy, Debug, PartialEq, Eq, Structural)]
pub enum DaemonRequest {
    /// Host a session.
    HostSession,
    /// Keep the record of a workspace.
    RegisterAttachment,
    /// Hand out a ticket.
    PublishWorkspaceTicket,
    /// Send the events of a session.
    Subscribe,
    /// List the records of workspaces.
    ListAttachments,
}

/// Why a request failed, each with its message.
#[derive(Clone, Debug, PartialEq, Eq)]
pub enum RequestFailure {
    /// Somebody else has a session of this id.
    Conflict(SessionId, String),
    /// There is no session of this id.
    Unknown(SessionId, String),
    /// Anything else.
    Other(String),
}

/// How the daemon answers a request.
#[derive(Clone, Debug, PartialEq, Eq)]
pub enum DaemonReply<T> {
    /// As expected.
    Expected(T),
    /// With the answer to some other request, in its debug form.
    Unexpected(String),
    /// Not at all, or with an error.
    Failed(RequestFailure),
}

/// The name of a request.
pub open spec fn request_name(request: DaemonRequest) -> Seq<char> {
    match request {
        DaemonRequest::HostSession => "HostSession"@,
        DaemonRequest::RegisterAttachment => "RegisterAttachment"@,
        DaemonRequest::PublishWorkspaceTicket => "PublishWorkspaceTicket"@,
        DaemonRequest::Subscribe => "Subscribe"@,
        DaemonRequest::ListAttachments => "ListAttachments"@,
    }
}

/// The error for a request that failed: a host learns of a session that is not
/// its own, and the owner of a record of a session that is gone.
pub open spec fn request_fault(request: DaemonRequest, failure: RequestFailure) -> WorkspaceFault {
    match failure {
        RequestFailure::Conflict(id, why) => if request == DaemonRequest::HostSession {
            WorkspaceFault::SessionConflict(id@)
        } else {
            WorkspaceFault::Client(why@)
        },
        RequestFailure::Unknown(id, why) => if request == DaemonRequest::RegisterAttachment {
            WorkspaceFault::SessionVanished(id@)
        } else {
            WorkspaceFault::Client(why@)
        },
        RequestFailure::Other(why) => WorkspaceFault::Client(why@),
    }
}

fn name_of(request: DaemonRequest) -> (name: &'static str)
    ensures
        name@ == request_name(request),
{
    match request {
        DaemonRequest::HostSession => "HostSession",
        DaemonRequest::RegisterAttachment => "RegisterAttachment",
        DaemonRequest::PublishWorkspaceTicket => "PublishWorkspaceTicket",
        DaemonRequest::Subscribe => "Subscribe",
        DaemonRequest::ListAttachments => "ListAttachments",
    }
}

/// What an answer gives.
pub fn answered<T>(request: DaemonRequest, reply: DaemonReply<T>) -> (res: Result<T, WorkspaceError>)
    ensures
        match reply {
            DaemonReply::Expected(value) => res == Ok::<T, WorkspaceError>(value),
            DaemonReply::Unexpected(shown) => res matches Err(err) && err@ == WorkspaceFault::Iroh(
                "unexpected response to "@ + request_name(request) + ": "@ + shown@,
            ),
            DaemonReply::Failed(failure) => res matches Err(err) && err@ == request_fault(request, failure),
        },
{
    match reply {
        DaemonReply::Expected(value) => Ok(value),
        DaemonReply::Unexpected(shown) => {
            let mut text = concat("unexpected response to ", name_of(request));
            text.append(": ");
            text.append(shown.as_str());
            Err(WorkspaceError::Iroh(text))
        },
        DaemonReply::Failed(failure) => Err(
            match failure {
                RequestFailure::Conflict(id, why) => {
                    if request == DaemonRequest::HostSession {
                        WorkspaceError::SessionConflict(id)
                    } else {
                        WorkspaceError::Client(why)
                    }
                },
                RequestFailure::Unknown(id, why) => {
                    if request == DaemonRequest::RegisterAttachment {
                        WorkspaceError::SessionVanished(id)
                    } else {
                        WorkspaceError::Client(why)
                    }
                },
                RequestFailure::Other(why) => WorkspaceError::Client(why),
            },
        ),
    }
}

/// The bytes that a host hands to the daemon with its ticket.
pub fn ticket_payload(doc_ticket: String, rules: PathRules) -> (res: Result<Vec<u8>, WorkspaceError>)
    ensures
        match rules_fault(rules.rules@) {
            Some(fault) => res matches Err(err) && err@ == WorkspaceFault::TicketEnvelope(EnvelopeFault::PathRules(fault)),
            None => {
                &&& res matches Ok(bytes)
                &&& bytes@ == envelope_bytes(
                    ENVELOPE_VERSION,
                    doc_ticket@,
                    mode_choice(rules.default),
                    rules_on_wire(rules.rules@),
                )
                &&& envelope_of(bytes@) == Ok::<EnvelopeParts, Seq<char>>(
                    (ENVELOPE_VERSION, doc_ticket@, mode_choice(rules.default), rules_on_wire(rules.rules@)),
                )
                &&& bytes@.len() > 0
                &&& bytes@[0] == ENVELOPE_VERSION
            },
        },
{
    match encode(&WorkspaceTicketEnvelope::new(doc_ticket, rules)) {
        Ok(bytes) => Ok(bytes),
        Err(err) => Err(WorkspaceError::TicketEnvelope(err)),
    }
}

/// How an attempt to follow the log on a connection of its own failed.
#[derive(Clone, Debug, PartialEq, Eq)]
pub enum ListenerFailure {
    /// There is no connection.
    Connect(String),
    /// The request to subscribe failed.
    Request(String),
    /// The daemon answered something else, in its debug form.
    Unexpected(String),
    /// Somebody else reads the events of the connection.
    EventsTaken,
}

/// The error for an attempt that failed.
pub open spec fn listener_fault(failure: ListenerFailure) -> WorkspaceFault {
    match failure {
        ListenerFailure::Connect(why) => WorkspaceFault::Iroh("cap-listener reconnect: "@ + why@),
        ListenerFailure::Request(why) => WorkspaceFault::Client(why@),
        ListenerFailure::Unexpected(shown) => WorkspaceFault::Iroh(
            "cap-listener resubscribe: unexpected response: "@ + shown@,
        ),
        ListenerFailure::EventsTaken => WorkspaceFault::Iroh("cap-listener: events already taken"@),
    }
}

/// The error for an attempt that failed.
pub fn listener_failed(failure: ListenerFailure) -> (err: WorkspaceError)
    ensures
        err@ == listener_fault(failure),
{
    match failure {
        ListenerFailure::Connect(why) => WorkspaceError::Iroh(concat("cap-listener reconnect: ", why.as_str())),
        ListenerFailure::Request(why) => WorkspaceError::Client(why),
        ListenerFailure::Unexpected(shown) => WorkspaceError::Iroh(
            concat("cap-listener resubscribe: unexpected response: ", shown.as_str()),
        ),
        ListenerFailure::EventsTaken => WorkspaceError::Iroh("cap-listener: events already taken".to_owned()),
    }
}

/// What a joiner gets while it waits for the host's ticket.
#[derive(Clone, Debug, PartialEq, Eq)]
pub enum TicketWait {
    /// An event of the daemon.
    Event(SessionEvent),
    /// The end of the events.
    Closed,
    /// The time is up.
    TimedOut,
}

/// The host's ticket as a joiner gets it.
#[derive(Clone, Debug, PartialEq, Eq)]
pub struct TicketResult {
    /// The envelope.
    pub envelope: WorkspaceTicketEnvelope,
    /// Who sent it: the host.
    pub host_daemon_peer_id: PeerId,
}

/// The payload and the author of the host's ticket, where an event of a
/// session is that.
pub open spec fn ticket_in(event: SessionEvent, session: Seq<u8>) -> Option<(Seq<u8>, Seq<u8>)> {
    match event {
        SessionEvent::Message {
            session: id,
            message: SessionMessage { author, body: MessageBody::System { action, payload }, .. },
        } => if id@ == session && action@ == TICKET_ACTION@ {
            Some((payload@, author@))
        } else {
            None
        },
        _ => None,
    }
}

/// What a joiner that waits for the ticket does: it waits on, or it has the
/// ticket, or it fails.
pub fn on_ticket_wait(got: &TicketWait, session: &SessionId) -> (res: Option<Result<TicketResult, WorkspaceError>>)
    ensures
        match *got {
            TicketWait::Closed => {
                &&& res matches Some(Err(err))
                &&& err@ == WorkspaceFault::Iroh("event stream closed before ticket arrived"@)
            },
            TicketWait::TimedOut => {
                &&& res matches Some(Err(err))
                &&& err@ == WorkspaceFault::Iroh("timed out waiting for workspace.ticket"@)
            },
            TicketWait::Event(event) => match ticket_in(event, session@) {
                None => res is None,
                Some((payload, author)) => match decode_result(payload) {
                    Ok(parts) => {
                        &&& res matches Some(Ok(ticket))
                        &&& envelope_parts(ticket.envelope) == parts
                        &&& ticket.host_daemon_peer_id@ == author
                    },
                    Err(fault) => {
                        &&& res matches Some(Err(err))
                        &&& err@ == WorkspaceFault::TicketEnvelope(fault)
                    },
                },
            },
        },
{
    match got {
        TicketWait::Closed => Some(
            Err(WorkspaceError::Iroh("event stream closed before ticket arrived".to_owned())),
        ),
        TicketWait::TimedOut => Some(Err(WorkspaceError::Iroh("timed out waiting for workspace.ticket".to_owned()))),
        TicketWait::Event(SessionEvent::Message { session: id, message }) => {
            match &message.body {
                MessageBody::System { action, payload } => {
                    if !id.same(session) || !text_eq(action.as_str(), TICKET_ACTION) {
                        return None;
                    }
                    match decode(payload.as_slice()) {
                        Ok(envelope) => Some(Ok(TicketResult { envelope, host_daemon_peer_id: message.author })),
                        Err(err) => Some(Err(WorkspaceError::TicketEnvelope(err))),
                    }
                },
                _ => None,
            }
        },
        TicketWait::Event(_) => None,
    }
}

/// What a joiner sees of a document that syncs for the first time.
#[derive(Clone, Copy, Debug, PartialEq, Eq, Structural)]
pub enum LiveStep {
    /// A round of the sync is over.
    SyncFinished,
    /// The contents that were on their way are here.
    PendingContentReady,
    /// Anything else, an event that failed among it.
    Other,
    /// The end of the events.
    Ended,
    /// The time is up.
    TimedOut,
}

/// How far the first sync of a document has come.
#[derive(Clone, Copy, Debug, PartialEq, Eq)]
pub struct InitialSync {
    /// Whether a round of the sync is over.
    pub sync_done: bool,
}

impl InitialSync {
    /// Nothing was synced.
    pub fn new() -> (sync: InitialSync)
        ensures
            !sync.sync_done,
    {
        InitialSync { sync_done: false }
    }

    /// Goes on after an event: the first sync is over when contents are ready
    /// after a round of the sync.
    pub fn on_live(&mut self, step: LiveStep) -> (res: Option<Result<(), WorkspaceError>>)
        ensures
            final(self).sync_done == (old(self).sync_done || step == LiveStep::SyncFinished),
            match step {
                LiveStep::PendingContentReady => if old(self).sync_done {
                    res == Some(Ok::<(), WorkspaceError>(()))
                } else {
                    res is None
                },
                LiveStep::Ended => {
                    &&& res matches Some(Err(err))
                    &&& err@ == WorkspaceFault::Doc("live event stream ended before initial sync"@)
                },
                LiveStep::TimedOut => {
                    &&& res matches Some(Err(err))
                    &&& err@ == WorkspaceFault::Doc("initial sync did not complete in 30s"@)
                },
                _ => res is None,
            },
    {
        match step {
            LiveStep::SyncFinished => {
                self.sync_done = true;
                None
            },
            LiveStep::PendingContentReady => if self.sync_done {
                Some(Ok(()))
            } else {
                None
            },
            LiveStep::Other => None,
            LiveStep::Ended => Some(
                Err(WorkspaceError::Doc("live event stream ended before initial sync".to_owned())),
            ),
            LiveStep::TimedOut => Some(Err(WorkspaceError::Doc("initial sync did not complete in 30s".to_owned()))),
        }
    }
}

/// How long the first sync may take, in milliseconds.
pub const INITIAL_SYNC_TIMEOUT: u64 = 30000;

/// Only the request that can meet it reports a session that is not the host's
/// own, or one that is gone; anyone else gets the daemon's message.
pub proof fn law_session_errors_are_specific(request: DaemonRequest, id: SessionId, why: String)
    ensures
        request_fault(request, RequestFailure::Conflict(id, why)) is SessionConflict <==> request == DaemonRequest::HostSession,
        request_fault(request, RequestFailure::Unknown(id, why)) is SessionVanished <==> request
            == DaemonRequest::RegisterAttachment,
        request_fault(request, RequestFailure::Other(why)) == WorkspaceFault::Client(why@),
{
}

/// A host that meets a session of somebody else learns which, and so does the
/// owner of a record of a session that is gone; every other failure is the
/// daemon's own message.
pub proof fn law_failures_name_the_session(request: DaemonRequest, id: SessionId, why: String)
    ensures
        request_fault(request, RequestFailure::Conflict(id, why)) == (if request == DaemonRequest::HostSession {
            WorkspaceFault::SessionConflict(id@)
        } else {
            WorkspaceFault::Client(why@)
        }),
        request_fault(request, RequestFailure::Unknown(id, why)) == (if request == DaemonRequest::RegisterAttachment {
            WorkspaceFault::SessionVanished(id@)
        } else {
            WorkspaceFault::Client(why@)
        }),
{
}

/// The host's ticket is the payload of a message of this session with the
/// ticket's action, whoever wrote it and wherever in the log it stands; nothing
/// else is.
pub proof fn law_what_is_the_ticket(event: SessionEvent, session: Seq<u8>, payload: Seq<u8>, author: Seq<u8>)
    ensures
        ticket_in(event, session) == Some((payload, author)) <==> (event matches SessionEvent::Message {
            session: id,
            message,
        } && id@ == session && message.author@ == author && (message.body matches MessageBody::System {
            action,
            payload: held,
        } && action@ == TICKET_ACTION@ && held@ == payload)),
{
}

/// A failure to follow the log is one of the network, but that a request which
/// the daemon refused is told in the daemon's words.
pub proof fn law_kinds_of_listener_failures(failure: ListenerFailure)
    ensures
        failure matches ListenerFailure::Request(why) ==> listener_fault(failure) == WorkspaceFault::Client(why@),
        !(failure is Request) ==> listener_fault(failure) is Iroh,
{
}

/// An answer that was expected is handed on as it is, and any other is an error.
pub proof fn law_answers_are_handed_on<T>(request: DaemonRequest, reply: DaemonReply<T>, res: Result<T, WorkspaceError>)
    requires
        call_ensures(answered::<T>, (request, reply), res),
    ensures
        res is Ok <==> reply is Expected,
        reply matches DaemonReply::Expected(value) ==> res == Ok::<T, WorkspaceError>(value),
        reply is Unexpected ==> (res matches Err(err) && err@ is Iroh),
{
}

/// One who waits for the ticket waits on exactly while the events hold none;
/// the first that does decides, and its author is taken for the host. The end
/// of the events and of the time end the wait.
pub proof fn law_waiting_for_the_ticket(got: &TicketWait, session: &SessionId, res: Option<Result<TicketResult, WorkspaceError>>)
    requires
        call_ensures(on_ticket_wait, (got, session), res),
    ensures
        res is None <==> (*got matches TicketWait::Event(event) && ticket_in(event, session@) is None),
        !(*got is Event) ==> (res matches Some(Err(_))),
        res matches Some(Ok(ticket)) ==> (*got matches TicketWait::Event(event) && (ticket_in(event, session@) matches Some(
            found,
        ) && ticket.host_daemon_peer_id@ == found.1 && decode_result(found.0) == Ok::<EnvelopeParts, EnvelopeFault>(
            envelope_parts(ticket.envelope),
        ))),
{
}

/// The first sync is over exactly where contents are ready after a round of the
/// sync, however many events lie between; before a round they are not enough.
pub proof fn law_first_sync(sync: &mut InitialSync, step: LiveStep, res: Option<Result<(), WorkspaceError>>)
    requires
        call_ensures(InitialSync::on_live, (sync, step), res),
    ensures
        final(sync).sync_done <==> old(sync).sync_done || step == LiveStep::SyncFinished,
        (res matches Some(Ok(_))) <==> step == LiveStep::PendingContentReady && old(sync).sync_done,
        (res matches Some(Err(_))) <==> step == LiveStep::Ended || step == LiveStep::TimedOut,
{
}

/// The bytes that a host hands to the daemon are read by a joiner as the host's
/// ticket and rules; there are none exactly where the rules do not pass.
pub proof fn law_payloads_hold_the_ticket(doc_ticket: String, rules: PathRules, res: Result<Vec<u8>, WorkspaceError>)
    requires
        call_ensures(ticket_payload, (doc_ticket, rules), res),
    ensures
        res is Ok <==> rules_fault(rules.rules@) is None,
        res matches Ok(bytes) ==> decode_result(bytes@) == Ok::<EnvelopeParts, EnvelopeFault>(
            (ENVELOPE_VERSION, doc_ticket@, mode_choice(rules.default), rules_on_wire(rules.rules@)),
        ),
{
    if let Ok(bytes) = res {
        let env = WorkspaceTicketEnvelope { version: ENVELOPE_VERSION, doc_ticket, rules };
        law_decode_undoes_encode(env, bytes@, env);
    }
}

} // verus!
