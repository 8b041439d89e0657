//! Binding a key to an attestation document.
//!
//! The document comes from the attestation driver, which this library does not
//! talk to. It decides what is asked of the driver and what is made of the
//! answer; the caller opens the session, sends the request and closes the
//! session as the actions tell it to.

use vstd::prelude::*;

use crate::hex::{hex_encode, hex_string, lemma_hex_string_injective};
use crate::keys::FfiKeyPair;

verus! {

/// The request for an attestation document.
#[derive(Clone, Debug, PartialEq, Eq)]
pub struct AttestationRequest {
    /// Caller data to be signed into the document.
    pub user_data: Option<Vec<u8>>,
    /// A nonce to be signed into the document.
    pub nonce: Option<Vec<u8>>,
    /// The public key that the document commits to.
    pub public_key: Option<Vec<u8>>,
}

/// What an attestation request says.
pub struct AttestationRequestView {
    pub user_data: Option<Seq<u8>>,
    pub nonce: Option<Seq<u8>>,
    pub public_key: Option<Seq<u8>>,
}

/// The bytes behind an optional buffer.
pub open spec fn optional_bytes(buffer: Option<Vec<u8>>) -> Option<Seq<u8>> {
    match buffer {
        Some(bytes) => Some(bytes@),
        None => None,
    }
}

impl View for AttestationRequest {
    type V = AttestationRequestView;

    open spec fn view(&self) -> AttestationRequestView {
        AttestationRequestView {
            user_data: optional_bytes(self.user_data),
            nonce: optional_bytes(self.nonce),
            public_key: optional_bytes(self.public_key),
        }
    }
}

/// What the driver answered.
#[derive(Clone, Debug, PartialEq, Eq)]
pub enum DriverResponse {
    /// An attestation document.
    Attestation { document: Vec<u8> },
    /// The driver reported an error, or could not be reached.
    Error,
    /// An answer to some other kind of request.
    Other,
}

/// What a driver response says.
pub enum DriverResponseView {
    Attestation { document: Seq<u8> },
    Error,
    Other,
}

impl View for DriverResponse {
    type V = DriverResponseView;

    open spec fn view(&self) -> DriverResponseView {
        match self {
            DriverResponse::Attestation { document } => DriverResponseView::Attestation {
                document: document@,
            },
            DriverResponse::Error => DriverResponseView::Error,
            DriverResponse::Other => DriverResponseView::Other,
        }
    }
}

/// What the caller reports back to the exchange.
#[derive(Clone, Debug, PartialEq, Eq)]
pub enum AttestationEvent {
    /// The driver session was opened under this descriptor. A descriptor is
    /// reported as the driver gave it, also where it stands for a failure.
    SessionOpened { session: i32 },
    /// The driver answered the request.
    ResponseReceived { response: DriverResponse },
}

/// What an event says.
pub enum AttestationEventView {
    SessionOpened { session: i32 },
    ResponseReceived { response: DriverResponseView },
}

impl View for AttestationEvent {
    type V = AttestationEventView;

    open spec fn view(&self) -> AttestationEventView {
        match self {
            AttestationEvent::SessionOpened { session } => AttestationEventView::SessionOpened {
                session: *session,
            },
            AttestationEvent::ResponseReceived { response } => AttestationEventView::ResponseReceived {
                response: response@,
            },
        }
    }
}

/// What the caller is to do next.
#[derive(Clone, Debug, PartialEq, Eq)]
pub enum AttestationAction {
    /// Open a session with the driver and report its descriptor.
    OpenSession,
    /// Send the request over the session and report the answer.
    SendRequest { session: i32, request: AttestationRequest },
    /// Close the session, and hand the evidence to whoever asked for it. The
    /// evidence is the document in hex, or empty if there is none.
    Finish { session: i32, evidence: String },
    /// The event did not belong to the state of the exchange: nothing to do.
    Ignore,
}

/// What an action says.
pub enum AttestationActionView {
    OpenSession,
    SendRequest { session: i32, request: AttestationRequestView },
    Finish { session: i32, evidence: Seq<char> },
    Ignore,
}

impl View for AttestationAction {
    type V = AttestationActionView;

    open spec fn view(&self) -> AttestationActionView {
        match self {
            AttestationAction::OpenSession => AttestationActionView::OpenSession,
            AttestationAction::SendRequest { session, request } => AttestationActionView::SendRequest {
                session: *session,
                request: request@,
            },
            AttestationAction::Finish { session, evidence } => AttestationActionView::Finish {
                session: *session,
                evidence: evidence@,
            },
            AttestationAction::Ignore => AttestationActionView::Ignore,
        }
    }
}

/// Where an exchange with the driver stands.
#[derive(Debug, PartialEq, Eq)]
pub enum AttestationSession {
    /// No session is open yet; the key waits to be sent.
    AwaitingSession { public_key: Vec<u8> },
    /// The session is open and the request is with the driver.
    AwaitingResponse { session: i32 },
    /// The exchange is over and the session is closed.
    Finished,
}

/// What the state of an exchange says.
pub enum AttestationSessionView {
    AwaitingSession { public_key: Seq<u8> },
    AwaitingResponse { session: i32 },
    Finished,
}

impl View for AttestationSession {
    type V = AttestationSessionView;

    open spec fn view(&self) -> AttestationSessionView {
        match self {
            AttestationSession::AwaitingSession { public_key } => AttestationSessionView::AwaitingSession {
                public_key: public_key@,
            },
            AttestationSession::AwaitingResponse { session } => AttestationSessionView::AwaitingResponse {
                session: *session,
            },
            AttestationSession::Finished => AttestationSessionView::Finished,
        }
    }
}

/// The request that commits a document to `public_key`: the key as the
/// document's public key, and neither caller data nor a nonce.
pub open spec fn spec_attestation_request(public_key: Seq<u8>) -> AttestationRequestView {
    AttestationRequestView { user_data: None, nonce: None, public_key: Some(public_key) }
}

/// The evidence in a driver response: the document in hex, or the empty text
/// for any response that is no attestation.
pub open spec fn spec_attestation_evidence(response: DriverResponseView) -> Seq<char> {
    match response {
        DriverResponseView::Attestation { document } => hex_string(document),
        _ => Seq::empty(),
    }
}

/// One step of the exchange: the state after `event`, and what to do next.
pub open spec fn spec_step(state: AttestationSessionView, event: AttestationEventView) -> (
    AttestationSessionView,
    AttestationActionView,
) {
    match (state, event) {
        (
            AttestationSessionView::AwaitingSession { public_key },
            AttestationEventView::SessionOpened { session },
        ) => (
            AttestationSessionView::AwaitingResponse { session },
            AttestationActionView::SendRequest { session, request: spec_attestation_request(public_key) },
        ),
        (
            AttestationSessionView::AwaitingResponse { session },
            AttestationEventView::ResponseReceived { response },
        ) => (
            AttestationSessionView::Finished,
            AttestationActionView::Finish { session, evidence: spec_attestation_evidence(response) },
        ),
        _ => (state, AttestationActionView::Ignore),
    }
}

/// Builds the request that commits a document to `public_key`.
pub fn attestation_request(public_key: Vec<u8>) -> (request: AttestationRequest)
    ensures
        request@ == spec_attestation_request(public_key@),
{
    AttestationRequest { user_data: None, nonce: None, public_key: Some(public_key) }
}

/// Reads the evidence out of a driver response: the document in hex, or the
/// empty text for anything that is no attestation. Never part of a document.
pub fn attestation_evidence(response: &DriverResponse) -> (evidence: String)
    ensures
        evidence@ == spec_attestation_evidence(response@),
{
    match response {
        DriverResponse::Attestation { document } => hex_encode(document.as_slice()),
        _ => String::new(),
    }
}

impl AttestationSession {
    /// Takes the exchange one step on. An event that does not belong to the
    /// state leaves it as it is.
    pub fn step(self, event: AttestationEvent) -> (next: (AttestationSession, AttestationAction))
        ensures
            (next.0@, next.1@) == spec_step(self@, event@),
    {
        match (self, event) {
            (
                AttestationSession::AwaitingSession { public_key },
                AttestationEvent::SessionOpened { session },
            ) => (
                AttestationSession::AwaitingResponse { session },
                AttestationAction::SendRequest { session, request: attestation_request(public_key) },
            ),
            (
                AttestationSession::AwaitingResponse { session },
                AttestationEvent::ResponseReceived { response },
            ) => {
                let evidence = attestation_evidence(&response);
                (AttestationSession::Finished, AttestationAction::Finish { session, evidence })
            },
            (state, _) => (state, AttestationAction::Ignore),
        }
    }
}

/// Starts the exchange that binds the key of `kp` to an attestation document:
/// the first thing to do is to open a session with the driver.
pub fn nautilus_get_attestation(kp: &FfiKeyPair) -> (start: (AttestationSession, AttestationAction))
    ensures
        start.0@ == (AttestationSessionView::AwaitingSession { public_key: kp.public_key() }),
        start.1@ == AttestationActionView::OpenSession,
{
    (
        AttestationSession::AwaitingSession { public_key: kp.public_key_bytes() },
        AttestationAction::OpenSession,
    )
}

/// An exchange that runs in order sends exactly the key it was started for,
/// closes the session it was given whatever the driver answered, and ends with
/// the document in hex or with the empty text.
pub proof fn lemma_exchange_binds_key_and_closes_session(
    public_key: Seq<u8>,
    session: i32,
    response: DriverResponseView,
)
    ensures
        ({
            let start = AttestationSessionView::AwaitingSession { public_key };
            let opened = spec_step(start, AttestationEventView::SessionOpened { session });
            let answered = spec_step(opened.0, AttestationEventView::ResponseReceived { response });
            &&& opened.1 == (AttestationActionView::SendRequest {
                session,
                request: AttestationRequestView {
                    user_data: None,
                    nonce: None,
                    public_key: Some(public_key),
                },
            })
            &&& answered.0 == AttestationSessionView::Finished
            &&& answered.1 == (AttestationActionView::Finish {
                session,
                evidence: spec_attestation_evidence(response),
            })
            &&& response is Attestation ==> spec_attestation_evidence(response) == hex_string(
                response->document,
            )
            &&& !(response is Attestation) ==> spec_attestation_evidence(response).len() == 0
        }),
{
}

/// The request of an exchange commits to the exported key byte for byte:
/// whatever bytes the hex text of the exported public key stands for are the
/// key that is sent to the driver.
pub proof fn lemma_request_carries_exported_key(kp: &FfiKeyPair, session: i32, exported: Seq<u8>)
    requires
        hex_string(exported) == hex_string(kp.public_key()),
    ensures
        ({
            let start = AttestationSessionView::AwaitingSession { public_key: kp.public_key() };
            let sent = spec_step(start, AttestationEventView::SessionOpened { session }).1;
            sent == (AttestationActionView::SendRequest {
                session,
                request: AttestationRequestView {
                    user_data: None,
                    nonce: None,
                    public_key: Some(exported),
                },
            })
        }),
{
    lemma_hex_string_injective(exported, kp.public_key());
}

/// An open session is left in one way only: by closing that session.
pub proof fn lemma_open_session_is_closed(session: i32, event: AttestationEventView)
    ensures
        ({
            let state = AttestationSessionView::AwaitingResponse { session };
            let next = spec_step(state, event);
            ||| next == (state, AttestationActionView::Ignore)
            ||| (next.0 == AttestationSessionView::Finished && next.1 is Finish && next.1->Finish_session
                == session)
        }),
{
}

} // verus!
