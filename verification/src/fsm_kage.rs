//! The client session's state machine for an informational call.
//!
//! A session starts in `Init`, moves to `RecvDot` by producing the one
//! request line it is allowed to send, and ends by consuming the one
//! response line it must receive.  Every transition consumes the state
//! value, so a caller holding a `RecvDot` session has no way to send a
//! second request before receiving: ordering violations are impossible to
//! construct, not merely checked at run time.
use vstd::prelude::*;

use core::marker::PhantomData;

use crate::cmd::DecodeError;
use crate::cmd::DotRequest;
use crate::cmd::DotResponse;
use crate::cmd::InfoAction;
use crate::cmd::PortalCall;
use crate::cmd::PortalCallV;
use crate::cmd::enc_dot_response;
use crate::cmd::enc_portal_call;

verus! {

/// Session state: connected, nothing sent yet.
pub struct Init;

/// Session state: request sent, the matching response is owed.
pub struct RecvDot;

/// One client session, at the protocol step named by its type parameter.
pub struct KageFsm<T> {
    _state: PhantomData<T>,
}

impl KageFsm<Init> {
    /// Opens a session at its initial step.  The connection itself is the
    /// caller's: the machine only governs which message may come next.
    pub fn new() -> KageFsm<Init> {
        KageFsm { _state: PhantomData }
    }

    /// Consumes the initial state and yields the encoded request line to
    /// send, together with the only state that can follow: awaiting the
    /// response.
    pub fn send_dot_request(self, req: DotRequest) -> (r: (KageFsm<RecvDot>, String))
        ensures
            r.1@ == enc_portal_call(PortalCallV::Info),
    {
        let call = PortalCall::Info(InfoAction::GetDot(req));
        let line = call.encode();
        (KageFsm { _state: PhantomData }, line)
    }
}

impl KageFsm<RecvDot> {
    /// Consumes the awaiting state with the received line: either the
    /// matching response, or a protocol error that ends the session.  No
    /// state value survives, so a session never accepts a second response.
    pub fn recv_dot_response(self, line: &str) -> (r: Result<DotResponse, DecodeError>)
        ensures
            match r {
                Ok(d) => line@ == enc_dot_response(d.dot@),
                Err(_) => forall|dv: Seq<char>| line@ != enc_dot_response(dv),
            },
    {
        DotResponse::decode(line)
    }
}

} // verus!
