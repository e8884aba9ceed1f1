//! One connection handler's work: decode a request line, dispatch it, and
//! encode the reply line.
//!
//! The accept loop, the sockets, and the reply channels live outside this
//! crate; what a handler answers to each request is fixed here.  A
//! handler-local failure is returned to that one handler and cannot touch
//! any other connection.
use vstd::prelude::*;

use crate::cmd::DotResponse;
use crate::cmd::PortalAck;
use crate::cmd::PortalCall;
use crate::cmd::PortalCallV;
use crate::cmd::PortalRequest;
use crate::cmd::RunCommandV;
use crate::cmd::enc_dot_response;
use crate::cmd::enc_portal_ack;
use crate::cmd::enc_portal_call;
use crate::cmd::lemma_portal_call_encoding_injective;
use crate::config::Portal;
use crate::manager::NewDomRequest;
use crate::manager::new_dom_reply_ok;

verus! {

/// Why a handler could not answer with a reply line.
#[derive(Clone, Copy, Debug, PartialEq, Eq, Structural)]
pub enum HandlerError {
    /// The line did not spell any portal call.
    Protocol,
    /// The named profile has no resolvable domain.
    NoDomain,
}

/// The graph of a client session's protocol steps, as the informational
/// response reports it.
pub open spec fn dot_graph_text() -> Seq<char> {
    "digraph session { Init -> RecvDot; }"@
}

/// The acknowledgement owed to a run request: TTY creation when the client
/// asked for an interactive session, a plain confirmation otherwise.
pub open spec fn ack_for(stdio: bool) -> PortalRequest {
    if stdio {
        PortalRequest::CreateTty
    } else {
        PortalRequest::Nop
    }
}

/// Serves one request line: an informational request is answered from the
/// protocol description, a run request is put to the domain manager and
/// acknowledged when its domain resolves.  A malformed line or an
/// unresolvable domain fails only this handler.
pub fn handle_request(portal: &Portal, line: &str) -> (r: Result<String, HandlerError>)
    ensures
        line@ == enc_portal_call(PortalCallV::Info) ==> (r matches Ok(reply) && reply@
            == enc_dot_response(dot_graph_text())),
        forall|rc: RunCommandV|
            line@ == enc_portal_call(PortalCallV::Run(rc)) ==> match r {
                Ok(reply) => portal.has_profile(rc.profile) && portal.has_domain(rc.profile)
                    && reply@ == enc_portal_ack(ack_for(rc.stdio)),
                Err(e) => e is NoDomain && !(portal.has_profile(rc.profile)
                    && portal.has_domain(rc.profile)),
            },
        (forall|mv: PortalCallV| line@ != enc_portal_call(mv)) ==> (r matches Err(e) && e
            is Protocol),
{
    match PortalCall::decode(line) {
        Ok(PortalCall::Info(_)) => {
            proof {
                assert forall|rc: RunCommandV|
                    line@ != enc_portal_call(PortalCallV::Run(rc)) by {
                    if line@ == enc_portal_call(PortalCallV::Run(rc)) {
                        lemma_portal_call_encoding_injective(
                            PortalCallV::Run(rc),
                            PortalCallV::Info,
                        );
                    }
                }
            }
            let reply = DotResponse {
                dot: String::from_str("digraph session { Init -> RecvDot; }"),
            };
            Ok(reply.encode())
        },
        Ok(PortalCall::Run(rc)) => {
            let ghost rc0 = PortalCallV::Run(
                RunCommandV {
                    profile: rc.profile@,
                    command: crate::codec::strs_view(rc.command@),
                    stdio: rc.stdio,
                },
            );
            proof {
                assert(line@ == enc_portal_call(rc0));
                assert forall|rcv: RunCommandV|
                    line@ == enc_portal_call(PortalCallV::Run(rcv)) implies rcv == rc0->Run_0
                    by {
                    lemma_portal_call_encoding_injective(PortalCallV::Run(rcv), rc0);
                }
                if line@ == enc_portal_call(PortalCallV::Info) {
                    lemma_portal_call_encoding_injective(rc0, PortalCallV::Info);
                }
            }
            let req = NewDomRequest { name: rc.profile };
            let resp = req.call(portal);
            proof {
                assert(new_dom_reply_ok(*portal, req.name@, resp));
            }
            match resp.profile {
                Some(_) => {
                    let ack = PortalAck { request: if rc.stdio {
                        PortalRequest::CreateTty
                    } else {
                        PortalRequest::Nop
                    } };
                    Ok(ack.encode())
                },
                None => Err(HandlerError::NoDomain),
            }
        },
        Err(_) => Err(HandlerError::Protocol),
    }
}

} // verus!
