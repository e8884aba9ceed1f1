//! Typed protocol messages, their wire encodings, and the command registry.
//!
//! Each message is one line of structured text.  `encode` produces exactly
//! the encoding given by the `enc_*` spec functions; `decode` accepts
//! exactly those encodings and returns the encoded message, failing with a
//! `DecodeError` on every other input.
use vstd::prelude::*;

use crate::codec::bool_at;
use crate::codec::chars_to_string;
use crate::codec::enc_bool;
use crate::codec::enc_list;
use crate::codec::lemma_bool_at_unique;
use crate::codec::lemma_list_at_unique;
use crate::codec::lemma_qstr_at_unique;
use crate::codec::list_at;
use crate::codec::parse_bool;
use crate::codec::parse_exact;
use crate::codec::parse_list;
use crate::codec::parse_qstr;
use crate::codec::push_bool;
use crate::codec::push_list;
use crate::codec::push_qstr;
use crate::codec::qstr_at;
use crate::codec::quote;
use crate::codec::str_to_chars;
use crate::codec::strs_view;
use crate::run::InfoPlugin;
use crate::run::KageAction;
use crate::run::MountPlugin;
use crate::run::RunPlugin;
use crate::run::ShimPlugin;
use crate::util::str_eq;

verus! {

/// A request to run a profile's command in its domain.
#[derive(Clone, Debug, PartialEq, Eq)]
pub struct RunCommand {
    pub profile: String,
    pub command: Vec<String>,
    pub stdio: bool,
}

/// Mathematical model of a `RunCommand`.
pub ghost struct RunCommandV {
    pub profile: Seq<char>,
    pub command: Seq<Seq<char>>,
    pub stdio: bool,
}

impl View for RunCommand {
    type V = RunCommandV;

    open spec fn view(&self) -> RunCommandV {
        RunCommandV { profile: self.profile@, command: strs_view(self.command@), stdio: self.stdio }
    }
}

/// A request for the broker's protocol/state graph.
#[derive(Clone, Copy, Debug, PartialEq, Eq, Structural)]
pub struct DotRequest;

/// Informational requests a client may send.
#[derive(Clone, Debug, PartialEq, Eq)]
pub enum InfoAction {
    GetDot(DotRequest),
}

/// Calls a client can direct at the portal.
#[derive(Clone, Debug, PartialEq, Eq)]
pub enum PortalCall {
    Run(RunCommand),
    Info(InfoAction),
}

/// Mathematical model of a `PortalCall`.
pub ghost enum PortalCallV {
    Run(RunCommandV),
    Info,
}

impl View for PortalCall {
    type V = PortalCallV;

    open spec fn view(&self) -> PortalCallV {
        match self {
            PortalCall::Run(rc) => PortalCallV::Run(rc@),
            PortalCall::Info(_) => PortalCallV::Info,
        }
    }
}

/// A request to bind a host path inside a domain.
#[derive(Clone, Debug, PartialEq, Eq)]
pub struct MountRequest {
    pub source: String,
    pub destination: String,
}

/// Mount actions of the sibling monitor protocol.
#[derive(Clone, Debug, PartialEq, Eq)]
pub enum MountAction {
    DoMount(MountRequest),
}

/// A request to attach a shim to a profile's domain.
#[derive(Clone, Debug, PartialEq, Eq)]
pub struct ShimRequest {
    pub profile: String,
}

/// Shim actions of the sibling monitor protocol.
#[derive(Clone, Debug, PartialEq, Eq)]
pub enum ShimAction {
    DoShim(ShimRequest),
}

/// Calls directed at the monitor collaborator.  This is a sibling protocol
/// of `PortalCall` and deliberately a distinct type: the two must not be
/// confused even where their shapes look alike.
#[derive(Clone, Debug, PartialEq, Eq)]
pub enum MonitorCall {
    Mount(MountAction),
    Shim(ShimAction),
}

/// Mathematical model of a `MonitorCall`.
pub ghost enum MonitorCallV {
    Mount { source: Seq<char>, destination: Seq<char> },
    Shim { profile: Seq<char> },
}

impl View for MonitorCall {
    type V = MonitorCallV;

    open spec fn view(&self) -> MonitorCallV {
        match self {
            MonitorCall::Mount(MountAction::DoMount(m)) => MonitorCallV::Mount {
                source: m.source@,
                destination: m.destination@,
            },
            MonitorCall::Shim(ShimAction::DoShim(sh)) => MonitorCallV::Shim {
                profile: sh.profile@,
            },
        }
    }
}

/// The side effect a portal acknowledgement refers to.
#[derive(Clone, Copy, Debug, PartialEq, Eq, Structural)]
pub enum PortalRequest {
    Nop,
    CreateTty,
}

/// Acknowledgement that a side effect has completed on the broker side.
#[derive(Clone, Copy, Debug, PartialEq, Eq, Structural)]
pub struct PortalAck {
    pub request: PortalRequest,
}

/// The broker's reply to an informational request.
#[derive(Clone, Debug, PartialEq, Eq)]
pub struct DotResponse {
    pub dot: String,
}

/// Bytes that do not spell any message of the expected type.
#[derive(Clone, Copy, Debug, PartialEq, Eq, Structural)]
pub enum DecodeError {
    Malformed,
}

/// Keyword opening a run request.
pub open spec fn key_run() -> Seq<char> {
    seq!['r', 'u', 'n', ' ']
}

/// The entire wire form of an informational request.
pub open spec fn key_info() -> Seq<char> {
    seq!['i', 'n', 'f', 'o', ' ', 'g', 'e', 't', 'd', 'o', 't', '\n']
}

/// Wire form of a run request.
pub open spec fn enc_run_command(rc: RunCommandV) -> Seq<char> {
    key_run() + quote(rc.profile) + seq![' '] + enc_list(rc.command) + seq![' '] + enc_bool(
        rc.stdio,
    ) + seq!['\n']
}

/// Wire form of a portal call.
pub open spec fn enc_portal_call(m: PortalCallV) -> Seq<char> {
    match m {
        PortalCallV::Run(rc) => enc_run_command(rc),
        PortalCallV::Info => key_info(),
    }
}

/// Wire form of a portal acknowledgement.
pub open spec fn enc_portal_ack(req: PortalRequest) -> Seq<char> {
    match req {
        PortalRequest::Nop => seq!['a', 'c', 'k', ' ', 'n', 'o', 'p', '\n'],
        PortalRequest::CreateTty => seq!['a', 'c', 'k', ' ', 'c', 't', 't', 'y', '\n'],
    }
}

/// Wire form of an informational response.
pub open spec fn enc_dot_response(dot: Seq<char>) -> Seq<char> {
    seq!['d', 'o', 't', ' '] + quote(dot) + seq!['\n']
}

/// Keyword opening a mount request.
pub open spec fn key_mount() -> Seq<char> {
    seq!['m', 'o', 'u', 'n', 't', ' ']
}

/// Keyword opening a shim request.
pub open spec fn key_shim() -> Seq<char> {
    seq!['s', 'h', 'i', 'm', ' ']
}

/// Wire form of a monitor call.
pub open spec fn enc_monitor_call(m: MonitorCallV) -> Seq<char> {
    match m {
        MonitorCallV::Mount { source, destination } => key_mount() + quote(source) + seq![' ']
            + quote(destination) + seq!['\n'],
        MonitorCallV::Shim { profile } => key_shim() + quote(profile) + seq!['\n'],
    }
}

/// Builds the run keyword as a vector.
fn lit_key_run() -> (r: Vec<char>)
    ensures
        r@ == key_run(),
{
    let mut r: Vec<char> = Vec::new();
    r.push('r');
    r.push('u');
    r.push('n');
    r.push(' ');
    proof {
        assert(r@ =~= key_run());
    }
    r
}

/// Builds the full informational request line as a vector.
fn lit_key_info() -> (r: Vec<char>)
    ensures
        r@ == key_info(),
{
    let mut r: Vec<char> = Vec::new();
    r.push('i');
    r.push('n');
    r.push('f');
    r.push('o');
    r.push(' ');
    r.push('g');
    r.push('e');
    r.push('t');
    r.push('d');
    r.push('o');
    r.push('t');
    r.push('\n');
    proof {
        assert(r@ =~= key_info());
    }
    r
}

/// Where each part of an encoded run request stands in the line.
pub proof fn lemma_run_parts(s: Seq<char>, rc: RunCommandV)
    requires
        s == enc_run_command(rc),
    ensures
        s.len() == 4 + quote(rc.profile).len() + 1 + enc_list(rc.command).len() + 1 + enc_bool(
            rc.stdio,
        ).len() + 1,
        s.subrange(0, 4) == key_run(),
        qstr_at(s, 4, rc.profile),
        s[4 + quote(rc.profile).len() as int] == ' ',
        list_at(s, 5 + quote(rc.profile).len() as int, rc.command),
        s[5 + quote(rc.profile).len() + enc_list(rc.command).len() as int] == ' ',
        bool_at(s, 6 + quote(rc.profile).len() + enc_list(rc.command).len() as int, rc.stdio),
        s[s.len() - 1] == '\n',
{
    broadcast use vstd::seq::group_seq_lemmas_expensive;

    let q = quote(rc.profile);
    let l = enc_list(rc.command);
    let b = enc_bool(rc.stdio);
    assert(s.subrange(0, 4) =~= key_run());
    assert(s.subrange(4, 4 + q.len() as int) =~= q);
    assert(s[4 + q.len() as int] == ' ');
    assert(s.subrange(5 + q.len() as int, 5 + q.len() + l.len() as int) =~= l);
    assert(s[5 + q.len() + l.len() as int] == ' ');
    assert(s.subrange(6 + q.len() + l.len() as int, 6 + q.len() + l.len() + b.len() as int)
        =~= b);
    assert(s[s.len() - 1] == '\n');
}

/// An encoded portal call names its message: the encoding is injective.
/// Together with `PortalCall::decode`'s contract this gives the round
/// trip: decoding an encoded call yields exactly the call encoded.
pub proof fn lemma_portal_call_encoding_injective(m1: PortalCallV, m2: PortalCallV)
    requires
        enc_portal_call(m1) == enc_portal_call(m2),
    ensures
        m1 == m2,
{
    broadcast use vstd::seq::group_seq_lemmas_expensive;

    let s = enc_portal_call(m1);
    match (m1, m2) {
        (PortalCallV::Run(a), PortalCallV::Run(b)) => {
            lemma_run_parts(s, a);
            lemma_run_parts(s, b);
            lemma_qstr_at_unique(s, 4, a.profile, b.profile);
            lemma_list_at_unique(s, 5 + quote(a.profile).len() as int, a.command, b.command);
            lemma_bool_at_unique(
                s,
                6 + quote(a.profile).len() + enc_list(a.command).len() as int,
                a.stdio,
                b.stdio,
            );
        },
        (PortalCallV::Run(a), PortalCallV::Info) => {
            lemma_run_parts(s, a);
            assert(s[0] == key_run()[0]);
            assert(s[0] == key_info()[0]);
            assert(false);
        },
        (PortalCallV::Info, PortalCallV::Run(b)) => {
            lemma_run_parts(s, b);
            assert(s[0] == key_run()[0]);
            assert(s[0] == key_info()[0]);
            assert(false);
        },
        (PortalCallV::Info, PortalCallV::Info) => {},
    }
}

impl PortalCall {
    /// Encodes this call as one framed line, ready to send.
    pub fn encode(&self) -> (r: String)
        ensures
            r@ == enc_portal_call(self@),
    {
        match self {
            PortalCall::Run(rc) => {
                let mut out: Vec<char> = Vec::new();
                out.push('r');
                out.push('u');
                out.push('n');
                out.push(' ');
                proof {
                    assert(out@ =~= key_run());
                }
                push_qstr(&mut out, rc.profile.as_str());
                out.push(' ');
                push_list(&mut out, &rc.command);
                out.push(' ');
                push_bool(&mut out, rc.stdio);
                out.push('\n');
                proof {
                    assert(out@ =~= enc_run_command(rc@));
                }
                chars_to_string(&out)
            },
            PortalCall::Info(_) => {
                let out = lit_key_info();
                chars_to_string(&out)
            },
        }
    }

    /// Decodes one received line.  Succeeds exactly on the encodings that
    /// `encode` produces, and then returns the encoded call; every other
    /// input is rejected as malformed, never mapped to a default.
    #[verifier::rlimit(100)]
    pub fn decode(line: &str) -> (r: Result<PortalCall, DecodeError>)
        ensures
            match r {
                Ok(m) => line@ == enc_portal_call(m@),
                Err(_) => forall|mv: PortalCallV| line@ != enc_portal_call(mv),
            },
    {
        broadcast use vstd::seq::group_seq_lemmas_expensive;

        let s = str_to_chars(line);
        let n = s.len();
        let kinfo = lit_key_info();
        if parse_exact(&s, 0, &kinfo) {
            if n == 12 {
                proof {
                    assert(s@.subrange(0, 12) =~= s@);
                }
                return Ok(PortalCall::Info(InfoAction::GetDot(DotRequest)));
            }
            proof {
                assert forall|mv: PortalCallV| line@ != enc_portal_call(mv) by {
                    if line@ == enc_portal_call(mv) {
                        match mv {
                            PortalCallV::Run(rc) => {
                                lemma_run_parts(s@, rc);
                                assert(s@[0] == key_run()[0]);
                                assert(s@[0] == s@.subrange(0, 12)[0]);
                            },
                            PortalCallV::Info => {
                                assert(s@.len() == 12);
                            },
                        }
                    }
                }
            }
            return Err(DecodeError::Malformed);
        }
        let krun = lit_key_run();
        if !parse_exact(&s, 0, &krun) {
            proof {
                assert forall|mv: PortalCallV| line@ != enc_portal_call(mv) by {
                    if line@ == enc_portal_call(mv) {
                        match mv {
                            PortalCallV::Run(rc) => {
                                lemma_run_parts(s@, rc);
                            },
                            PortalCallV::Info => {
                                assert(s@.subrange(0, 12) =~= s@);
                            },
                        }
                    }
                }
            }
            return Err(DecodeError::Malformed);
        }
        proof {
            assert forall|mv: PortalCallV| line@ == enc_portal_call(mv) implies mv is Run by {
                if mv is Info {
                    assert(s@[0] == s@.subrange(0, 12)[0]);
                    assert(s@[0] == s@.subrange(0, 4)[0]);
                }
            }
        }
        match parse_qstr(&s, 4) {
            Some((p, j)) => {
                proof {
                    assert forall|mv: PortalCallV| line@ == enc_portal_call(mv) implies {
                        &&& mv is Run
                        &&& mv->Run_0.profile == p@
                        &&& j == 4 + quote(p@).len()
                    } by {
                        if line@ == enc_portal_call(mv) && mv is Run {
                            let rc = mv->Run_0;
                            lemma_run_parts(s@, rc);
                            assert(qstr_at(s@, 4, p@));
                            lemma_qstr_at_unique(s@, 4, rc.profile, p@);
                        }
                    }
                }
                if j < n && s[j] == ' ' {
                    match parse_list(&s, j + 1) {
                        Some((cmd, j2)) => {
                            proof {
                                assert forall|mv: PortalCallV| line@ == enc_portal_call(mv)
                                    implies {
                                    &&& mv is Run
                                    &&& mv->Run_0.command == strs_view(cmd@)
                                    &&& j2 == j + 1 + enc_list(strs_view(cmd@)).len()
                                } by {
                                    if line@ == enc_portal_call(mv) && mv is Run {
                                        let rc = mv->Run_0;
                                        lemma_run_parts(s@, rc);
                                        assert(list_at(s@, j + 1, strs_view(cmd@)));
                                        lemma_list_at_unique(
                                            s@,
                                            j + 1,
                                            rc.command,
                                            strs_view(cmd@),
                                        );
                                    }
                                }
                            }
                            if j2 < n && s[j2] == ' ' {
                                match parse_bool(&s, j2 + 1) {
                                    Some((b, j3)) => {
                                        if j3 < n && s[j3] == '\n' && j3 + 1 == n {
                                            let profile = chars_to_string(&p);
                                            let m = PortalCall::Run(
                                                RunCommand { profile, command: cmd, stdio: b },
                                            );
                                            proof {
                                                assert(s@.subrange(j as int, j + 1 as int)
                                                    =~= seq![' ']);
                                                assert(s@.subrange(j2 as int, j2 + 1 as int)
                                                    =~= seq![' ']);
                                                assert(s@.subrange(j3 as int, j3 + 1 as int)
                                                    =~= seq!['\n']);
                                                assert(s@ =~= s@.subrange(0, 4) + s@.subrange(
                                                    4,
                                                    j as int,
                                                ) + s@.subrange(j as int, j + 1 as int)
                                                    + s@.subrange(j + 1 as int, j2 as int)
                                                    + s@.subrange(j2 as int, j2 + 1 as int)
                                                    + s@.subrange(j2 + 1 as int, j3 as int)
                                                    + s@.subrange(j3 as int, j3 + 1 as int));
                                                assert(line@ =~= enc_run_command(m@->Run_0));
                                            }
                                            return Ok(m);
                                        }
                                        proof {
                                            assert forall|mv: PortalCallV| line@
                                                != enc_portal_call(mv) by {
                                                if line@ == enc_portal_call(mv) {
                                                    let rc = mv->Run_0;
                                                    lemma_run_parts(s@, rc);
                                                    assert(bool_at(s@, j2 + 1, b));
                                                    lemma_bool_at_unique(
                                                        s@,
                                                        j2 + 1,
                                                        rc.stdio,
                                                        b,
                                                    );
                                                    assert(s@[j3 as int] == '\n');
                                                    assert(s@.len() == j3 + 1);
                                                }
                                            }
                                        }
                                        Err(DecodeError::Malformed)
                                    },
                                    None => {
                                        proof {
                                            assert forall|mv: PortalCallV| line@
                                                != enc_portal_call(mv) by {
                                                if line@ == enc_portal_call(mv) {
                                                    let rc = mv->Run_0;
                                                    lemma_run_parts(s@, rc);
                                                    assert(bool_at(s@, j2 + 1, rc.stdio));
                                                }
                                            }
                                        }
                                        Err(DecodeError::Malformed)
                                    },
                                }
                            } else {
                                proof {
                                    assert forall|mv: PortalCallV| line@ != enc_portal_call(mv)
                                        by {
                                        if line@ == enc_portal_call(mv) {
                                            let rc = mv->Run_0;
                                            lemma_run_parts(s@, rc);
                                            assert(s@[j2 as int] == ' ');
                                        }
                                    }
                                }
                                Err(DecodeError::Malformed)
                            }
                        },
                        None => {
                            proof {
                                assert forall|mv: PortalCallV| line@ != enc_portal_call(mv) by {
                                    if line@ == enc_portal_call(mv) {
                                        let rc = mv->Run_0;
                                        lemma_run_parts(s@, rc);
                                        assert(list_at(s@, j + 1, rc.command));
                                    }
                                }
                            }
                            Err(DecodeError::Malformed)
                        },
                    }
                } else {
                    proof {
                        assert forall|mv: PortalCallV| line@ != enc_portal_call(mv) by {
                            if line@ == enc_portal_call(mv) {
                                let rc = mv->Run_0;
                                lemma_run_parts(s@, rc);
                                assert(s@[j as int] == ' ');
                            }
                        }
                    }
                    Err(DecodeError::Malformed)
                }
            },
            None => {
                proof {
                    assert forall|mv: PortalCallV| line@ != enc_portal_call(mv) by {
                        if line@ == enc_portal_call(mv) {
                            let rc = mv->Run_0;
                            lemma_run_parts(s@, rc);
                            assert(qstr_at(s@, 4, rc.profile));
                        }
                    }
                }
                Err(DecodeError::Malformed)
            },
        }
    }
}

/// Builds the acknowledgement line for a completed no-op as a vector.
fn lit_ack_nop() -> (r: Vec<char>)
    ensures
        r@ == enc_portal_ack(PortalRequest::Nop),
{
    let mut r: Vec<char> = Vec::new();
    r.push('a');
    r.push('c');
    r.push('k');
    r.push(' ');
    r.push('n');
    r.push('o');
    r.push('p');
    r.push('\n');
    proof {
        assert(r@ =~= enc_portal_ack(PortalRequest::Nop));
    }
    r
}

/// Builds the acknowledgement line for a created TTY as a vector.
fn lit_ack_ctty() -> (r: Vec<char>)
    ensures
        r@ == enc_portal_ack(PortalRequest::CreateTty),
{
    let mut r: Vec<char> = Vec::new();
    r.push('a');
    r.push('c');
    r.push('k');
    r.push(' ');
    r.push('c');
    r.push('t');
    r.push('t');
    r.push('y');
    r.push('\n');
    proof {
        assert(r@ =~= enc_portal_ack(PortalRequest::CreateTty));
    }
    r
}

/// The acknowledgement encoding is injective: with `PortalAck::decode`'s
/// contract this gives the round trip for acknowledgements.
pub proof fn lemma_portal_ack_encoding_injective(r1: PortalRequest, r2: PortalRequest)
    requires
        enc_portal_ack(r1) == enc_portal_ack(r2),
    ensures
        r1 == r2,
{
    assert(enc_portal_ack(PortalRequest::Nop).len() == 8);
    assert(enc_portal_ack(PortalRequest::CreateTty).len() == 9);
}

impl PortalAck {
    /// Encodes this acknowledgement as one framed line.
    pub fn encode(&self) -> (r: String)
        ensures
            r@ == enc_portal_ack(self.request),
    {
        let out = match self.request {
            PortalRequest::Nop => lit_ack_nop(),
            PortalRequest::CreateTty => lit_ack_ctty(),
        };
        chars_to_string(&out)
    }

    /// Decodes one received acknowledgement line.  Succeeds exactly on the
    /// two acknowledgement encodings.
    pub fn decode(line: &str) -> (r: Result<PortalAck, DecodeError>)
        ensures
            match r {
                Ok(a) => line@ == enc_portal_ack(a.request),
                Err(_) => forall|req: PortalRequest| line@ != enc_portal_ack(req),
            },
    {
        let s = str_to_chars(line);
        let n = s.len();
        let nop = lit_ack_nop();
        if parse_exact(&s, 0, &nop) && n == 8 {
            proof {
                assert(s@.subrange(0, 8) =~= s@);
            }
            return Ok(PortalAck { request: PortalRequest::Nop });
        }
        let ctty = lit_ack_ctty();
        if parse_exact(&s, 0, &ctty) && n == 9 {
            proof {
                assert(s@.subrange(0, 9) =~= s@);
            }
            return Ok(PortalAck { request: PortalRequest::CreateTty });
        }
        proof {
            assert forall|req: PortalRequest| line@ != enc_portal_ack(req) by {
                if line@ == enc_portal_ack(req) {
                    match req {
                        PortalRequest::Nop => {
                            assert(s@.subrange(0, 8) =~= s@);
                        },
                        PortalRequest::CreateTty => {
                            assert(s@.subrange(0, 9) =~= s@);
                        },
                    }
                }
            }
        }
        Err(DecodeError::Malformed)
    }
}

/// Builds the keyword of an informational response as a vector.
fn lit_key_dot() -> (r: Vec<char>)
    ensures
        r@ == seq!['d', 'o', 't', ' '],
{
    let mut r: Vec<char> = Vec::new();
    r.push('d');
    r.push('o');
    r.push('t');
    r.push(' ');
    proof {
        assert(r@ =~= seq!['d', 'o', 't', ' ']);
    }
    r
}

/// Where each part of an encoded informational response stands.
pub proof fn lemma_dot_parts(s: Seq<char>, dot: Seq<char>)
    requires
        s == enc_dot_response(dot),
    ensures
        s.len() == 5 + quote(dot).len(),
        s.subrange(0, 4) == seq!['d', 'o', 't', ' '],
        qstr_at(s, 4, dot),
        s[s.len() - 1] == '\n',
{
    broadcast use vstd::seq::group_seq_lemmas_expensive;

    assert(s.subrange(0, 4) =~= seq!['d', 'o', 't', ' ']);
    assert(s.subrange(4, 4 + quote(dot).len() as int) =~= quote(dot));
    assert(s[s.len() - 1] == '\n');
}

impl DotResponse {
    /// Encodes this response as one framed line.
    pub fn encode(&self) -> (r: String)
        ensures
            r@ == enc_dot_response(self.dot@),
    {
        let mut out: Vec<char> = Vec::new();
        out.push('d');
        out.push('o');
        out.push('t');
        out.push(' ');
        proof {
            assert(out@ =~= seq!['d', 'o', 't', ' ']);
        }
        push_qstr(&mut out, self.dot.as_str());
        out.push('\n');
        proof {
            assert(out@ =~= enc_dot_response(self.dot@));
        }
        chars_to_string(&out)
    }

    /// Decodes one received response line.  Succeeds exactly on the
    /// encodings that `encode` produces.
    pub fn decode(line: &str) -> (r: Result<DotResponse, DecodeError>)
        ensures
            match r {
                Ok(d) => line@ == enc_dot_response(d.dot@),
                Err(_) => forall|dv: Seq<char>| line@ != enc_dot_response(dv),
            },
    {
        let s = str_to_chars(line);
        let n = s.len();
        let kdot = lit_key_dot();
        if !parse_exact(&s, 0, &kdot) {
            proof {
                assert forall|dv: Seq<char>| line@ != enc_dot_response(dv) by {
                    if line@ == enc_dot_response(dv) {
                        lemma_dot_parts(s@, dv);
                    }
                }
            }
            return Err(DecodeError::Malformed);
        }
        match parse_qstr(&s, 4) {
            Some((d, j)) => {
                if j < n && s[j] == '\n' && j + 1 == n {
                    let dot = chars_to_string(&d);
                    proof {
                        assert(s@.subrange(j as int, j + 1 as int) =~= seq!['\n']);
                        assert(s@ =~= s@.subrange(0, 4) + s@.subrange(4, j as int) + s@.subrange(
                            j as int,
                            j + 1 as int,
                        ));
                        assert(line@ =~= enc_dot_response(dot@));
                    }
                    Ok(DotResponse { dot })
                } else {
                    proof {
                        assert forall|dv: Seq<char>| line@ != enc_dot_response(dv) by {
                            if line@ == enc_dot_response(dv) {
                                lemma_dot_parts(s@, dv);
                                lemma_qstr_at_unique(s@, 4, dv, d@);
                                assert(s@[j as int] == '\n');
                                assert(s@.len() == j + 1);
                            }
                        }
                    }
                    Err(DecodeError::Malformed)
                }
            },
            None => {
                proof {
                    assert forall|dv: Seq<char>| line@ != enc_dot_response(dv) by {
                        if line@ == enc_dot_response(dv) {
                            lemma_dot_parts(s@, dv);
                            assert(qstr_at(s@, 4, dv));
                        }
                    }
                }
                Err(DecodeError::Malformed)
            },
        }
    }
}

/// The informational response encoding is injective: together with
/// `DotResponse::decode`'s contract this gives the round trip for
/// informational responses.
pub proof fn lemma_dot_response_encoding_injective(d1: Seq<char>, d2: Seq<char>)
    requires
        enc_dot_response(d1) == enc_dot_response(d2),
    ensures
        d1 == d2,
{
    let s = enc_dot_response(d1);
    lemma_dot_parts(s, d1);
    lemma_dot_parts(s, d2);
    lemma_qstr_at_unique(s, 4, d1, d2);
}

/// Builds the mount keyword as a vector.
fn lit_key_mount() -> (r: Vec<char>)
    ensures
        r@ == key_mount(),
{
    let mut r: Vec<char> = Vec::new();
    r.push('m');
    r.push('o');
    r.push('u');
    r.push('n');
    r.push('t');
    r.push(' ');
    proof {
        assert(r@ =~= key_mount());
    }
    r
}

/// Builds the shim keyword as a vector.
fn lit_key_shim() -> (r: Vec<char>)
    ensures
        r@ == key_shim(),
{
    let mut r: Vec<char> = Vec::new();
    r.push('s');
    r.push('h');
    r.push('i');
    r.push('m');
    r.push(' ');
    proof {
        assert(r@ =~= key_shim());
    }
    r
}

/// Where each part of an encoded mount call stands.
pub proof fn lemma_mount_parts(s: Seq<char>, source: Seq<char>, destination: Seq<char>)
    requires
        s == enc_monitor_call(MonitorCallV::Mount { source, destination }),
    ensures
        s.len() == 8 + quote(source).len() + quote(destination).len(),
        s.subrange(0, 6) == key_mount(),
        qstr_at(s, 6, source),
        s[6 + quote(source).len() as int] == ' ',
        qstr_at(s, 7 + quote(source).len() as int, destination),
        s[s.len() - 1] == '\n',
{
    broadcast use vstd::seq::group_seq_lemmas_expensive;

    let q1 = quote(source);
    let q2 = quote(destination);
    assert(s.subrange(0, 6) =~= key_mount());
    assert(s.subrange(6, 6 + q1.len() as int) =~= q1);
    assert(s[6 + q1.len() as int] == ' ');
    assert(s.subrange(7 + q1.len() as int, 7 + q1.len() + q2.len() as int) =~= q2);
    assert(s[s.len() - 1] == '\n');
}

/// Where each part of an encoded shim call stands.
pub proof fn lemma_shim_parts(s: Seq<char>, profile: Seq<char>)
    requires
        s == enc_monitor_call(MonitorCallV::Shim { profile }),
    ensures
        s.len() == 6 + quote(profile).len(),
        s.subrange(0, 5) == key_shim(),
        qstr_at(s, 5, profile),
        s[s.len() - 1] == '\n',
{
    broadcast use vstd::seq::group_seq_lemmas_expensive;

    assert(s.subrange(0, 5) =~= key_shim());
    assert(s.subrange(5, 5 + quote(profile).len() as int) =~= quote(profile));
    assert(s[s.len() - 1] == '\n');
}

/// The monitor-call encoding is injective: with `MonitorCall::decode`'s
/// contract this gives the round trip for the monitor protocol.
#[verifier::rlimit(100)]
pub proof fn lemma_monitor_call_encoding_injective(m1: MonitorCallV, m2: MonitorCallV)
    requires
        enc_monitor_call(m1) == enc_monitor_call(m2),
    ensures
        m1 == m2,
{
    broadcast use vstd::seq::group_seq_lemmas_expensive;

    let s = enc_monitor_call(m1);
    match (m1, m2) {
        (
            MonitorCallV::Mount { source: s1, destination: d1 },
            MonitorCallV::Mount { source: s2, destination: d2 },
        ) => {
            lemma_mount_parts(s, s1, d1);
            lemma_mount_parts(s, s2, d2);
            lemma_qstr_at_unique(s, 6, s1, s2);
            lemma_qstr_at_unique(s, 7 + quote(s1).len() as int, d1, d2);
        },
        (MonitorCallV::Mount { source: s1, destination: d1 }, MonitorCallV::Shim { .. }) => {
            lemma_mount_parts(s, s1, d1);
            assert(s[0] == key_mount()[0]);
            assert(s[0] == key_shim()[0]);
            assert(false);
        },
        (MonitorCallV::Shim { .. }, MonitorCallV::Mount { source: s2, destination: d2 }) => {
            lemma_mount_parts(s, s2, d2);
            assert(s[0] == key_mount()[0]);
            assert(s[0] == key_shim()[0]);
            assert(false);
        },
        (MonitorCallV::Shim { profile: p1 }, MonitorCallV::Shim { profile: p2 }) => {
            lemma_shim_parts(s, p1);
            lemma_shim_parts(s, p2);
            lemma_qstr_at_unique(s, 5, p1, p2);
        },
    }
}

impl MonitorCall {
    /// Encodes this call as one framed line.
    pub fn encode(&self) -> (r: String)
        ensures
            r@ == enc_monitor_call(self@),
    {
        match self {
            MonitorCall::Mount(MountAction::DoMount(m)) => {
                let mut out = lit_key_mount();
                push_qstr(&mut out, m.source.as_str());
                out.push(' ');
                push_qstr(&mut out, m.destination.as_str());
                out.push('\n');
                proof {
                    assert(out@ =~= enc_monitor_call(self@));
                }
                chars_to_string(&out)
            },
            MonitorCall::Shim(ShimAction::DoShim(sh)) => {
                let mut out = lit_key_shim();
                push_qstr(&mut out, sh.profile.as_str());
                out.push('\n');
                proof {
                    assert(out@ =~= enc_monitor_call(self@));
                }
                chars_to_string(&out)
            },
        }
    }

    /// Decodes one received monitor line.  Succeeds exactly on the
    /// encodings that `encode` produces.
    #[verifier::rlimit(100)]
    pub fn decode(line: &str) -> (r: Result<MonitorCall, DecodeError>)
        ensures
            match r {
                Ok(m) => line@ == enc_monitor_call(m@),
                Err(_) => forall|mv: MonitorCallV| line@ != enc_monitor_call(mv),
            },
    {
        broadcast use vstd::seq::group_seq_lemmas_expensive;

        let s = str_to_chars(line);
        let n = s.len();
        let kmount = lit_key_mount();
        if parse_exact(&s, 0, &kmount) {
            proof {
                assert forall|mv: MonitorCallV| line@ == enc_monitor_call(mv) implies mv is Mount
                    by {
                    if mv is Shim {
                        lemma_shim_parts(s@, mv->Shim_profile);
                        assert(s@[0] == s@.subrange(0, 5)[0]);
                        assert(s@[0] == s@.subrange(0, 6)[0]);
                    }
                }
            }
            match parse_qstr(&s, 6) {
                Some((src, j)) => {
                    proof {
                        assert forall|mv: MonitorCallV| line@ == enc_monitor_call(mv) implies {
                            &&& mv is Mount
                            &&& mv->Mount_source == src@
                            &&& j == 6 + quote(src@).len()
                        } by {
                            if line@ == enc_monitor_call(mv) && mv is Mount {
                                lemma_mount_parts(s@, mv->Mount_source, mv->Mount_destination);
                                assert(qstr_at(s@, 6, src@));
                                lemma_qstr_at_unique(s@, 6, mv->Mount_source, src@);
                            }
                        }
                    }
                    if j < n && s[j] == ' ' {
                        match parse_qstr(&s, j + 1) {
                            Some((dst, j2)) => {
                                if j2 < n && s[j2] == '\n' && j2 + 1 == n {
                                    let m = MonitorCall::Mount(
                                        MountAction::DoMount(
                                            MountRequest {
                                                source: chars_to_string(&src),
                                                destination: chars_to_string(&dst),
                                            },
                                        ),
                                    );
                                    proof {
                                        assert(s@.subrange(j as int, j + 1 as int)
                                            =~= seq![' ']);
                                        assert(s@.subrange(j2 as int, j2 + 1 as int)
                                            =~= seq!['\n']);
                                        assert(s@ =~= s@.subrange(0, 6) + s@.subrange(
                                            6,
                                            j as int,
                                        ) + s@.subrange(j as int, j + 1 as int) + s@.subrange(
                                            j + 1 as int,
                                            j2 as int,
                                        ) + s@.subrange(j2 as int, j2 + 1 as int));
                                        assert(line@ =~= enc_monitor_call(m@));
                                    }
                                    return Ok(m);
                                }
                                proof {
                                    assert forall|mv: MonitorCallV| line@ != enc_monitor_call(
                                        mv,
                                    ) by {
                                        if line@ == enc_monitor_call(mv) {
                                            lemma_mount_parts(
                                                s@,
                                                mv->Mount_source,
                                                mv->Mount_destination,
                                            );
                                            assert(qstr_at(s@, j + 1 as int, dst@));
                                            lemma_qstr_at_unique(
                                                s@,
                                                j + 1 as int,
                                                mv->Mount_destination,
                                                dst@,
                                            );
                                            assert(s@[j2 as int] == '\n');
                                            assert(s@.len() == j2 + 1);
                                        }
                                    }
                                }
                                Err(DecodeError::Malformed)
                            },
                            None => {
                                proof {
                                    assert forall|mv: MonitorCallV| line@ != enc_monitor_call(
                                        mv,
                                    ) by {
                                        if line@ == enc_monitor_call(mv) {
                                            lemma_mount_parts(
                                                s@,
                                                mv->Mount_source,
                                                mv->Mount_destination,
                                            );
                                            assert(qstr_at(
                                                s@,
                                                j + 1 as int,
                                                mv->Mount_destination,
                                            ));
                                        }
                                    }
                                }
                                Err(DecodeError::Malformed)
                            },
                        }
                    } else {
                        proof {
                            assert forall|mv: MonitorCallV| line@ != enc_monitor_call(mv) by {
                                if line@ == enc_monitor_call(mv) {
                                    lemma_mount_parts(
                                        s@,
                                        mv->Mount_source,
                                        mv->Mount_destination,
                                    );
                                    assert(s@[j as int] == ' ');
                                }
                            }
                        }
                        Err(DecodeError::Malformed)
                    }
                },
                None => {
                    proof {
                        assert forall|mv: MonitorCallV| line@ != enc_monitor_call(mv) by {
                            if line@ == enc_monitor_call(mv) {
                                lemma_mount_parts(s@, mv->Mount_source, mv->Mount_destination);
                                assert(qstr_at(s@, 6, mv->Mount_source));
                            }
                        }
                    }
                    Err(DecodeError::Malformed)
                },
            }
        } else {
            let kshim = lit_key_shim();
            if !parse_exact(&s, 0, &kshim) {
                proof {
                    assert forall|mv: MonitorCallV| line@ != enc_monitor_call(mv) by {
                        if line@ == enc_monitor_call(mv) {
                            match mv {
                                MonitorCallV::Mount { source, destination } => {
                                    lemma_mount_parts(s@, source, destination);
                                },
                                MonitorCallV::Shim { profile } => {
                                    lemma_shim_parts(s@, profile);
                                },
                            }
                        }
                    }
                }
                return Err(DecodeError::Malformed);
            }
            proof {
                assert forall|mv: MonitorCallV| line@ == enc_monitor_call(mv) implies mv is Shim
                    by {
                    if mv is Mount {
                        lemma_mount_parts(s@, mv->Mount_source, mv->Mount_destination);
                        assert(s@[0] == s@.subrange(0, 5)[0]);
                        assert(s@[0] == s@.subrange(0, 6)[0]);
                    }
                }
            }
            match parse_qstr(&s, 5) {
                Some((p, j)) => {
                    if j < n && s[j] == '\n' && j + 1 == n {
                        let m = MonitorCall::Shim(
                            ShimAction::DoShim(ShimRequest { profile: chars_to_string(&p) }),
                        );
                        proof {
                            assert(s@.subrange(j as int, j + 1 as int) =~= seq!['\n']);
                            assert(s@ =~= s@.subrange(0, 5) + s@.subrange(5, j as int)
                                + s@.subrange(j as int, j + 1 as int));
                            assert(line@ =~= enc_monitor_call(m@));
                        }
                        Ok(m)
                    } else {
                        proof {
                            assert forall|mv: MonitorCallV| line@ != enc_monitor_call(mv) by {
                                if line@ == enc_monitor_call(mv) {
                                    lemma_shim_parts(s@, mv->Shim_profile);
                                    assert(qstr_at(s@, 5, p@));
                                    lemma_qstr_at_unique(s@, 5, mv->Shim_profile, p@);
                                    assert(s@[j as int] == '\n');
                                    assert(s@.len() == j + 1);
                                }
                            }
                        }
                        Err(DecodeError::Malformed)
                    }
                },
                None => {
                    proof {
                        assert forall|mv: MonitorCallV| line@ != enc_monitor_call(mv) by {
                            if line@ == enc_monitor_call(mv) {
                                lemma_shim_parts(s@, mv->Shim_profile);
                                assert(qstr_at(s@, 5, mv->Shim_profile));
                            }
                        }
                    }
                    Err(DecodeError::Malformed)
                },
            }
        }
    }
}

/// What every registered subcommand offers the dispatcher.
pub trait KageCommand {
    fn get_name(&self) -> &String;

    fn get_usage(&self) -> String;

    fn get_portal_cmd(&self) -> Option<PortalCall>;

    fn init_client(&mut self, args: &Vec<String>) -> Result<KageAction, String>;
}

/// One entry of the command registry.
pub enum KageCmd {
    Info(InfoPlugin),
    Mount(MountPlugin),
    Run(RunPlugin),
    Shim(ShimPlugin),
}

impl KageCmd {
    /// The name under which the command is registered.
    pub open spec fn spec_name(&self) -> Seq<char> {
        match self {
            KageCmd::Info(p) => p.spec_name(),
            KageCmd::Mount(p) => p.spec_name(),
            KageCmd::Run(p) => p.spec_name(),
            KageCmd::Shim(p) => p.spec_name(),
        }
    }

    /// The subcommand's registry name.
    pub fn get_name(&self) -> (r: &String)
        ensures
            r@ == self.spec_name(),
    {
        match self {
            KageCmd::Info(p) => p.get_name(),
            KageCmd::Mount(p) => p.get_name(),
            KageCmd::Run(p) => p.get_name(),
            KageCmd::Shim(p) => p.get_name(),
        }
    }

    /// A readable summary of the subcommand's options.
    pub fn get_usage(&self) -> String {
        match self {
            KageCmd::Info(p) => p.get_usage(),
            KageCmd::Mount(p) => p.get_usage(),
            KageCmd::Run(p) => p.get_usage(),
            KageCmd::Shim(p) => p.get_usage(),
        }
    }

    /// The request the subcommand has prepared for the portal, if any:
    /// the informational call for `info`, the pending run request for
    /// `run`, and nothing for the monitor-side subcommands.
    pub fn get_portal_cmd(&self) -> (r: Option<PortalCall>)
        ensures
            match self {
                KageCmd::Info(_) => (r matches Some(c) && c == PortalCall::Info(
                    InfoAction::GetDot(DotRequest),
                )),
                KageCmd::Mount(_) => r is None,
                KageCmd::Shim(_) => r is None,
                KageCmd::Run(p) => match r {
                    Some(c) => p.spec_portal_cmd() matches Some(rc) && (
                    c matches PortalCall::Run(crc) && crc@ == rc@),
                    None => p.spec_portal_cmd() is None,
                },
            },
    {
        match self {
            KageCmd::Info(p) => p.get_portal_cmd(),
            KageCmd::Mount(p) => p.get_portal_cmd(),
            KageCmd::Run(p) => p.get_portal_cmd(),
            KageCmd::Shim(p) => p.get_portal_cmd(),
        }
    }

    /// Lets the subcommand read its arguments.  Only `run` carries state:
    /// success of its send action leaves a pending request, and failure
    /// leaves the pending request as it was; the other subcommands do not
    /// change under this call.
    pub fn init_client(&mut self, args: &Vec<String>) -> (r: Result<KageAction, String>)
        ensures
            *old(self) is Run ==> *final(self) is Run,
            (*old(self) is Run && (r matches Ok(a) && a is SendPortalCommand))
                ==> ((*final(self))->Run_0).spec_portal_cmd() is Some,
            (*old(self) is Run && ((r matches Ok(a) && a is PrintHelp) || r is Err)) ==> ((
            *final(self))->Run_0).spec_portal_cmd() == ((*old(self))->Run_0).spec_portal_cmd(),
            !(*old(self) is Run) ==> *final(self) == *old(self),
            (!(*old(self) is Run) && !(*old(self) is Info) && (r matches Ok(a))) ==> (
            r matches Ok(a) && a is PrintHelp),
    {
        match self {
            KageCmd::Info(p) => p.init_client(args),
            KageCmd::Mount(p) => p.init_client(args),
            KageCmd::Run(p) => p.init_client(args),
            KageCmd::Shim(p) => p.init_client(args),
        }
    }
}

/// Every subcommand the dispatcher knows, in registry order.
pub fn list_kage_cmds() -> (r: Vec<KageCmd>)
    ensures
        r@.len() == 4,
        r@[0].spec_name() == "info"@,
        r@[1].spec_name() == "mount"@,
        r@[2].spec_name() == "run"@,
        r@[3].spec_name() == "shim"@,
{
    let mut cmds: Vec<KageCmd> = Vec::new();
    cmds.push(KageCmd::Info(InfoPlugin::new()));
    cmds.push(KageCmd::Mount(MountPlugin::new()));
    cmds.push(KageCmd::Run(RunPlugin::new()));
    cmds.push(KageCmd::Shim(ShimPlugin::new()));
    cmds
}

/// Finds the subcommand registered under a name, if any: exactly the four
/// registered names are found, each under its own name.
pub fn get_kage_cmd(name: &String) -> (r: Option<KageCmd>)
    ensures
        match r {
            Some(c) => c.spec_name() == name@ && (name@ == "info"@ || name@ == "mount"@
                || name@ == "run"@ || name@ == "shim"@),
            None => name@ != "info"@ && name@ != "mount"@ && name@ != "run"@ && name@
                != "shim"@,
        },
{
    if str_eq(name.as_str(), "info") {
        return Some(KageCmd::Info(InfoPlugin::new()));
    }
    if str_eq(name.as_str(), "mount") {
        return Some(KageCmd::Mount(MountPlugin::new()));
    }
    if str_eq(name.as_str(), "run") {
        return Some(KageCmd::Run(RunPlugin::new()));
    }
    if str_eq(name.as_str(), "shim") {
        return Some(KageCmd::Shim(ShimPlugin::new()));
    }
    None
}

/// The names of every registered subcommand, in registry order.
pub fn list_kage_cmd_names() -> (r: Vec<String>)
    ensures
        r@.len() == 4,
        r@[0]@ == "info"@,
        r@[1]@ == "mount"@,
        r@[2]@ == "run"@,
        r@[3]@ == "shim"@,
{
    let cmds = list_kage_cmds();
    let mut names: Vec<String> = Vec::new();
    let mut i: usize = 0;
    while i < cmds.len()
        invariant
            i <= cmds@.len(),
            names@.len() == i,
            cmds@.len() == 4,
            cmds@[0].spec_name() == "info"@,
            cmds@[1].spec_name() == "mount"@,
            cmds@[2].spec_name() == "run"@,
            cmds@[3].spec_name() == "shim"@,
            forall|t: int| 0 <= t < i ==> names@[t]@ == cmds@[t].spec_name(),
        decreases cmds@.len() - i,
    {
        names.push(cmds[i].get_name().clone());
        i = i + 1;
    }
    names
}

} // verus!
