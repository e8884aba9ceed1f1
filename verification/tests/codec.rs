//! Wire-codec behaviour: exact encodings, round trips, and rejection of
//! malformed lines.
use stemjail::cmd::DecodeError;
use stemjail::cmd::DotRequest;
use stemjail::cmd::DotResponse;
use stemjail::cmd::InfoAction;
use stemjail::cmd::MonitorCall;
use stemjail::cmd::MountAction;
use stemjail::cmd::MountRequest;
use stemjail::cmd::PortalAck;
use stemjail::cmd::PortalCall;
use stemjail::cmd::PortalRequest;
use stemjail::cmd::RunCommand;
use stemjail::cmd::ShimAction;
use stemjail::cmd::ShimRequest;

fn run_call(profile: &str, command: &[&str], stdio: bool) -> PortalCall {
    PortalCall::Run(RunCommand {
        profile: profile.to_string(),
        command: command.iter().map(|s| s.to_string()).collect(),
        stdio,
    })
}

#[test]
fn encode_run_exact() {
    let call = run_call("webprofile", &["curl", "https://example.com"], false);
    assert_eq!(
        call.encode(),
        "run \"webprofile\" [\"curl\",\"https://example.com\"] false\n"
    );
}

#[test]
fn encode_run_empty_command() {
    let call = run_call("webprofile", &[], true);
    assert_eq!(call.encode(), "run \"webprofile\" [] true\n");
}

#[test]
fn encode_info_exact() {
    let call = PortalCall::Info(InfoAction::GetDot(DotRequest));
    assert_eq!(call.encode(), "info getdot\n");
}

#[test]
fn encode_escapes_specials() {
    let call = run_call("a\"b\\c\nd", &[], false);
    assert_eq!(call.encode(), "run \"a\\\"b\\\\c\\nd\" [] false\n");
}

#[test]
fn round_trip_portal_calls() {
    let calls = vec![
        run_call("webprofile", &[], false),
        run_call("p", &["echo", "hi there"], true),
        run_call("quote\"and\\slash", &["\n", "", "x y"], false),
        PortalCall::Info(InfoAction::GetDot(DotRequest)),
    ];
    for call in calls {
        let line = call.encode();
        assert_eq!(PortalCall::decode(&line), Ok(call));
    }
}

#[test]
fn decode_rejects_malformed() {
    let bad = vec![
        "",
        "\n",
        "run\n",
        "run \"p\"\n",
        "run \"p\" [] maybe\n",
        "run \"p\" [] false",
        "run \"p\" [] false\nextra",
        "run \"p [] false\n",
        "run \"p\" [\"a\",] false\n",
        "run \"p\" [\"a\" \"b\"] false\n",
        "info getdot",
        "info getdot\n\n",
        "walk \"p\" [] false\n",
        "run \"p\\q\" [] false\n",
    ];
    for line in bad {
        assert_eq!(PortalCall::decode(line), Err(DecodeError::Malformed));
    }
}

#[test]
fn decode_never_defaults_on_noise() {
    // A line of bytes that parses nowhere must fail, not fall back to any value.
    assert!(PortalCall::decode("ack nop\n").is_err());
    assert!(PortalCall::decode("dot \"x\"\n").is_err());
}

#[test]
fn round_trip_portal_ack() {
    for req in [PortalRequest::Nop, PortalRequest::CreateTty] {
        let ack = PortalAck { request: req };
        let line = ack.encode();
        assert_eq!(PortalAck::decode(&line), Ok(ack));
    }
    assert_eq!(
        PortalAck { request: PortalRequest::Nop }.encode(),
        "ack nop\n"
    );
    assert_eq!(
        PortalAck { request: PortalRequest::CreateTty }.encode(),
        "ack ctty\n"
    );
    assert!(PortalAck::decode("ack sure\n").is_err());
    assert!(PortalAck::decode("ack nop").is_err());
}

#[test]
fn round_trip_dot_response() {
    for dot in ["", "digraph {}", "line\nbreak\"quote\\slash"] {
        let resp = DotResponse { dot: dot.to_string() };
        let line = resp.encode();
        assert_eq!(DotResponse::decode(&line), Ok(resp));
    }
    assert_eq!(
        DotResponse { dot: "g".to_string() }.encode(),
        "dot \"g\"\n"
    );
    assert!(DotResponse::decode("dot g\n").is_err());
}

#[test]
fn round_trip_monitor_calls() {
    let calls = vec![
        MonitorCall::Mount(MountAction::DoMount(MountRequest {
            source: "/mnt/data".to_string(),
            destination: "/data".to_string(),
        })),
        MonitorCall::Shim(ShimAction::DoShim(ShimRequest {
            profile: "webprofile".to_string(),
        })),
    ];
    for call in calls {
        let line = call.encode();
        assert_eq!(MonitorCall::decode(&line), Ok(call));
    }
    assert!(MonitorCall::decode("mount \"/a\"\n").is_err());
    assert!(MonitorCall::decode("run \"p\" [] false\n").is_err());
}

#[test]
fn portal_and_monitor_protocols_stay_apart() {
    // The two tagged protocols never accept each other's lines.
    let portal_line = run_call("p", &[], false).encode();
    assert!(MonitorCall::decode(&portal_line).is_err());
    let monitor_line = MonitorCall::Shim(ShimAction::DoShim(ShimRequest {
        profile: "p".to_string(),
    }))
    .encode();
    assert!(PortalCall::decode(&monitor_line).is_err());
}
