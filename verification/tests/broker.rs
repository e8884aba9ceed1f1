//! Manager and handler behaviour: domain resolution, races, sessions, and
//! the command registry.
use stemjail::cmd::DotResponse;
use stemjail::cmd::DotRequest;
use stemjail::cmd::PortalAck;
use stemjail::cmd::PortalRequest;
use stemjail::config::JailDom;
use stemjail::config::Portal;
use stemjail::config::Profile;
use stemjail::fsm_kage::KageFsm;
use stemjail::manager::ManagerAction;
use stemjail::manager::NewDomRequest;
use stemjail::manager::manager_listen;
use stemjail::portal::HandlerError;
use stemjail::portal::handle_request;
use stemjail::run::KageAction;
use stemjail::run::RunPlugin;
use stemjail::run::build_run_command;
use stemjail::util::check_parent_path;
use stemjail::cmd::get_kage_cmd;
use stemjail::cmd::list_kage_cmd_names;

fn test_portal() -> Portal {
    Portal {
        profiles: vec![
            Profile {
                name: "webprofile".to_string(),
                cmd: vec!["browser".to_string(), "--safe".to_string()],
            },
            Profile {
                name: "ghost".to_string(),
                cmd: vec!["true".to_string()],
            },
        ],
        domains: vec![JailDom { name: "webprofile".to_string(), id: 7 }],
    }
}

#[test]
fn known_profile_resolves() {
    let portal = test_portal();
    let req = NewDomRequest { name: "webprofile".to_string() };
    let resp = req.call(&portal);
    let pd = resp.profile.expect("domain should resolve");
    assert_eq!(pd.name, "webprofile");
    assert_eq!(pd.cmd, vec!["browser".to_string(), "--safe".to_string()]);
    assert_eq!(pd.jdom, 7);
}

#[test]
fn unknown_profile_is_absent() {
    let portal = test_portal();
    let req = NewDomRequest { name: "nosuch".to_string() };
    assert!(req.call(&portal).profile.is_none());
}

#[test]
fn profile_without_jail_is_absent() {
    let portal = test_portal();
    let req = NewDomRequest { name: "ghost".to_string() };
    assert!(req.call(&portal).profile.is_none());
}

#[test]
fn hundred_clients_one_domain() {
    // A hundred requests for the same profile: every reply references the
    // single existing jail handle, and the table is untouched.
    let portal = test_portal();
    let queue: Vec<ManagerAction> = (0..100)
        .map(|_| ManagerAction::NewDom(NewDomRequest { name: "webprofile".to_string() }))
        .collect();
    let replies = manager_listen(&portal, queue);
    assert_eq!(replies.len(), 100);
    for reply in &replies {
        assert_eq!(reply.profile.as_ref().expect("resolved").jdom, 7);
    }
    assert_eq!(portal.domains.len(), 1);
}

#[test]
fn manager_survives_mixed_queue() {
    let portal = test_portal();
    let queue = vec![
        ManagerAction::NewDom(NewDomRequest { name: "nosuch".to_string() }),
        ManagerAction::NewDom(NewDomRequest { name: "webprofile".to_string() }),
        ManagerAction::NewDom(NewDomRequest { name: "ghost".to_string() }),
    ];
    let replies = manager_listen(&portal, queue);
    assert_eq!(replies.len(), 3);
    assert!(replies[0].profile.is_none());
    assert!(replies[1].profile.is_some());
    assert!(replies[2].profile.is_none());
}

#[test]
fn info_session_sees_one_response() {
    // A client sends Info(GetDot(..)); the broker replies with the matching
    // DotResponse; the session types allow nothing further.
    let portal = test_portal();
    let session = KageFsm::new();
    let (session, request_line) = session.send_dot_request(DotRequest);
    assert_eq!(request_line, "info getdot\n");
    let reply_line = handle_request(&portal, &request_line).expect("info is answered");
    let resp = session.recv_dot_response(&reply_line).expect("matching response");
    assert_eq!(resp, DotResponse { dot: "digraph session { Init -> RecvDot; }".to_string() });
}

#[test]
fn run_without_jail_is_clean_refusal() {
    // Run for a profile with no matching jail domain: the handler answers
    // with a clean absent-domain outcome, not a dropped connection.
    let portal = test_portal();
    let line = "run \"ghost\" [] false\n";
    assert_eq!(handle_request(&portal, line), Err(HandlerError::NoDomain));
}

#[test]
fn run_with_jail_is_acknowledged() {
    let portal = test_portal();
    let plain = handle_request(&portal, "run \"webprofile\" [] false\n").unwrap();
    assert_eq!(PortalAck::decode(&plain).unwrap().request, PortalRequest::Nop);
    let tty = handle_request(&portal, "run \"webprofile\" [] true\n").unwrap();
    assert_eq!(PortalAck::decode(&tty).unwrap().request, PortalRequest::CreateTty);
}

#[test]
fn handler_rejects_garbage() {
    let portal = test_portal();
    assert_eq!(handle_request(&portal, "gibberish\n"), Err(HandlerError::Protocol));
}

#[test]
fn build_run_command_splits_arguments() {
    let free = vec!["webprofile".to_string(), "ls".to_string(), "-l".to_string()];
    let (action, cmd) = build_run_command(false, true, &free).unwrap();
    assert_eq!(action, KageAction::SendPortalCommand);
    let cmd = cmd.unwrap();
    assert_eq!(cmd.profile, "webprofile");
    assert_eq!(cmd.command, vec!["ls".to_string(), "-l".to_string()]);
    assert!(cmd.stdio);
}

#[test]
fn build_run_command_needs_profile() {
    let free: Vec<String> = vec![];
    assert_eq!(
        build_run_command(false, false, &free),
        Err("Need a profile name".to_string())
    );
}

#[test]
fn build_run_command_help_wins() {
    let free = vec!["ignored".to_string()];
    let (action, cmd) = build_run_command(true, false, &free).unwrap();
    assert_eq!(action, KageAction::PrintHelp);
    assert!(cmd.is_none());
}

#[test]
fn run_plugin_parses_real_arguments() {
    let mut plugin = RunPlugin::new();
    let args = vec!["-t".to_string(), "webprofile".to_string(), "sh".to_string()];
    assert_eq!(plugin.init_client(&args), Ok(KageAction::SendPortalCommand));
    let call = plugin.get_portal_cmd().expect("request prepared");
    assert_eq!(call.encode(), "run \"webprofile\" [\"sh\"] true\n");
}

#[test]
fn run_plugin_help_flag() {
    let mut plugin = RunPlugin::new();
    let args = vec!["--help".to_string()];
    assert_eq!(plugin.init_client(&args), Ok(KageAction::PrintHelp));
    assert!(plugin.get_usage().contains("run"));
}

#[test]
fn run_plugin_rejects_unknown_flag() {
    let mut plugin = RunPlugin::new();
    let args = vec!["--bogus".to_string()];
    assert!(plugin.init_client(&args).is_err());
    // Failure leaves no pending request behind.
    assert!(plugin.get_portal_cmd().is_none());
}

#[test]
fn run_plugin_needs_profile() {
    let mut plugin = RunPlugin::new();
    let args: Vec<String> = vec![];
    assert_eq!(
        plugin.init_client(&args),
        Err("Need a profile name".to_string())
    );
    assert!(plugin.get_portal_cmd().is_none());
}

#[test]
fn registry_lists_all_commands() {
    assert_eq!(
        list_kage_cmd_names(),
        vec![
            "info".to_string(),
            "mount".to_string(),
            "run".to_string(),
            "shim".to_string()
        ]
    );
}

#[test]
fn registry_finds_by_name() {
    let cmd = get_kage_cmd(&"run".to_string()).expect("registered");
    assert_eq!(cmd.get_name().as_str(), "run");
    assert!(get_kage_cmd(&"teleport".to_string()).is_none());
}

#[test]
fn parent_path_rules() {
    assert!(check_parent_path("/home/user").is_ok());
    assert!(check_parent_path("/procfs").is_ok());
    assert_eq!(
        check_parent_path("relative/path"),
        Err("The path is not absolute".to_string())
    );
    assert_eq!(
        check_parent_path(""),
        Err("The path is not absolute".to_string())
    );
    assert_eq!(
        check_parent_path("/proc"),
        Err("Access denied to /proc".to_string())
    );
    assert_eq!(
        check_parent_path("/proc/self/mem"),
        Err("Access denied to /proc".to_string())
    );
}
